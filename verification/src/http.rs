//! The HTTPS calls the app makes: what is asked, and what is made of the
//! reply. Sending is the caller's part.

use crate::numbers;
use crate::text;
use vstd::prelude::*;
use vstd::string::*;
use vstd::utf8::*;

verus! {

/// Longest response body that is kept in memory, in bytes.
pub const MAX_BODY_BYTES: usize = 262_144;

/// Longest streamed download, in bytes.
pub const MAX_DOWNLOAD_BYTES: u64 = 268_435_456;

/// Largest piece of a download that is read at once, in bytes.
pub const DOWNLOAD_CHUNK_BYTES: usize = 65_536;

/// The host and the path of an address.
#[derive(Debug, Clone, PartialEq, Eq)]
pub struct Url {
    pub host: String,
    pub path: String,
}

/// What stands after `https://`.
pub open spec fn after_scheme(url: Seq<char>) -> Seq<char> {
    url.skip("https://"@.len() as int)
}

/// The host of an address: up to the first slash.
pub open spec fn host_of(url: Seq<char>) -> Seq<char> {
    let rest = after_scheme(url);
    rest.take(numbers::first_of(rest, '/'))
}

/// The path of an address: from the first slash on, or the root.
pub open spec fn path_of(url: Seq<char>) -> Seq<char> {
    let rest = after_scheme(url);
    let slash = numbers::first_of(rest, '/');
    if slash < rest.len() {
        rest.skip(slash)
    } else {
        "/"@
    }
}

/// What is wrong with an address, if anything.
pub open spec fn url_fault(url: Seq<char>) -> Option<Seq<char>> {
    if !text::begins_with(url, "https://"@) {
        Some("only https:// URLs are supported"@)
    } else if host_of(url).len() == 0 {
        Some("URL has empty host"@)
    } else if numbers::first_of(host_of(url), ':') < host_of(url).len() {
        Some("URL must not include a port (only default 443 is supported)"@)
    } else {
        None
    }
}

/// Reads `https://host/path`. A port is refused: the calls all go to the
/// default one.
pub fn parse_https(url: &str) -> (parsed: Result<Url, String>)
    ensures
        match parsed {
            Ok(parsed) => url_fault(url@) is None && parsed.host@ == host_of(url@)
                && parsed.path@ == path_of(url@),
            Err(error) => url_fault(url@) == Some(error@),
        },
{
    let chars = text::chars_of(url);
    if !text::starts_with(&chars, "https://") {
        return Err("only https:// URLs are supported".to_owned());
    }
    let scheme = text::chars_of("https://");
    let rest = text::slice_of(&chars, scheme.len(), chars.len());
    assert(rest@ =~= after_scheme(url@));
    let slash = numbers::position(&rest, '/');
    let host = text::slice_of(&rest, 0, slash);
    assert(host@ =~= host_of(url@));
    if host.len() == 0 {
        return Err("URL has empty host".to_owned());
    }
    if numbers::position(&host, ':') < host.len() {
        return Err("URL must not include a port (only default 443 is supported)".to_owned());
    }
    let path = if slash < rest.len() {
        let tail = text::slice_of(&rest, slash, rest.len());
        assert(tail@ =~= rest@.skip(slash as int));
        text::string_of(tail.as_slice())
    } else {
        "/".to_owned()
    };
    Ok(Url { host: text::string_of(host.as_slice()), path })
}

/// A request to be sent.
#[derive(Debug, Clone, PartialEq, Eq)]
pub struct Outgoing {
    pub url: Url,
    pub method: String,
    /// Header lines, each ended as HTTP ends them.
    pub headers: String,
    pub body: String,
}

/// Whether `asked` is the request for `url`.
pub open spec fn asks(
    asked: Outgoing,
    url: Seq<char>,
    method: Seq<char>,
    headers: Seq<char>,
    body: Seq<char>,
) -> bool {
    &&& asked.url.host@ == host_of(url)
    &&& asked.url.path@ == path_of(url)
    &&& asked.method@ == method
    &&& asked.headers@ == headers
    &&& asked.body@ == body
}

/// The request for a text.
pub fn get_text(url: &str) -> (asked: Result<Outgoing, String>)
    ensures
        match asked {
            Ok(asked) => url_fault(url@) is None && asks(asked, url@, "GET"@, ""@, ""@),
            Err(error) => url_fault(url@) == Some(error@),
        },
{
    match parse_https(url) {
        Ok(parsed) => Ok(
            Outgoing {
                url: parsed,
                method: "GET".to_owned(),
                headers: "".to_owned(),
                body: "".to_owned(),
            },
        ),
        Err(error) => Err(error),
    }
}

/// The request that posts JSON.
pub fn post_json(url: &str, body: &str) -> (asked: Result<Outgoing, String>)
    ensures
        match asked {
            Ok(asked) => url_fault(url@) is None && asks(
                asked,
                url@,
                "POST"@,
                "Content-Type: application/json\r\n"@,
                body@,
            ),
            Err(error) => url_fault(url@) == Some(error@),
        },
{
    match parse_https(url) {
        Ok(parsed) => Ok(
            Outgoing {
                url: parsed,
                method: "POST".to_owned(),
                headers: "Content-Type: application/json\r\n".to_owned(),
                body: body.to_owned(),
            },
        ),
        Err(error) => Err(error),
    }
}

/// Whether a status says that the call succeeded.
pub open spec fn succeeded(status: u32) -> bool {
    200 <= status < 300
}

/// The text of a reply, or what a failed call is reported as.
pub fn text_of_reply(status: u32, body: String) -> (text: Result<String, String>)
    ensures
        match text {
            Ok(text) => succeeded(status) && text@ == body@,
            Err(error) => !succeeded(status) && error@ == "HTTP "@ + text::decimal(status as nat)
                + ": "@ + body@,
        },
{
    if 200 <= status && status < 300 {
        Ok(body)
    } else {
        let mut error = "HTTP ".to_owned();
        error.append(text::decimal_text(status as u64).as_str());
        error.append(": ");
        error.append(body.as_str());
        Err(error)
    }
}

/// What the bytes of a body read as, whatever they are.
pub uninterp spec fn read_lossily(bytes: Seq<u8>) -> Seq<char>;

/// `String::from_utf8_lossy`: the text is a function of the bytes alone, and
/// bytes that are UTF-8 are read as what they encode. What stands in for bytes
/// that are not is left to the standard library.
#[verifier::external_body]
fn lossy_text(bytes: &[u8]) -> (text: String)
    ensures
        text@ == read_lossily(bytes@),
        valid_utf8(bytes@) ==> text@ == decode_utf8(bytes@),
{
    String::from_utf8_lossy(bytes).into_owned()
}

/// A response body that is coming in.
#[derive(Debug, PartialEq, Eq)]
pub struct Body {
    bytes: Vec<u8>,
}

impl View for Body {
    type V = Seq<u8>;

    closed spec fn view(&self) -> Seq<u8> {
        self.bytes@
    }
}

/// So many of `available` bytes as there is room for.
pub open spec fn as_room_allows(available: int, room: int) -> int {
    if available < room {
        available
    } else {
        room
    }
}

impl Body {
    #[verifier::type_invariant]
    spec fn is_within_its_cap(self) -> bool {
        self.bytes@.len() <= MAX_BODY_BYTES
    }

    /// A body of which nothing came in yet.
    pub fn new() -> (body: Self)
        ensures
            body@ == Seq::<u8>::empty(),
    {
        Body { bytes: Vec::new() }
    }

    /// How many bytes to read next, where `available` are there. A body that
    /// nothing is left of, or that is full, is complete as it is.
    pub fn wanted(&self, available: u32) -> (wanted: Option<usize>)
        ensures
            self@.len() <= MAX_BODY_BYTES,
            match wanted {
                Some(wanted) => available > 0 && self@.len() < MAX_BODY_BYTES && wanted
                    == as_room_allows(available as int, MAX_BODY_BYTES - self@.len()),
                None => available == 0 || self@.len() == MAX_BODY_BYTES,
            },
    {
        proof {
            use_type_invariant(self);
        }
        let room: usize = MAX_BODY_BYTES - self.bytes.len();
        if available == 0 || room == 0 {
            None
        } else if (available as usize) < room {
            Some(available as usize)
        } else {
            Some(room)
        }
    }

    /// Takes in the piece that `read` bytes were read into, and says whether
    /// there may be more to come.
    pub fn take_in(&mut self, piece: &[u8], read: u32) -> (more: bool)
        requires
            old(self)@.len() + piece@.len() <= MAX_BODY_BYTES,
        ensures
            final(self)@ == old(self)@ + piece@.take(
                as_room_allows(read as int, piece@.len() as int),
            ),
            more == (read > 0),
    {
        let came: usize = if (read as usize) < piece.len() {
            read as usize
        } else {
            piece.len()
        };
        let mut bytes: Vec<u8> = Vec::new();
        std::mem::swap(&mut bytes, &mut self.bytes);
        let ghost before = bytes@;
        for i in 0..came
            invariant
                came <= piece@.len(),
                bytes@ == before + piece@.take(i as int),
        {
            bytes.push(piece[i]);
            assert(bytes@ =~= before + piece@.take(i + 1));
        }
        self.bytes = bytes;
        read > 0
    }

    /// What the body reads as.
    pub fn text(&self) -> (text: String)
        ensures
            text@ == read_lossily(self@),
            valid_utf8(self@) ==> text@ == decode_utf8(self@),
    {
        lossy_text(self.bytes.as_slice())
    }
}

/// The length that a `Content-Length` header names.
pub fn content_length(header: &str) -> (length: Option<u64>)
    ensures
        match length {
            Some(length) => numbers::whole(text::trimmed(header@), u64::MAX as nat) == Some(
                length as nat,
            ),
            None => numbers::whole(text::trimmed(header@), u64::MAX as nat) is None,
        },
{
    let chars = text::chars_of(header);
    numbers::parse_whole(&text::trim(&chars), u64::MAX)
}

/// A streamed download under way.
#[derive(Debug, Clone, Copy, PartialEq, Eq, Structural)]
pub struct Download {
    /// Bytes written so far.
    pub total: u64,
    /// Bytes that may be written at most.
    pub cap: u64,
    /// The length that the server announced.
    pub content_length: Option<u64>,
}

impl Download {
    /// No more was written than may be, and the cap is what the announcement
    /// and the limit allow.
    pub open spec fn bounded(self) -> bool {
        &&& self.total <= self.cap
        &&& self.cap <= MAX_DOWNLOAD_BYTES
        &&& self.content_length matches Some(length) ==> self.cap == length
        &&& self.content_length is None ==> self.cap == MAX_DOWNLOAD_BYTES
    }
}

/// The request for a download.
pub fn download_to(url: &str) -> (asked: Result<Outgoing, String>)
    ensures
        match asked {
            Ok(asked) => url_fault(url@) is None && asks(asked, url@, "GET"@, ""@, ""@),
            Err(error) => url_fault(url@) == Some(error@),
        },
{
    get_text(url)
}

/// Opens the download of a reply. A status that says no success is refused, and
/// so is a reply that announces more than the limit.
pub fn open_download(url: &str, status: u32, content_length: Option<u64>) -> (opened: Result<
    Download,
    String,
>)
    ensures
        match opened {
            Ok(download) => {
                &&& succeeded(status)
                &&& download.bounded()
                &&& download.total == 0
                &&& download.content_length == content_length
            },
            Err(error) => if !succeeded(status) {
                error@ == "HTTP "@ + text::decimal(status as nat) + " for "@ + url@
            } else {
                content_length matches Some(length) && length > MAX_DOWNLOAD_BYTES && error@
                    == "refusing download: Content-Length "@ + text::decimal(length as nat) + " > "@
                    + text::decimal(MAX_DOWNLOAD_BYTES as nat) + " cap"@
            },
        },
{
    if !(200 <= status && status < 300) {
        let mut error = "HTTP ".to_owned();
        error.append(text::decimal_text(status as u64).as_str());
        error.append(" for ");
        error.append(url);
        return Err(error);
    }
    let cap = match content_length {
        Some(length) => {
            if length > MAX_DOWNLOAD_BYTES {
                let mut error = "refusing download: Content-Length ".to_owned();
                error.append(text::decimal_text(length).as_str());
                error.append(" > ");
                error.append(text::decimal_text(MAX_DOWNLOAD_BYTES).as_str());
                error.append(" cap");
                return Err(error);
            }
            length
        },
        None => MAX_DOWNLOAD_BYTES,
    };
    Ok(Download { total: 0, cap, content_length })
}

/// What came of the last step of a download.
#[derive(Debug, Clone, Copy, PartialEq, Eq, Structural)]
pub enum Heard {
    /// So many bytes are there to be read.
    Available(u32),
    /// So many were read.
    Read(u32),
}

/// What a download does next.
#[derive(Debug, Clone, PartialEq, Eq)]
pub enum Step {
    /// Read so many bytes, at most.
    Read(usize),
    /// Write the bytes just read, report how much was written so far, then see
    /// what is there.
    Write,
    /// So many bytes were written, and none are left.
    Done(u64),
    /// Give up: the bytes just read must not be written.
    Abort(String),
}

impl Download {
    /// The state that a step's outcome leads to: bytes that fit under the cap
    /// count as written.
    pub open spec fn after(self, heard: Heard) -> Download {
        match heard {
            Heard::Read(read) if self.total + read <= self.cap => Download {
                total: (self.total + read) as u64,
                ..self
            },
            _ => self,
        }
    }

    /// The state after all of `heard`.
    pub open spec fn after_all(self, heard: Seq<Heard>) -> Download
        decreases heard.len(),
    {
        if heard.len() == 0 {
            self
        } else {
            self.after_all(heard.drop_last()).after(heard.last())
        }
    }

    /// Takes in what came of the last step, and says what to do next. Past the
    /// cap the download is given up.
    pub fn next(&mut self, heard: Heard) -> (step: Step)
        requires
            old(self).bounded(),
        ensures
            final(self).bounded(),
            *final(self) == old(self).after(heard),
            match heard {
                Heard::Available(0) => step == Step::Done(old(self).total),
                Heard::Available(available) => step matches Step::Read(wanted) && wanted
                    == as_room_allows(available as int, DOWNLOAD_CHUNK_BYTES as int),
                Heard::Read(0) => step == Step::Done(old(self).total),
                Heard::Read(read) => if old(self).total + read <= old(self).cap {
                    step == Step::Write
                } else {
                    step matches Step::Abort(error) && error@ == "download exceeded "@
                        + text::decimal(old(self).cap as nat)
                        + " bytes — aborting (server sent more than declared / capped)"@
                },
            },
    {
        match heard {
            Heard::Available(available) => {
                if available == 0 {
                    Step::Done(self.total)
                } else if (available as usize) < DOWNLOAD_CHUNK_BYTES {
                    Step::Read(available as usize)
                } else {
                    Step::Read(DOWNLOAD_CHUNK_BYTES)
                }
            },
            Heard::Read(read) => {
                if read == 0 {
                    Step::Done(self.total)
                } else if self.total.saturating_add(read as u64) > self.cap {
                    let mut error = "download exceeded ".to_owned();
                    error.append(text::decimal_text(self.cap).as_str());
                    error.append(" bytes — aborting (server sent more than declared / capped)");
                    Step::Abort(error)
                } else {
                    self.total = self.total + read as u64;
                    Step::Write
                }
            },
        }
    }
}

/// The bytes that are written while all of `heard` comes in.
pub open spec fn written(download: Download, heard: Seq<Heard>) -> int
    decreases heard.len(),
{
    if heard.len() == 0 {
        0
    } else {
        let before = download.after_all(heard.drop_last());
        written(download, heard.drop_last()) + match heard.last() {
            Heard::Read(read) if before.total + read <= before.cap => read as int,
            _ => 0,
        }
    }
}

/// Whatever comes in, no download writes more than the limit, nor more than the
/// server announced, and its count is what was written.
pub proof fn no_download_outgrows_its_cap(download: Download, heard: Seq<Heard>)
    requires
        download.bounded(),
        download.total == 0,
    ensures
        download.after_all(heard).bounded(),
        download.after_all(heard).content_length == download.content_length,
        download.after_all(heard).total == written(download, heard),
        written(download, heard) <= MAX_DOWNLOAD_BYTES,
        download.content_length matches Some(length) ==> written(download, heard) <= length,
    decreases heard.len(),
{
    if heard.len() > 0 {
        no_download_outgrows_its_cap(download, heard.drop_last());
        a_step_keeps_the_bounds(download.after_all(heard.drop_last()), heard.last());
    }
}

/// No step breaks the bounds of a download, nor changes them.
proof fn a_step_keeps_the_bounds(download: Download, heard: Heard)
    requires
        download.bounded(),
    ensures
        download.after(heard).bounded(),
        download.after(heard).cap == download.cap,
        download.after(heard).content_length == download.content_length,
{
}

/// An address of `https://`, a host and a path is read as that host and that path;
/// without a path, as the root.
pub proof fn an_address_reads_back(host: Seq<char>, path: Seq<char>)
    requires
        host.len() > 0,
        forall|i: int| 0 <= i < host.len() ==> #[trigger] host[i] != '/' && host[i] != ':',
        path.len() > 0 ==> path[0] == '/',
    ensures
        ({
            let url = "https://"@ + host + path;
            &&& url_fault(url) is None
            &&& host_of(url) == host
            &&& path.len() > 0 ==> path_of(url) == path
            &&& path.len() == 0 ==> path_of(url) == "/"@
        }),
{
    let url = "https://"@ + host + path;
    let rest = host + path;
    assert(url.take("https://"@.len() as int) =~= "https://"@);
    assert(after_scheme(url) =~= rest);
    assert forall|i: int| 0 <= i < host.len() implies #[trigger] rest[i] != '/' by {
        assert(rest[i] == host[i]);
    }
    numbers::first_of_is_first(rest, '/', host.len() as int);
    assert(rest.take(host.len() as int) =~= host);
    numbers::first_of_is_first(host, ':', host.len() as int);
    if path.len() > 0 {
        assert(rest.skip(host.len() as int) =~= path);
    }
}

/// An address without a fault is `https://`, its host and its path put together,
/// or only its host where its path is the root; and its host is some text without
/// a slash or a colon.
pub proof fn an_address_without_a_fault_is_its_parts(url: Seq<char>)
    requires
        url_fault(url) is None,
    ensures
        url == "https://"@ + host_of(url) + path_of(url) || url == "https://"@ + host_of(url)
            && path_of(url) == "/"@,
        host_of(url).len() > 0,
        forall|i: int|
            0 <= i < host_of(url).len() ==> #[trigger] host_of(url)[i] != '/' && host_of(url)[i]
                != ':',
        path_of(url).len() > 0 && path_of(url)[0] == '/',
{
    reveal_strlit("/");
    let n = "https://"@.len() as int;
    let rest = after_scheme(url);
    assert(url =~= url.take(n) + rest);
    numbers::first_of_stands_first(rest, '/');
    numbers::first_of_stands_first(host_of(url), ':');
    let slash = numbers::first_of(rest, '/');
    assert(rest =~= rest.take(slash) + rest.skip(slash));
    if slash < rest.len() {
        assert(url =~= "https://"@ + host_of(url) + path_of(url));
        assert(path_of(url)[0] == rest[slash]);
    } else {
        assert(rest.skip(slash).len() == 0);
        assert(url =~= "https://"@ + host_of(url));
    }
    assert forall|i: int| 0 <= i < host_of(url).len() implies #[trigger] host_of(url)[i] != '/'
        && host_of(url)[i] != ':' by {
        assert(host_of(url)[i] == rest[i]);
    }
}

/// A call succeeded where its status is in the two hundreds.
pub proof fn a_call_succeeds_in_the_two_hundreds(status: u32)
    ensures
        succeeded(status) <==> status / 100 == 2,
{
}

/// What is read is never more than is there nor more than there is room for, and
/// as much as both allow.
pub proof fn as_much_is_read_as_there_is_room_for(available: int, room: int)
    ensures
        as_room_allows(available, room) <= available,
        as_room_allows(available, room) <= room,
        as_room_allows(available, room) == available || as_room_allows(available, room) == room,
{
}

/// The bytes that were read, all told.
pub open spec fn all_read(heard: Seq<Heard>) -> int
    decreases heard.len(),
{
    if heard.len() == 0 {
        0
    } else {
        all_read(heard.drop_last()) + match heard.last() {
            Heard::Read(read) => read as int,
            Heard::Available(_) => 0,
        }
    }
}

/// As long as what was read fits under the cap, all of it is written and counted;
/// and a read that does not fit counts for nothing.
pub proof fn whatever_fits_is_written(download: Download, heard: Seq<Heard>, more: u32)
    requires
        download.total == 0,
        all_read(heard) <= download.cap,
    ensures
        all_read(heard) >= 0,
        download.after_all(heard).total == all_read(heard),
        written(download, heard) == all_read(heard),
        all_read(heard) + more > download.cap ==> download.after_all(
            heard.push(Heard::Read(more)),
        ).total == all_read(heard),
        all_read(heard) + more <= download.cap ==> download.after_all(
            heard.push(Heard::Read(more)),
        ).total == all_read(heard) + more,
    decreases heard.len(),
{
    if heard.len() > 0 {
        whatever_fits_is_written(download, heard.drop_last(), 0);
    }
    a_cap_stays(download, heard);
    assert(heard.push(Heard::Read(more)).drop_last() =~= heard);
}

proof fn a_cap_stays(download: Download, heard: Seq<Heard>)
    ensures
        download.after_all(heard).cap == download.cap,
    decreases heard.len(),
{
    if heard.len() > 0 {
        a_cap_stays(download, heard.drop_last());
    }
}

/// A request that goes out is for the address that was given, and carries the
/// method, the headers and the body it was given: put together again, its host and
/// its path are that address, but for a slash where no path was written.
pub proof fn a_request_is_for_its_address(
    asked: Outgoing,
    url: Seq<char>,
    method: Seq<char>,
    headers: Seq<char>,
    body: Seq<char>,
)
    requires
        url_fault(url) is None,
        asks(asked, url, method, headers, body),
    ensures
        url == "https://"@ + asked.url.host@ + asked.url.path@ || (url == "https://"@
            + asked.url.host@ && asked.url.path@ == "/"@),
        asked.method@ == method && asked.headers@ == headers && asked.body@ == body,
{
    an_address_without_a_fault_is_its_parts(url);
}

/// A download takes in exactly as much as was announced, and 256 megabytes where
/// nothing was; more than that is never announced.
pub proof fn a_download_takes_in_what_was_announced(download: Download)
    requires
        download.bounded(),
    ensures
        download.total <= download.cap <= 268_435_456,
        download.content_length is Some ==> download.content_length == Some(download.cap),
        download.content_length is None ==> download.cap == 268_435_456,
{
}

} // verus!
