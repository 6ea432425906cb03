//! The setup tab's picture of the game: what was detected in it, the
//! rectangles drawn on it, and the templates cut out of it.

use super::state::{text_view, BotStatus};
use crate::layout::{
    buy_column_overlay_rect, RectRatio, BUY_COLUMN_W, BUY_COLUMN_X, BUY_CONFIRM, REFRESH,
    REFRESH_CONFIRM, SHOP_GRID,
};
use crate::text::{self, same_text};
use vstd::prelude::*;
use vstd::string::*;

verus! {

/// A number of single precision, carried by its bits.
#[derive(Debug, Clone, Copy, PartialEq, Eq, Structural)]
pub struct Single {
    pub bits: u32,
}

impl Single {
    pub fn from_bits(bits: u32) -> (single: Self)
        ensures
            single.bits == bits,
    {
        Single { bits }
    }

    pub fn to_bits(self) -> (bits: u32)
        ensures
            bits == self.bits,
    {
        self.bits
    }
}

/// Where a template was found, by its centre, and how well it fits.
#[derive(Debug, Clone, Copy, PartialEq, Eq, Structural)]
pub struct Hit {
    pub x: i32,
    pub y: i32,
    pub score: Single,
    pub scale: Single,
    pub margin: Single,
}

/// What a look at a hit's colours found.
#[derive(Debug, Clone, Copy, PartialEq, Eq, Structural)]
pub struct ColourReport {
    pub passed: bool,
    pub distance: Single,
    pub coloured_fraction: Single,
}

/// The hit to act on and the rejection to show: a hit whose colours are wrong
/// is dropped and its report shown; any other hit stands and nothing is shown.
pub open spec fn verdict_on(hit: Option<Hit>, report: Option<ColourReport>) -> (
    Option<Hit>,
    Option<ColourReport>,
) {
    if hit is Some && report is Some && !report->0.passed {
        (None, report)
    } else {
        (hit, None)
    }
}

/// The hit to act on and the rejection to show.
pub fn resolve_colour_verdict(hit: Option<Hit>, report: Option<ColourReport>) -> (verdict: (
    Option<Hit>,
    Option<ColourReport>,
))
    ensures
        verdict == verdict_on(hit, report),
{
    match (hit, report) {
        (Some(hit), Some(report)) => {
            if !report.passed {
                (None, Some(report))
            } else {
                (Some(hit), None)
            }
        },
        (hit, _) => (hit, None),
    }
}

/// A template looked for in the picture.
#[derive(Debug, Clone)]
pub struct DebugMatch {
    pub alias: String,
    pub hit: Option<Hit>,
    pub tpl_size: Option<(u32, u32)>,
    /// It was found, but its colours were wrong.
    pub colour_reject: Option<ColourReport>,
}

/// A template looked for in the picture, before its colours are weighed.
#[derive(Debug, Clone)]
pub struct Seen {
    pub alias: String,
    pub hit: Option<Hit>,
    /// What a look at the hit's colours found, where there was a look.
    pub report: Option<ColourReport>,
    pub tpl_size: Option<(u32, u32)>,
}

/// Whether `found` is what remains of `seen` once its colours are weighed.
pub open spec fn is_weighed(found: DebugMatch, seen: Seen) -> bool {
    &&& found.alias@ == seen.alias@
    &&& found.tpl_size == seen.tpl_size
    &&& (found.hit, found.colour_reject) == verdict_on(seen.hit, seen.report)
}

/// Weighs the colours of every template that was looked for, in order.
pub fn run_setup_preview(seen: Vec<Seen>) -> (matches: Vec<DebugMatch>)
    ensures
        matches@.len() == seen@.len(),
        forall|i: int| 0 <= i < seen@.len() ==> is_weighed(#[trigger] matches@[i], seen@[i]),
{
    let mut matches: Vec<DebugMatch> = Vec::new();
    let ghost all = seen@;
    for one in it: seen
        invariant
            it.seq() == all,
            matches@.len() == it.index(),
            forall|i: int| 0 <= i < it.index() ==> is_weighed(#[trigger] matches@[i], all[i]),
    {
        let (hit, colour_reject) = resolve_colour_verdict(one.hit, one.report);
        matches.push(
            DebugMatch { alias: one.alias, hit, tpl_size: one.tpl_size, colour_reject },
        );
    }
    matches
}

/// How a template is listed.
#[derive(Debug, Clone, Copy, PartialEq, Eq, Structural)]
pub enum MatchRow {
    Matched,
    Rejected,
    /// Not on screen: not listed.
    Silent,
}

/// How a template is listed.
pub open spec fn row_of(found: DebugMatch) -> MatchRow {
    if found.hit is Some {
        MatchRow::Matched
    } else if found.colour_reject is Some {
        MatchRow::Rejected
    } else {
        MatchRow::Silent
    }
}

/// How a template is listed.
pub fn match_row(found: &DebugMatch) -> (row: MatchRow)
    ensures
        row == row_of(*found),
{
    if found.hit.is_some() {
        MatchRow::Matched
    } else if found.colour_reject.is_some() {
        MatchRow::Rejected
    } else {
        MatchRow::Silent
    }
}

/// Whether the list says that nothing was detected: templates were looked for,
/// and none is listed.
pub fn nothing_detected(matches: &Vec<DebugMatch>) -> (nothing: bool)
    ensures
        nothing == (matches@.len() > 0 && forall|i: int|
            0 <= i < matches@.len() ==> row_of(#[trigger] matches@[i]) is Silent),
{
    for i in 0..matches.len()
        invariant
            forall|j: int| 0 <= j < i ==> row_of(#[trigger] matches@[j]) is Silent,
    {
        match match_row(&matches[i]) {
            MatchRow::Silent => {},
            _ => {
                return false;
            },
        }
    }
    matches.len() > 0
}

/// A rectangle on the picture, in its pixels.
#[derive(Debug, Clone, Copy, PartialEq, Eq, Structural)]
pub struct DragRect {
    pub x: u32,
    pub y: u32,
    pub w: u32,
    pub h: u32,
}

/// The rectangle between two pixels, whichever comes first.
pub open spec fn spanned(a: (u32, u32), b: (u32, u32)) -> DragRect {
    let x = if a.0 < b.0 {
        a.0
    } else {
        b.0
    };
    let y = if a.1 < b.1 {
        a.1
    } else {
        b.1
    };
    DragRect {
        x,
        y,
        w: (if a.0 < b.0 {
            b.0
        } else {
            a.0
        } - x) as u32,
        h: (if a.1 < b.1 {
            b.1
        } else {
            a.1
        } - y) as u32,
    }
}

/// The rectangle between two pixels, whichever comes first.
pub fn rect_from_pixel_corners(start: (u32, u32), end: (u32, u32)) -> (rect: DragRect)
    ensures
        rect == spanned(start, end),
{
    let (x, right) = if start.0 < end.0 {
        (start.0, end.0)
    } else {
        (end.0, start.0)
    };
    let (y, bottom) = if start.1 < end.1 {
        (start.1, end.1)
    } else {
        (end.1, start.1)
    };
    DragRect { x, y, w: right - x, h: bottom - y }
}

/// A drag spans the same rectangle in either direction, and both its ends are
/// corners of it.
pub proof fn a_drag_has_no_direction(a: (u32, u32), b: (u32, u32))
    ensures
        spanned(a, b) == spanned(b, a),
        spanned(a, b).x == a.0 || spanned(a, b).x + spanned(a, b).w == a.0,
        spanned(a, b).y == a.1 || spanned(a, b).y + spanned(a, b).h == a.1,
        spanned(a, b).x + spanned(a, b).w <= u32::MAX,
        spanned(a, b).y + spanned(a, b).h <= u32::MAX,
{
}

/// A pixel of the picture: within it, where it has any extent.
pub fn pixel_in(x: u32, y: u32, width: u32, height: u32) -> (pixel: (u32, u32))
    ensures
        pixel.0 == if x < width {
            x as int
        } else if width == 0 {
            0
        } else {
            width - 1
        },
        pixel.1 == if y < height {
            y as int
        } else if height == 0 {
            0
        } else {
            height - 1
        },
{
    (last_within(x, width), last_within(y, height))
}

fn last_within(n: u32, extent: u32) -> (m: u32)
    ensures
        m == if n < extent {
            n as int
        } else if extent == 0 {
            0
        } else {
            extent - 1
        },
{
    if n < extent {
        n
    } else if extent == 0 {
        0
    } else {
        extent - 1
    }
}

/// A template that the next drag on the picture cuts out, and the drag so far.
#[derive(Debug)]
pub struct OverrideDrag {
    armed: Option<String>,
    rect: Option<DragRect>,
    anchor: Option<(u32, u32)>,
}

/// A drag under way.
pub struct Dragging {
    pub armed: Option<Seq<char>>,
    pub rect: Option<DragRect>,
    pub anchor: Option<(u32, u32)>,
}

impl View for OverrideDrag {
    type V = Dragging;

    closed spec fn view(&self) -> Dragging {
        Dragging { armed: text_view(self.armed), rect: self.rect, anchor: self.anchor }
    }
}

impl Dragging {
    /// Nothing is armed and nothing is dragged.
    pub open spec fn none() -> Self {
        Dragging { armed: None, rect: None, anchor: None }
    }

    /// What a drag that ends here cuts out: a template and a rectangle with
    /// some extent.
    pub open spec fn cut(self) -> Option<(Seq<char>, DragRect)> {
        if self.armed is Some && self.rect is Some && self.rect->0.w > 0 && self.rect->0.h > 0 {
            Some((self.armed->0, self.rect->0))
        } else {
            None
        }
    }
}

impl Default for OverrideDrag {
    fn default() -> (drag: Self)
        ensures
            drag@ == Dragging::none(),
    {
        OverrideDrag { armed: None, rect: None, anchor: None }
    }
}

impl OverrideDrag {
    /// Disarms, and forgets the drag.
    pub fn clear_override_drag(&mut self)
        ensures
            final(self)@ == Dragging::none(),
    {
        self.armed = None;
        self.rect = None;
        self.anchor = None;
    }

    /// A click on a template's button: arms that template, or disarms it where
    /// it is the one that is armed.
    pub fn toggle(&mut self, alias: &str)
        ensures
            final(self)@ == if old(self)@.armed == Some(alias@) {
                Dragging::none()
            } else {
                (Dragging { armed: Some(alias@), ..Dragging::none() })
            },
    {
        let is_arming = match &self.armed {
            Some(armed) => same_text(armed.as_str(), alias),
            None => false,
        };
        self.clear_override_drag();
        if !is_arming {
            self.armed = Some(alias.to_owned());
        }
    }

    /// Whether a template is armed.
    pub fn is_armed(&self) -> (armed: bool)
        ensures
            armed == self@.armed is Some,
    {
        self.armed.is_some()
    }

    /// The rectangle dragged so far.
    pub fn rect(&self) -> (rect: Option<DragRect>)
        ensures
            rect == self@.rect,
    {
        self.rect
    }

    /// A drag began at a pixel.
    pub fn started(&mut self, pixel: (u32, u32))
        ensures
            final(self)@ == (Dragging {
                anchor: Some(pixel),
                rect: Some(DragRect { x: pixel.0, y: pixel.1, w: 0, h: 0 }),
                ..old(self)@
            }),
    {
        self.anchor = Some(pixel);
        self.rect = Some(DragRect { x: pixel.0, y: pixel.1, w: 0, h: 0 });
    }

    /// A drag came to a pixel. It spans from where it began, wherever it went
    /// in between.
    pub fn dragged(&mut self, pixel: (u32, u32))
        ensures
            final(self)@ == match old(self)@.anchor {
                Some(anchor) => Dragging { rect: Some(spanned(anchor, pixel)), ..old(self)@ },
                None => old(self)@,
            },
    {
        if let Some(anchor) = self.anchor {
            self.rect = Some(rect_from_pixel_corners(anchor, pixel));
        }
    }

    /// A drag ended: what it cuts out, once, where it spans anything.
    pub fn stopped(&mut self) -> (cut: Option<(String, DragRect)>)
        ensures
            final(self)@ == Dragging::none(),
            match cut {
                Some((alias, rect)) => old(self)@.cut() == Some((alias@, rect)),
                None => old(self)@.cut() is None,
            },
    {
        let mut armed: Option<String> = None;
        std::mem::swap(&mut armed, &mut self.armed);
        let rect = self.rect;
        self.rect = None;
        self.anchor = None;
        match (armed, rect) {
            (Some(alias), Some(rect)) => {
                if rect.w == 0 || rect.h == 0 {
                    None
                } else {
                    Some((alias, rect))
                }
            },
            _ => None,
        }
    }
}

/// A picture: four bytes for each pixel, row by row.
#[derive(Debug)]
pub struct Picture {
    width: u32,
    height: u32,
    bytes: Vec<u8>,
}

/// A picture's extent and bytes.
pub struct Pixels {
    pub width: nat,
    pub height: nat,
    pub bytes: Seq<u8>,
}

impl View for Picture {
    type V = Pixels;

    closed spec fn view(&self) -> Pixels {
        Pixels { width: self.width as nat, height: self.height as nat, bytes: self.bytes@ }
    }
}

impl Pixels {
    /// Four bytes for each pixel.
    pub open spec fn is_whole(self) -> bool {
        self.bytes.len() == 4 * (self.width * self.height)
    }

    /// A byte of a pixel.
    pub open spec fn byte(self, x: int, y: int, channel: int) -> u8 {
        self.bytes[4 * (y * self.width + x) + channel]
    }
}

impl Picture {
    #[verifier::type_invariant]
    spec fn is_whole(self) -> bool {
        self@.is_whole()
    }

    /// A picture of some extent, where there are four bytes for each pixel.
    pub fn from_bytes(width: u32, height: u32, bytes: Vec<u8>) -> (picture: Option<Self>)
        ensures
            match picture {
                Some(picture) => picture@ == (Pixels {
                    width: width as nat,
                    height: height as nat,
                    bytes: bytes@,
                }) && picture@.is_whole(),
                None => bytes@.len() != 4 * (width * height),
            },
    {
        proof {
            assert(width * height <= 0xffff_ffff * 0xffff_ffff) by (nonlinear_arith)
                requires
                    0 <= width <= 0xffff_ffff,
                    0 <= height <= 0xffff_ffff,
            ;
            assert(width * height >= 0) by (nonlinear_arith)
                requires
                    0 <= width,
                    0 <= height,
            ;
        }
        let area: u128 = width as u128 * height as u128;
        if bytes.len() as u128 == 4 * area {
            Some(Picture { width, height, bytes })
        } else {
            None
        }
    }

    pub fn width(&self) -> (width: u32)
        ensures
            width == self@.width,
    {
        self.width
    }

    pub fn height(&self) -> (height: u32)
        ensures
            height == self@.height,
    {
        self.height
    }

    pub fn bytes(&self) -> (bytes: &Vec<u8>)
        ensures
            bytes@ == self@.bytes,
    {
        &self.bytes
    }
}

/// Whether a picture is the part of another that a rectangle cuts out.
pub open spec fn is_cut_from(part: Pixels, whole: Pixels, area: DragRect) -> bool {
    &&& part.width == area.w && part.height == area.h
    &&& part.is_whole()
    &&& forall|x: int, y: int, channel: int|
        0 <= x < area.w && 0 <= y < area.h && 0 <= channel < 4 ==> #[trigger] part.byte(
            x,
            y,
            channel,
        ) == whole.byte(area.x + x, area.y + y, channel)
}

/// `image`'s `imageops::crop_imm` of a rectangle that lies inside the picture,
/// copied out as a picture of its own by `SubImage::to_image`: each of its
/// pixels is the one at that place of the rectangle.
#[verifier::external_body]
fn cropped(width: u32, height: u32, bytes: &Vec<u8>, area: DragRect) -> (part: Vec<u8>)
    requires
        bytes@.len() == 4 * (width * height),
        area.x + area.w <= width,
        area.y + area.h <= height,
    ensures
        is_cut_from(
            Pixels { width: area.w as nat, height: area.h as nat, bytes: part@ },
            Pixels { width: width as nat, height: height as nat, bytes: bytes@ },
            area,
        ),
{
    let image = image::RgbaImage::from_raw(width, height, bytes.clone()).unwrap();
    image::imageops::crop_imm(&image, area.x, area.y, area.w, area.h).to_image().into_raw()
}

/// The part of a rectangle that lies inside a picture; nothing where that has
/// no extent. A corner outside moves to the picture's edge.
pub open spec fn inside(rect: DragRect, width: nat, height: nat) -> Option<DragRect> {
    let x = if width == 0 {
        0
    } else if rect.x < width {
        rect.x as int
    } else {
        width - 1
    };
    let y = if height == 0 {
        0
    } else if rect.y < height {
        rect.y as int
    } else {
        height - 1
    };
    let w = if rect.w < width - x {
        rect.w as int
    } else {
        width - x
    };
    let h = if rect.h < height - y {
        rect.h as int
    } else {
        height - y
    };
    if w == 0 || h == 0 {
        None
    } else {
        Some(DragRect { x: x as u32, y: y as u32, w: w as u32, h: h as u32 })
    }
}

/// What a drag leaves of a picture.
#[derive(Debug)]
pub enum Crop {
    /// There is no picture to cut from; this is what the player is told.
    NoSnapshot(String),
    /// Nothing of it lies inside the picture.
    Nothing,
    Patch(Picture),
}

/// The part of a rectangle that lies inside a picture, or nothing.
fn fit_inside(rect: DragRect, width: u32, height: u32) -> (area: Option<DragRect>)
    ensures
        area == inside(rect, width as nat, height as nat),
{
    let x: u32 = last_within(rect.x, width);
    let y: u32 = last_within(rect.y, height);
    let w: u32 = if rect.w < width - x {
        rect.w
    } else {
        width - x
    };
    let h: u32 = if rect.h < height - y {
        rect.h
    } else {
        height - y
    };
    if w == 0 || h == 0 {
        None
    } else {
        Some(DragRect { x, y, w, h })
    }
}

/// Cuts a template out of the picture: the part of the rectangle that lies
/// inside it.
pub fn commit_template_crop(snapshot: Option<&Picture>, rect: DragRect) -> (crop: Crop)
    ensures
        match (crop, snapshot) {
            (Crop::NoSnapshot(said), None) => said@
                == "no snapshot to crop from — wait for the live preview to load"@,
            (Crop::Nothing, Some(picture)) => inside(
                rect,
                picture@.width,
                picture@.height,
            ) is None,
            (Crop::Patch(patch), Some(picture)) => inside(rect, picture@.width, picture@.height)
                is Some && is_cut_from(
                patch@,
                picture@,
                inside(rect, picture@.width, picture@.height)->0,
            ),
            _ => false,
        },
{
    match snapshot {
        None => Crop::NoSnapshot(
            "no snapshot to crop from — wait for the live preview to load".to_owned(),
        ),
        Some(picture) => {
            proof {
                use_type_invariant(picture);
            }
            match fit_inside(rect, picture.width, picture.height) {
                None => Crop::Nothing,
                Some(area) => {
                    let bytes = cropped(picture.width, picture.height, &picture.bytes, area);
                    Crop::Patch(Picture { width: area.w, height: area.h, bytes })
                },
            }
        },
    }
}

/// A rectangle that lies inside the picture is cut out whole, and whatever is
/// cut out lies inside it.
pub proof fn a_cut_lies_in_the_picture(rect: DragRect, width: u32, height: u32)
    ensures
        rect.w > 0 && rect.h > 0 && rect.x + rect.w <= width && rect.y + rect.h <= height
            ==> inside(rect, width as nat, height as nat) == Some(rect),
        inside(rect, width as nat, height as nat) matches Some(area) ==> area.w > 0 && area.h > 0
            && area.x + area.w <= width && area.y + area.h <= height,
{
}

/// The file that a template is saved to, where it is a known one.
pub fn template_file(alias: &str, mystic_medal: &str, covenant: &str) -> (file: Option<String>)
    ensures
        match file {
            Some(file) => (alias@ == "mystic_medal"@ && file@ == mystic_medal@) || (alias@
                != "mystic_medal"@ && alias@ == "covenant"@ && file@ == covenant@),
            None => alias@ != "mystic_medal"@ && alias@ != "covenant"@,
        },
{
    if same_text(alias, "mystic_medal") {
        Some(mystic_medal.to_owned())
    } else if same_text(alias, "covenant") {
        Some(covenant.to_owned())
    } else {
        None
    }
}

/// Where saving a template failed.
#[derive(Debug)]
pub enum Unsaved {
    /// Its folder could not be made.
    NoFolder { folder: String, error: String },
    /// The picture could not be written.
    NotWritten(String),
}

/// What the player is told of a template that was not saved.
pub fn template_failure(unsaved: &Unsaved) -> (said: String)
    ensures
        said@ == match *unsaved {
            Unsaved::NoFolder { folder, error } => "cannot create "@ + folder@ + ": "@ + error@,
            Unsaved::NotWritten(error) => "template save failed: "@ + error@,
        },
{
    match unsaved {
        Unsaved::NoFolder { folder, error } => {
            let mut said = "cannot create ".to_owned();
            said.append(folder.as_str());
            said.append(": ");
            said.append(error.as_str());
            said
        },
        Unsaved::NotWritten(error) => {
            let mut said = "template save failed: ".to_owned();
            said.append(error.as_str());
            said
        },
    }
}

/// The places that a player may move, each where it was moved.
#[derive(Debug, Clone, Copy)]
pub struct Overrides<R> {
    pub shop_grid: Option<R>,
    pub refresh: Option<R>,
    pub refresh_confirm: Option<R>,
    pub buy_confirm: Option<R>,
    pub buy_column: Option<R>,
}

impl<R> Overrides<R> {
    /// Where a place was moved to, if it was.
    pub open spec fn of(self, name: Seq<char>) -> Option<R> {
        if name == "shop_grid"@ {
            self.shop_grid
        } else if name == "refresh"@ {
            self.refresh
        } else if name == "refresh_confirm"@ {
            self.refresh_confirm
        } else if name == "buy_confirm"@ {
            self.buy_confirm
        } else if name == "buy_column"@ {
            self.buy_column
        } else {
            None
        }
    }
}

/// Whether a player may move a place of that name.
pub open spec fn is_movable(name: Seq<char>) -> bool {
    name == "shop_grid"@ || name == "refresh"@ || name == "refresh_confirm"@ || name
        == "buy_confirm"@ || name == "buy_column"@
}

impl<R> Overrides<R> {
    /// Moves a place; one of another name cannot be moved.
    pub fn put(&mut self, name: &str, rect: R) -> (moved: bool)
        ensures
            moved == is_movable(name@),
            forall|other: Seq<char>| #[trigger]
                final(self).of(other) == if moved && other == name@ {
                    Some(rect)
                } else {
                    old(self).of(other)
                },
    {
        proof {
            places_differ();
        }
        if same_text(name, "shop_grid") {
            self.shop_grid = Some(rect);
        } else if same_text(name, "refresh") {
            self.refresh = Some(rect);
        } else if same_text(name, "refresh_confirm") {
            self.refresh_confirm = Some(rect);
        } else if same_text(name, "buy_confirm") {
            self.buy_confirm = Some(rect);
        } else if same_text(name, "buy_column") {
            self.buy_column = Some(rect);
        } else {
            return false;
        }
        true
    }
}

/// No two places have one name.
proof fn places_differ()
    ensures
        "shop_grid"@ != "refresh"@,
        "shop_grid"@ != "refresh_confirm"@,
        "shop_grid"@ != "buy_confirm"@,
        "shop_grid"@ != "buy_column"@,
        "refresh"@ != "refresh_confirm"@,
        "refresh"@ != "buy_confirm"@,
        "refresh"@ != "buy_column"@,
        "refresh_confirm"@ != "buy_confirm"@,
        "refresh_confirm"@ != "buy_column"@,
        "buy_confirm"@ != "buy_column"@,
{
    reveal_strlit("shop_grid");
    reveal_strlit("refresh");
    reveal_strlit("refresh_confirm");
    reveal_strlit("buy_confirm");
    reveal_strlit("buy_column");
    assert("refresh"@.len() == 7);
    assert("refresh_confirm"@.len() == 15);
    assert("shop_grid"@.len() == 9);
    assert("buy_confirm"@[6] != "buy_column"@[6]);
}

/// Where a place is: where it was moved to, or else where it is by default.
pub fn effective_rect<R: Copy>(overrides: &Overrides<R>, name: &str, default_ratio: R) -> (rect: R)
    ensures
        rect == match overrides.of(name@) {
            Some(moved) => moved,
            None => default_ratio,
        },
{
    let moved: Option<R> = if same_text(name, "shop_grid") {
        overrides.shop_grid
    } else if same_text(name, "refresh") {
        overrides.refresh
    } else if same_text(name, "refresh_confirm") {
        overrides.refresh_confirm
    } else if same_text(name, "buy_confirm") {
        overrides.buy_confirm
    } else if same_text(name, "buy_column") {
        overrides.buy_column
    } else {
        None
    };
    match moved {
        Some(moved) => moved,
        None => default_ratio,
    }
}

/// Where a place is by default; an unknown one is nowhere.
pub open spec fn bundled(name: Seq<char>) -> Seq<u32> {
    if name == "shop_grid"@ {
        SHOP_GRID@
    } else if name == "refresh"@ {
        REFRESH@
    } else if name == "refresh_confirm"@ {
        REFRESH_CONFIRM@
    } else if name == "buy_confirm"@ {
        BUY_CONFIRM@
    } else if name == "buy_column"@ {
        seq![BUY_COLUMN_X, SHOP_GRID@[1], BUY_COLUMN_W, SHOP_GRID@[3]]
    } else {
        seq![0u32, 0, 0, 0]
    }
}

/// Where a place is by default; an unknown one is nowhere.
pub fn bundled_rect(name: &str) -> (rect: RectRatio)
    ensures
        rect@ == bundled(name@),
{
    if same_text(name, "shop_grid") {
        SHOP_GRID
    } else if same_text(name, "refresh") {
        REFRESH
    } else if same_text(name, "refresh_confirm") {
        REFRESH_CONFIRM
    } else if same_text(name, "buy_confirm") {
        BUY_CONFIRM
    } else if same_text(name, "buy_column") {
        buy_column_overlay_rect()
    } else {
        let nowhere: [u32; 4] = [0, 0, 0, 0];
        assert(nowhere@ =~= seq![0u32, 0, 0, 0]);
        nowhere
    }
}

/// Which of the two buy-click handles is dragged.
#[derive(Debug, Clone, Copy, PartialEq, Eq, Structural)]
pub enum BuyDragHandle {
    Line,
    Box,
}

/// What the mouse does over the buy-click handles.
#[derive(Debug, Clone, Copy, PartialEq, Eq, Structural)]
pub struct Pointer {
    pub drag_started: bool,
    pub drag_stopped: bool,
    /// Over the box.
    pub in_box: bool,
    /// Near enough to the line to take hold of it.
    pub near_line: bool,
}

/// The handle that moves with the pointer, and the one that is held
/// afterwards. A template that is armed takes every drag, so that nothing moves
/// and nothing is taken or let go of; the box wins over the line; a handle that
/// is held is not let go of for another.
pub open spec fn grabbed(armed: bool, held: Option<BuyDragHandle>, pointer: Pointer) -> (
    Option<BuyDragHandle>,
    Option<BuyDragHandle>,
) {
    if armed {
        (None, held)
    } else {
        let now = if held is Some || !pointer.drag_started {
            held
        } else if pointer.in_box {
            Some(BuyDragHandle::Box)
        } else if pointer.near_line {
            Some(BuyDragHandle::Line)
        } else {
            None
        };
        (now, if pointer.drag_stopped {
            None
        } else {
            now
        })
    }
}

/// The handle that moves with the pointer, and the one that is held afterwards.
pub fn handle_buy_click_drag(armed: bool, held: Option<BuyDragHandle>, pointer: Pointer) -> (
    handles: (Option<BuyDragHandle>, Option<BuyDragHandle>))
    ensures
        handles == grabbed(armed, held, pointer),
{
    if armed {
        return (None, held);
    }
    let now: Option<BuyDragHandle> = if held.is_some() || !pointer.drag_started {
        held
    } else if pointer.in_box {
        Some(BuyDragHandle::Box)
    } else if pointer.near_line {
        Some(BuyDragHandle::Line)
    } else {
        None
    };
    let after: Option<BuyDragHandle> = if pointer.drag_stopped {
        None
    } else {
        now
    };
    (now, after)
}

/// What the live picture does next.
#[derive(Debug, Clone, Copy, PartialEq, Eq, Structural)]
pub enum PreviewStep {
    /// A run has the window, or there is nothing to look with.
    Off,
    /// One look is in flight, or the last was a moment ago.
    Wait,
    Look,
}

/// The live picture: whether a look is in flight, and what went wrong.
#[derive(Debug)]
pub struct Preview {
    in_flight: bool,
    debug_error: Option<String>,
    snapshot_error: Option<String>,
}

/// The live picture.
pub struct Live {
    pub in_flight: bool,
    pub debug_error: Option<Seq<char>>,
    pub snapshot_error: Option<Seq<char>>,
}

impl View for Preview {
    type V = Live;

    closed spec fn view(&self) -> Live {
        Live {
            in_flight: self.in_flight,
            debug_error: text_view(self.debug_error),
            snapshot_error: text_view(self.snapshot_error),
        }
    }
}

impl Default for Preview {
    fn default() -> (preview: Self)
        ensures
            preview@ == (Live { in_flight: false, debug_error: None, snapshot_error: None }),
    {
        Preview { in_flight: false, debug_error: None, snapshot_error: None }
    }
}

impl Preview {
    /// What to do next: a look where none is in flight and the last is at least
    /// `interval_ms` old, outside of runs.
    pub fn maybe_auto_refresh_setup(
        &self,
        effective: BotStatus,
        has_capture: bool,
        has_detector: bool,
        since_last_ms: Option<u64>,
        interval_ms: u64,
    ) -> (step: PreviewStep)
        ensures
            step == if effective.active() || !has_capture || !has_detector {
                PreviewStep::Off
            } else if !self@.in_flight && (since_last_ms is None || since_last_ms->0
                >= interval_ms) {
                PreviewStep::Look
            } else {
                PreviewStep::Wait
            },
    {
        if effective.is_active() || !has_capture || !has_detector {
            return PreviewStep::Off;
        }
        if self.in_flight {
            return PreviewStep::Wait;
        }
        match since_last_ms {
            None => PreviewStep::Look,
            Some(ms) => {
                if ms >= interval_ms {
                    PreviewStep::Look
                } else {
                    PreviewStep::Wait
                }
            },
        }
    }

    /// A look was sent off, or could not be.
    pub fn spawn_setup_preview(&mut self, sent: Result<(), String>)
        ensures
            final(self)@ == match sent {
                Ok(_) => Live { in_flight: true, ..old(self)@ },
                Err(error) => Live {
                    in_flight: false,
                    debug_error: Some("worker spawn failed: "@ + error@),
                    ..old(self)@
                },
            },
    {
        match sent {
            Ok(_) => {
                self.in_flight = true;
            },
            Err(error) => {
                self.in_flight = false;
                let mut said = "worker spawn failed: ".to_owned();
                said.append(error.as_str());
                self.debug_error = Some(said);
            },
        }
    }

    /// A look came back. A failure leaves the last picture; a success clears
    /// whatever went wrong.
    pub fn apply_setup_preview(&mut self, came: Result<(), String>)
        ensures
            final(self)@ == match came {
                Ok(_) => Live { in_flight: false, debug_error: None, snapshot_error: None },
                Err(error) => Live {
                    in_flight: false,
                    debug_error: Some(error@),
                    ..old(self)@
                },
            },
    {
        self.in_flight = false;
        match came {
            Ok(_) => {
                self.debug_error = None;
                self.snapshot_error = None;
            },
            Err(error) => {
                self.debug_error = Some(error);
            },
        }
    }

    /// Something went wrong with the picture itself.
    pub fn snapshot_failed(&mut self, error: String)
        ensures
            final(self)@ == (Live { snapshot_error: Some(error@), ..old(self)@ }),
    {
        self.snapshot_error = Some(error);
    }

    /// The lines that tell what went wrong, the picture's own first.
    pub fn complaints(&self) -> (lines: (Option<String>, Option<String>))
        ensures
            text_view(lines.0) == self@.snapshot_error,
            text_view(lines.1) == match self@.debug_error {
                Some(error) => Some("detection: "@ + error),
                None => None,
            },
    {
        let first = match &self.snapshot_error {
            Some(error) => Some(error.as_str().to_owned()),
            None => None,
        };
        let second = match &self.debug_error {
            Some(error) => {
                let mut said = "detection: ".to_owned();
                said.append(error.as_str());
                Some(said)
            },
            None => None,
        };
        (first, second)
    }
}

/// What is said of a worker that panicked, by its message where it left one.
pub fn panic_payload_message(payload: Option<&str>) -> (said: String)
    ensures
        said@ == match payload {
            Some(message) => "worker panicked: "@ + message@,
            None => "worker panicked (unknown payload)"@,
        },
{
    match payload {
        Some(message) => {
            let mut said = "worker panicked: ".to_owned();
            said.append(message);
            said
        },
        None => "worker panicked (unknown payload)".to_owned(),
    }
}

/// Whether something is missing before a run can start: the window, or a first
/// picture of it.
pub fn setup_incomplete(window_size: Option<(u32, u32)>, snapshot_size: Option<(u32, u32)>) -> (
    incomplete: bool)
    ensures
        incomplete == (window_size is None || snapshot_size is None),
{
    window_size.is_none() || snapshot_size.is_none()
}

/// What the middle of the window shows.
#[derive(Debug, Clone, Copy, PartialEq, Eq, Structural)]
pub enum CentralView {
    /// How to begin; the steps only where there is a window.
    Onboarding { steps: bool },
    /// The picture of the game, under what is still missing where something is.
    Snapshot { stepper: bool },
}

/// What the middle of the window shows: the picture only on the setup tab, and
/// only once there is one.
pub fn central_view(
    on_setup_tab: bool,
    has_picture: bool,
    window_size: Option<(u32, u32)>,
    snapshot_size: Option<(u32, u32)>,
) -> (view: CentralView)
    ensures
        view == if on_setup_tab && has_picture {
            CentralView::Snapshot { stepper: window_size is None || snapshot_size is None }
        } else {
            CentralView::Onboarding { steps: window_size is Some }
        },
{
    if on_setup_tab && has_picture {
        CentralView::Snapshot { stepper: setup_incomplete(window_size, snapshot_size) }
    } else {
        CentralView::Onboarding { steps: window_size.is_some() }
    }
}

/// What shows how far clicks scatter.
#[derive(Debug, Clone, Copy, PartialEq, Eq, Structural)]
pub enum JitterPreview {
    Nothing,
    /// That something has to be detected first.
    Hint,
    /// A circle around each match.
    Circles,
}

/// What shows how far clicks scatter, while that is edited: only clicks on
/// matched items do, so only around those.
pub fn jitter_preview(
    editing: bool,
    size: (u32, u32),
    matches: &Vec<DebugMatch>,
    has_radius: bool,
) -> (preview: JitterPreview)
    ensures
        preview == if !editing || size.0 == 0 || size.1 == 0 {
            JitterPreview::Nothing
        } else if !some_hit(matches@) {
            JitterPreview::Hint
        } else if has_radius {
            JitterPreview::Circles
        } else {
            JitterPreview::Nothing
        },
{
    if !editing || size.0 == 0 || size.1 == 0 {
        return JitterPreview::Nothing;
    }
    for i in 0..matches.len()
        invariant
            editing && size.0 > 0 && size.1 > 0,
            forall|j: int| 0 <= j < i ==> (#[trigger] matches@[j]).hit is None,
    {
        if matches[i].hit.is_some() {
            assert(matches@[i as int].hit is Some);
            return if has_radius {
                JitterPreview::Circles
            } else {
                JitterPreview::Nothing
            };
        }
    }
    JitterPreview::Hint
}

/// Whether something was found.
pub open spec fn some_hit(matches: Seq<DebugMatch>) -> bool {
    exists|i: int| 0 <= i < matches.len() && (#[trigger] matches[i]).hit is Some
}

/// How the live picture fares, in words.
#[derive(Debug, Clone, Copy, PartialEq, Eq, Structural)]
pub enum DetectionStatus {
    NoFrame,
    Paused,
    NoWindow,
    Live,
}

/// How the live picture fares.
pub fn detection_status(has_snapshot: bool, bot_active: bool, has_capture: bool) -> (status:
    DetectionStatus)
    ensures
        status == if !has_snapshot {
            DetectionStatus::NoFrame
        } else if bot_active {
            DetectionStatus::Paused
        } else if !has_capture {
            DetectionStatus::NoWindow
        } else {
            DetectionStatus::Live
        },
{
    if !has_snapshot {
        DetectionStatus::NoFrame
    } else if bot_active {
        DetectionStatus::Paused
    } else if !has_capture {
        DetectionStatus::NoWindow
    } else {
        DetectionStatus::Live
    }
}

/// A size as it is shown.
pub fn size_text(width: u32, height: u32) -> (s: String)
    ensures
        s@ == text::decimal(width as nat) + "×"@ + text::decimal(height as nat),
{
    let mut s = text::decimal_text(width as u64);
    s.append("×");
    s.append(text::decimal_text(height as u64).as_str());
    s
}

/// A hit is acted on unless its colours were looked at and were wrong, and then,
/// and only then, there is a rejection to show: what the look found. Nothing found
/// is neither.
pub proof fn a_hit_stands_unless_its_colours_are_wrong(hit: Hit, report: ColourReport)
    ensures
        verdict_on(Some(hit), None) == (Some(hit), None::<ColourReport>),
        report.passed ==> verdict_on(Some(hit), Some(report)) == (Some(hit), None::<ColourReport>),
        !report.passed ==> verdict_on(Some(hit), Some(report)) == (None::<Hit>, Some(report)),
        verdict_on(None, Some(report)) == (None::<Hit>, None::<ColourReport>),
        verdict_on(None, None) == (None::<Hit>, None::<ColourReport>),
{
}

/// A template is listed by what became of it: as matched where it was hit and its
/// colours were not wrong, as rejected where they were, and not at all where it was
/// not hit.
pub proof fn a_template_is_listed_by_what_became_of_it(found: DebugMatch, seen: Seen)
    requires
        is_weighed(found, seen),
    ensures
        found.alias@ == seen.alias@ && found.tpl_size == seen.tpl_size,
        row_of(found) is Matched <==> seen.hit is Some && (seen.report matches Some(report)
            ==> report.passed),
        row_of(found) is Rejected <==> seen.hit is Some && seen.report is Some
            && !seen.report->0.passed,
        row_of(found) is Silent <==> seen.hit is None,
        found.hit is Some ==> found.hit == seen.hit,
        found.colour_reject is Some ==> found.colour_reject == seen.report,
{
}

/// A drag covers all that lies between its two ends, and no more.
pub proof fn a_drag_covers_what_lies_between(a: (u32, u32), b: (u32, u32), x: int, y: int)
    ensures
        spanned(a, b).x <= x <= spanned(a, b).x + spanned(a, b).w <==> (a.0 <= x <= b.0 || b.0 <= x
            <= a.0),
        spanned(a, b).y <= y <= spanned(a, b).y + spanned(a, b).h <==> (a.1 <= y <= b.1 || b.1 <= y
            <= a.1),
{
}

/// A drag that ends cuts something out exactly where a template is armed and the
/// drag has some extent both ways, and then that template and that rectangle.
pub proof fn a_drag_cuts_out_what_it_spans(drag: Dragging)
    ensures
        drag.cut() is Some <==> drag.armed is Some && (drag.rect matches Some(rect) && rect.w != 0
            && rect.h != 0),
        drag.cut() matches Some((alias, rect)) ==> drag.armed == Some(alias) && drag.rect == Some(
            rect,
        ),
        Dragging::none().cut() is None,
        Dragging::none().armed is None && Dragging::none().rect is None && Dragging::none().anchor
            is None,
{
}

/// What is cut out starts where the rectangle starts, or at the last pixel where
/// that lies beyond, and ends where the rectangle ends or the picture does,
/// whichever comes first. Nothing is cut out exactly where the rectangle or the
/// picture has no extent one way.
pub proof fn a_cut_is_as_much_as_there_is(rect: DragRect, width: u32, height: u32)
    ensures
        inside(rect, width as nat, height as nat) is None <==> rect.w == 0 || rect.h == 0 || width
            == 0 || height == 0,
        inside(rect, width as nat, height as nat) matches Some(area) ==> {
            &&& rect.x < width ==> area.x == rect.x
            &&& rect.x >= width ==> area.x == width - 1
            &&& rect.y < height ==> area.y == rect.y
            &&& rect.y >= height ==> area.y == height - 1
            &&& area.w == rect.w || area.x + area.w == width
            &&& area.h == rect.h || area.y + area.h == height
            &&& area.w <= rect.w && area.h <= rect.h
        },
{
}

/// Each of the five places can be moved, is found under its own name alone, and
/// nothing of another name can.
pub proof fn a_place_is_found_under_its_name<R>(overrides: Overrides<R>, name: Seq<char>)
    ensures
        overrides.of("shop_grid"@) == overrides.shop_grid,
        overrides.of("refresh"@) == overrides.refresh,
        overrides.of("refresh_confirm"@) == overrides.refresh_confirm,
        overrides.of("buy_confirm"@) == overrides.buy_confirm,
        overrides.of("buy_column"@) == overrides.buy_column,
        overrides.of(name) is Some ==> is_movable(name),
        !is_movable(name) ==> bundled(name) == seq![0u32, 0, 0, 0],
        is_movable(name) <==> name == "shop_grid"@ || name == "refresh"@ || name
            == "refresh_confirm"@ || name == "buy_confirm"@ || name == "buy_column"@,
{
    places_differ();
}

/// By default a place is where the game shows it, and the buy column runs down the
/// whole of the shop's grid.
pub proof fn a_place_is_by_default_where_the_game_shows_it()
    ensures
        bundled("shop_grid"@) == SHOP_GRID@,
        bundled("refresh"@) == REFRESH@,
        bundled("refresh_confirm"@) == REFRESH_CONFIRM@,
        bundled("buy_confirm"@) == BUY_CONFIRM@,
        bundled("buy_column"@)[0] == BUY_COLUMN_X && bundled("buy_column"@)[2] == BUY_COLUMN_W,
        bundled("buy_column"@)[1] == bundled("shop_grid"@)[1],
        bundled("buy_column"@)[3] == bundled("shop_grid"@)[3],
{
    places_differ();
}

/// A handle that is held moves until the drag stops, and is not let go of for
/// another; a drag that begins takes hold of the box where it begins there, else of
/// the line where it begins near that, and of nothing anywhere else; and without a
/// drag that begins nothing is taken hold of. While a template is armed nothing
/// moves and nothing changes hands.
pub proof fn a_handle_is_held_until_the_drag_stops(
    held: Option<BuyDragHandle>,
    taken: BuyDragHandle,
    pointer: Pointer,
)
    ensures
        grabbed(true, held, pointer) == (None::<BuyDragHandle>, held),
        grabbed(false, Some(taken), pointer).0 == Some(taken),
        !pointer.drag_started ==> grabbed(false, None, pointer).0 is None,
        pointer.drag_started && pointer.in_box ==> grabbed(false, None, pointer).0 == Some(
            BuyDragHandle::Box,
        ),
        pointer.drag_started && !pointer.in_box && pointer.near_line ==> grabbed(
            false,
            None,
            pointer,
        ).0 == Some(BuyDragHandle::Line),
        !pointer.in_box && !pointer.near_line ==> grabbed(false, None, pointer).0 is None,
        pointer.drag_stopped ==> grabbed(false, held, pointer).1 is None,
        !pointer.drag_stopped ==> grabbed(false, held, pointer).1 == grabbed(
            false,
            held,
            pointer,
        ).0,
{
}

/// Two pictures of one extent that agree in every byte of every pixel are one
/// picture: rows follow each other, and the four bytes of a pixel stand side by
/// side.
pub proof fn a_picture_is_its_pixels(a: Pixels, x: int, y: int, channel: int)
    requires
        a.is_whole(),
        0 <= x < a.width,
        0 <= y < a.height,
        0 <= channel < 4,
    ensures
        0 <= 4 * (y * a.width + x) + channel < a.bytes.len(),
        a.byte(x, y, channel) == a.bytes[4 * (y * a.width + x) + channel],
        a.bytes.len() == 4 * (a.width * a.height),
{
    assert(0 <= y * a.width <= (a.height - 1) * a.width) by (nonlinear_arith)
        requires
            0 <= y < a.height,
            0 <= a.width,
    ;
    assert((a.height - 1) * a.width == a.width * a.height - a.width) by (nonlinear_arith);
}

/// A cut has the rectangle's extent, and each of its pixels is the one at that
/// place of the rectangle.
pub proof fn a_cut_keeps_its_pixels(
    part: Pixels,
    whole: Pixels,
    area: DragRect,
    x: int,
    y: int,
    channel: int,
)
    requires
        is_cut_from(part, whole, area),
        0 <= x < area.w,
        0 <= y < area.h,
        0 <= channel < 4,
    ensures
        part.width == area.w && part.height == area.h,
        part.bytes.len() == 4 * (area.w * area.h),
        part.bytes[4 * (y * area.w + x) + channel] == whole.bytes[4 * ((area.y + y) * whole.width
            + area.x + x) + channel],
{
    assert(part.byte(x, y, channel) == whole.byte(area.x + x, area.y + y, channel));
}

/// Something was found exactly where one of the templates was hit, wherever in the
/// list it stands.
pub proof fn one_hit_is_enough(matches: Seq<DebugMatch>, i: int)
    ensures
        0 <= i < matches.len() && matches[i].hit is Some ==> some_hit(matches),
        (forall|j: int| 0 <= j < matches.len() ==> (#[trigger] matches[j]).hit is None)
            ==> !some_hit(matches),
{
}

} // verus!
