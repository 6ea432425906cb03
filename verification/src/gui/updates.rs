//! The banner that offers a newer release and tells how its download fares.

use crate::text;
use vstd::arithmetic::div_mod::lemma_fundamental_div_mod;
use vstd::prelude::*;
use vstd::string::*;

verus! {

/// How an update fares.
#[derive(Debug)]
pub enum UpdateState {
    Downloading { bytes: u64, total: Option<u64> },
    Verifying,
    Installing,
    Failed(String),
}

/// What the installer reports.
#[derive(Debug)]
pub enum UpdateEvent {
    Downloading { bytes: u64, total: Option<u64> },
    Verifying,
    InstallingAndRestarting,
    Failed(String),
}

/// The state that a report puts an update in.
pub open spec fn reported(event: UpdateEvent) -> UpdateState {
    match event {
        UpdateEvent::Downloading { bytes, total } => UpdateState::Downloading { bytes, total },
        UpdateEvent::Verifying => UpdateState::Verifying,
        UpdateEvent::InstallingAndRestarting => UpdateState::Installing,
        UpdateEvent::Failed(message) => UpdateState::Failed(message),
    }
}

/// What starting an update takes.
#[derive(Debug)]
pub enum UpdateStart {
    /// One is in flight, or there is nothing newer.
    Refused,
    /// The release does not fit this program; the update failed with this.
    Unfit(String),
    /// The installer is to be run.
    Install,
}

/// The update that the banner shows, if any.
#[derive(Debug)]
pub struct UpdateProgress {
    pub state: Option<UpdateState>,
    /// An installer runs and reports.
    pub reports: bool,
}

impl Default for UpdateProgress {
    fn default() -> (progress: Self)
        ensures
            progress.state is None,
            !progress.reports,
    {
        UpdateProgress { state: None, reports: false }
    }
}

impl UpdateProgress {
    /// Starts an update to a newer release, where none is in flight: the banner
    /// shows a download at once, before the first byte. `target` says whether
    /// the release fits this program.
    pub fn start_auto_update(&mut self, has_newer: bool, target: Result<(), String>) -> (start:
        UpdateStart)
        ensures
            match start {
                UpdateStart::Refused => (old(self).state is Some || !has_newer) && *final(self)
                    == *old(self),
                UpdateStart::Unfit(error) => old(self).state is None && has_newer && (target
                    matches Err(why) && error@ == why@) && (final(self).state matches Some(
                    UpdateState::Failed(shown),
                ) && shown@ == error@) && !final(self).reports,
                UpdateStart::Install => old(self).state is None && has_newer && target is Ok
                    && final(self).state == Some(
                    UpdateState::Downloading { bytes: 0, total: None },
                ) && final(self).reports,
            },
    {
        if self.state.is_some() || !has_newer {
            return UpdateStart::Refused;
        }
        match target {
            Ok(_) => {
                self.state = Some(UpdateState::Downloading { bytes: 0, total: None });
                self.reports = true;
                UpdateStart::Install
            },
            Err(error) => {
                self.state = Some(UpdateState::Failed(error.as_str().to_owned()));
                self.reports = false;
                UpdateStart::Unfit(error)
            },
        }
    }

    /// Takes a report of the installer. Without one that runs there is none.
    pub fn poll_update_progress(&mut self, event: UpdateEvent)
        ensures
            *final(self) == if old(self).state is Some && old(self).reports {
                UpdateProgress { state: Some(reported(event)), reports: true }
            } else {
                *old(self)
            },
    {
        if self.state.is_some() && self.reports {
            self.state = Some(
                match event {
                    UpdateEvent::Downloading { bytes, total } => UpdateState::Downloading {
                        bytes,
                        total,
                    },
                    UpdateEvent::Verifying => UpdateState::Verifying,
                    UpdateEvent::InstallingAndRestarting => UpdateState::Installing,
                    UpdateEvent::Failed(message) => UpdateState::Failed(message),
                },
            );
        }
    }

    /// Forgets an update, so that it can be tried again.
    pub fn retry(&mut self)
        ensures
            final(self).state is None,
            !final(self).reports,
    {
        self.state = None;
        self.reports = false;
    }
}

impl UpdateState {
    /// What the banner says of an update.
    pub fn line(&self) -> (line: String)
        ensures
            match self {
                UpdateState::Downloading { bytes, total } => line@ == progress_text(
                    *bytes as nat,
                    *total,
                ),
                UpdateState::Verifying => line@ == "Verifying…"@,
                UpdateState::Installing => line@ == "Installing — app will restart…"@,
                UpdateState::Failed(message) => line@ == "Update failed: "@ + message@,
            },
    {
        match self {
            UpdateState::Downloading { bytes, total } => format_download_progress(*bytes, *total),
            UpdateState::Verifying => "Verifying…".to_owned(),
            UpdateState::Installing => "Installing — app will restart…".to_owned(),
            UpdateState::Failed(message) => {
                let mut line = "Update failed: ".to_owned();
                line.append(message.as_str());
                line
            },
        }
    }
}

/// How far apart two neighbouring numbers of `bits` binary digits are near `n`.
pub open spec fn step(n: nat, bits: nat) -> nat
    decreases n,
{
    if bits == 0 || n < vstd::arithmetic::power2::pow2(bits) || n < 2 {
        1
    } else {
        2 * step(n / 2, bits)
    }
}

/// The multiple of `step` nearest to `n`, and of two the one that is an even
/// number of steps.
pub open spec fn to_nearest(n: nat, step: nat) -> nat
    recommends
        step > 0,
{
    let whole = n / step;
    let rest = n % step;
    if 2 * rest < step || (2 * rest == step && whole % 2 == 0) {
        whole * step
    } else {
        (whole + 1) * step
    }
}

/// A count of bytes in single precision.
pub open spec fn in_single(n: nat) -> nat {
    to_nearest(n, step(n, 24))
}

/// A count of bytes in tenths of a megabyte, as it reads to one place. A half
/// goes to the even tenth.
pub open spec fn megabyte_tenths(n: nat) -> nat {
    to_nearest(in_single(n) * 10, 1_048_576) / 1_048_576
}

/// A count of bytes in megabytes, to one place.
pub open spec fn megabytes(n: nat) -> Seq<char> {
    text::decimal(megabyte_tenths(n) / 10) + "."@ + text::decimal(megabyte_tenths(n) % 10)
}

fn step_of(n: u64) -> (size: u64)
    ensures
        size == step(n as nat, 24),
        1 <= size,
        size <= 0x100_0000_0000,
        n < 0x100_0000 * size,
    decreases n,
{
    proof {
        vstd::arithmetic::power2::lemma2_to64();
        step_is_bounded(n as nat);
    }
    if n < 0x100_0000 {
        1
    } else {
        let half: u64 = step_of(n / 2);
        2 * half
    }
}

/// The step of a count that fits 64 bits fits 41.
proof fn step_is_bounded(n: nat)
    requires
        n <= u64::MAX,
    ensures
        1 <= step(n, 24) <= 0x100_0000_0000,
        n < 0x100_0000 * step(n, 24),
{
    vstd::arithmetic::power2::lemma2_to64();
    vstd::arithmetic::power2::lemma2_to64_rest();
    step_fits(n, 40, 0x1_0000_0000_0000_0000);
}

proof fn step_fits(n: nat, halvings: nat, bound: nat)
    requires
        n < bound,
        bound == 0x100_0000 * vstd::arithmetic::power2::pow2(halvings),
    ensures
        1 <= step(n, 24) <= vstd::arithmetic::power2::pow2(halvings),
        n < 0x100_0000 * step(n, 24),
    decreases halvings,
{
    vstd::arithmetic::power2::lemma2_to64();
    vstd::arithmetic::power2::lemma_pow2_pos(halvings);
    if n >= 0x100_0000 {
        if halvings == 0 {
            assert(false);
        }
        vstd::arithmetic::power2::lemma_pow2_unfold(halvings);
        step_fits(
            n / 2,
            (halvings - 1) as nat,
            (0x100_0000 * vstd::arithmetic::power2::pow2((halvings - 1) as nat)) as nat,
        );
    }
}

/// The multiple of a step nearest to a number.
fn nearest(n: u128, size: u128) -> (m: u128)
    requires
        0 < size <= 0x100_0000_0000,
        n <= 0x1_0000_0000_0000_0000_0000,
    ensures
        m == to_nearest(n as nat, size as nat),
        m <= n + size,
        m % size == 0,
{
    let whole: u128 = n / size;
    let rest: u128 = n % size;
    proof {
        lemma_fundamental_div_mod(n as int, size as int);
        assert(whole * size <= n) by (nonlinear_arith)
            requires
                n == size * whole + rest,
                rest >= 0,
        ;
        assert((whole + 1) * size == whole * size + size) by (nonlinear_arith);
        assert(whole * size == size * whole) by (nonlinear_arith);
        vstd::arithmetic::div_mod::lemma_mod_multiples_basic(whole as int, size as int);
        vstd::arithmetic::div_mod::lemma_mod_multiples_basic(whole as int + 1, size as int);
    }
    if 2 * rest < size || (2 * rest == size && whole % 2 == 0) {
        whole * size
    } else {
        (whole + 1) * size
    }
}

/// A count of bytes in tenths of a megabyte.
fn tenths_of(n: u64) -> (tenths: u64)
    ensures
        tenths == megabyte_tenths(n as nat),
{
    let size: u64 = step_of(n);
    let single: u128 = nearest(n as u128, size as u128);
    let scaled: u128 = nearest(single * 10, 1_048_576);
    (scaled / 1_048_576) as u64
}

fn in_megabytes(n: u64) -> (s: String)
    ensures
        s@ == megabytes(n as nat),
{
    let tenths: u64 = tenths_of(n);
    let mut s = text::decimal_text(tenths / 10);
    s.append(".");
    s.append(text::decimal_text(tenths % 10).as_str());
    s
}

/// How far a download is, in megabytes; out of how many, where that is known
/// and not zero.
pub open spec fn progress_text(bytes: nat, total: Option<u64>) -> Seq<char> {
    if total is Some && total->0 > 0 {
        "Downloading… "@ + megabytes(bytes) + " / "@ + megabytes(total->0 as nat) + " MB"@
    } else {
        "Downloading… "@ + megabytes(bytes) + " MB"@
    }
}

/// How far a download is, in megabytes; out of how many, where that is known
/// and not zero.
pub fn format_download_progress(bytes: u64, total: Option<u64>) -> (s: String)
    ensures
        s@ == progress_text(bytes as nat, total),
{
    let mut s = "Downloading… ".to_owned();
    s.append(in_megabytes(bytes).as_str());
    if let Some(total) = total {
        if total > 0 {
            s.append(" / ");
            s.append(in_megabytes(total).as_str());
        }
    }
    s.append(" MB");
    s
}

/// An update is shown as what its installer last reported.
pub proof fn a_report_is_the_state(bytes: u64, total: Option<u64>, message: String)
    ensures
        reported(UpdateEvent::Downloading { bytes, total }) == (UpdateState::Downloading {
            bytes,
            total,
        }),
        reported(UpdateEvent::Verifying) is Verifying,
        reported(UpdateEvent::InstallingAndRestarting) is Installing,
        reported(UpdateEvent::Failed(message)) == UpdateState::Failed(message),
{
}

/// Rounding to a step goes to a multiple of it, never further than half a step,
/// and from the middle between two to the one that is an even number of steps.
pub proof fn rounding_goes_to_the_nearest_step(n: nat, size: nat)
    requires
        size > 0,
    ensures
        to_nearest(n, size) % size == 0,
        2 * to_nearest(n, size) <= 2 * n + size,
        2 * n <= 2 * to_nearest(n, size) + size,
        2 * to_nearest(n, size) == 2 * n + size || 2 * n == 2 * to_nearest(n, size) + size ==> (
        to_nearest(n, size) / size) % 2 == 0,
{
    let whole = n / size;
    let rest = n % size;
    lemma_fundamental_div_mod(n as int, size as int);
    assert(n == whole * size + rest) by (nonlinear_arith)
        requires
            n == size * whole + rest,
    ;
    assert((whole + 1) * size == whole * size + size) by (nonlinear_arith);
    vstd::arithmetic::div_mod::lemma_mod_multiples_basic(whole as int, size as int);
    vstd::arithmetic::div_mod::lemma_mod_multiples_basic(whole as int + 1, size as int);
    vstd::arithmetic::div_mod::lemma_div_by_multiple(whole as int, size as int);
    vstd::arithmetic::div_mod::lemma_div_by_multiple(whole as int + 1, size as int);
}

/// A single keeps the first 24 binary digits: a number with no more of them is
/// itself, and a longer one is off by no more than half of what is left out, which
/// is the least power of two that leaves 24.
pub proof fn a_single_keeps_24_digits(n: nat)
    ensures
        n < 0x100_0000 ==> step(n, 24) == 1 && in_single(n) == n,
        n >= 0x100_0000 ==> step(n, 24) == 2 * step(n / 2, 24),
        2 * in_single(n) <= 2 * n + step(n, 24) && 2 * n <= 2 * in_single(n) + step(n, 24),
        n >= 0x100_0000 ==> 0x80_0000 * step(n, 24) <= n < 0x100_0000 * step(n, 24),
    decreases n,
{
    vstd::arithmetic::power2::lemma2_to64();
    a_step_leaves_24_digits(n);
    rounding_goes_to_the_nearest_step(n, step(n, 24));
    if n < 0x100_0000 {
        assert(n * 1 == n);
    }
}

proof fn a_step_leaves_24_digits(n: nat)
    ensures
        step(n, 24) >= 1,
        n >= 0x100_0000 ==> 0x80_0000 * step(n, 24) <= n < 0x100_0000 * step(n, 24),
        n < 0x100_0000 ==> step(n, 24) == 1,
    decreases n,
{
    vstd::arithmetic::power2::lemma2_to64();
    if n >= 0x100_0000 {
        a_step_leaves_24_digits(n / 2);
    }
}

/// The tenths of a megabyte that are shown are the nearest to the count, as a
/// single keeps it: off by half of a tenth at most.
pub proof fn megabytes_are_shown_to_the_nearest_tenth(n: nat)
    ensures
        2_097_152 * megabyte_tenths(n) <= 20 * in_single(n) + 1_048_576,
        20 * in_single(n) <= 2_097_152 * megabyte_tenths(n) + 1_048_576,
{
    let rounded = to_nearest(in_single(n) * 10, 1_048_576);
    rounding_goes_to_the_nearest_step(in_single(n) * 10, 1_048_576);
    lemma_fundamental_div_mod(rounded as int, 1_048_576);
}

/// A download tells how far it is in megabytes, and out of how many exactly where
/// that is known and not zero.
pub proof fn a_download_tells_what_it_knows(bytes: nat, total: u64)
    ensures
        progress_text(bytes, None) == "Downloading… "@ + megabytes(bytes) + " MB"@,
        progress_text(bytes, Some(0)) == progress_text(bytes, None),
        total > 0 ==> progress_text(bytes, Some(total)) == "Downloading… "@ + megabytes(bytes)
            + " / "@ + megabytes(total as nat) + " MB"@,
{
}

} // verus!
