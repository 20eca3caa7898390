//! Tiered panic degradation protocol.
//!
//! Every panic entry increments a process-wide counter once and selects its
//! behaviour from the count before the increment: the first panic writes a
//! full, styled report, the second only a bare fixed marker, and every later
//! one attempts no output at all.  Bounding the output attempts to two keeps
//! a fault inside fault reporting from amplifying without end.
//!
//! The caller owns what no verified code can do here: breaking and re-taking
//! the global output lock around the rendering, and the final halt.

use crate::vga_buffer::{
    Color, ColorSet, ConsoleView, Output, run_ok, spec_run, spec_style_byte,
};
use vstd::prelude::*;
use vstd::string::StringSliceAdditionalSpecFns;

verus! {

/// The console state that the first panic entry resets to before it reports:
/// cursor at the top-left corner, white text on a red background, and the
/// grid as it was.
pub open spec fn panic_reset(c: ConsoleView) -> ConsoleView {
    ConsoleView {
        position: 0,
        style: ColorSet(spec_style_byte(Color::White, Color::Red)),
        cells: c.cells,
    }
}

/// What one panic entry is allowed to attempt.
#[derive(Clone, Copy, Debug, PartialEq, Eq, Structural)]
pub enum PanicTier {
    /// First panic: write the full, styled report.
    Detailed,
    /// Second panic: write only the bare fixed marker.
    BareMarker,
    /// Third and later panics: attempt no output at all.
    Silent,
}

/// The tier that a panic entry selects when the given number of panics came
/// before it.
pub open spec fn tier_of(previous_panics: nat) -> PanicTier {
    if previous_panics == 0 {
        PanicTier::Detailed
    } else if previous_panics == 1 {
        PanicTier::BareMarker
    } else {
        PanicTier::Silent
    }
}

/// Successive panic entries degrade monotonically: the first selects the
/// detailed report, the second the bare marker, and every later one stays
/// silent.
pub proof fn lemma_panic_degradation(previous_panics: nat)
    ensures
        previous_panics == 0 ==> tier_of(previous_panics) == PanicTier::Detailed,
        previous_panics == 1 ==> tier_of(previous_panics) == PanicTier::BareMarker,
        previous_panics >= 2 ==> tier_of(previous_panics) == PanicTier::Silent,
{
}

/// The monotonically increasing panic counter.  One instance exists for the
/// process lifetime; each panic entry increments it exactly once.
pub struct PanicController {
    count: usize,
}

impl PanicController {
    /// How many panic entries were recorded.
    pub closed spec fn spec_count(&self) -> nat {
        self.count as nat
    }

    /// How many panic entries were recorded, as a machine integer.
    pub fn count(&self) -> (r: usize)
        ensures
            r == self.spec_count(),
    {
        self.count
    }

    /// A fresh controller: no panic was recorded yet.
    pub fn new() -> (r: PanicController)
        ensures
            r.spec_count() == 0,
    {
        PanicController { count: 0 }
    }

    /// Records one panic entry and returns the tier it selects, chosen from
    /// the count before the increment.
    pub fn record(&mut self) -> (tier: PanicTier)
        requires
            old(self).spec_count() < usize::MAX,
        ensures
            final(self).spec_count() == old(self).spec_count() + 1,
            tier == tier_of(old(self).spec_count()),
    {
        let previous = self.count;
        self.count = self.count + 1;
        if previous == 0 {
            PanicTier::Detailed
        } else if previous == 1 {
            PanicTier::BareMarker
        } else {
            PanicTier::Silent
        }
    }
}

/// Console work of the first panic entry: cursor to the top-left corner,
/// style white on red, then the detailed report.  The report is written only
/// when every byte of it stays within the console's operating bounds; the
/// returned flag says whether it was.
pub fn render_detailed_report(out: &mut Output, message: &str) -> (wrote: bool)
    requires
        old(out)@.wf(),
    ensures
        final(out)@.wf(),
        wrote == run_ok(panic_reset(old(out)@), message.spec_bytes()),
        wrote ==> final(out)@ == spec_run(panic_reset(old(out)@), message.spec_bytes()),
        !wrote ==> final(out)@ == panic_reset(old(out)@),
{
    out.set_cursor(0, 0);
    out.set_style(ColorSet::new(Color::White, Color::Red));
    proof {
        assert(out@ =~= panic_reset(old(out)@));
    }
    out.try_write_str(message)
}

/// Console work of the second panic entry: only the bare fixed marker, with
/// whatever cursor and style the console had, and only when it stays within
/// the operating bounds.  No formatting is attempted at this tier.
pub fn render_double_panic_marker(out: &mut Output) -> (wrote: bool)
    requires
        old(out)@.wf(),
    ensures
        final(out)@.wf(),
        wrote == run_ok(old(out)@, "double panic".spec_bytes()),
        wrote ==> final(out)@ == spec_run(old(out)@, "double panic".spec_bytes()),
        !wrote ==> final(out)@ == old(out)@,
{
    out.try_write_str("double panic")
}

} // verus!
