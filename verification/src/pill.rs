//! The recording pill's fade-out: the frontend fades it, and the window is hidden a
//! little later only when no newer fade or show came in between, so a late hide
//! never hides a pill that was just shown again, and two fades hide only once.

use vstd::prelude::*;

verus! {

/// Length of the CSS fade-out plus a small margin before the window is hidden.
pub const FADE_MS: u64 = 260;

/// The fade generation: every fade and every show moves it on.
#[derive(Debug, Clone, Copy, PartialEq, Eq, Structural)]
pub struct PillFade {
    pub generation: u64,
}

pub open spec fn bumped(g: u64) -> u64 {
    if g == u64::MAX {
        0
    } else {
        (g + 1) as u64
    }
}

impl PillFade {
    pub fn new() -> (p: PillFade)
        ensures
            p.generation == 0,
    {
        PillFade { generation: 0 }
    }

    /// Starts a fade-out; returns the generation that its delayed hide belongs to.
    pub fn fade_out(&mut self) -> (scheduled: u64)
        ensures
            final(self).generation == bumped(old(self).generation),
            scheduled == final(self).generation,
    {
        self.generation = self.generation.wrapping_add(1);
        self.generation
    }

    /// The pill is shown again: any pending hide is void.
    pub fn show(&mut self)
        ensures
            final(self).generation == bumped(old(self).generation),
    {
        self.generation = self.generation.wrapping_add(1);
    }

    /// The delayed hide of `scheduled` goes ahead only if nothing came after it.
    pub fn hide_due(&self, scheduled: u64) -> (r: bool)
        ensures
            r == (self.generation == scheduled),
    {
        self.generation == scheduled
    }
}

/// A show after a fade voids that fade's hide: the pill that was just shown again
/// stays visible.
pub proof fn law_show_voids_pending_hide(p: PillFade)
    ensures
        ({
            let scheduled = bumped(p.generation);
            let after_show = PillFade { generation: bumped(scheduled) };
            after_show.generation != scheduled
        }),
{
}

/// Of two fades in a row only the later one hides: the earlier hide is void, the
/// later one is due.
pub proof fn law_two_fades_hide_once(p: PillFade)
    ensures
        ({
            let first = bumped(p.generation);
            let second = bumped(first);
            let after = PillFade { generation: second };
            after.generation != first && after.generation == second
        }),
{
}

/// A call on the pill: `PillFade::fade_out` or `PillFade::show`.
#[derive(Debug, Clone, Copy, PartialEq, Eq, Structural)]
pub enum PillCall {
    FadeOut,
    Show,
}

/// The fade state after a burst of calls, each of which moves the generation on.
pub open spec fn after_calls(p: PillFade, calls: Seq<PillCall>) -> PillFade
    decreases calls.len(),
{
    if calls.len() == 0 {
        p
    } else {
        after_calls(PillFade { generation: bumped(p.generation) }, calls.drop_first())
    }
}

proof fn lemma_after_calls(p: PillFade, calls: Seq<PillCall>)
    ensures
        after_calls(p, calls).generation == (p.generation + calls.len()) % 0x1_0000_0000_0000_0000,
    decreases calls.len(),
{
    if calls.len() > 0 {
        let q = PillFade { generation: bumped(p.generation) };
        lemma_after_calls(q, calls.drop_first());
        let m: int = 0x1_0000_0000_0000_0000;
        assert(q.generation == (p.generation + 1) % m);
        vstd::arithmetic::div_mod::lemma_add_mod_noop_right(
            calls.len() - 1,
            p.generation + 1,
            m,
        );
    }
}

/// Over any burst of fade-outs and shows the pill is hidden at most once: the delayed
/// hide of the fade-out at `i` goes ahead exactly when that fade-out is the last call
/// of the burst (a later fade-out or show voids it). Bursts are shorter than the
/// generation counter's range.
pub proof fn law_one_hide_per_burst(p: PillFade, calls: Seq<PillCall>, i: int)
    requires
        0 <= i < calls.len(),
        calls.len() <= u64::MAX,
        calls[i] == PillCall::FadeOut,
    ensures
        after_calls(p, calls).generation == after_calls(p, calls.take(i + 1)).generation
            <==> i == calls.len() - 1,
{
    let m: int = 0x1_0000_0000_0000_0000;
    let n = calls.len() as int;
    lemma_after_calls(p, calls);
    lemma_after_calls(p, calls.take(i + 1));
    let a = p.generation + n;
    let b = p.generation + i + 1;
    vstd::arithmetic::div_mod::lemma_mod_equivalence(a, b, m);
    vstd::arithmetic::div_mod::lemma_small_mod((a - b) as nat, m as nat);
}

} // verus!
