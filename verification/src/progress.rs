//! Progress trackers: an automatic one advanced once per consumed element,
//! and a manual one advanced by caller-supplied deltas.
//!
//! Both hold a `current` and a fixed `total`; `current` starts at 0, never
//! decreases, and is clamped so it never exceeds `total`. Each advance
//! draws one frame. A tracker also remembers how many lines its last frame
//! occupied, the erase budget of the next render.

use vstd::prelude::*;
use crate::message::MessageBuffer;
use crate::render::line_count;
use crate::render::render;
use crate::render::TerminalUnavailable;

verus! {

/// `current + delta`, clamped to `total`: overshoot is absorbed silently.
pub open spec fn clamped_add(current: nat, delta: nat, total: nat) -> nat {
    if current + delta <= total {
        current + delta
    } else {
        total
    }
}

/// The running total of a sequence of deltas.
pub open spec fn sum_deltas(deltas: Seq<nat>) -> nat
    decreases deltas.len(),
{
    if deltas.len() == 0 {
        0
    } else {
        sum_deltas(deltas.drop_last()) + deltas.last()
    }
}

/// Where `current` stands after a sequence of clamped updates from 0.
pub open spec fn apply_deltas(total: nat, deltas: Seq<nat>) -> nat
    decreases deltas.len(),
{
    if deltas.len() == 0 {
        0
    } else {
        clamped_add(apply_deltas(total, deltas.drop_last()), deltas.last(), total)
    }
}

/// After any sequence of non-negative deltas, `current` equals the sum of
/// the deltas so far, clamped to `total`: it never exceeds `total`.
pub proof fn lemma_updates_clamp_to_sum(total: nat, deltas: Seq<nat>)
    ensures
        apply_deltas(total, deltas) == if sum_deltas(deltas) <= total {
            sum_deltas(deltas)
        } else {
            total
        },
        apply_deltas(total, deltas) <= total,
    decreases deltas.len(),
{
    if deltas.len() > 0 {
        lemma_updates_clamp_to_sum(total, deltas.drop_last());
    }
}

/// Empty struct from which the two tracker kinds are made.
#[derive(Debug)]
pub struct Tqdm;

impl Tqdm {
    /// A tracker that advances automatically, one step per consumed element
    /// of a sequence whose best known length is `total` (0 when unknown).
    pub fn new(total: usize) -> (t: TqdmAuto)
        ensures
            t.spec_current() == 0,
            t.spec_total() == total,
            t.spec_drawn() == 0,
    {
        TqdmAuto { current: 0, total, drawn: 0 }
    }

    /// A tracker advanced only by explicit `update` calls, out of `total`.
    pub fn manual(total: usize) -> (t: TqdmManual)
        ensures
            t.spec_current() == 0,
            t.spec_total() == total,
            t.spec_drawn() == 0,
    {
        TqdmManual { current: 0, total, drawn: 0 }
    }
}

/// The tracker that advances automatically as a sequence is consumed.
#[derive(Debug)]
pub struct TqdmAuto {
    current: usize,
    total: usize,
    drawn: usize,
}

impl TqdmAuto {
    /// How far the tracker has advanced.
    pub closed spec fn spec_current(&self) -> nat {
        self.current as nat
    }

    /// The fixed total set at construction.
    pub closed spec fn spec_total(&self) -> nat {
        self.total as nat
    }

    /// How many lines the previous frame occupied (0 before the first).
    pub closed spec fn spec_drawn(&self) -> nat {
        self.drawn as nat
    }

    /// The tracker's invariant: `current` stays within `total`.
    pub open spec fn wf(&self) -> bool {
        self.spec_current() <= self.spec_total()
    }

    /// How far the tracker has advanced.
    pub fn get_current_amount(&self) -> (c: usize)
        ensures
            c == self.spec_current(),
    {
        self.current
    }

    /// The fixed total set at construction.
    pub fn get_total_amount(&self) -> (t: usize)
        ensures
            t == self.spec_total(),
    {
        self.total
    }

    /// One consumed element: draws the frame for the state before the
    /// element, then advances by one (clamped). On failure the tracker is
    /// unchanged, though the pending message is consumed.
    pub fn step(&mut self, buf: &mut MessageBuffer) -> (res: Result<(), TerminalUnavailable>)
        requires
            old(self).wf(),
            old(buf)@.len() + 1 < usize::MAX,
        ensures
            final(self).wf(),
            final(self).spec_total() == old(self).spec_total(),
            final(buf)@ == Seq::<char>::empty(),
            old(self).spec_drawn() == 0 && old(buf)@.len() == 0 ==> res is Ok,
            res is Ok ==> final(self).spec_current() == clamped_add(
                old(self).spec_current(),
                1,
                old(self).spec_total(),
            ) && final(self).spec_drawn() == line_count(old(buf)@) + 1,
            res is Err ==> final(self).spec_current() == old(self).spec_current()
                && final(self).spec_drawn() == old(self).spec_drawn(),
    {
        match render(self.current, self.total, buf, self.drawn) {
            Ok(d) => {
                self.drawn = d;
                if self.current < self.total {
                    self.current = self.current + 1;
                }
                Ok(())
            },
            Err(e) => Err(e),
        }
    }

    /// The sequence is exhausted: draws one final frame, advancing nothing.
    pub fn finish(&mut self, buf: &mut MessageBuffer) -> (res: Result<(), TerminalUnavailable>)
        requires
            old(self).wf(),
            old(buf)@.len() + 1 < usize::MAX,
        ensures
            final(self).wf(),
            final(self).spec_total() == old(self).spec_total(),
            final(self).spec_current() == old(self).spec_current(),
            final(buf)@ == Seq::<char>::empty(),
            old(self).spec_drawn() == 0 && old(buf)@.len() == 0 ==> res is Ok,
            res is Ok ==> final(self).spec_drawn() == line_count(old(buf)@) + 1,
            res is Err ==> final(self).spec_drawn() == old(self).spec_drawn(),
    {
        match render(self.current, self.total, buf, self.drawn) {
            Ok(d) => {
                self.drawn = d;
                Ok(())
            },
            Err(e) => Err(e),
        }
    }
}

/// The tracker advanced manually.
#[derive(Debug)]
pub struct TqdmManual {
    current: usize,
    total: usize,
    drawn: usize,
}

impl TqdmManual {
    /// How far the tracker has advanced.
    pub closed spec fn spec_current(&self) -> nat {
        self.current as nat
    }

    /// The fixed total set at construction.
    pub closed spec fn spec_total(&self) -> nat {
        self.total as nat
    }

    /// How many lines the previous frame occupied (0 before the first).
    pub closed spec fn spec_drawn(&self) -> nat {
        self.drawn as nat
    }

    /// The tracker's invariant: `current` stays within `total`.
    pub open spec fn wf(&self) -> bool {
        self.spec_current() <= self.spec_total()
    }

    /// How far the tracker has advanced.
    pub fn get_current_amount(&self) -> (c: usize)
        ensures
            c == self.spec_current(),
    {
        self.current
    }

    /// The fixed total set at construction.
    pub fn get_total_amount(&self) -> (t: usize)
        ensures
            t == self.spec_total(),
    {
        self.total
    }

    /// Advances by `num`, clamped to `total`, then draws one frame. The
    /// advance happens whether or not the terminal could be drawn on.
    pub fn update(&mut self, buf: &mut MessageBuffer, num: usize) -> (res: Result<
        (),
        TerminalUnavailable,
    >)
        requires
            old(self).wf(),
            old(buf)@.len() + 1 < usize::MAX,
        ensures
            final(self).wf(),
            final(self).spec_total() == old(self).spec_total(),
            final(self).spec_current() == clamped_add(
                old(self).spec_current(),
                num as nat,
                old(self).spec_total(),
            ),
            final(buf)@ == Seq::<char>::empty(),
            old(self).spec_drawn() == 0 && old(buf)@.len() == 0 ==> res is Ok,
            res is Ok ==> final(self).spec_drawn() == line_count(old(buf)@) + 1,
            res is Err ==> final(self).spec_drawn() == old(self).spec_drawn(),
    {
        if num >= self.total - self.current {
            self.current = self.total;
        } else {
            self.current = self.current + num;
        }
        match render(self.current, self.total, buf, self.drawn) {
            Ok(d) => {
                self.drawn = d;
                Ok(())
            },
            Err(e) => Err(e),
        }
    }
}

} // verus!
