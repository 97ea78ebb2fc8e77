use vstd::prelude::*;

verus! {

/// One step of the extractor from clock level `prev`: a bit equal to `signal`
/// when `clock` differs from `prev`, nothing otherwise.
pub open spec fn edge_output(prev: bool, signal: bool, clock: bool) -> Option<bool> {
    if clock != prev {
        Some(signal)
    } else {
        None
    }
}

/// The clock level after the `(signal, clock)` pairs of `pairs`, from `prev`.
pub open spec fn clock_after(prev: bool, pairs: Seq<(bool, bool)>) -> bool {
    if pairs.len() == 0 {
        prev
    } else {
        pairs.last().1
    }
}

/// The bits emitted, in order, for the pairs of `pairs` from clock level `prev`.
pub open spec fn edge_bits(prev: bool, pairs: Seq<(bool, bool)>) -> Seq<bool>
    decreases pairs.len(),
{
    if pairs.len() == 0 {
        Seq::empty()
    } else {
        let before = edge_bits(prev, pairs.drop_last());
        match edge_output(clock_after(prev, pairs.drop_last()), pairs.last().0, pairs.last().1) {
            Some(b) => before.push(b),
            None => before,
        }
    }
}

/// Latches one data bit on each change of the clock level.
pub struct ClockEdge {
    prev_clock: bool,
}

impl ClockEdge {
    /// The clock level of the previous frame.
    pub closed spec fn prev(&self) -> bool {
        self.prev_clock
    }

    /// A fresh extractor, clock low.
    pub fn new() -> (r: ClockEdge)
        ensures
            r.prev() == false,
    {
        ClockEdge { prev_clock: false }
    }

    /// The stored clock level.
    pub fn prev_clock(&self) -> (r: bool)
        ensures
            r == self.prev(),
    {
        self.prev_clock
    }

    /// Takes one frame's `(signal, clock)`: emits `signal` when the clock
    /// level changed, and stores the new level.
    pub fn push(&mut self, signal: bool, clock: bool) -> (r: Option<bool>)
        ensures
            r == edge_output(old(self).prev(), signal, clock),
            final(self).prev() == clock,
    {
        let r = if clock != self.prev_clock {
            Some(signal)
        } else {
            None
        };
        self.prev_clock = clock;
        r
    }
}

/// Feeding one `(signal, clock)` pair `n` times emits at most one bit: `signal`,
/// on the first push, and only when `clock` differs from the starting level.
pub proof fn lemma_stable_pair_emits_once(prev: bool, signal: bool, clock: bool, n: nat)
    ensures
        edge_bits(prev, Seq::new(n, |i: int| (signal, clock))) == if n > 0 && clock != prev {
            seq![signal]
        } else {
            Seq::<bool>::empty()
        },
    decreases n,
{
    let pairs = Seq::new(n, |i: int| (signal, clock));
    if n > 0 {
        let shorter = Seq::new((n - 1) as nat, |i: int| (signal, clock));
        assert(pairs.drop_last() =~= shorter);
        lemma_stable_pair_emits_once(prev, signal, clock, (n - 1) as nat);
        if n > 1 {
            assert(clock_after(prev, shorter) == clock);
        }
    }
}

} // verus!
