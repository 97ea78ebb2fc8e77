use vstd::prelude::*;

use crate::util::{Discrete, Mean};

verus! {

/// Which of the two monitored regions assert their active colour in a frame.
#[derive(Clone, Copy, Debug, PartialEq, Eq, Structural)]
pub enum Symbol {
    Signal,
    Clock,
    Both,
    Neither,
}

impl Discrete for Symbol {
    fn same_as(&self, other: &Symbol) -> (r: bool) {
        *self == *other
    }
}

/// Below this mean both regions count as dark.
pub const LOW_THRESHOLD: u8 = 20;

/// Above this mean both regions count as lit.
pub const HIGH_THRESHOLD: u8 = 60;

/// A luma above this counts as lit in the top/bottom encoding.
pub const BIT_THRESHOLD: u8 = 128;

/// A luma above this counts as fully lit in the top/bottom encoding.
pub const SATURATED_THRESHOLD: u8 = 240;

impl Symbol {
    /// The data half of the symbol.
    pub open spec fn signal(self) -> bool {
        self is Signal || self is Both
    }

    /// The clock half of the symbol.
    pub open spec fn clock(self) -> bool {
        self is Clock || self is Both
    }

    /// The symbol split into `(signal, clock)`.
    pub fn components(&self) -> (r: (bool, bool))
        ensures
            r == (self.signal(), self.clock()),
    {
        match self {
            Symbol::Signal => (true, false),
            Symbol::Clock => (false, true),
            Symbol::Both => (true, true),
            Symbol::Neither => (false, false),
        }
    }
}

/// Classification of a clock-region mean `clock_total / clock_count` and a
/// signal-region mean `signal_total / signal_count`: both below the low
/// threshold is `Neither`, both above the high threshold is `Both`, otherwise
/// the strictly brighter region wins, a tie going to `Signal`.
pub open spec fn amplitude_symbol(
    clock_total: nat,
    clock_count: nat,
    signal_total: nat,
    signal_count: nat,
) -> Symbol {
    if clock_total < LOW_THRESHOLD * clock_count && signal_total < LOW_THRESHOLD * signal_count {
        Symbol::Neither
    } else if clock_total > HIGH_THRESHOLD * clock_count && signal_total > HIGH_THRESHOLD
        * signal_count {
        Symbol::Both
    } else if clock_total * signal_count > signal_total * clock_count {
        Symbol::Clock
    } else {
        Symbol::Signal
    }
}

/// Classifies the smoothed intensities of the clock and signal regions.
pub fn classify_amplitude(clock: &Mean, signal: &Mean) -> (r: Symbol)
    requires
        clock.count > 0,
        signal.count > 0,
    ensures
        r == amplitude_symbol(
            clock.total as nat,
            clock.count as nat,
            signal.total as nat,
            signal.count as nat,
        ),
{
    if clock.is_below(LOW_THRESHOLD) && signal.is_below(LOW_THRESHOLD) {
        Symbol::Neither
    } else if clock.is_above(HIGH_THRESHOLD) && signal.is_above(HIGH_THRESHOLD) {
        Symbol::Both
    } else if clock.exceeds(signal) {
        Symbol::Clock
    } else {
        Symbol::Signal
    }
}

/// Classification of the lumas of a top (signal) and bottom (clock) region:
/// both saturated is `Both`; both lit gives the brighter one, a tie going to
/// `Clock`; anything else is `Neither`.
pub open spec fn luma_symbol(top: u8, bottom: u8) -> Symbol {
    if top > SATURATED_THRESHOLD && bottom > SATURATED_THRESHOLD {
        Symbol::Both
    } else if top > BIT_THRESHOLD && bottom > BIT_THRESHOLD {
        if top > bottom {
            Symbol::Signal
        } else {
            Symbol::Clock
        }
    } else {
        Symbol::Neither
    }
}

/// Classifies the smoothed lumas of the top and bottom halves of a frame.
pub fn classify_top_bottom(top: u8, bottom: u8) -> (r: Symbol)
    ensures
        r == luma_symbol(top, bottom),
{
    if top > SATURATED_THRESHOLD && bottom > SATURATED_THRESHOLD {
        Symbol::Both
    } else if top > BIT_THRESHOLD && bottom > BIT_THRESHOLD {
        if top > bottom {
            Symbol::Signal
        } else {
            Symbol::Clock
        }
    } else {
        Symbol::Neither
    }
}

} // verus!
