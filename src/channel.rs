use vstd::prelude::*;

verus! {

/// Fixed-point denominator of a [`Unit`] channel: `Unit { micros: UNIT_SCALE }` is full intensity.
pub const UNIT_SCALE: i32 = 1_000_000;

/// The numeric representation of one color channel.
///
/// Every representation names its full-intensity value, knows which raw values are valid,
/// and can clamp any raw value into that range.
pub trait Channel: Sized {
    /// The raw value lies in the valid range.
    spec fn spec_in_range(&self) -> bool;

    /// The full-intensity value.
    spec fn spec_max() -> Self;

    /// The value clamped into the valid range.
    spec fn spec_to_range(&self) -> Self;

    fn ch_max() -> (r: Self)
        ensures
            r == Self::spec_max(),
            r.spec_in_range(),
    ;

    fn to_range(self) -> (r: Self)
        ensures
            r == self.spec_to_range(),
            r.spec_in_range(),
            self.spec_in_range() ==> r == self,
    ;

    fn in_range(&self) -> (r: bool)
        ensures
            r == self.spec_in_range(),
    ;
}

/// Bytes are range-total: every value is valid and clamping is the identity.
impl Channel for u8 {
    open spec fn spec_in_range(&self) -> bool {
        true
    }

    open spec fn spec_max() -> u8 {
        255
    }

    open spec fn spec_to_range(&self) -> u8 {
        *self
    }

    fn ch_max() -> (r: u8) {
        255
    }

    fn to_range(self) -> (r: u8) {
        self
    }

    fn in_range(&self) -> (r: bool) {
        true
    }
}

/// A channel intensity in the unit interval, held in millionths.
///
/// Raw values outside `0..=UNIT_SCALE` can be built through the public field; clamping
/// saturates them at the bounds.
#[derive(Debug, Clone, Copy, PartialEq, Eq, Structural, PartialOrd, Ord)]
pub struct Unit {
    pub micros: i32,
}

pub open spec fn clamp_micros(m: int) -> int {
    if m < 0 {
        0
    } else if m > UNIT_SCALE {
        UNIT_SCALE as int
    } else {
        m
    }
}

impl Unit {
    /// A unit channel with the given number of millionths, clamped into `0..=UNIT_SCALE`.
    pub fn new(micros: i32) -> (r: Unit)
        ensures
            r.micros == clamp_micros(micros as int),
    {
        Unit { micros }.to_range()
    }
}

impl Channel for Unit {
    open spec fn spec_in_range(&self) -> bool {
        0 <= self.micros <= UNIT_SCALE
    }

    open spec fn spec_max() -> Unit {
        Unit { micros: UNIT_SCALE }
    }

    open spec fn spec_to_range(&self) -> Unit {
        Unit { micros: clamp_micros(self.micros as int) as i32 }
    }

    fn ch_max() -> (r: Unit) {
        Unit { micros: UNIT_SCALE }
    }

    fn to_range(self) -> (r: Unit) {
        if self.micros < 0 {
            Unit { micros: 0 }
        } else if self.micros > UNIT_SCALE {
            Unit { micros: UNIT_SCALE }
        } else {
            self
        }
    }

    fn in_range(&self) -> (r: bool) {
        0 <= self.micros && self.micros <= UNIT_SCALE
    }
}

} // verus!
