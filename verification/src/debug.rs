//! A machine word viewed as a signed quantity, for hosts that render
//! diagnostics.

use vstd::prelude::*;

verus! {

/// The signed value a 16-bit word denotes in two's complement.
pub open spec fn to_signed(value: u16) -> int {
    if value < 0x8000 {
        value as int
    } else {
        value - 0x10000
    }
}

/// A machine word carrying its signed reading.
#[derive(Clone, Copy, Debug, PartialEq, Eq, Structural)]
pub struct VmInt(pub u16);

impl VmInt {
    /// The two's-complement value of the word.
    pub fn signed(&self) -> (r: i32)
        ensures
            r == to_signed(self.0),
    {
        if self.0 < 0x8000 {
            self.0 as i32
        } else {
            self.0 as i32 - 0x10000
        }
    }
}

} // verus!
