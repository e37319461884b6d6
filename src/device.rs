use vstd::prelude::*;

verus! {

/// The lowest address that is probed; 0 is the general-call address.
pub const FIRST_ADDRESS: u8 = 1;

/// The highest 7-bit address.
pub const LAST_ADDRESS: u8 = 127;

/// Whether `a` is a device address that may be probed.
pub open spec fn is_device_address(a: int) -> bool {
    FIRST_ADDRESS <= a <= LAST_ADDRESS
}

/// `a` moved into the probed range.
pub open spec fn clamped(a: int) -> int {
    if a < FIRST_ADDRESS {
        FIRST_ADDRESS as int
    } else if a > LAST_ADDRESS {
        LAST_ADDRESS as int
    } else {
        a
    }
}

/// A device that acknowledged its address.
#[derive(Debug, Clone, Copy, PartialEq, Eq, Structural)]
pub struct I2CDevice {
    pub address: u8,
}

/// Moves `a` into `[FIRST_ADDRESS, LAST_ADDRESS]`.
pub fn clamp_address(a: u8) -> (r: u8)
    ensures
        r == clamped(a as int),
        is_device_address(r as int),
{
    if a < FIRST_ADDRESS {
        FIRST_ADDRESS
    } else if a > LAST_ADDRESS {
        LAST_ADDRESS
    } else {
        a
    }
}

} // verus!
