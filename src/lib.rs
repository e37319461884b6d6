//! Discovery of devices on a two-wire bus with 7-bit addressing: every
//! valid address is probed with a zero-length write, and the addresses that
//! acknowledge are gathered in a fixed-capacity result.

pub mod device;
pub mod probe;
pub mod result;
pub mod scanner;
pub mod storage;

pub use device::{clamp_address, I2CDevice, FIRST_ADDRESS, LAST_ADDRESS};
pub use probe::{classify, I2cBus, ProbeOutcome};
pub use result::ScanResult;
pub use scanner::I2CScanner;
