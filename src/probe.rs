use vstd::prelude::*;

verus! {

/// The one capability the scanner needs from a bus: a write of no bytes to a
/// 7-bit address, which succeeds when a device acknowledges the address.
pub trait I2cBus {
    /// What the bus reports when a write does not go through.
    type Error;

    /// The empty writes made on this bus, oldest first, each with whether it
    /// succeeded. An implementation that Verus checks defines it; for one
    /// that it does not check, nothing but the contract of `write_empty` is
    /// known of it.
    closed spec fn acked(&self) -> Seq<(u8, bool)> {
        arbitrary()
    }

    /// Addresses `address` and writes nothing.
    fn write_empty(&mut self, address: u8) -> (r: Result<(), Self::Error>)
        requires
            address <= 127,
        ensures
            final(self).acked() == old(self).acked().push((address, r is Ok)),
    ;
}

/// What a probe of one address tells.
pub enum ProbeOutcome<E> {
    /// A device acknowledged the address.
    Present,
    /// No device answered at the address.
    Absent,
    /// The bus itself failed; the scan must stop.
    Fault(E),
}

impl<E> ProbeOutcome<E> {
    /// Whether a device is present, or the fault that ends the scan.
    pub fn into_presence(self) -> (r: Result<bool, E>)
        ensures
            self is Present ==> r == Ok::<bool, E>(true),
            self is Absent ==> r == Ok::<bool, E>(false),
            self is Fault ==> r == Err::<bool, E>(self->Fault_0),
    {
        match self {
            ProbeOutcome::Present => Ok(true),
            ProbeOutcome::Absent => Ok(false),
            ProbeOutcome::Fault(e) => Err(e),
        }
    }
}

/// Reads the bus's answer to a probe: an acknowledged write means a device
/// is present, and every failure is taken for an address nobody answers.
pub fn classify<E>(raw: Result<(), E>) -> (r: ProbeOutcome<E>)
    ensures
        raw is Ok <==> r is Present,
        raw is Err <==> r is Absent,
{
    match raw {
        Ok(()) => ProbeOutcome::Present,
        Err(_) => ProbeOutcome::Absent,
    }
}

} // verus!
