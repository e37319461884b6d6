//! The fixed-capacity vector of heapless that holds a scan's devices, as
//! this library relies on it.
use vstd::prelude::*;
use crate::device::I2CDevice;

verus! {

/// How many devices a result can hold.
pub const CAPACITY: usize = 128;

#[verifier::external_type_specification]
#[verifier::external_body]
#[verifier::reject_recursive_types(T)]
pub struct ExHeaplessVec<T, const N: usize>(heapless::Vec<T, N>);

/// The vector that a scan result keeps its devices in.
pub type DeviceVec = heapless::Vec<I2CDevice, 128>;

/// The addresses of the devices that a vector holds, first to last.
pub uninterp spec fn stored_addresses(v: DeviceVec) -> Seq<u8>;

/// Relies on `heapless::Vec::new`: a vector that holds nothing.
#[verifier::external_body]
pub(crate) fn empty_devices() -> (r: DeviceVec)
    ensures
        stored_addresses(r) == Seq::<u8>::empty(),
{
    heapless::Vec::new()
}

/// Relies on `heapless::Vec::push`: below the capacity the device is
/// appended; at the capacity it is handed back (`Some`) and the vector is
/// unchanged.
#[verifier::external_body]
pub(crate) fn push_device(v: &mut DeviceVec, d: I2CDevice) -> (rejected: Option<I2CDevice>)
    ensures
        stored_addresses(*old(v)).len() < CAPACITY ==> rejected is None,
        stored_addresses(*old(v)).len() < CAPACITY ==> stored_addresses(*final(v)) == stored_addresses(*old(v)).push(d.address),
        stored_addresses(*old(v)).len() >= CAPACITY ==> rejected == Some(d),
        stored_addresses(*old(v)).len() >= CAPACITY ==> stored_addresses(*final(v)) == stored_addresses(*old(v)),
{
    v.push(d).err()
}

/// Relies on the length of the slice behind a `heapless::Vec`: the number of
/// devices stored, which never exceeds the capacity.
#[verifier::external_body]
pub(crate) fn device_len(v: &DeviceVec) -> (r: usize)
    ensures
        r == stored_addresses(*v).len(),
        r <= CAPACITY,
{
    v.len()
}

/// Relies on `heapless::Vec::is_empty`: whether no device is stored.
#[verifier::external_body]
pub(crate) fn devices_empty(v: &DeviceVec) -> (r: bool)
    ensures
        r == (stored_addresses(*v).len() == 0),
{
    v.is_empty()
}

/// Relies on `heapless::Vec::clone`: a vector with a copy of each device, in
/// the same order.
#[verifier::external_body]
pub(crate) fn clone_devices(v: &DeviceVec) -> (r: DeviceVec)
    ensures
        stored_addresses(r) == stored_addresses(*v),
{
    v.clone()
}

/// Relies on indexing the slice behind a `heapless::Vec`: the device stored
/// at position `i`.
#[verifier::external_body]
pub(crate) fn device_at(v: &DeviceVec, i: usize) -> (r: I2CDevice)
    requires
        i < stored_addresses(*v).len(),
    ensures
        r.address == stored_addresses(*v)[i as int],
{
    v[i]
}

} // verus!
