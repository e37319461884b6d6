use vstd::prelude::*;
use crate::device::I2CDevice;
use crate::storage::{clone_devices, device_at, device_len, devices_empty, push_device, stored_addresses, DeviceVec, CAPACITY};

verus! {

/// The addresses of `s` that lie in `[start, end]`, in their order in `s`.
pub open spec fn addresses_within(s: Seq<u8>, start: u8, end: u8) -> Seq<u8>
    decreases s.len(),
{
    if s.len() == 0 {
        Seq::empty()
    } else {
        let earlier = addresses_within(s.drop_last(), start, end);
        if start <= s.last() && s.last() <= end {
            earlier.push(s.last())
        } else {
            earlier
        }
    }
}

/// The addresses of a sequence of devices.
pub open spec fn device_addresses(ds: Seq<I2CDevice>) -> Seq<u8> {
    ds.map_values(|d: I2CDevice| d.address)
}

/// The devices that answered during one scan, in the order they were probed.
#[derive(Debug)]
pub struct ScanResult {
    pub devices: DeviceVec,
}

impl Clone for ScanResult {
    /// A result with the same devices.
    fn clone(&self) -> (r: Self)
        ensures
            r.addresses() == self.addresses(),
    {
        ScanResult { devices: clone_devices(&self.devices) }
    }
}

impl ScanResult {
    /// The addresses of the devices held, first to last.
    pub open spec fn addresses(&self) -> Seq<u8> {
        stored_addresses(self.devices)
    }

    /// Notes the answer of a probe of `address`: a device that answered is
    /// appended, unless the result is full, in which case it is dropped.
    pub fn record(&mut self, address: u8, present: bool)
        ensures
            present && old(self).addresses().len() < CAPACITY ==> final(self).addresses()
                == old(self).addresses().push(address),
            !present || old(self).addresses().len() >= CAPACITY ==> final(self).addresses()
                == old(self).addresses(),
    {
        if present {
            match push_device(&mut self.devices, I2CDevice { address }) {
                None => {},
                Some(_dropped) => {},
            }
        }
    }

    /// How many devices were found.
    pub fn device_count(&self) -> (r: usize)
        ensures
            r == self.addresses().len(),
            r <= CAPACITY,
    {
        device_len(&self.devices)
    }

    /// Whether no device was found.
    pub fn is_empty(&self) -> (r: bool)
        ensures
            r == (self.addresses().len() == 0),
    {
        devices_empty(&self.devices)
    }

    /// Whether a device with exactly this address was found.
    pub fn contains_address(&self, address: u8) -> (r: bool)
        ensures
            r == self.addresses().contains(address),
    {
        let n = device_len(&self.devices);
        let mut i: usize = 0;
        while i < n
            invariant
                n == self.addresses().len(),
                i <= n,
                forall|j: int| 0 <= j < i ==> self.addresses()[j] != address,
            decreases n - i,
        {
            if device_at(&self.devices, i).address == address {
                return true;
            }
            i = i + 1;
        }
        false
    }

    /// The devices whose address lies in `[start, end]`, in the order in
    /// which they were found.
    pub fn find_in_range(&self, start: u8, end: u8) -> (r: Vec<I2CDevice>)
        ensures
            device_addresses(r@) == addresses_within(self.addresses(), start, end),
    {
        let n = device_len(&self.devices);
        let mut found: Vec<I2CDevice> = Vec::new();
        let mut i: usize = 0;
        while i < n
            invariant
                n == self.addresses().len(),
                i <= n,
                device_addresses(found@) == addresses_within(self.addresses().take(i as int), start, end),
            decreases n - i,
        {
            let d = device_at(&self.devices, i);
            proof {
                assert(self.addresses().take(i + 1).drop_last() =~= self.addresses().take(i as int));
            }
            if start <= d.address && d.address <= end {
                found.push(d);
            }
            proof {
                assert(device_addresses(found@) =~= addresses_within(self.addresses().take(i + 1), start, end));
            }
            i = i + 1;
        }
        proof {
            assert(self.addresses().take(n as int) =~= self.addresses());
        }
        found
    }
}

} // verus!
