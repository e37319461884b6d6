use vstd::prelude::*;
use crate::device::{clamp_address, clamped, is_device_address, FIRST_ADDRESS, LAST_ADDRESS};
use crate::probe::{classify, I2cBus};
use crate::result::ScanResult;
use crate::storage::empty_devices;

verus! {

/// The addresses found by probing `first`, `first + 1`, ... in turn, where
/// `acks[i]` tells whether address `first + i` acknowledged.
pub open spec fn devices_of(first: int, acks: Seq<bool>) -> Seq<u8>
    decreases acks.len(),
{
    if acks.len() == 0 {
        Seq::empty()
    } else {
        let earlier = devices_of(first, acks.drop_last());
        if acks.last() {
            earlier.push((first + acks.len() - 1) as u8)
        } else {
            earlier
        }
    }
}

/// How many addresses `[first, last]` holds.
pub open spec fn span(first: int, last: int) -> int {
    if first <= last {
        last - first + 1
    } else {
        0
    }
}

/// The probes of `first`, `first + 1`, ... in turn, each with whether it
/// was acknowledged.
pub open spec fn probes_of(first: int, acks: Seq<bool>) -> Seq<(u8, bool)> {
    Seq::new(acks.len(), |i: int| ((first + i) as u8, acks[i]))
}

/// Whether a sweep of `[first, last]` may find `found` while the bus's
/// record of writes goes from `before` to `after`: every address of the range
/// is probed once, lowest first, and the ones acknowledged are found.
pub open spec fn sweep_outcome(
    first: int,
    last: int,
    found: Seq<u8>,
    before: Seq<(u8, bool)>,
    after: Seq<(u8, bool)>,
) -> bool {
    exists|acks: Seq<bool>|
        acks.len() == span(first, last) && found == devices_of(first, acks) && after == before
            + probes_of(first, acks)
}

/// Whether each address of `s` is below the next.
pub open spec fn strictly_ascending(s: Seq<u8>) -> bool {
    forall|i: int, j: int| 0 <= i < j < s.len() ==> s[i] < s[j]
}

/// A sweep finds at most one address per probe, each within the probed
/// addresses, in ascending order.
pub proof fn lemma_devices_of_bounds(first: int, acks: Seq<bool>)
    requires
        0 <= first,
        first + acks.len() <= 256,
    ensures
        devices_of(first, acks).len() <= acks.len(),
        strictly_ascending(devices_of(first, acks)),
        forall|i: int| 0 <= i < devices_of(first, acks).len() ==>
            first <= #[trigger] devices_of(first, acks)[i] < first + acks.len(),
    decreases acks.len(),
{
    if acks.len() > 0 {
        lemma_devices_of_bounds(first, acks.drop_last());
    }
}

/// An address is found by a sweep exactly when it was probed and
/// acknowledged.
pub proof fn lemma_devices_of_contains(first: int, acks: Seq<bool>, a: u8)
    requires
        0 <= first,
        first + acks.len() <= 256,
    ensures
        devices_of(first, acks).contains(a) <==> (first <= a < first + acks.len() && acks[a - first]),
    decreases acks.len(),
{
    if acks.len() > 0 {
        let earlier = acks.drop_last();
        lemma_devices_of_contains(first, earlier, a);
        lemma_devices_of_bounds(first, earlier);
        let d = devices_of(first, acks);
        if acks.last() {
            assert(d.last() == (first + acks.len() - 1) as u8);
            if d.contains(a) {
                let k = choose|k: int| 0 <= k < d.len() && d[k] == a;
                if k < d.len() - 1 {
                    assert(devices_of(first, earlier)[k] == a);
                }
            }
            if devices_of(first, earlier).contains(a) {
                let k = choose|k: int| 0 <= k < devices_of(first, earlier).len() && devices_of(first, earlier)[k] == a;
                assert(d[k] == a);
            }
            if a == first + acks.len() - 1 {
                assert(d[d.len() - 1] == a);
            }
        }
    }
}

/// A full scan finds exactly the acknowledged addresses: when the bus
/// acknowledges the probes of the addresses of `present` and no others, an
/// address is among those found exactly when it is in `present`.
pub proof fn lemma_full_scan_finds_acknowledged(
    found: Seq<u8>,
    before: Seq<(u8, bool)>,
    after: Seq<(u8, bool)>,
    present: Set<u8>,
    a: u8,
)
    requires
        sweep_outcome(FIRST_ADDRESS as int, LAST_ADDRESS as int, found, before, after),
        forall|i: int|
            before.len() <= i < after.len() ==> (#[trigger] after[i]).1 == present.contains(after[i].0),
        is_device_address(a as int),
    ensures
        found.contains(a) <==> present.contains(a),
{
    let first = FIRST_ADDRESS as int;
    let acks = choose|acks: Seq<bool>|
        acks.len() == span(first, LAST_ADDRESS as int) && found == devices_of(first, acks) && after
            == before + probes_of(first, acks);
    lemma_devices_of_contains(first, acks, a);
    let i = before.len() + (a - first);
    assert(after[i] == probes_of(first, acks)[a - first]);
}

/// What any sweep finds is strictly ascending, so free of repeats, and made
/// of probed addresses only.
pub proof fn lemma_sweep_ascending(
    first: int,
    last: int,
    found: Seq<u8>,
    before: Seq<(u8, bool)>,
    after: Seq<(u8, bool)>,
)
    requires
        is_device_address(first),
        is_device_address(last),
        sweep_outcome(first, last, found, before, after),
    ensures
        strictly_ascending(found),
        forall|i: int| 0 <= i < found.len() ==> first <= #[trigger] found[i] <= last,
{
    let acks = choose|acks: Seq<bool>|
        acks.len() == span(first, last) && found == devices_of(first, acks) && after == before
            + probes_of(first, acks);
    lemma_devices_of_bounds(first, acks);
}

/// A range that is empty once clamped finds nothing and probes nothing.
pub proof fn lemma_empty_range_finds_nothing(
    start: u8,
    end: u8,
    found: Seq<u8>,
    before: Seq<(u8, bool)>,
    after: Seq<(u8, bool)>,
)
    requires
        clamped(start as int) > clamped(end as int),
        sweep_outcome(clamped(start as int), clamped(end as int), found, before, after),
    ensures
        found.len() == 0,
        after == before,
{
    let first = clamped(start as int);
    let acks = choose|acks: Seq<bool>|
        acks.len() == span(first, clamped(end as int)) && found == devices_of(first, acks) && after
            == before + probes_of(first, acks);
    assert(acks.len() == 0);
    assert(after =~= before);
}

/// A range from 0 to 200 clamps to the full range: `scan_range(0, 200)` may
/// find exactly what `scan` may find.
pub proof fn lemma_wide_range_is_full_scan(found: Seq<u8>, before: Seq<(u8, bool)>, after: Seq<(u8, bool)>)
    ensures
        sweep_outcome(clamped(0), clamped(200), found, before, after) == sweep_outcome(
            FIRST_ADDRESS as int,
            LAST_ADDRESS as int,
            found,
            before,
            after,
        ),
{
}

/// A scanner holds nothing but its bus: the scanner built on the bus that
/// another gave back on release is that other scanner, and behaves as it did.
pub proof fn lemma_rebuilt_scanner_is_same<I2C: I2cBus>(s: I2CScanner<I2C>, t: I2CScanner<I2C>)
    requires
        t.bus() == s.bus(),
    ensures
        t == s,
{
}

/// Owns a bus and finds the devices on it.
pub struct I2CScanner<I2C> {
    i2c: I2C,
}

impl<I2C: I2cBus> I2CScanner<I2C> {
    /// The bus the scanner owns.
    pub closed spec fn bus(&self) -> I2C {
        self.i2c
    }

    /// A scanner that owns `i2c`.
    pub fn new(i2c: I2C) -> (r: Self)
        ensures
            r.bus() == i2c,
    {
        I2CScanner { i2c }
    }

    /// Probes `address` and reads the answer.
    fn check_address_internal(&mut self, address: u8) -> (r: Result<bool, I2C::Error>)
        requires
            address <= LAST_ADDRESS,
        ensures
            r is Ok,
            final(self).bus().acked() == old(self).bus().acked().push((address, r == Ok::<bool, I2C::Error>(true))),
    {
        classify(self.i2c.write_empty(address)).into_presence()
    }

    /// Probes every address of `[first, last]`, lowest first.
    fn sweep(&mut self, first: u8, last: u8) -> (r: Result<ScanResult, I2C::Error>)
        requires
            is_device_address(first as int),
            is_device_address(last as int),
        ensures
            r is Ok,
            sweep_outcome(first as int, last as int, r->Ok_0.addresses(), old(self).bus().acked(), final(self).bus().acked()),
    {
        let mut result = ScanResult { devices: empty_devices() };
        let ghost mut acks: Seq<bool> = Seq::empty();
        if first > last {
            assert(result.addresses() =~= devices_of(first as int, acks));
            assert(self.bus().acked() =~= old(self).bus().acked() + probes_of(first as int, acks));
            return Ok(result);
        }
        let mut address: u8 = first;
        while address <= last
            invariant
                is_device_address(first as int),
                is_device_address(last as int),
                first <= address <= last + 1,
                acks.len() == address - first,
                result.addresses() == devices_of(first as int, acks),
                self.bus().acked() == old(self).bus().acked() + probes_of(first as int, acks),
            decreases last + 1 - address,
        {
            let present = match self.check_address_internal(address) {
                Ok(p) => p,
                Err(e) => return Err(e),
            };
            proof {
                lemma_devices_of_bounds(first as int, acks);
                assert(acks.push(present).drop_last() =~= acks);
                assert(self.bus().acked() =~= old(self).bus().acked() + probes_of(first as int, acks.push(present)));
            }
            result.record(address, present);
            proof {
                acks = acks.push(present);
            }
            address = address + 1;
        }
        Ok(result)
    }

    /// Probes every address from `FIRST_ADDRESS` to `LAST_ADDRESS`, lowest
    /// first, and gathers the ones that acknowledge.
    pub fn scan(&mut self) -> (r: Result<ScanResult, I2C::Error>)
        ensures
            r is Ok,
            sweep_outcome(
                FIRST_ADDRESS as int,
                LAST_ADDRESS as int,
                r->Ok_0.addresses(),
                old(self).bus().acked(),
                final(self).bus().acked(),
            ),
    {
        self.sweep(FIRST_ADDRESS, LAST_ADDRESS)
    }

    /// Probes the addresses from `start` to `end`, both first moved into
    /// `[FIRST_ADDRESS, LAST_ADDRESS]`, lowest first; nothing is probed when
    /// the moved `start` lies above the moved `end`.
    pub fn scan_range(&mut self, start: u8, end: u8) -> (r: Result<ScanResult, I2C::Error>)
        ensures
            r is Ok,
            sweep_outcome(
                clamped(start as int),
                clamped(end as int),
                r->Ok_0.addresses(),
                old(self).bus().acked(),
                final(self).bus().acked(),
            ),
    {
        let first = clamp_address(start);
        let last = clamp_address(end);
        self.sweep(first, last)
    }

    /// Probes one address. An address outside `[FIRST_ADDRESS, LAST_ADDRESS]`
    /// is reported absent and the bus is not touched.
    pub fn check_address(&mut self, address: u8) -> (r: Result<bool, I2C::Error>)
        ensures
            r is Ok,
            is_device_address(address as int) ==> final(self).bus().acked() == old(self).bus().acked().push(
                (address, r == Ok::<bool, I2C::Error>(true)),
            ),
            !is_device_address(address as int) ==> r == Ok::<bool, I2C::Error>(false) && *final(self) == *old(self),
    {
        if address < FIRST_ADDRESS || address > LAST_ADDRESS {
            return Ok(false);
        }
        self.check_address_internal(address)
    }

    /// Gives the bus back, as the scanner's calls left it.
    pub fn release(self) -> (r: I2C)
        ensures
            r == self.bus(),
    {
        self.i2c
    }
}

} // verus!
