use i2c_scanner::{classify, clamp_address, I2CDevice, I2CScanner, I2cBus, ProbeOutcome, ScanResult};

#[derive(Debug, PartialEq)]
struct Nack;

struct MockBus {
    present: Vec<u8>,
    writes: Vec<u8>,
}

impl MockBus {
    fn with(present: &[u8]) -> MockBus {
        MockBus { present: present.to_vec(), writes: Vec::new() }
    }
}

impl I2cBus for MockBus {
    type Error = Nack;

    fn write_empty(&mut self, address: u8) -> Result<(), Nack> {
        self.writes.push(address);
        if self.present.contains(&address) {
            Ok(())
        } else {
            Err(Nack)
        }
    }
}

fn addresses(r: &ScanResult) -> Vec<u8> {
    r.devices.iter().map(|d| d.address).collect()
}

fn result_of(addrs: &[u8]) -> ScanResult {
    let mut devices = heapless::Vec::new();
    for &address in addrs {
        devices.push(I2CDevice { address }).unwrap();
    }
    ScanResult { devices }
}

#[test]
fn full_scan_finds_exactly_acknowledged() {
    let present = [1u8, 8, 42, 99, 127];
    let mut scanner = I2CScanner::new(MockBus::with(&present));
    let r = scanner.scan().unwrap();
    for a in 1..=127u8 {
        assert_eq!(r.contains_address(a), present.contains(&a), "address {}", a);
    }
    assert_eq!(r.device_count(), 5);
}

#[test]
fn full_scan_probes_each_address_once_ascending() {
    let mut scanner = I2CScanner::new(MockBus::with(&[]));
    scanner.scan().unwrap();
    let bus = scanner.release();
    assert_eq!(bus.writes, (1..=127u8).collect::<Vec<u8>>());
}

#[test]
fn full_scan_result_strictly_ascending() {
    let mut scanner = I2CScanner::new(MockBus::with(&[100, 3, 50, 10, 127, 1]));
    let r = scanner.scan().unwrap();
    let a = addresses(&r);
    assert_eq!(a, vec![1, 3, 10, 50, 100, 127]);
    assert!(a.windows(2).all(|w| w[0] < w[1]));
}

#[test]
fn full_scan_ignores_general_call_address() {
    let mut scanner = I2CScanner::new(MockBus::with(&[0, 5]));
    let r = scanner.scan().unwrap();
    assert_eq!(addresses(&r), vec![5]);
}

#[test]
fn scan_with_no_devices_is_empty() {
    let mut scanner = I2CScanner::new(MockBus::with(&[]));
    let r = scanner.scan().unwrap();
    assert!(r.is_empty());
    assert_eq!(r.device_count(), 0);
}

#[test]
fn scan_with_every_device_present() {
    let all: Vec<u8> = (0..=255u8).collect();
    let mut scanner = I2CScanner::new(MockBus::with(&all));
    let r = scanner.scan().unwrap();
    assert_eq!(r.device_count(), 127);
    assert_eq!(addresses(&r), (1..=127u8).collect::<Vec<u8>>());
}

#[test]
fn inverted_range_is_empty() {
    let mut scanner = I2CScanner::new(MockBus::with(&[10, 20, 30]));
    let r = scanner.scan_range(30, 10).unwrap();
    assert!(r.is_empty());
    assert_eq!(r.device_count(), 0);
    assert!(scanner.release().writes.is_empty());
}

#[test]
fn range_inverted_after_clamping_is_empty() {
    let mut scanner = I2CScanner::new(MockBus::with(&[127]));
    let r = scanner.scan_range(200, 0).unwrap();
    assert!(r.is_empty());
    assert_eq!(r.device_count(), 0);
}

#[test]
fn wide_range_matches_full_scan() {
    let present = [2u8, 16, 66, 127];
    let mut a = I2CScanner::new(MockBus::with(&present));
    let mut b = I2CScanner::new(MockBus::with(&present));
    let full = a.scan().unwrap();
    let wide = b.scan_range(0, 200).unwrap();
    assert_eq!(addresses(&full), addresses(&wide));
    assert_eq!(a.release().writes, b.release().writes);
}

#[test]
fn bounded_range_probes_only_inside() {
    let mut scanner = I2CScanner::new(MockBus::with(&[5, 10, 20, 21, 40]));
    let r = scanner.scan_range(10, 21).unwrap();
    assert_eq!(addresses(&r), vec![10, 20, 21]);
    assert_eq!(scanner.release().writes, (10..=21u8).collect::<Vec<u8>>());
}

#[test]
fn single_address_range() {
    let mut scanner = I2CScanner::new(MockBus::with(&[64]));
    assert_eq!(addresses(&scanner.scan_range(64, 64).unwrap()), vec![64]);
    assert!(scanner.scan_range(65, 65).unwrap().is_empty());
}

#[test]
fn check_address_out_of_range_does_not_touch_bus() {
    let all: Vec<u8> = (0..=255u8).collect();
    let mut scanner = I2CScanner::new(MockBus::with(&all));
    assert_eq!(scanner.check_address(128), Ok(false));
    assert_eq!(scanner.check_address(255), Ok(false));
    assert_eq!(scanner.check_address(0), Ok(false));
    assert!(scanner.release().writes.is_empty());
}

#[test]
fn check_address_reports_acknowledgement() {
    let mut scanner = I2CScanner::new(MockBus::with(&[16, 127]));
    assert_eq!(scanner.check_address(16), Ok(true));
    assert_eq!(scanner.check_address(17), Ok(false));
    assert_eq!(scanner.check_address(127), Ok(true));
    assert_eq!(scanner.check_address(1), Ok(false));
    assert_eq!(scanner.release().writes, vec![16, 17, 127, 1]);
}

#[test]
fn find_in_range_yields_inside_in_order() {
    let r = result_of(&[3, 10, 50, 100]);
    let found: Vec<u8> = r.find_in_range(10, 50).iter().map(|d| d.address).collect();
    assert_eq!(found, vec![10, 50]);
    let again: Vec<u8> = r.find_in_range(10, 50).iter().map(|d| d.address).collect();
    assert_eq!(again, vec![10, 50]);
}

#[test]
fn find_in_range_edges() {
    let r = result_of(&[3, 10, 50, 100]);
    assert!(r.find_in_range(11, 49).is_empty());
    assert!(r.find_in_range(50, 10).is_empty());
    assert_eq!(r.find_in_range(0, 255).len(), 4);
    assert!(result_of(&[]).find_in_range(0, 255).is_empty());
}

#[test]
fn result_queries() {
    let r = result_of(&[3, 10, 50, 100]);
    assert_eq!(r.device_count(), 4);
    assert!(!r.is_empty());
    assert!(r.contains_address(50));
    assert!(!r.contains_address(51));
    let e = result_of(&[]);
    assert!(e.is_empty());
    assert!(!e.contains_address(0));
}

#[test]
fn end_to_end_two_devices() {
    let mut scanner = I2CScanner::new(MockBus::with(&[0x10, 0x42]));
    let r = scanner.scan().unwrap();
    assert_eq!(r.device_count(), 2);
    assert!(r.contains_address(16));
    assert!(r.contains_address(66));
    assert!(!r.contains_address(17));
}

#[test]
fn released_bus_serves_a_new_scanner_alike() {
    let mut first = I2CScanner::new(MockBus::with(&[0x10, 0x42]));
    let before = addresses(&first.scan().unwrap());
    let mut bus = first.release();
    bus.writes.clear();
    let mut second = I2CScanner::new(bus);
    let after = addresses(&second.scan().unwrap());
    assert_eq!(before, after);
    assert_eq!(second.release().present, vec![0x10, 0x42]);
}

#[test]
fn classify_reads_bus_answers() {
    assert!(matches!(classify::<Nack>(Ok(())), ProbeOutcome::Present));
    assert!(matches!(classify(Err(Nack)), ProbeOutcome::Absent));
}

#[test]
fn clamp_address_values() {
    assert_eq!(clamp_address(0), 1);
    assert_eq!(clamp_address(1), 1);
    assert_eq!(clamp_address(64), 64);
    assert_eq!(clamp_address(127), 127);
    assert_eq!(clamp_address(128), 127);
    assert_eq!(clamp_address(200), 127);
}

#[test]
fn record_appends_only_answered_addresses() {
    let mut r = result_of(&[]);
    r.record(5, true);
    r.record(6, false);
    r.record(9, true);
    assert_eq!(addresses(&r), vec![5, 9]);
}

#[test]
fn record_drops_device_when_full() {
    let full: Vec<u8> = (0..128u32).map(|i| i as u8).collect();
    let mut r = result_of(&full);
    assert_eq!(r.device_count(), 128);
    r.record(7, true);
    assert_eq!(r.device_count(), 128);
    assert_eq!(addresses(&r), full);
}

#[test]
fn into_presence_maps_each_outcome() {
    assert_eq!(ProbeOutcome::<Nack>::Present.into_presence(), Ok(true));
    assert_eq!(ProbeOutcome::<Nack>::Absent.into_presence(), Ok(false));
    assert_eq!(ProbeOutcome::Fault(Nack).into_presence(), Err(Nack));
}

#[test]
fn cloned_result_holds_same_devices() {
    let r = result_of(&[3, 10, 50, 100]);
    let c = r.clone();
    assert_eq!(addresses(&c), vec![3, 10, 50, 100]);
    assert_eq!(c.device_count(), 4);
}
