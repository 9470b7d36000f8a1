use xboot::madt::{InterruptController, MadtError, MultipleAPICDescTable};

fn fix_checksum(table: &mut Vec<u8>) {
    table[9] = 0;
    let sum: u32 = table.iter().map(|&b| b as u32).sum();
    table[9] = ((256 - (sum % 256)) % 256) as u8;
}

fn make_madt(local_ic_addr: u32, flags: u32, records: &[u8]) -> Vec<u8> {
    let length = 44 + records.len();
    let mut t = vec![0u8; 36];
    t[0..4].copy_from_slice(b"APIC");
    t[4..8].copy_from_slice(&(length as u32).to_le_bytes());
    t[8] = 5;
    t.extend_from_slice(&local_ic_addr.to_le_bytes());
    t.extend_from_slice(&flags.to_le_bytes());
    t.extend_from_slice(records);
    fix_checksum(&mut t);
    t
}

fn record(tag: u8, len: u8) -> Vec<u8> {
    let mut r = vec![tag, len];
    r.resize(len as usize, 0xEE);
    r
}

#[test]
fn traversal_yields_records_in_order_and_consumes_exactly() {
    let mut records = Vec::new();
    records.extend(record(0, 8));
    records.extend(record(1, 12));
    records.extend(record(2, 10));
    assert_eq!(records.len(), 30);
    let table = make_madt(0xFEE0_0000, 0, &records);
    let madt = MultipleAPICDescTable::parse(&table).unwrap();
    let recs = madt.decode_all().unwrap();
    assert_eq!(recs.len(), 3);
    match recs[0] {
        InterruptController::ProcessorLocalAPIC(r) => {
            assert_eq!((r.type_, r.length, r.offset), (0, 8, 0));
        }
        _ => panic!("first record has the wrong variant"),
    }
    match recs[1] {
        InterruptController::InputOutputAPIC(r) => {
            assert_eq!((r.type_, r.length, r.offset), (1, 12, 8));
        }
        _ => panic!("second record has the wrong variant"),
    }
    match recs[2] {
        InterruptController::IntrSourceOverride(r) => {
            assert_eq!((r.type_, r.length, r.offset), (2, 10, 20));
        }
        _ => panic!("third record has the wrong variant"),
    }
    let consumed: usize = recs
        .iter()
        .map(|ic| match ic {
            InterruptController::ProcessorLocalAPIC(r)
            | InterruptController::InputOutputAPIC(r)
            | InterruptController::IntrSourceOverride(r) => r.length as usize,
            _ => 0,
        })
        .sum();
    assert_eq!(consumed, 30);
}

#[test]
fn iterator_steps_through_and_then_stays_at_the_end() {
    let mut records = Vec::new();
    records.extend(record(9, 16));
    let table = make_madt(0, 0, &records);
    let madt = MultipleAPICDescTable::parse(&table).unwrap();
    let mut iter = madt.as_iter();
    assert!(matches!(
        iter.next(&madt.body),
        Ok(Some(InterruptController::ProcessorLocalx2APIC(_)))
    ));
    assert!(matches!(iter.next(&madt.body), Ok(None)));
    assert!(matches!(iter.next(&madt.body), Ok(None)));
}

#[test]
fn overrun_is_rejected_not_decoded() {
    let mut records = Vec::new();
    records.extend(record(0, 8));
    let mut last = record(1, 12);
    last[1] = 200; // claims to extend far past the table end
    records.extend(last);
    let table = make_madt(0, 0, &records);
    let madt = MultipleAPICDescTable::parse(&table).unwrap();
    assert!(matches!(madt.decode_all(), Err(MadtError::RecordOverrun)));
}

#[test]
fn undersized_record_length_is_rejected() {
    let mut records = record(0, 8);
    records[1] = 1; // below the 2-byte record prefix
    let table = make_madt(0, 0, &records);
    let madt = MultipleAPICDescTable::parse(&table).unwrap();
    assert!(matches!(madt.decode_all(), Err(MadtError::RecordTooShort)));
}

#[test]
fn trailing_fragment_is_rejected() {
    let mut records = record(0, 8);
    records.push(3); // one stray byte, no room for a record prefix
    let table = make_madt(0, 0, &records);
    let madt = MultipleAPICDescTable::parse(&table).unwrap();
    assert!(matches!(madt.decode_all(), Err(MadtError::RecordTooShort)));
}

#[test]
fn parse_rejects_a_table_shorter_than_the_prefix() {
    let table = vec![0u8; 40];
    assert!(matches!(
        MultipleAPICDescTable::parse(&table),
        Err(MadtError::TooShort)
    ));
}

#[test]
fn parse_reads_base_address_and_flags() {
    let table = make_madt(0xFEE0_0000, 1, &[]);
    let madt = MultipleAPICDescTable::parse(&table).unwrap();
    assert_eq!(madt.local_ic_addr(), 0xFEE0_0000);
    assert!(madt.flags.pcat_compat());
    assert!(madt.decode_all().unwrap().is_empty());
}

#[test]
fn pcat_compat_reads_only_the_lowest_bit() {
    let table = make_madt(0, 2, &[]);
    let madt = MultipleAPICDescTable::parse(&table).unwrap();
    assert!(!madt.flags.pcat_compat());
}

#[test]
fn record_bytes_returns_the_exact_extent() {
    let mut records = Vec::new();
    records.extend(record(0, 8));
    records.extend(vec![1, 4, 0xAB, 0xCD]);
    let table = make_madt(0, 0, &records);
    let madt = MultipleAPICDescTable::parse(&table).unwrap();
    let recs = madt.decode_all().unwrap();
    match recs[1] {
        InterruptController::InputOutputAPIC(r) => {
            assert_eq!(madt.record_bytes(r), vec![1, 4, 0xAB, 0xCD]);
        }
        _ => panic!("second record has the wrong variant"),
    }
}

#[test]
fn reserved_and_oem_tags_decode_to_catch_all_variants() {
    let mut records = Vec::new();
    records.extend(record(0x20, 4));
    records.extend(record(0x90, 6));
    let table = make_madt(0, 0, &records);
    let madt = MultipleAPICDescTable::parse(&table).unwrap();
    let recs = madt.decode_all().unwrap();
    assert!(matches!(recs[0], InterruptController::Reserved(_)));
    assert!(matches!(recs[1], InterruptController::OemReserved(_)));
}
