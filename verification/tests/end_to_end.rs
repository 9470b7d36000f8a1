use xboot::acpi::{Acpi, FirmwareTable};
use xboot::madt::{InterruptController, MultipleAPICDescTable};

fn fix_checksum(table: &mut Vec<u8>) {
    table[9] = 0;
    let sum: u32 = table.iter().map(|&b| b as u32).sum();
    table[9] = ((256 - (sum % 256)) % 256) as u8;
}

fn header(sig: &[u8; 4], length: usize) -> Vec<u8> {
    let mut t = vec![0u8; 36];
    t[0..4].copy_from_slice(sig);
    t[4..8].copy_from_slice(&(length as u32).to_le_bytes());
    t[8] = 2;
    t
}

#[test]
fn revision_two_root_to_decoded_interrupt_topology() {
    // One processor-local-APIC record and one I/O-APIC record.
    let lapic: [u8; 8] = [0, 8, 1, 1, 1, 0, 0, 0];
    let ioapic: [u8; 12] = [1, 12, 2, 0, 0, 0, 0xC0, 0, 0, 0, 0, 0];

    let mut madt_bytes = header(b"APIC", 44 + 8 + 12);
    madt_bytes.extend_from_slice(&0xFEE0_0000u32.to_le_bytes()); // local APIC base
    madt_bytes.extend_from_slice(&1u32.to_le_bytes()); // pcat_compat set
    madt_bytes.extend_from_slice(&lapic);
    madt_bytes.extend_from_slice(&ioapic);
    fix_checksum(&mut madt_bytes);

    let madt_addr: u64 = 0x7FF0_0000;
    let mut xsdt = header(b"XSDT", 36 + 8);
    xsdt.extend_from_slice(&madt_addr.to_le_bytes());
    fix_checksum(&mut xsdt);

    let firmware = vec![FirmwareTable { addr: madt_addr, bytes: madt_bytes }];

    let acpi = Acpi::new(2, &xsdt, &firmware).unwrap();
    assert_eq!(acpi.version, 2);
    assert_eq!(acpi.table_count(), 1);

    let table = acpi.find(b"APIC").expect("the MADT must be indexed under APIC");
    let madt = MultipleAPICDescTable::parse(table).unwrap();
    assert_eq!(madt.local_ic_addr(), 0xFEE0_0000);
    assert!(madt.flags.pcat_compat());

    let recs = madt.decode_all().unwrap();
    assert_eq!(recs.len(), 2);
    assert!(matches!(recs[0], InterruptController::ProcessorLocalAPIC(_)));
    assert!(matches!(recs[1], InterruptController::InputOutputAPIC(_)));
}
