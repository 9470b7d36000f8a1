use xboot::acpi::{Acpi, AcpiError, FirmwareTable};
use xboot::sdt::{read_le_u32, signature_key, validate, validate_sdt};

fn fix_checksum(table: &mut Vec<u8>) {
    table[9] = 0;
    let sum: u32 = table.iter().map(|&b| b as u32).sum();
    table[9] = ((256 - (sum % 256)) % 256) as u8;
}

fn make_sdt(sig: &[u8; 4], body: &[u8]) -> Vec<u8> {
    let length = 36 + body.len();
    let mut t = vec![0u8; 36];
    t[0..4].copy_from_slice(sig);
    t[4..8].copy_from_slice(&(length as u32).to_le_bytes());
    t[8] = 1;
    t.extend_from_slice(body);
    fix_checksum(&mut t);
    t
}

fn make_root(sig: &[u8; 4], ptrs64: &[u64], wide: bool) -> Vec<u8> {
    let mut body = Vec::new();
    for &p in ptrs64 {
        if wide {
            body.extend_from_slice(&p.to_le_bytes());
        } else {
            body.extend_from_slice(&(p as u32).to_le_bytes());
        }
    }
    make_sdt(sig, &body)
}

#[test]
fn checksum_zero_sum_passes() {
    let b = vec![1u8, 2, 3, 250];
    assert!(validate(&b, 4));
}

#[test]
fn checksum_nonzero_sum_fails() {
    let b = vec![1u8, 2, 3];
    assert!(!validate(&b, 3));
}

#[test]
fn checksum_empty_prefix_passes() {
    let b = vec![7u8, 9];
    assert!(validate(&b, 0));
}

#[test]
fn checksum_covers_only_the_prefix() {
    let b = vec![1u8, 255, 7];
    assert!(validate(&b, 2));
    assert!(!validate(&b, 3));
}

#[test]
fn sdt_validation_accepts_a_well_formed_table() {
    let t = make_sdt(b"FACP", &[1, 2, 3]);
    assert!(validate_sdt(&t));
}

#[test]
fn sdt_validation_rejects_a_corrupted_table() {
    let mut t = make_sdt(b"FACP", &[1, 2, 3]);
    t[20] ^= 0xFF;
    assert!(!validate_sdt(&t));
}

#[test]
fn sdt_validation_rejects_a_truncated_header() {
    let t = vec![0u8; 20];
    assert!(!validate_sdt(&t));
}

#[test]
fn signature_key_packs_little_endian() {
    assert_eq!(signature_key(b"APIC"), 0x43495041);
}

#[test]
fn le_u32_reads_exact_value() {
    let b = vec![0x78u8, 0x56, 0x34, 0x12];
    assert_eq!(read_le_u32(&b, 0), 0x12345678);
}

#[test]
fn root_walk_indexes_valid_tables_only() {
    let good1 = make_sdt(b"APIC", &[0, 0, 0, 0, 0, 0, 0, 0]);
    let good2 = make_sdt(b"HPET", &[5, 6]);
    let mut bad = make_sdt(b"FACP", &[9]);
    bad[30] ^= 0x5A; // breaks the checksum
    let firmware = vec![
        FirmwareTable { addr: 0x1000, bytes: good1.clone() },
        FirmwareTable { addr: 0x2000, bytes: good2.clone() },
        FirmwareTable { addr: 0x3000, bytes: bad },
    ];
    let root = make_root(b"RSDT", &[0x1000, 0x2000, 0x3000, 0x4000], false);
    let acpi = Acpi::new(0, &root, &firmware).unwrap();
    assert_eq!(acpi.version, 0);
    assert_eq!(acpi.table_count(), 2);
    assert_eq!(acpi.find(b"APIC"), Some(&good1));
    assert_eq!(acpi.find(b"HPET"), Some(&good2));
    assert_eq!(acpi.find(b"FACP"), None);
    assert_eq!(acpi.find(b"SSDT"), None);
}

#[test]
fn root_walk_rejects_duplicate_signatures() {
    let a = make_sdt(b"SSDT", &[1]);
    let b = make_sdt(b"SSDT", &[2, 2]);
    let firmware = vec![
        FirmwareTable { addr: 0x1000, bytes: a },
        FirmwareTable { addr: 0x2000, bytes: b },
    ];
    let root = make_root(b"RSDT", &[0x1000, 0x2000], false);
    assert!(matches!(Acpi::new(0, &root, &firmware), Err(AcpiError::DuplicateSignature)));
}

#[test]
fn root_walk_rejects_a_malformed_root() {
    let firmware: Vec<FirmwareTable> = Vec::new();
    let root = vec![0u8; 10];
    assert!(matches!(Acpi::new(0, &root, &firmware), Err(AcpiError::InvalidRootTable)));
}

#[test]
fn root_walk_with_wide_pointers_uses_xsdt_layout() {
    let good = make_sdt(b"MCFG", &[4, 4, 4, 4]);
    let firmware = vec![FirmwareTable { addr: 0xFEDC_0000_1000, bytes: good.clone() }];
    let root = make_root(b"XSDT", &[0xFEDC_0000_1000], true);
    let acpi = Acpi::new(2, &root, &firmware).unwrap();
    assert_eq!(acpi.version, 2);
    assert_eq!(acpi.table_count(), 1);
    assert_eq!(acpi.find(b"MCFG"), Some(&good));
}
