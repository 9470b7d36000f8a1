use xboot::handoff::{Handoff, HandoffStage, KERNEL_STACK_SIZE};
use xboot::memmap::{
    FirmwareMemoryDescriptor, FirmwareMemoryKind, KernelMemoryMapEntry, MemoryKind, MemoryTracker,
    PhysRange,
};
use xboot::setup::{decide_boot_flags, get_rsdp, pa_to_kern_va, ConfigTableEntry, ACPI2_GUID,
    ACPI_GUID, HIGHER_HALF_OFFSET};

fn desc(base: u64, len: u64, kind: FirmwareMemoryKind) -> FirmwareMemoryDescriptor {
    FirmwareMemoryDescriptor { range: PhysRange { base, len }, kind }
}

#[test]
fn pinned_range_overrides_a_free_classification() {
    let mut tracker = MemoryTracker::new();
    tracker.pin(PhysRange { base: 0x5000, len: 0x1000 });
    let descs = vec![
        desc(0x0, 0x4000, FirmwareMemoryKind::Conventional),
        desc(0x4000, 0x4000, FirmwareMemoryKind::Conventional),
    ];
    let map = tracker.finalize(&descs);
    assert_eq!(map.len(), 2);
    assert_eq!(map[0].kind, MemoryKind::Usable);
    assert_eq!(map[1].kind, MemoryKind::Reserved);
    assert_eq!(map[1].range, PhysRange { base: 0x4000, len: 0x4000 });
}

#[test]
fn classification_maps_firmware_kinds() {
    let tracker = MemoryTracker::new();
    let usable = tracker.classify(desc(0, 0x1000, FirmwareMemoryKind::BootServicesData));
    assert_eq!(usable.unwrap().kind, MemoryKind::Usable);
    let reclaim = tracker.classify(desc(0, 0x1000, FirmwareMemoryKind::AcpiReclaimable));
    assert_eq!(reclaim.unwrap().kind, MemoryKind::Reclaimable);
    let mmio = tracker.classify(desc(0, 0x1000, FirmwareMemoryKind::Mmio));
    assert_eq!(mmio.unwrap().kind, MemoryKind::Mmio);
    let loader = tracker.classify(desc(0, 0x1000, FirmwareMemoryKind::LoaderData));
    assert_eq!(loader.unwrap().kind, MemoryKind::Reserved);
    assert!(tracker.classify(desc(0, 0x1000, FirmwareMemoryKind::Unusable)).is_none());
}

#[test]
fn touching_but_disjoint_ranges_do_not_demote() {
    let mut tracker = MemoryTracker::new();
    tracker.pin(PhysRange { base: 0x2000, len: 0x1000 });
    let entry = tracker
        .classify(desc(0x3000, 0x1000, FirmwareMemoryKind::Conventional))
        .unwrap();
    assert_eq!(entry.kind, MemoryKind::Usable);
}

#[test]
fn rsdp_discovery_prefers_the_revision_two_entry() {
    let entries = vec![
        ConfigTableEntry { guid: 0x1234, address: 0x111 },
        ConfigTableEntry { guid: ACPI_GUID, address: 0x8000 },
        ConfigTableEntry { guid: ACPI2_GUID, address: 0x9000 },
    ];
    assert_eq!(get_rsdp(&entries), Some(0x9000 + HIGHER_HALF_OFFSET));
}

#[test]
fn rsdp_discovery_falls_back_to_the_revision_one_entry() {
    let entries = vec![ConfigTableEntry { guid: ACPI_GUID, address: 0x8000 }];
    assert_eq!(get_rsdp(&entries), Some(0x8000 + HIGHER_HALF_OFFSET));
}

#[test]
fn rsdp_discovery_fails_without_either_entry() {
    let entries = vec![ConfigTableEntry { guid: 0x5555, address: 0x8000 }];
    assert_eq!(get_rsdp(&entries), None);
}

#[test]
fn boot_flags_default_when_the_timer_wins() {
    assert_eq!(decide_boot_flags(true, &vec![b'v']), (false, false));
}

#[test]
fn boot_flags_first_deciding_key_wins() {
    assert_eq!(decide_boot_flags(false, &vec![b'x', b'v', b's']), (true, false));
    assert_eq!(decide_boot_flags(false, &vec![b's']), (false, true));
    assert_eq!(decide_boot_flags(false, &vec![b'q', b'w']), (false, false));
}

#[test]
fn address_translation_adds_the_higher_half_offset() {
    assert_eq!(pa_to_kern_va(0x1000), 0xFFFF_8000_0000_1000);
}

#[test]
fn handoff_runs_the_full_sequence_in_order() {
    let mut h = Handoff::new();
    assert_eq!(h.stage, HandoffStage::PagingTakeover);

    h.paging_ready();
    assert_eq!(h.stage, HandoffStage::FlagNegotiation);

    h.negotiate_flags(false, &vec![b'v']);
    assert_eq!(h.stage, HandoffStage::ImageAcquisition);
    assert!(h.verbose);
    assert!(!h.serial_enabled);

    h.acquire_images(
        PhysRange { base: 0x10_0000, len: 0x8000 },
        PhysRange { base: 0x20_0000, len: 0x2000 },
    );
    assert_eq!(h.stage, HandoffStage::ImageLinking);

    h.link_image(0xFFFF_8000_0010_0000, 0x30_0000);
    assert_eq!(h.stage, HandoffStage::StackAllocation);

    h.allocate_stack(0x40_0000);
    assert_eq!(h.stage, HandoffStage::BootInfoConstruction);

    h.build_boot_info(
        Some(0x50_0000),
        0x9000 + HIGHER_HALF_OFFSET,
        PhysRange { base: 0x60_0000, len: 0x1000 },
    );
    assert_eq!(h.stage, HandoffStage::FirmwareExit);

    h.exit_firmware();
    assert_eq!(h.stage, HandoffStage::MapFinalization);

    let descs = vec![
        desc(0x0, 0x10_0000, FirmwareMemoryKind::Conventional),
        desc(0x10_0000, 0x30_0000, FirmwareMemoryKind::Conventional),
        desc(0x40_0000, 0x100_0000, FirmwareMemoryKind::Conventional),
        desc(0xFEE0_0000, 0x1000, FirmwareMemoryKind::Mmio),
    ];
    h.finalize_map(&descs);
    assert_eq!(h.stage, HandoffStage::Transfer);

    let (entry, stack_top) = h.transfer_args();
    assert_eq!(entry, 0xFFFF_8000_0010_0000);
    assert_eq!(stack_top, 0x40_0000 + KERNEL_STACK_SIZE + HIGHER_HALF_OFFSET);

    let info = h.boot_info_ref();
    assert_eq!(info.symbols, 0x30_0000 + HIGHER_HALF_OFFSET);
    assert!(info.verbose);
    assert!(!info.serial_enabled);
    assert_eq!(info.framebuffer, Some(0x50_0000 + HIGHER_HALF_OFFSET));
    assert_eq!(info.rsdp, 0x9000 + HIGHER_HALF_OFFSET);
    assert_eq!(info.cache_base, 0x20_0000 + HIGHER_HALF_OFFSET);
    assert_eq!(info.cache_len, 0x2000);

    let map: &Vec<KernelMemoryMapEntry> = info.memory_map.as_ref().unwrap();
    assert_eq!(map.len(), 4);
    // the first megabyte is untouched by any pin
    assert_eq!(map[0].kind, MemoryKind::Usable);
    // the kernel image and cache were pinned inside this descriptor
    assert_eq!(map[1].kind, MemoryKind::Reserved);
    // the stack and boot-info backing were pinned inside this one
    assert_eq!(map[2].kind, MemoryKind::Reserved);
    assert_eq!(map[3].kind, MemoryKind::Mmio);
}

#[test]
fn handoff_abort_halts_before_the_exit() {
    let mut h = Handoff::new();
    h.paging_ready();
    h.abort();
    assert_eq!(h.stage, HandoffStage::Aborted);
}
