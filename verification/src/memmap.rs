//! Firmware memory tracking and kernel memory-map construction.
//!
//! The tracker records ("pins") physical ranges that must survive the
//! firmware exit — the loaded kernel image, the extension cache, the
//! stack and the handoff structures — and classifies the firmware's
//! final memory descriptors into the kernel's simplified region types.
//! A pinned range always wins: a descriptor the firmware reports as
//! free that overlaps a pinned range is emitted as reserved, never as
//! usable.

use vstd::prelude::*;

verus! {

/// A physical address range `[base, base + len)`.
#[derive(Clone, Copy, Debug, PartialEq, Eq, Structural)]
pub struct PhysRange {
    pub base: u64,
    pub len: u64,
}

/// The range's end fits the physical address space.
pub open spec fn spec_range_wf(r: PhysRange) -> bool {
    r.base + r.len <= u64::MAX
}

/// Two ranges share at least one address.
pub open spec fn spec_overlaps(a: PhysRange, b: PhysRange) -> bool {
    let lo = if a.base >= b.base {
        a.base as int
    } else {
        b.base as int
    };
    let hi_a = a.base + a.len;
    let hi_b = b.base + b.len;
    let hi = if hi_a <= hi_b {
        hi_a
    } else {
        hi_b
    };
    lo < hi
}

/// Region types as the firmware reports them at the moment boot
/// services are exited.
#[derive(Clone, Copy, Debug, PartialEq, Eq, Structural)]
pub enum FirmwareMemoryKind {
    Conventional,
    LoaderCode,
    LoaderData,
    BootServicesCode,
    BootServicesData,
    RuntimeServicesCode,
    RuntimeServicesData,
    AcpiReclaimable,
    AcpiNonVolatile,
    Mmio,
    MmioPortSpace,
    PalCode,
    PersistentMemory,
    Unusable,
    ReservedByFirmware,
}

/// One descriptor of the firmware's final memory map.
#[derive(Clone, Copy, Debug, PartialEq, Eq, Structural)]
pub struct FirmwareMemoryDescriptor {
    pub range: PhysRange,
    pub kind: FirmwareMemoryKind,
}

/// The kernel's simplified region types.
#[derive(Clone, Copy, Debug, PartialEq, Eq, Structural)]
pub enum MemoryKind {
    Usable,
    Reserved,
    Reclaimable,
    Mmio,
}

/// One entry of the kernel's memory map.
#[derive(Clone, Copy, Debug, PartialEq, Eq, Structural)]
pub struct KernelMemoryMapEntry {
    pub range: PhysRange,
    pub kind: MemoryKind,
}

/// The kernel-level type a firmware region type maps to, before pinning
/// is applied; kinds irrelevant to the kernel map to nothing.
pub open spec fn spec_classify_kind(kind: FirmwareMemoryKind) -> Option<MemoryKind> {
    match kind {
        FirmwareMemoryKind::Conventional => Some(MemoryKind::Usable),
        FirmwareMemoryKind::BootServicesCode => Some(MemoryKind::Usable),
        FirmwareMemoryKind::BootServicesData => Some(MemoryKind::Usable),
        FirmwareMemoryKind::LoaderCode => Some(MemoryKind::Reserved),
        FirmwareMemoryKind::LoaderData => Some(MemoryKind::Reserved),
        FirmwareMemoryKind::RuntimeServicesCode => Some(MemoryKind::Reserved),
        FirmwareMemoryKind::RuntimeServicesData => Some(MemoryKind::Reserved),
        FirmwareMemoryKind::AcpiReclaimable => Some(MemoryKind::Reclaimable),
        FirmwareMemoryKind::AcpiNonVolatile => Some(MemoryKind::Reserved),
        FirmwareMemoryKind::Mmio => Some(MemoryKind::Mmio),
        FirmwareMemoryKind::MmioPortSpace => Some(MemoryKind::Mmio),
        FirmwareMemoryKind::PalCode => None,
        FirmwareMemoryKind::PersistentMemory => None,
        FirmwareMemoryKind::Unusable => None,
        FirmwareMemoryKind::ReservedByFirmware => None,
    }
}

/// The descriptor's range overlaps some pinned range.
pub open spec fn spec_pinned_overlap(pins: Seq<PhysRange>, r: PhysRange) -> bool {
    exists|i: int| 0 <= i < pins.len() && spec_overlaps(pins[i], r)
}

/// The kernel map entry one firmware descriptor yields: its classified
/// kind, demoted to reserved when the range overlaps a pinned range.
pub open spec fn spec_classify(pins: Seq<PhysRange>, d: FirmwareMemoryDescriptor) -> Option<
    KernelMemoryMapEntry,
> {
    match spec_classify_kind(d.kind) {
        None => None,
        Some(k) => {
            let k2 = if k == MemoryKind::Usable && spec_pinned_overlap(pins, d.range) {
                MemoryKind::Reserved
            } else {
                k
            };
            Some(KernelMemoryMapEntry { range: d.range, kind: k2 })
        },
    }
}

/// The finalized kernel memory map: every descriptor classified, in
/// order, irrelevant descriptors dropped.
pub open spec fn spec_finalize(pins: Seq<PhysRange>, descs: Seq<FirmwareMemoryDescriptor>) -> Seq<
    KernelMemoryMapEntry,
>
    decreases descs.len(),
{
    if descs.len() == 0 {
        Seq::empty()
    } else {
        let head = spec_finalize(pins, descs.drop_last());
        match spec_classify(pins, descs.last()) {
            None => head,
            Some(e) => head.push(e),
        }
    }
}

/// Records the physical ranges that must be excluded from the usable
/// classification of the final memory map.
pub struct MemoryTracker {
    pub pins: Vec<PhysRange>,
}

impl MemoryTracker {
    /// A tracker with nothing pinned yet.
    pub fn new() -> (r: MemoryTracker)
        ensures
            r.pins@ == Seq::<PhysRange>::empty(),
    {
        MemoryTracker { pins: Vec::new() }
    }

    /// Pins a range: from now on no usable entry of a finalized map may
    /// overlap it.
    pub fn pin(&mut self, r: PhysRange)
        requires
            spec_range_wf(r),
        ensures
            final(self).pins@ == old(self).pins@.push(r),
    {
        self.pins.push(r);
    }

    /// Does the range overlap any pinned range?
    pub fn overlaps_pinned(&self, r: PhysRange) -> (b: bool)
        requires
            spec_range_wf(r),
            forall|i: int| 0 <= i < self.pins@.len() ==> spec_range_wf(self.pins@[i]),
        ensures
            b == spec_pinned_overlap(self.pins@, r),
    {
        let n = self.pins.len();
        let mut i: usize = 0;
        while i < n
            invariant
                i <= n,
                n == self.pins@.len(),
                spec_range_wf(r),
                forall|j: int| 0 <= j < self.pins@.len() ==> spec_range_wf(self.pins@[j]),
                forall|j: int| 0 <= j < i ==> !spec_overlaps(self.pins@[j], r),
            decreases n - i,
        {
            let p = self.pins[i];
            let lo = if p.base >= r.base {
                p.base
            } else {
                r.base
            };
            let hi_p = p.base + p.len;
            let hi_r = r.base + r.len;
            let hi = if hi_p <= hi_r {
                hi_p
            } else {
                hi_r
            };
            if lo < hi {
                return true;
            }
            i = i + 1;
        }
        false
    }

    /// Classifies one firmware descriptor, demoting a usable range that
    /// overlaps a pinned range to reserved.
    pub fn classify(&self, d: FirmwareMemoryDescriptor) -> (r: Option<KernelMemoryMapEntry>)
        requires
            spec_range_wf(d.range),
            forall|i: int| 0 <= i < self.pins@.len() ==> spec_range_wf(self.pins@[i]),
        ensures
            r == spec_classify(self.pins@, d),
    {
        let kind = match d.kind {
            FirmwareMemoryKind::Conventional => Some(MemoryKind::Usable),
            FirmwareMemoryKind::BootServicesCode => Some(MemoryKind::Usable),
            FirmwareMemoryKind::BootServicesData => Some(MemoryKind::Usable),
            FirmwareMemoryKind::LoaderCode => Some(MemoryKind::Reserved),
            FirmwareMemoryKind::LoaderData => Some(MemoryKind::Reserved),
            FirmwareMemoryKind::RuntimeServicesCode => Some(MemoryKind::Reserved),
            FirmwareMemoryKind::RuntimeServicesData => Some(MemoryKind::Reserved),
            FirmwareMemoryKind::AcpiReclaimable => Some(MemoryKind::Reclaimable),
            FirmwareMemoryKind::AcpiNonVolatile => Some(MemoryKind::Reserved),
            FirmwareMemoryKind::Mmio => Some(MemoryKind::Mmio),
            FirmwareMemoryKind::MmioPortSpace => Some(MemoryKind::Mmio),
            FirmwareMemoryKind::PalCode => None,
            FirmwareMemoryKind::PersistentMemory => None,
            FirmwareMemoryKind::Unusable => None,
            FirmwareMemoryKind::ReservedByFirmware => None,
        };
        match kind {
            None => None,
            Some(k) => {
                let demote = match k {
                    MemoryKind::Usable => self.overlaps_pinned(d.range),
                    _ => false,
                };
                let k2 = if demote {
                    MemoryKind::Reserved
                } else {
                    k
                };
                Some(KernelMemoryMapEntry { range: d.range, kind: k2 })
            },
        }
    }

    /// Produces the ordered kernel memory map from the firmware's final
    /// descriptor list.  Pinned ranges always win: no returned entry
    /// marked usable overlaps any pinned range.
    pub fn finalize(&self, descs: &Vec<FirmwareMemoryDescriptor>) -> (r: Vec<KernelMemoryMapEntry>)
        requires
            forall|i: int| 0 <= i < descs@.len() ==> spec_range_wf(#[trigger] descs@[i].range),
            forall|i: int| 0 <= i < self.pins@.len() ==> spec_range_wf(self.pins@[i]),
        ensures
            r@ == spec_finalize(self.pins@, descs@),
    {
        let n = descs.len();
        let mut r: Vec<KernelMemoryMapEntry> = Vec::new();
        let mut i: usize = 0;
        while i < n
            invariant
                i <= n,
                n == descs@.len(),
                forall|j: int| 0 <= j < descs@.len() ==> spec_range_wf(#[trigger] descs@[j].range),
                forall|j: int| 0 <= j < self.pins@.len() ==> spec_range_wf(self.pins@[j]),
                r@ == spec_finalize(self.pins@, descs@.take(i as int)),
            decreases n - i,
        {
            proof {
                assert(descs@.take(i as int + 1).drop_last() =~= descs@.take(i as int));
                assert(descs@.take(i as int + 1).last() == descs@[i as int]);
            }
            match self.classify(descs[i]) {
                None => {},
                Some(e) => {
                    r.push(e);
                },
            }
            i = i + 1;
        }
        proof {
            assert(descs@.take(n as int) =~= descs@);
        }
        r
    }
}

/// Pin-dominance: whatever the firmware reported, every entry of the
/// finalized map that overlaps a pinned range is non-usable — a pinned
/// range always overrides a free classification.
pub proof fn lemma_pin_dominance(
    pins: Seq<PhysRange>,
    descs: Seq<FirmwareMemoryDescriptor>,
    k: int,
)
    requires
        0 <= k < spec_finalize(pins, descs).len(),
        spec_pinned_overlap(pins, spec_finalize(pins, descs)[k].range),
    ensures
        spec_finalize(pins, descs)[k].kind != MemoryKind::Usable,
    decreases descs.len(),
{
    if descs.len() > 0 {
        let head = spec_finalize(pins, descs.drop_last());
        if k < head.len() {
            lemma_pin_dominance(pins, descs.drop_last(), k);
        }
    }
}

} // verus!
