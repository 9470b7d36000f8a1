//! Boot handoff orchestration.
//!
//! The transition from the firmware environment into the kernel is a
//! strict, unrepeatable sequence: paging takeover, boot-flag
//! negotiation, image acquisition, image linking, stack allocation,
//! boot-info construction, the irrevocable exit from firmware services,
//! memory-map finalization, and the non-returning transfer.  The
//! orchestrator here is the decision core of that sequence: each method
//! requires the stage it serves and moves to the next, so no stage can
//! be skipped, reordered or re-entered.  The side effects themselves —
//! the control-register writes, the firmware calls, the final jump —
//! are performed by the surrounding program, which feeds their plain
//! results back in.

use vstd::prelude::*;
use crate::memmap::{
    spec_finalize, spec_pinned_overlap, spec_range_wf, FirmwareMemoryDescriptor,
    KernelMemoryMapEntry, MemoryKind, MemoryTracker, PhysRange,
};
use crate::setup::{pa_to_kern_va, HIGHER_HALF_OFFSET, PHYS_ADDR_LIMIT};

verus! {

/// Size in bytes of the dedicated kernel stack region.
pub const KERNEL_STACK_SIZE: u64 = 0x14000;

/// The strictly ordered stages of the handoff.
#[derive(Clone, Copy, Debug, PartialEq, Eq, Structural)]
pub enum HandoffStage {
    /// Write protection is being dropped and the higher-half mappings
    /// installed.
    PagingTakeover,
    /// The bounded verbose/serial key poll runs.
    FlagNegotiation,
    /// The kernel image and the extension cache are being loaded.
    ImageAcquisition,
    /// The external loader resolves the entry point and symbol table.
    ImageLinking,
    /// The dedicated kernel stack is being allocated.
    StackAllocation,
    /// The boot-info structure is being built.
    BootInfoConstruction,
    /// Firmware boot services are about to be exited, irrevocably.
    FirmwareExit,
    /// The firmware's final descriptors are folded into the kernel map.
    MapFinalization,
    /// Everything is ready for the non-returning jump.
    Transfer,
    /// The boot attempt failed before the firmware exit and halted.
    Aborted,
}

/// The single handoff artifact: every embedded pointer is already
/// translated to the kernel's higher-half virtual address space.  The
/// memory map is attached last, after the firmware exit.
pub struct BootInfo {
    pub symbols: u64,
    pub verbose: bool,
    pub serial_enabled: bool,
    pub framebuffer: Option<u64>,
    pub rsdp: u64,
    pub cache_base: u64,
    pub cache_len: u64,
    pub memory_map: Option<Vec<KernelMemoryMapEntry>>,
}

/// The handoff orchestrator: the current stage, the pinned-range
/// tracker, and everything gathered so far.
pub struct Handoff {
    pub stage: HandoffStage,
    pub tracker: MemoryTracker,
    pub verbose: bool,
    pub serial_enabled: bool,
    pub kernel_image: Option<PhysRange>,
    pub cache: Option<PhysRange>,
    pub entry_point: Option<u64>,
    pub symbols_pa: Option<u64>,
    pub stack: Option<PhysRange>,
    pub stack_top_va: Option<u64>,
    pub boot_info: Option<BootInfo>,
}

impl Handoff {
    /// What each stage guarantees to have gathered.
    pub open spec fn inv(self) -> bool {
        &&& forall|i: int|
            0 <= i < self.tracker.pins@.len() ==> spec_range_wf(self.tracker.pins@[i])
        &&& match self.stage {
            HandoffStage::ImageLinking
            | HandoffStage::StackAllocation
            | HandoffStage::BootInfoConstruction
            | HandoffStage::FirmwareExit
            | HandoffStage::MapFinalization
            | HandoffStage::Transfer => self.kernel_image is Some && self.cache is Some,
            _ => true,
        }
        &&& match self.stage {
            HandoffStage::StackAllocation
            | HandoffStage::BootInfoConstruction
            | HandoffStage::FirmwareExit
            | HandoffStage::MapFinalization
            | HandoffStage::Transfer => self.entry_point is Some && self.symbols_pa is Some,
            _ => true,
        }
        &&& match self.stage {
            HandoffStage::BootInfoConstruction
            | HandoffStage::FirmwareExit
            | HandoffStage::MapFinalization
            | HandoffStage::Transfer => self.stack is Some && self.stack_top_va is Some,
            _ => true,
        }
        &&& match self.stage {
            HandoffStage::FirmwareExit | HandoffStage::MapFinalization => self.boot_info is Some
                && self.boot_info.unwrap().memory_map is None,
            HandoffStage::Transfer => self.boot_info is Some
                && self.boot_info.unwrap().memory_map is Some,
            _ => true,
        }
    }

    /// A fresh handoff, at the first stage, with nothing pinned.
    pub fn new() -> (r: Handoff)
        ensures
            r.inv(),
            r.stage == HandoffStage::PagingTakeover,
            r.tracker.pins@ == Seq::<PhysRange>::empty(),
    {
        Handoff {
            stage: HandoffStage::PagingTakeover,
            tracker: MemoryTracker::new(),
            verbose: false,
            serial_enabled: false,
            kernel_image: None,
            cache: None,
            entry_point: None,
            symbols_pa: None,
            stack: None,
            stack_top_va: None,
            boot_info: None,
        }
    }

    /// Records that write protection is off and the higher-half
    /// mappings are installed.  From here on every pointer handed to the
    /// kernel is translated by the fixed higher-half offset.
    pub fn paging_ready(&mut self)
        requires
            old(self).inv(),
            old(self).stage == HandoffStage::PagingTakeover,
        ensures
            final(self).inv(),
            final(self).stage == HandoffStage::FlagNegotiation,
            final(self).tracker == old(self).tracker,
    {
        self.stage = HandoffStage::FlagNegotiation;
    }

    /// Settles the verbose and serial flags from the outcome of the
    /// bounded key poll; a failed poll degrades to the defaults and
    /// never aborts the boot.
    pub fn negotiate_flags(&mut self, timer_expired_first: bool, keys: &Vec<u8>)
        requires
            old(self).inv(),
            old(self).stage == HandoffStage::FlagNegotiation,
        ensures
            final(self).inv(),
            final(self).stage == HandoffStage::ImageAcquisition,
            final(self).tracker == old(self).tracker,
            timer_expired_first ==> (final(self).verbose, final(self).serial_enabled) == (
                false,
                false,
            ),
            !timer_expired_first ==> (final(self).verbose, final(self).serial_enabled)
                == crate::setup::spec_boot_flags(keys@),
    {
        let (verbose, serial_enabled) = crate::setup::decide_boot_flags(timer_expired_first, keys);
        self.verbose = verbose;
        self.serial_enabled = serial_enabled;
        self.stage = HandoffStage::ImageAcquisition;
    }

    /// Records the loaded kernel image and extension cache and pins both
    /// physical ranges: they must survive the firmware exit.
    pub fn acquire_images(&mut self, kernel: PhysRange, cache: PhysRange)
        requires
            old(self).inv(),
            old(self).stage == HandoffStage::ImageAcquisition,
            spec_range_wf(kernel),
            spec_range_wf(cache),
        ensures
            final(self).inv(),
            final(self).stage == HandoffStage::ImageLinking,
            final(self).tracker.pins@ == old(self).tracker.pins@.push(kernel).push(cache),
            final(self).kernel_image == Some(kernel),
            final(self).cache == Some(cache),
    {
        self.tracker.pin(kernel);
        self.tracker.pin(cache);
        self.kernel_image = Some(kernel);
        self.cache = Some(cache);
        self.stage = HandoffStage::ImageLinking;
    }

    /// Records what the external loader resolved from the image bytes:
    /// the kernel entry point and the symbol table.
    pub fn link_image(&mut self, entry_point: u64, symbols_pa: u64)
        requires
            old(self).inv(),
            old(self).stage == HandoffStage::ImageLinking,
        ensures
            final(self).inv(),
            final(self).stage == HandoffStage::StackAllocation,
            final(self).tracker == old(self).tracker,
            final(self).entry_point == Some(entry_point),
            final(self).symbols_pa == Some(symbols_pa),
    {
        self.entry_point = Some(entry_point);
        self.symbols_pa = Some(symbols_pa);
        self.stage = HandoffStage::StackAllocation;
    }

    /// Records the allocated kernel stack, pins it, and computes the
    /// top-of-stack address in the kernel's virtual address space.
    pub fn allocate_stack(&mut self, base: u64)
        requires
            old(self).inv(),
            old(self).stage == HandoffStage::StackAllocation,
            base + KERNEL_STACK_SIZE < PHYS_ADDR_LIMIT,
        ensures
            final(self).inv(),
            final(self).stage == HandoffStage::BootInfoConstruction,
            final(self).tracker.pins@ == old(self).tracker.pins@.push(
                PhysRange { base, len: KERNEL_STACK_SIZE },
            ),
            final(self).stack == Some(PhysRange { base, len: KERNEL_STACK_SIZE }),
            final(self).stack_top_va == Some(
                (base + KERNEL_STACK_SIZE + HIGHER_HALF_OFFSET) as u64,
            ),
    {
        let range = PhysRange { base, len: KERNEL_STACK_SIZE };
        self.tracker.pin(range);
        self.stack = Some(range);
        self.stack_top_va = Some(pa_to_kern_va(base + KERNEL_STACK_SIZE));
        self.stage = HandoffStage::BootInfoConstruction;
    }

    /// Builds the boot-info structure, translating every embedded
    /// pointer to the kernel's higher half, and pins its backing memory.
    /// The root pointer arrives already translated, as root-pointer
    /// discovery returns it.  The memory map is still missing: it exists
    /// only after the firmware exit.
    pub fn build_boot_info(&mut self, framebuffer_pa: Option<u64>, rsdp_va: u64, backing: PhysRange)
        requires
            old(self).inv(),
            old(self).stage == HandoffStage::BootInfoConstruction,
            spec_range_wf(backing),
            old(self).symbols_pa.unwrap() < PHYS_ADDR_LIMIT,
            old(self).cache.unwrap().base < PHYS_ADDR_LIMIT,
            framebuffer_pa is Some ==> framebuffer_pa.unwrap() < PHYS_ADDR_LIMIT,
        ensures
            final(self).inv(),
            final(self).stage == HandoffStage::FirmwareExit,
            final(self).tracker.pins@ == old(self).tracker.pins@.push(backing),
            final(self).boot_info == Some(
                BootInfo {
                    symbols: (old(self).symbols_pa.unwrap() + HIGHER_HALF_OFFSET) as u64,
                    verbose: old(self).verbose,
                    serial_enabled: old(self).serial_enabled,
                    framebuffer: match framebuffer_pa {
                        Some(fb) => Some((fb + HIGHER_HALF_OFFSET) as u64),
                        None => None,
                    },
                    rsdp: rsdp_va,
                    cache_base: (old(self).cache.unwrap().base + HIGHER_HALF_OFFSET) as u64,
                    cache_len: old(self).cache.unwrap().len,
                    memory_map: None,
                },
            ),
    {
        let symbols = match self.symbols_pa {
            Some(pa) => pa_to_kern_va(pa),
            None => 0,
        };
        let framebuffer = match framebuffer_pa {
            Some(fb) => Some(pa_to_kern_va(fb)),
            None => None,
        };
        let (cache_base, cache_len) = match self.cache {
            Some(c) => (pa_to_kern_va(c.base), c.len),
            None => (0, 0),
        };
        self.tracker.pin(backing);
        self.boot_info = Some(
            BootInfo {
                symbols,
                verbose: self.verbose,
                serial_enabled: self.serial_enabled,
                framebuffer,
                rsdp: rsdp_va,
                cache_base,
                cache_len,
                memory_map: None,
            },
        );
        self.stage = HandoffStage::FirmwareExit;
    }

    /// Records that firmware boot services have been exited.  This is
    /// the point of no return: no firmware service may be invoked after
    /// it, and the only thing the firmware left behind is its final
    /// memory-descriptor list, read exactly once.
    pub fn exit_firmware(&mut self)
        requires
            old(self).inv(),
            old(self).stage == HandoffStage::FirmwareExit,
        ensures
            final(self).inv(),
            final(self).stage == HandoffStage::MapFinalization,
            final(self).tracker == old(self).tracker,
            final(self).boot_info == old(self).boot_info,
    {
        self.stage = HandoffStage::MapFinalization;
    }

    /// Folds the firmware's final descriptors into the kernel memory
    /// map and attaches it to the boot info.  Pinned ranges always win:
    /// no entry of the attached map that overlaps a pinned range is
    /// usable.
    pub fn finalize_map(&mut self, descs: &Vec<FirmwareMemoryDescriptor>)
        requires
            old(self).inv(),
            old(self).stage == HandoffStage::MapFinalization,
            forall|i: int| 0 <= i < descs@.len() ==> spec_range_wf(#[trigger] descs@[i].range),
        ensures
            final(self).inv(),
            final(self).stage == HandoffStage::Transfer,
            final(self).tracker == old(self).tracker,
            final(self).boot_info is Some,
            final(self).boot_info.unwrap().memory_map is Some,
            final(self).boot_info.unwrap().memory_map.unwrap()@ == spec_finalize(
                old(self).tracker.pins@,
                descs@,
            ),
            final(self).boot_info.unwrap().symbols == old(self).boot_info.unwrap().symbols,
            final(self).boot_info.unwrap().verbose == old(self).boot_info.unwrap().verbose,
            final(self).boot_info.unwrap().serial_enabled == old(
                self,
            ).boot_info.unwrap().serial_enabled,
            final(self).boot_info.unwrap().framebuffer == old(self).boot_info.unwrap().framebuffer,
            final(self).boot_info.unwrap().rsdp == old(self).boot_info.unwrap().rsdp,
            final(self).boot_info.unwrap().cache_base == old(self).boot_info.unwrap().cache_base,
            final(self).boot_info.unwrap().cache_len == old(self).boot_info.unwrap().cache_len,
            forall|k: int|
                0 <= k < spec_finalize(old(self).tracker.pins@, descs@).len()
                    && spec_pinned_overlap(
                    old(self).tracker.pins@,
                    (#[trigger] spec_finalize(old(self).tracker.pins@, descs@)[k]).range,
                ) ==> spec_finalize(old(self).tracker.pins@, descs@)[k].kind
                    != MemoryKind::Usable,
    {
        let map = self.tracker.finalize(descs);
        let boot_info = self.boot_info.take();
        match boot_info {
            Some(b) => {
                self.boot_info = Some(
                    BootInfo {
                        symbols: b.symbols,
                        verbose: b.verbose,
                        serial_enabled: b.serial_enabled,
                        framebuffer: b.framebuffer,
                        rsdp: b.rsdp,
                        cache_base: b.cache_base,
                        cache_len: b.cache_len,
                        memory_map: Some(map),
                    },
                );
            },
            None => {
                self.boot_info = None;
            },
        }
        self.stage = HandoffStage::Transfer;
        proof {
            assert forall|k: int|
                0 <= k < spec_finalize(old(self).tracker.pins@, descs@).len()
                    && spec_pinned_overlap(
                    old(self).tracker.pins@,
                    (#[trigger] spec_finalize(old(self).tracker.pins@, descs@)[k]).range,
                ) implies spec_finalize(old(self).tracker.pins@, descs@)[k].kind
                != MemoryKind::Usable by {
                crate::memmap::lemma_pin_dominance(old(self).tracker.pins@, descs@, k);
            }
        }
    }

    /// The values the final jump needs: the entry point and the
    /// top-of-stack virtual address.  The jump itself — interrupts off,
    /// base pointer cleared, stack pointer set, boot info in the first
    /// argument register — never returns.
    pub fn transfer_args(&self) -> (r: (u64, u64))
        requires
            self.inv(),
            self.stage == HandoffStage::Transfer,
        ensures
            r.0 == self.entry_point.unwrap(),
            r.1 == self.stack_top_va.unwrap(),
    {
        let entry = match self.entry_point {
            Some(e) => e,
            None => 0,
        };
        let top = match self.stack_top_va {
            Some(t) => t,
            None => 0,
        };
        (entry, top)
    }

    /// The completed boot-info structure, ready to hand to the kernel.
    pub fn boot_info_ref(&self) -> (r: &BootInfo)
        requires
            self.inv(),
            self.stage == HandoffStage::Transfer,
        ensures
            Some(*r) == self.boot_info,
    {
        match &self.boot_info {
            Some(b) => b,
            None => unreached(),
        }
    }

    /// Halts the boot attempt.  Every failure before the firmware exit
    /// is terminal: firmware resources are each used exactly once, so
    /// nothing is retried.
    pub fn abort(&mut self)
        requires
            old(self).inv(),
            old(self).stage != HandoffStage::MapFinalization,
            old(self).stage != HandoffStage::Transfer,
        ensures
            final(self).inv(),
            final(self).stage == HandoffStage::Aborted,
    {
        self.stage = HandoffStage::Aborted;
    }
}

} // verus!
