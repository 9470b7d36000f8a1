//! Firmware setup decisions: root-pointer discovery, higher-half address
//! translation, and the boot-flag negotiation outcome.
//!
//! The firmware calls themselves (configuration-table enumeration, timer
//! and key events) happen outside this library; the functions here take
//! their plain results and make the decisions the boot path needs.

use vstd::prelude::*;

verus! {

/// Fixed offset of the kernel's higher-half virtual mapping.
pub const HIGHER_HALF_OFFSET: u64 = 0xFFFF_8000_0000_0000;

/// Largest physical address (exclusive) that the higher-half mapping
/// covers.
pub const PHYS_ADDR_LIMIT: u64 = 0x8000_0000_0000;

/// GUID of the ACPI 2.0+ root-pointer configuration entry.
pub const ACPI2_GUID: u128 = 0x8868e871_e4f1_11d3_bc22_0080c73c8881;

/// GUID of the ACPI 1.0 root-pointer configuration entry.
pub const ACPI_GUID: u128 = 0xeb9d2d30_2d88_11d3_9a16_0090273fc14d;

/// One entry of the firmware's configuration table: a vendor GUID and
/// the physical address of the structure it tags.
#[derive(Clone, Copy, Debug, PartialEq, Eq, Structural)]
pub struct ConfigTableEntry {
    pub guid: u128,
    pub address: u64,
}

/// Translates a physical address to the kernel's higher-half virtual
/// address space.
pub fn pa_to_kern_va(pa: u64) -> (r: u64)
    requires
        pa < PHYS_ADDR_LIMIT,
    ensures
        r == pa + HIGHER_HALF_OFFSET,
{
    pa + HIGHER_HALF_OFFSET
}

/// The address of the first configuration entry carrying the GUID.
pub open spec fn spec_find_guid(entries: Seq<ConfigTableEntry>, guid: u128) -> Option<u64>
    decreases entries.len(),
{
    if entries.len() == 0 {
        None
    } else if entries[0].guid == guid {
        Some(entries[0].address)
    } else {
        spec_find_guid(entries.drop_first(), guid)
    }
}

/// The root pointer the configuration table yields: the ACPI 2.0+ entry
/// if present, else the ACPI 1.0 entry, translated to the higher half.
pub open spec fn spec_rsdp(entries: Seq<ConfigTableEntry>) -> Option<int> {
    match spec_find_guid(entries, ACPI2_GUID) {
        Some(a) => Some(a + HIGHER_HALF_OFFSET),
        None => match spec_find_guid(entries, ACPI_GUID) {
            Some(a) => Some(a + HIGHER_HALF_OFFSET),
            None => None,
        },
    }
}

/// Finds the first configuration entry carrying the GUID.
pub fn find_guid(entries: &Vec<ConfigTableEntry>, guid: u128) -> (r: Option<u64>)
    ensures
        r == spec_find_guid(entries@, guid),
{
    let n = entries.len();
    let mut i: usize = 0;
    proof {
        assert(entries@.skip(0) =~= entries@);
    }
    while i < n
        invariant
            i <= n,
            n == entries@.len(),
            spec_find_guid(entries@, guid) == spec_find_guid(entries@.skip(i as int), guid),
        decreases n - i,
    {
        proof {
            assert(entries@.skip(i as int).drop_first() =~= entries@.skip(i as int + 1));
        }
        if entries[i].guid == guid {
            return Some(entries[i].address);
        }
        i = i + 1;
    }
    None
}

/// Locates the ACPI root pointer in the firmware's configuration table:
/// the ACPI 2.0+ entry wins, the ACPI 1.0 entry is the fallback, and the
/// found physical address is translated to the kernel's higher half.
/// Returns nothing when neither entry is present — boot cannot continue.
pub fn get_rsdp(entries: &Vec<ConfigTableEntry>) -> (r: Option<u64>)
    requires
        forall|i: int| 0 <= i < entries@.len() ==> (#[trigger] entries@[i]).address
            < PHYS_ADDR_LIMIT,
    ensures
        match r {
            Some(va) => spec_rsdp(entries@) == Some(va as int),
            None => spec_rsdp(entries@) is None,
        },
{
    proof {
        lemma_find_guid_in_entries(entries@, ACPI2_GUID);
        lemma_find_guid_in_entries(entries@, ACPI_GUID);
    }
    match find_guid(entries, ACPI2_GUID) {
        Some(a) => Some(pa_to_kern_va(a)),
        None => match find_guid(entries, ACPI_GUID) {
            Some(a) => Some(pa_to_kern_va(a)),
            None => None,
        },
    }
}

/// A found configuration address is one of the table's entries.
proof fn lemma_find_guid_in_entries(entries: Seq<ConfigTableEntry>, guid: u128)
    ensures
        match spec_find_guid(entries, guid) {
            Some(a) => exists|i: int|
                0 <= i < entries.len() && (#[trigger] entries[i]).guid == guid && entries[i].address
                    == a,
            None => true,
        },
    decreases entries.len(),
{
    if entries.len() > 0 && entries[0].guid != guid {
        lemma_find_guid_in_entries(entries.drop_first(), guid);
    }
}

/// The verbose and serial flags the key sequence selects: the first
/// `v` or `s` key decides; any other key is ignored; no deciding key
/// leaves both off.
pub open spec fn spec_boot_flags(keys: Seq<u8>) -> (bool, bool)
    decreases keys.len(),
{
    if keys.len() == 0 {
        (false, false)
    } else if keys[0] == 118u8 {
        (true, false)
    } else if keys[0] == 115u8 {
        (false, true)
    } else {
        spec_boot_flags(keys.drop_first())
    }
}

/// Decides the verbose and serial boot flags from the outcome of the
/// bounded key poll.  When the timeout won the wait — or the poll failed
/// and degraded to defaults — both flags stay off; otherwise the first
/// `v` or `s` key pressed decides.
pub fn decide_boot_flags(timer_expired_first: bool, keys: &Vec<u8>) -> (r: (bool, bool))
    ensures
        timer_expired_first ==> r == (false, false),
        !timer_expired_first ==> r == spec_boot_flags(keys@),
{
    if timer_expired_first {
        return (false, false);
    }
    let n = keys.len();
    let mut i: usize = 0;
    proof {
        assert(keys@.skip(0) =~= keys@);
    }
    while i < n
        invariant
            i <= n,
            n == keys@.len(),
            !timer_expired_first,
            spec_boot_flags(keys@) == spec_boot_flags(keys@.skip(i as int)),
        decreases n - i,
    {
        proof {
            assert(keys@.skip(i as int).drop_first() =~= keys@.skip(i as int + 1));
        }
        let k = keys[i];
        if k == 118u8 {
            return (true, false);
        }
        if k == 115u8 {
            return (false, true);
        }
        i = i + 1;
    }
    (false, false)
}

} // verus!
