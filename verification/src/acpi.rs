//! ACPI root-table walker.
//!
//! Given a root pointer's revision and the root table (RSDT for revision
//! below 2, XSDT from revision 2 on), walks the root table's pointer
//! array, validates each pointee with the SDT validator, and files every
//! validated table in a signature-keyed index.  A duplicate signature is
//! surfaced as an explicit failure rather than a crash, and a table that
//! fails validation is skipped, never indexed.

use vstd::prelude::*;
use crate::index::{sig_index_view, SigIndex};
use crate::sdt::{
    le_u32_at, read_le_u32, signature, spec_length, spec_signature, spec_valid_sdt, validate_sdt,
    SDT_HEADER_SIZE,
};

verus! {

/// One table as the firmware presents it: its physical address and its
/// raw bytes.
pub struct FirmwareTable {
    pub addr: u64,
    pub bytes: Vec<u8>,
}

/// Why the walker could not complete.
#[derive(Clone, Copy, Debug, PartialEq, Eq, Structural)]
pub enum AcpiError {
    /// The root table is too short for its header or its declared length
    /// does not fit the buffer.
    InvalidRootTable,
    /// Two validated tables carry the same signature.
    DuplicateSignature,
}

/// Little-endian 64-bit value read from eight consecutive bytes of `s`.
pub open spec fn le_u64_at(s: Seq<u8>, off: int) -> int {
    le_u32_at(s, off) + 0x1_0000_0000 * le_u32_at(s, off + 4)
}

/// Size of one root-table pointer: revision 0 and 1 use 32-bit entries
/// (RSDT), revision 2 and above 64-bit entries (XSDT).
pub open spec fn spec_ptr_size(revision: u8) -> int {
    if revision >= 2 {
        8
    } else {
        4
    }
}

/// The root table is structurally sound: it holds a full header and its
/// declared length fits the buffer.
pub open spec fn spec_root_wf(root: Seq<u8>) -> bool {
    &&& root.len() >= SDT_HEADER_SIZE
    &&& spec_length(root) >= SDT_HEADER_SIZE
    &&& spec_length(root) <= root.len()
}

/// Number of table pointers the root table carries.
pub open spec fn spec_ptr_count(root: Seq<u8>, revision: u8) -> int {
    (spec_length(root) - SDT_HEADER_SIZE) / spec_ptr_size(revision)
}

/// The `i`-th table pointer of the root table.
pub open spec fn spec_ptr_at(root: Seq<u8>, revision: u8, i: int) -> u64 {
    if revision >= 2 {
        le_u64_at(root, SDT_HEADER_SIZE + 8 * i) as u64
    } else {
        le_u32_at(root, SDT_HEADER_SIZE + 4 * i) as u64
    }
}

/// The root table's pointer array.
pub open spec fn spec_root_ptrs(root: Seq<u8>, revision: u8) -> Seq<u64> {
    Seq::new(spec_ptr_count(root, revision) as nat, |i: int| spec_ptr_at(root, revision, i))
}

/// The first firmware table at the given physical address, if any.
pub open spec fn spec_lookup(tabs: Seq<FirmwareTable>, ptr: u64) -> Option<FirmwareTable>
    decreases tabs.len(),
{
    if tabs.len() == 0 {
        None
    } else if tabs[0].addr == ptr {
        Some(tabs[0])
    } else {
        spec_lookup(tabs.drop_first(), ptr)
    }
}

/// The index the walk builds over the given pointers: each pointer is
/// resolved against the firmware tables; an unresolved pointer or an
/// invalid pointee is skipped; a validated pointee is filed under its
/// signature; a second validated pointee with an already-filed signature
/// makes the whole walk fail (`None`).
pub open spec fn spec_walk(tabs: Seq<FirmwareTable>, ptrs: Seq<u64>) -> Option<Map<u32, Seq<u8>>>
    decreases ptrs.len(),
{
    if ptrs.len() == 0 {
        Some(Map::empty())
    } else {
        match spec_walk(tabs, ptrs.drop_last()) {
            None => None,
            Some(m) => match spec_lookup(tabs, ptrs.last()) {
                None => Some(m),
                Some(t) => if !spec_valid_sdt(t.bytes@) {
                    Some(m)
                } else if m.dom().contains(spec_signature(t.bytes@) as u32) {
                    None
                } else {
                    Some(m.insert(spec_signature(t.bytes@) as u32, t.bytes@))
                },
            },
        }
    }
}

/// The `i`-th pointer resolves to a table that passes SDT validation.
pub open spec fn spec_valid_at(tabs: Seq<FirmwareTable>, ptrs: Seq<u64>, i: int) -> bool {
    &&& spec_lookup(tabs, ptrs[i]) is Some
    &&& spec_valid_sdt(spec_lookup(tabs, ptrs[i]).unwrap().bytes@)
}

/// The signature of the table the `i`-th pointer resolves to.
pub open spec fn spec_sig_at(tabs: Seq<FirmwareTable>, ptrs: Seq<u64>, i: int) -> u32 {
    spec_signature(spec_lookup(tabs, ptrs[i]).unwrap().bytes@) as u32
}

/// The bytes of the table the `i`-th pointer resolves to.
pub open spec fn spec_bytes_at(tabs: Seq<FirmwareTable>, ptrs: Seq<u64>, i: int) -> Seq<u8> {
    spec_lookup(tabs, ptrs[i]).unwrap().bytes@
}

/// Root-walk completeness: a successful walk indexes a signature if and
/// only if some root pointer resolves to a table passing validation
/// with that signature, it files that table's own bytes under it, and
/// it holds no entry for a table that failed validation.
pub proof fn lemma_walk_complete(tabs: Seq<FirmwareTable>, ptrs: Seq<u64>, m: Map<u32, Seq<u8>>)
    requires
        spec_walk(tabs, ptrs) == Some(m),
    ensures
        forall|s: u32| #[trigger]
            m.dom().contains(s) ==> exists|i: int|
                0 <= i < ptrs.len() && #[trigger] spec_valid_at(tabs, ptrs, i) && spec_sig_at(
                    tabs,
                    ptrs,
                    i,
                ) == s && m[s] == spec_bytes_at(tabs, ptrs, i),
        forall|i: int|
            0 <= i < ptrs.len() && #[trigger] spec_valid_at(tabs, ptrs, i) ==> m.dom().contains(
                spec_sig_at(tabs, ptrs, i),
            ),
    decreases ptrs.len(),
{
    if ptrs.len() > 0 {
        let p = ptrs.drop_last();
        let m0 = spec_walk(tabs, p).unwrap();
        lemma_walk_complete(tabs, p, m0);
        assert(forall|i: int| 0 <= i < p.len() ==> p[i] == ptrs[i]);
        assert(forall|i: int|
            0 <= i < p.len() ==> (#[trigger] spec_valid_at(tabs, p, i)) == spec_valid_at(
                tabs,
                ptrs,
                i,
            ));
        let last = ptrs.len() - 1;
        assert forall|s: u32| #[trigger] m.dom().contains(s) implies exists|i: int|
            0 <= i < ptrs.len() && #[trigger] spec_valid_at(tabs, ptrs, i) && spec_sig_at(
                tabs,
                ptrs,
                i,
            ) == s && m[s] == spec_bytes_at(tabs, ptrs, i) by {
            if m0.dom().contains(s) {
                let i = choose|i: int|
                    0 <= i < p.len() && #[trigger] spec_valid_at(tabs, p, i) && spec_sig_at(
                        tabs,
                        p,
                        i,
                    ) == s && m0[s] == spec_bytes_at(tabs, p, i);
                assert(spec_valid_at(tabs, ptrs, i));
                assert(spec_sig_at(tabs, ptrs, i) == s);
                assert(m[s] == spec_bytes_at(tabs, ptrs, i));
            } else {
                assert(spec_valid_at(tabs, ptrs, last));
                assert(spec_sig_at(tabs, ptrs, last) == s);
                assert(m[s] == spec_bytes_at(tabs, ptrs, last));
            }
        }
        assert forall|i: int|
            0 <= i < ptrs.len() && #[trigger] spec_valid_at(tabs, ptrs, i) implies m.dom().contains(
            spec_sig_at(tabs, ptrs, i),
        ) by {
            if i < last {
                assert(spec_valid_at(tabs, p, i));
                assert(m0.dom().contains(spec_sig_at(tabs, p, i)));
            }
        }
    }
}

/// A walk that has already failed on a prefix of the pointers fails on
/// the whole pointer array.
proof fn lemma_walk_none_extends(tabs: Seq<FirmwareTable>, ptrs: Seq<u64>, i: int)
    requires
        0 <= i <= ptrs.len(),
        spec_walk(tabs, ptrs.take(i)) is None,
    ensures
        spec_walk(tabs, ptrs) is None,
    decreases ptrs.len() - i,
{
    if i == ptrs.len() {
        assert(ptrs.take(i) =~= ptrs);
    } else {
        assert(ptrs.take(i + 1).drop_last() =~= ptrs.take(i));
        lemma_walk_none_extends(tabs, ptrs, i + 1);
    }
}

/// Little-endian 64-bit read, the executable counterpart of `le_u64_at`.
pub fn read_le_u64(bytes: &Vec<u8>, off: usize) -> (r: u64)
    requires
        off + 8 <= bytes@.len(),
    ensures
        r as int == le_u64_at(bytes@, off as int),
{
    let n: usize = bytes.len();
    assert(off + 8 <= n);
    let lo = read_le_u32(bytes, off);
    let hi = read_le_u32(bytes, off + 4);
    (lo as u64) + 0x1_0000_0000 * (hi as u64)
}

/// Extracts the pointer array of a structurally sound root table.
pub fn root_pointers(root: &Vec<u8>, revision: u8) -> (r: Vec<u64>)
    requires
        spec_root_wf(root@),
    ensures
        r@ == spec_root_ptrs(root@, revision),
{
    let length = read_le_u32(root, 4) as usize;
    let psize: usize = if revision >= 2 {
        8
    } else {
        4
    };
    let count = (length - SDT_HEADER_SIZE) / psize;
    proof {
        vstd::arithmetic::div_mod::lemma_fundamental_div_mod(
            length as int - SDT_HEADER_SIZE as int,
            psize as int,
        );
    }
    let mut r: Vec<u64> = Vec::new();
    let mut i: usize = 0;
    while i < count
        invariant
            i <= count,
            psize == spec_ptr_size(revision),
            count == spec_ptr_count(root@, revision),
            SDT_HEADER_SIZE + psize * count <= spec_length(root@) <= root@.len(),
            spec_root_wf(root@),
            r@.len() == i,
            forall|j: int| 0 <= j < i ==> r@[j] == spec_ptr_at(root@, revision, j),
        decreases count - i,
    {
        let off = SDT_HEADER_SIZE + psize * i;
        let ptr: u64 = if revision >= 2 {
            read_le_u64(root, off)
        } else {
            read_le_u32(root, off) as u64
        };
        r.push(ptr);
        i = i + 1;
    }
    proof {
        assert(r@ =~= spec_root_ptrs(root@, revision));
    }
    r
}

/// Finds the first firmware table at the given physical address.
pub fn lookup<'a>(tabs: &'a Vec<FirmwareTable>, ptr: u64) -> (r: Option<&'a FirmwareTable>)
    ensures
        match r {
            Some(t) => spec_lookup(tabs@, ptr) == Some(*t),
            None => spec_lookup(tabs@, ptr) is None,
        },
{
    let n = tabs.len();
    let mut i: usize = 0;
    proof {
        assert(tabs@.skip(0) =~= tabs@);
    }
    while i < n
        invariant
            i <= n,
            n == tabs@.len(),
            spec_lookup(tabs@, ptr) == spec_lookup(tabs@.skip(i as int), ptr),
        decreases n - i,
    {
        proof {
            assert(tabs@.skip(i as int).drop_first() =~= tabs@.skip(i as int + 1));
        }
        if tabs[i].addr == ptr {
            return Some(&tabs[i]);
        }
        i = i + 1;
    }
    None
}

/// Byte-for-byte copy of a buffer.
pub fn copy_bytes(v: &Vec<u8>) -> (r: Vec<u8>)
    ensures
        r@ == v@,
{
    let n = v.len();
    let mut r: Vec<u8> = Vec::new();
    let mut i: usize = 0;
    while i < n
        invariant
            i <= n,
            n == v@.len(),
            r@ =~= v@.take(i as int),
        decreases n - i,
    {
        r.push(v[i]);
        i = i + 1;
    }
    proof {
        assert(r@ =~= v@);
    }
    r
}

/// The completed, read-only table index: every table the firmware
/// presented that the walker resolved and validated, keyed by signature.
pub struct Acpi {
    /// ACPI revision taken from the root pointer.
    pub version: u8,
    tables: SigIndex,
    store: Vec<Vec<u8>>,
}

impl Acpi {
    /// ACPI revision taken from the root pointer.
    pub closed spec fn spec_version(self) -> u8 {
        self.version
    }

    /// The abstract content of the index: signature to table bytes.
    pub closed spec fn table_map(self) -> Map<u32, Seq<u8>> {
        Map::new(
            |s: u32| sig_index_view(self.tables).dom().contains(s),
            |s: u32| self.store[sig_index_view(self.tables)[s] as int]@,
        )
    }

    /// The index is internally consistent: every filed signature points
    /// into the table store.
    pub closed spec fn wf(self) -> bool {
        &&& forall|s: u32|
            sig_index_view(self.tables).dom().contains(s) ==> sig_index_view(self.tables)[s]
                < self.store.len()
        &&& sig_index_view(self.tables).dom().finite()
    }

    /// Walks the root table and builds the index.
    ///
    /// Every pointer that resolves to a firmware table passing SDT
    /// validation is filed under its signature; unresolved pointers and
    /// tables failing validation are skipped.  A malformed root table or
    /// a duplicate signature among validated tables is an explicit
    /// failure: no partial index is ever returned.
    #[verifier::rlimit(60)]
    pub fn new(revision: u8, root: &Vec<u8>, firmware: &Vec<FirmwareTable>) -> (r: Result<
        Acpi,
        AcpiError,
    >)
        ensures
            match r {
                Ok(a) => {
                    &&& spec_root_wf(root@)
                    &&& a.wf()
                    &&& a.spec_version() == revision
                    &&& spec_walk(firmware@, spec_root_ptrs(root@, revision)) == Some(a.table_map())
                },
                Err(AcpiError::InvalidRootTable) => !spec_root_wf(root@),
                Err(AcpiError::DuplicateSignature) => spec_root_wf(root@) && spec_walk(
                    firmware@,
                    spec_root_ptrs(root@, revision),
                ) is None,
            },
    {
        if root.len() < SDT_HEADER_SIZE {
            return Err(AcpiError::InvalidRootTable);
        }
        let length = read_le_u32(root, 4);
        if length < SDT_HEADER_SIZE as u32 || (length as usize) > root.len() {
            return Err(AcpiError::InvalidRootTable);
        }
        let ptrs = root_pointers(root, revision);
        let ghost all_ptrs = spec_root_ptrs(root@, revision);
        let mut tables = SigIndex::new();
        let mut store: Vec<Vec<u8>> = Vec::new();
        proof {
            assert(sig_index_view(tables).dom() =~= Set::empty());
            assert(all_ptrs.take(0) =~= Seq::empty());
            assert(Map::new(
                |s: u32| sig_index_view(tables).dom().contains(s),
                |s: u32| store@[sig_index_view(tables)[s] as int]@,
            ) =~= Map::<u32, Seq<u8>>::empty());
        }
        let n = ptrs.len();
        let mut i: usize = 0;
        while i < n
            invariant
                i <= n,
                n == all_ptrs.len(),
                ptrs@ == all_ptrs,
                spec_root_wf(root@),
                all_ptrs == spec_root_ptrs(root@, revision),
                sig_index_view(tables).dom().finite(),
                forall|s: u32|
                    sig_index_view(tables).dom().contains(s) ==> sig_index_view(tables)[s]
                        < store.len(),
                spec_walk(firmware@, all_ptrs.take(i as int)) == Some(
                    Map::new(
                        |s: u32| sig_index_view(tables).dom().contains(s),
                        |s: u32| store@[sig_index_view(tables)[s] as int]@,
                    ),
                ),
            decreases n - i,
        {
            let ghost prev_map = Map::new(
                |s: u32| sig_index_view(tables).dom().contains(s),
                |s: u32| store@[sig_index_view(tables)[s] as int]@,
            );
            proof {
                assert(all_ptrs.take(i as int + 1).drop_last() =~= all_ptrs.take(i as int));
                assert(all_ptrs.take(i as int + 1).last() == all_ptrs[i as int]);
            }
            match lookup(firmware, ptrs[i]) {
                None => {},
                Some(t) => {
                    if validate_sdt(&t.bytes) {
                        let sig = signature(&t.bytes);
                        if tables.contains(sig) {
                            proof {
                                assert(spec_walk(firmware@, all_ptrs.take(i as int + 1)) is None);
                                lemma_walk_none_extends(firmware@, all_ptrs, i as int + 1);
                            }
                            return Err(AcpiError::DuplicateSignature);
                        }
                        store.push(copy_bytes(&t.bytes));
                        tables.insert(sig, store.len() - 1);
                        proof {
                            assert(Map::new(
                                |s: u32| sig_index_view(tables).dom().contains(s),
                                |s: u32| store@[sig_index_view(tables)[s] as int]@,
                            ) =~= prev_map.insert(sig, t.bytes@));
                        }
                    }
                },
            }
            proof {
                assert(Map::new(
                    |s: u32| sig_index_view(tables).dom().contains(s),
                    |s: u32| store@[sig_index_view(tables)[s] as int]@,
                ) =~= spec_walk(firmware@, all_ptrs.take(i as int + 1)).unwrap());
            }
            i = i + 1;
        }
        proof {
            assert(all_ptrs.take(n as int) =~= all_ptrs);
        }
        let a = Acpi { version: revision, tables, store };
        proof {
            assert(a.table_map() =~= Map::new(
                |s: u32| sig_index_view(a.tables).dom().contains(s),
                |s: u32| a.store@[sig_index_view(a.tables)[s] as int]@,
            ));
        }
        Ok(a)
    }

    /// Looks a validated table up by its 4-character signature.
    pub fn find<'a>(&'a self, signature: &[u8; 4]) -> (r: Option<&'a Vec<u8>>)
        requires
            self.wf(),
        ensures
            match r {
                Some(b) => self.table_map().dom().contains(spec_signature(signature@) as u32)
                    && b@ == self.table_map()[spec_signature(signature@) as u32],
                None => !self.table_map().dom().contains(spec_signature(signature@) as u32),
            },
    {
        let key = crate::sdt::signature_key(signature);
        match self.tables.get(key) {
            None => None,
            Some(idx) => Some(&self.store[idx]),
        }
    }

    /// Number of tables the index holds.
    pub fn table_count(&self) -> (r: usize)
        requires
            self.wf(),
        ensures
            r as int == self.table_map().len(),
    {
        proof {
            assert(self.table_map().dom() =~= sig_index_view(self.tables).dom());
        }
        self.tables.len()
    }
}

} // verus!
