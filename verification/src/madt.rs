//! MADT (Multiple APIC Description Table) decoder.
//!
//! The MADT is an SDT whose body, after a fixed prefix holding the local
//! interrupt-controller base address and a flags word, is a contiguous
//! sequence of tag-length-prefixed interrupt-controller records.  Each
//! record's one-byte length field determines its extent; the decoder
//! never assumes a fixed stride, and it refuses a record whose length is
//! shorter than its own tag-length prefix or would reach past the table
//! end.

use vstd::prelude::*;
use crate::sdt::{le_u32_at, read_le_u32, spec_length};

verus! {

/// Size in bytes of the MADT's fixed part: the 36-byte SDT header, the
/// 4-byte local interrupt-controller address and the 4-byte flags word.
pub const MADT_PREFIX_SIZE: usize = 44;

/// The MADT flags word; its only defined bit records 8259-PIC
/// compatibility.
#[derive(Clone, Copy, Debug, PartialEq, Eq, Structural)]
pub struct MADTFlags {
    pub bits: u32,
}

impl MADTFlags {
    /// The platform also implements the legacy 8259 PIC setup.
    pub fn pcat_compat(&self) -> (r: bool)
        ensures
            r == (self.bits & 1u32 != 0u32),
    {
        self.bits & 1u32 != 0u32
    }
}

/// The byte extent of one interrupt-controller record inside the MADT
/// body: its type tag, its declared length, and the offset of its first
/// byte.
#[derive(Clone, Copy, Debug, PartialEq, Eq, Structural)]
pub struct IcRecord {
    pub type_: u8,
    pub length: u8,
    pub offset: usize,
}

/// One decoded interrupt-controller record, dispatched on its type tag.
/// Tags `0x11..=0x7F` are reserved by the specification and `0x80..=0xFF`
/// are OEM-reserved; both decode to generic catch-all variants.
#[derive(Clone, Copy, Debug, PartialEq, Eq, Structural)]
pub enum InterruptController {
    ProcessorLocalAPIC(IcRecord),
    InputOutputAPIC(IcRecord),
    IntrSourceOverride(IcRecord),
    NMISource(IcRecord),
    LocalAPICNMI(IcRecord),
    LocalAPICAddrOverride(IcRecord),
    InputOutputSAPIC(IcRecord),
    LocalSAPIC(IcRecord),
    PlatformInterruptSrcs(IcRecord),
    ProcessorLocalx2APIC(IcRecord),
    Localx2APICNmi(IcRecord),
    GicCpu(IcRecord),
    GicDist(IcRecord),
    GicMsiFrame(IcRecord),
    GicRedist(IcRecord),
    GicIts(IcRecord),
    MpWakeup(IcRecord),
    Reserved(IcRecord),
    OemReserved(IcRecord),
}

/// Why decoding failed.
#[derive(Clone, Copy, Debug, PartialEq, Eq, Structural)]
pub enum MadtError {
    /// The buffer is shorter than the MADT's fixed part, or its declared
    /// length does not fit the buffer.
    TooShort,
    /// A record's length field is below the 2 bytes of its own prefix,
    /// or fewer than 2 bytes remain for a record's prefix.
    RecordTooShort,
    /// A record's length field would reach past the declared table end.
    RecordOverrun,
}

/// The variant a type tag selects, carrying the record's byte extent.
pub open spec fn spec_make_ic(tag: u8, length: u8, offset: usize) -> InterruptController {
    let rec = IcRecord { type_: tag, length, offset };
    if tag == 0 {
        InterruptController::ProcessorLocalAPIC(rec)
    } else if tag == 1 {
        InterruptController::InputOutputAPIC(rec)
    } else if tag == 2 {
        InterruptController::IntrSourceOverride(rec)
    } else if tag == 3 {
        InterruptController::NMISource(rec)
    } else if tag == 4 {
        InterruptController::LocalAPICNMI(rec)
    } else if tag == 5 {
        InterruptController::LocalAPICAddrOverride(rec)
    } else if tag == 6 {
        InterruptController::InputOutputSAPIC(rec)
    } else if tag == 7 {
        InterruptController::LocalSAPIC(rec)
    } else if tag == 8 {
        InterruptController::PlatformInterruptSrcs(rec)
    } else if tag == 9 {
        InterruptController::ProcessorLocalx2APIC(rec)
    } else if tag == 0xA {
        InterruptController::Localx2APICNmi(rec)
    } else if tag == 0xB {
        InterruptController::GicCpu(rec)
    } else if tag == 0xC {
        InterruptController::GicDist(rec)
    } else if tag == 0xD {
        InterruptController::GicMsiFrame(rec)
    } else if tag == 0xE {
        InterruptController::GicRedist(rec)
    } else if tag == 0xF {
        InterruptController::GicIts(rec)
    } else if tag == 0x10 {
        InterruptController::MpWakeup(rec)
    } else if tag <= 0x7F {
        InterruptController::Reserved(rec)
    } else {
        InterruptController::OemReserved(rec)
    }
}

/// One decoding step at `cursor` into the MADT body: the end of the
/// sequence, the record starting there, or the decode error.
pub open spec fn spec_step(body: Seq<u8>, cursor: int) -> Result<
    Option<InterruptController>,
    MadtError,
> {
    if cursor == body.len() {
        Ok(None)
    } else if body.len() - cursor < 2 {
        Err(MadtError::RecordTooShort)
    } else if body[cursor + 1] < 2 {
        Err(MadtError::RecordTooShort)
    } else if cursor + body[cursor + 1] > body.len() {
        Err(MadtError::RecordOverrun)
    } else {
        Ok(Some(spec_make_ic(body[cursor], body[cursor + 1], cursor as usize)))
    }
}

/// The record sequence of the MADT body from `cursor` on: every record
/// in order, or the first decode error.  The sequence ends exactly when
/// the cursor reaches the body length.
pub open spec fn spec_decode(body: Seq<u8>, cursor: int) -> Result<Seq<InterruptController>, MadtError>
    decreases body.len() - cursor,
        when 0 <= cursor <= body.len()
{
    match spec_step(body, cursor) {
        Err(e) => Err(e),
        Ok(None) => Ok(Seq::empty()),
        Ok(Some(rec)) => match spec_decode(body, cursor + body[cursor + 1]) {
            Err(e) => Err(e),
            Ok(rest) => Ok(seq![rec] + rest),
        },
    }
}

/// The byte extent a decoded record carries, whatever its variant.
pub open spec fn ic_extent(ic: InterruptController) -> IcRecord {
    match ic {
        InterruptController::ProcessorLocalAPIC(r) => r,
        InterruptController::InputOutputAPIC(r) => r,
        InterruptController::IntrSourceOverride(r) => r,
        InterruptController::NMISource(r) => r,
        InterruptController::LocalAPICNMI(r) => r,
        InterruptController::LocalAPICAddrOverride(r) => r,
        InterruptController::InputOutputSAPIC(r) => r,
        InterruptController::LocalSAPIC(r) => r,
        InterruptController::PlatformInterruptSrcs(r) => r,
        InterruptController::ProcessorLocalx2APIC(r) => r,
        InterruptController::Localx2APICNmi(r) => r,
        InterruptController::GicCpu(r) => r,
        InterruptController::GicDist(r) => r,
        InterruptController::GicMsiFrame(r) => r,
        InterruptController::GicRedist(r) => r,
        InterruptController::GicIts(r) => r,
        InterruptController::MpWakeup(r) => r,
        InterruptController::Reserved(r) => r,
        InterruptController::OemReserved(r) => r,
    }
}

/// Sum of the declared lengths of a record sequence.
pub open spec fn spec_total_length(recs: Seq<InterruptController>) -> int
    decreases recs.len(),
{
    if recs.len() == 0 {
        0
    } else {
        ic_extent(recs[0]).length + spec_total_length(recs.drop_first())
    }
}

/// Traversal exactness: a successful decode consumes the record region
/// exactly — the records sit back to back from the cursor on, and the
/// sum of their declared lengths equals the remaining region length.
pub proof fn lemma_decode_consumes_exactly(
    body: Seq<u8>,
    cursor: int,
    recs: Seq<InterruptController>,
)
    requires
        0 <= cursor <= body.len(),
        body.len() <= usize::MAX,
        spec_decode(body, cursor) == Ok::<_, MadtError>(recs),
    ensures
        cursor + spec_total_length(recs) == body.len(),
        forall|j: int| 0 <= j < recs.len() ==> (#[trigger] ic_extent(recs[j])).offset == cursor
            + spec_total_length(recs.take(j)),
        forall|j: int| 0 <= j < recs.len() ==> (#[trigger] ic_extent(recs[j])).offset + ic_extent(
            recs[j],
        ).length <= body.len(),
    decreases body.len() - cursor,
{
    if cursor == body.len() {
    } else {
        let len = body[cursor + 1] as int;
        let rec = spec_make_ic(body[cursor], body[cursor + 1], cursor as usize);
        let rest = spec_decode(body, cursor + len).unwrap();
        assert(recs == seq![rec] + rest);
        assert(recs.drop_first() =~= rest);
        assert(ic_extent(recs[0]).length == len);
        lemma_decode_consumes_exactly(body, cursor + len, rest);
        assert forall|j: int| 0 <= j < recs.len() implies (#[trigger] ic_extent(recs[j])).offset
            == cursor + spec_total_length(recs.take(j)) by {
            if j == 0 {
                assert(recs.take(0) =~= Seq::empty());
            } else {
                assert(recs[j] == rest[j - 1]);
                assert(recs.take(j).drop_first() =~= rest.take(j - 1));
                assert(spec_total_length(recs.take(j)) == len + spec_total_length(
                    rest.take(j - 1),
                ));
            }
        }
    }
}

/// The MADT buffer holds its fixed part and a consistent length field.
pub open spec fn spec_madt_wf(bytes: Seq<u8>) -> bool {
    &&& bytes.len() >= MADT_PREFIX_SIZE
    &&& spec_length(bytes) >= MADT_PREFIX_SIZE
    &&& spec_length(bytes) <= bytes.len()
}

/// A validated MADT: local interrupt-controller base, flags, and the
/// variable-length record region.
pub struct MultipleAPICDescTable {
    pub local_ic_addr: u32,
    pub flags: MADTFlags,
    pub body: Vec<u8>,
}

/// A restartable decoder over the MADT's record region: a byte cursor
/// and the total region length, fixed at creation.
pub struct MADTIter {
    pub curr: usize,
    pub total: usize,
}

/// Byte-for-byte copy of `v[start..end)`.
pub fn copy_range(v: &Vec<u8>, start: usize, end: usize) -> (r: Vec<u8>)
    requires
        start <= end <= v@.len(),
    ensures
        r@ == v@.subrange(start as int, end as int),
{
    let mut r: Vec<u8> = Vec::new();
    let mut i: usize = start;
    while i < end
        invariant
            start <= i <= end <= v@.len(),
            r@ =~= v@.subrange(start as int, i as int),
        decreases end - i,
    {
        r.push(v[i]);
        i = i + 1;
    }
    proof {
        assert(r@ =~= v@.subrange(start as int, end as int));
    }
    r
}

impl MultipleAPICDescTable {
    /// Parses the MADT's fixed part out of a table's bytes and takes the
    /// record region that the declared length delimits.
    pub fn parse(bytes: &Vec<u8>) -> (r: Result<MultipleAPICDescTable, MadtError>)
        ensures
            match r {
                Ok(m) => {
                    &&& spec_madt_wf(bytes@)
                    &&& m.local_ic_addr as int == le_u32_at(bytes@, 36)
                    &&& m.flags.bits as int == le_u32_at(bytes@, 40)
                    &&& m.body@ == bytes@.subrange(MADT_PREFIX_SIZE as int, spec_length(bytes@))
                },
                Err(MadtError::TooShort) => !spec_madt_wf(bytes@),
                Err(_) => false,
            },
    {
        if bytes.len() < MADT_PREFIX_SIZE {
            return Err(MadtError::TooShort);
        }
        let length = read_le_u32(bytes, 4);
        if length < MADT_PREFIX_SIZE as u32 || (length as usize) > bytes.len() {
            return Err(MadtError::TooShort);
        }
        let local_ic_addr = read_le_u32(bytes, 36);
        let flags = MADTFlags { bits: read_le_u32(bytes, 40) };
        let body = copy_range(bytes, MADT_PREFIX_SIZE, length as usize);
        Ok(MultipleAPICDescTable { local_ic_addr, flags, body })
    }

    /// Physical base address of the local interrupt controller.
    pub fn local_ic_addr(&self) -> (r: u64)
        ensures
            r == self.local_ic_addr as u64,
    {
        self.local_ic_addr as u64
    }

    /// A fresh decoder over the record region, starting at its first
    /// byte.
    pub fn as_iter(&self) -> (r: MADTIter)
        ensures
            r.curr == 0,
            r.total == self.body@.len(),
    {
        MADTIter { curr: 0, total: self.body.len() }
    }

    /// The raw bytes of one record's extent, for layout-specific
    /// interpretation by the consumer.
    pub fn record_bytes(&self, rec: IcRecord) -> (r: Vec<u8>)
        requires
            rec.offset + rec.length <= self.body@.len(),
        ensures
            r@ == self.body@.subrange(rec.offset as int, rec.offset + rec.length),
    {
        let n: usize = self.body.len();
        assert(rec.offset + rec.length <= n);
        copy_range(&self.body, rec.offset, rec.offset + rec.length as usize)
    }

    /// Decodes the whole record region: every record in order, or the
    /// first decode error.
    pub fn decode_all(&self) -> (r: Result<Vec<InterruptController>, MadtError>)
        ensures
            match r {
                Ok(v) => spec_decode(self.body@, 0) == Ok::<_, MadtError>(v@),
                Err(e) => spec_decode(self.body@, 0) == Err::<Seq<InterruptController>, _>(e),
            },
    {
        let mut iter = self.as_iter();
        let mut out: Vec<InterruptController> = Vec::new();
        proof {
            if spec_decode(self.body@, 0) is Ok {
                let rest = spec_decode(self.body@, 0).unwrap();
                assert(out@ + rest =~= rest);
            }
        }
        loop
            invariant
                iter.total == self.body@.len(),
                iter.curr <= iter.total,
                spec_decode(self.body@, 0) == (match spec_decode(self.body@, iter.curr as int) {
                    Ok(rest) => Ok(out@ + rest),
                    Err(e) => Err(e),
                }),
            decreases iter.total - iter.curr,
        {
            let ghost prev = iter.curr as int;
            match iter.next(&self.body) {
                Ok(None) => {
                    proof {
                        assert(spec_decode(self.body@, prev) == Ok::<_, MadtError>(Seq::<
                            InterruptController,
                        >::empty()));
                        assert(out@ + Seq::<InterruptController>::empty() =~= out@);
                    }
                    return Ok(out);
                },
                Ok(Some(rec)) => {
                    let ghost old_out = out@;
                    out.push(rec);
                    proof {
                        assert(spec_decode(self.body@, prev) == (match spec_decode(
                            self.body@,
                            iter.curr as int,
                        ) {
                            Ok(rest) => Ok(seq![rec] + rest),
                            Err(e) => Err(e),
                        }));
                        if spec_decode(self.body@, iter.curr as int) is Ok {
                            let rest = spec_decode(self.body@, iter.curr as int).unwrap();
                            assert(old_out + (seq![rec] + rest) =~= out@ + rest);
                        }
                    }
                },
                Err(e) => {
                    return Err(e);
                },
            }
        }
    }
}

impl MADTIter {
    /// Yields the record at the cursor and advances past it, signals the
    /// end of the region, or reports the first decode error, leaving the
    /// cursor in place.
    pub fn next(&mut self, body: &Vec<u8>) -> (r: Result<Option<InterruptController>, MadtError>)
        requires
            old(self).total == body@.len(),
            old(self).curr <= old(self).total,
        ensures
            r == spec_step(body@, old(self).curr as int),
            final(self).total == old(self).total,
            match r {
                Ok(Some(_)) => final(self).curr == old(self).curr + body@[old(self).curr + 1]
                    && final(self).curr <= final(self).total,
                _ => final(self).curr == old(self).curr,
            },
    {
        if self.curr == self.total {
            return Ok(None);
        }
        if self.total - self.curr < 2 {
            return Err(MadtError::RecordTooShort);
        }
        let tag = body[self.curr];
        let length = body[self.curr + 1];
        if length < 2 {
            return Err(MadtError::RecordTooShort);
        }
        if (length as usize) > self.total - self.curr {
            return Err(MadtError::RecordOverrun);
        }
        let rec = make_ic(tag, length, self.curr);
        self.curr = self.curr + length as usize;
        Ok(Some(rec))
    }
}

/// Executable counterpart of `spec_make_ic`.
pub fn make_ic(tag: u8, length: u8, offset: usize) -> (r: InterruptController)
    ensures
        r == spec_make_ic(tag, length, offset),
{
    let rec = IcRecord { type_: tag, length, offset };
    if tag == 0 {
        InterruptController::ProcessorLocalAPIC(rec)
    } else if tag == 1 {
        InterruptController::InputOutputAPIC(rec)
    } else if tag == 2 {
        InterruptController::IntrSourceOverride(rec)
    } else if tag == 3 {
        InterruptController::NMISource(rec)
    } else if tag == 4 {
        InterruptController::LocalAPICNMI(rec)
    } else if tag == 5 {
        InterruptController::LocalAPICAddrOverride(rec)
    } else if tag == 6 {
        InterruptController::InputOutputSAPIC(rec)
    } else if tag == 7 {
        InterruptController::LocalSAPIC(rec)
    } else if tag == 8 {
        InterruptController::PlatformInterruptSrcs(rec)
    } else if tag == 9 {
        InterruptController::ProcessorLocalx2APIC(rec)
    } else if tag == 0xA {
        InterruptController::Localx2APICNmi(rec)
    } else if tag == 0xB {
        InterruptController::GicCpu(rec)
    } else if tag == 0xC {
        InterruptController::GicDist(rec)
    } else if tag == 0xD {
        InterruptController::GicMsiFrame(rec)
    } else if tag == 0xE {
        InterruptController::GicRedist(rec)
    } else if tag == 0xF {
        InterruptController::GicIts(rec)
    } else if tag == 0x10 {
        InterruptController::MpWakeup(rec)
    } else if tag <= 0x7F {
        InterruptController::Reserved(rec)
    } else {
        InterruptController::OemReserved(rec)
    }
}

} // verus!
