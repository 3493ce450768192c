//! The packed model container, tagged `DMPA`: a version, a table of typed
//! entries, and each entry's raw bytes aligned to 4096-byte pages.
use vstd::prelude::*;

use crate::cursor::{u32_at, Endian, push_u32, region_in_bounds};
use crate::error::Xc3Error;
use crate::msmd::{check_magic, read_u32s};

verus! {

/// The kind of payload one entry carries.
#[derive(Clone, Copy, Debug, PartialEq, Eq, Structural)]
pub enum EntryType {
    Mxmd,
    Dmis,
    Dlgt,
    Gibl,
    Nerd,
    Dlgt2,
}

/// The stored code of an entry type.
pub open spec fn spec_entry_type_code(t: EntryType) -> int {
    match t {
        EntryType::Mxmd => 0,
        EntryType::Dmis => 1,
        EntryType::Dlgt => 3,
        EntryType::Gibl => 4,
        EntryType::Nerd => 5,
        EntryType::Dlgt2 => 6,
    }
}

impl EntryType {
    /// The stored code of this entry type.
    pub fn code(&self) -> (r: u32)
        ensures
            r == spec_entry_type_code(*self),
    {
        match self {
            EntryType::Mxmd => 0,
            EntryType::Dmis => 1,
            EntryType::Dlgt => 3,
            EntryType::Gibl => 4,
            EntryType::Nerd => 5,
            EntryType::Dlgt2 => 6,
        }
    }

    /// Decodes a stored entry type code, rejecting unknown values.
    pub fn from_code(v: u32) -> (r: Result<EntryType, Xc3Error>)
        ensures
            r matches Ok(t) ==> spec_entry_type_code(t) == v,
            r matches Err(er) ==> er == (Xc3Error::EnumOutOfRange { value: v }),
            r is Ok <==> entry_code_valid(v as int),
    {
        match v {
            0u32 => Ok(EntryType::Mxmd),
            1u32 => Ok(EntryType::Dmis),
            3u32 => Ok(EntryType::Dlgt),
            4u32 => Ok(EntryType::Gibl),
            5u32 => Ok(EntryType::Nerd),
            6u32 => Ok(EntryType::Dlgt2),
            _ => Err(Xc3Error::EnumOutOfRange { value: v }),
        }
    }
}

/// The stored scalar is one of the entry type codes.
pub open spec fn entry_code_valid(v: int) -> bool {
    v == 0 || v == 1 || v == 3 || v == 4 || v == 5 || v == 6
}

/// One typed entry and its raw payload bytes.
#[derive(Clone, Debug, PartialEq, Eq)]
pub struct Entry {
    pub entry_type: EntryType,
    pub entry_data: Vec<u8>,
}

/// The container header lies in the file with its magic, the twelve-byte
/// entry table lies in the file, and every entry names a known type and an
/// in-bounds payload range.
pub open spec fn apmd_wf(data: Seq<u8>) -> bool {
    let offset = u32_at(data, 8, Endian::Little);
    let count = u32_at(data, 12, Endian::Little);
    &&& data.len() >= 52
    &&& data[0] == 68 && data[1] == 77 && data[2] == 80 && data[3] == 65
    &&& region_in_bounds(offset, count, 12, data.len() as int)
    &&& forall|i: int| 0 <= i < count ==> entry_code_valid(#[trigger] u32_at(data, offset + 12
        * i, Endian::Little)) && region_in_bounds(u32_at(data, offset + 12 * i + 4,
        Endian::Little), u32_at(data, offset + 12 * i + 8, Endian::Little), 1,
        data.len() as int)
}

/// Entry `i` of the decoded table matches its twelve bytes: a type code
/// and the offset and count of its payload.
pub open spec fn entry_decoded(en: Entry, data: Seq<u8>, rec: int) -> bool {
    let off = u32_at(data, rec + 4, Endian::Little);
    let cnt = u32_at(data, rec + 8, Endian::Little);
    &&& spec_entry_type_code(en.entry_type) == u32_at(data, rec, Endian::Little)
    &&& (cnt > 0 ==> en.entry_data@ == data.subrange(off, off + cnt))
    &&& (cnt == 0 ==> en.entry_data@ == Seq::<u8>::empty())
}

/// The packed model container.
#[derive(Clone, Debug, PartialEq, Eq)]
pub struct Apmd {
    pub version: u32,
    pub entries: Vec<Entry>,
    pub unk2: u32,
    pub unk3: u32,
    /// Seven opaque trailing scalars, kept verbatim.
    pub unk: Vec<u32>,
}

impl Apmd {
    /// Decodes a container from the start of the input: the magic, the
    /// version, an offset and count of twelve-byte entry records, two
    /// scalars and seven opaque ones; each entry holds a type code and
    /// the offset and count of its payload bytes, copied out of the
    /// heap. An empty table decodes to no entries whatever its offset.
    pub fn read(data: &Vec<u8>) -> (r: Result<Apmd, Xc3Error>)
        ensures
            r matches Ok(a) ==> {
                &&& a.version == u32_at(data@, 4, Endian::Little)
                &&& a.entries@.len() == u32_at(data@, 12, Endian::Little)
                &&& a.unk2 == u32_at(data@, 16, Endian::Little)
                &&& a.unk3 == u32_at(data@, 20, Endian::Little)
                &&& a.unk@.len() == 7
                &&& region_in_bounds(u32_at(data@, 8, Endian::Little), u32_at(data@, 12,
                    Endian::Little), 12, data@.len() as int)
                &&& forall|i: int| 0 <= i < a.entries@.len() ==> entry_decoded(
                    #[trigger] a.entries@[i], data@, u32_at(data@, 8, Endian::Little) + 12 * i)
            },
            r is Ok <==> apmd_wf(data@),
    {
        match check_magic(data, 0, 68, 77, 80, 65) {
            Ok(_) => {}
            Err(er) => {
                return Err(er);
            }
        }
        let head = match read_u32s(data, 4, 5) {
            Ok(v) => v,
            Err(er) => {
                return Err(er);
            }
        };
        let version = head[0];
        let entries_offset = head[1];
        let entries_count = head[2];
        let unk2 = head[3];
        let unk3 = head[4];
        let unk = match read_u32s(data, 24, 7) {
            Ok(v) => v,
            Err(er) => {
                return Err(er);
            }
        };
        match crate::cursor::check_region(data.len(), entries_offset, entries_count, 12) {
            Ok(_) => {}
            Err(er) => {
                return Err(er);
            }
        }
        let mut entries: Vec<Entry> = Vec::new();
        let mut i: u32 = 0;
        while i < entries_count
            invariant
                i <= entries_count,
                data@.len() >= 52,
                data@[0] == 68 && data@[1] == 77 && data@[2] == 80 && data@[3] == 65,
                entries_offset == u32_at(data@, 8, Endian::Little),
                entries_count == u32_at(data@, 12, Endian::Little),
                entries@.len() == i,
                region_in_bounds(entries_offset as int, entries_count as int, 12,
                    data@.len() as int),
                data@.len() <= usize::MAX,
                forall|m: int| 0 <= m < i ==> entry_decoded(#[trigger] entries@[m], data@,
                    entries_offset + 12 * m),
                forall|m: int| 0 <= m < i ==> entry_code_valid(#[trigger] u32_at(data@,
                    entries_offset + 12 * m, Endian::Little)) && region_in_bounds(u32_at(data@,
                    entries_offset + 12 * m + 4, Endian::Little), u32_at(data@, entries_offset
                    + 12 * m + 8, Endian::Little), 1, data@.len() as int),
            decreases entries_count - i,
        {
            proof {
                vstd::arithmetic::mul::lemma_mul_inequality(i as int + 1, entries_count as int,
                    12);
                assert((i as int + 1) * 12 == i as int * 12 + 12) by (nonlinear_arith);
                vstd::arithmetic::mul::lemma_mul_is_commutative(entries_count as int, 12);
                vstd::arithmetic::mul::lemma_mul_is_commutative(i as int + 1, 12);
            }
            let rec = entries_offset as usize + 12 * i as usize;
            let ghost rec0: int = entries_offset + 12 * (i as int);
            proof {
                assert(rec == rec0);
            }
            let type_code = crate::vertex::read_u32_in_pub(data, rec, Endian::Little);
            let data_offset = crate::vertex::read_u32_in_pub(data, rec + 4, Endian::Little);
            let data_count = crate::vertex::read_u32_in_pub(data, rec + 8, Endian::Little);
            proof {
                assert(u32_at(data@, rec0, Endian::Little) == type_code);
                assert(u32_at(data@, rec0 + 4, Endian::Little) == data_offset);
                assert(u32_at(data@, rec0 + 8, Endian::Little) == data_count);
            }
            let entry_type = match EntryType::from_code(type_code) {
                Ok(t) => t,
                Err(er) => {
                    proof {
                        assert(!entry_code_valid(type_code as int));
                        assert(!apmd_wf(data@));
                    }
                    return Err(er);
                }
            };
            match crate::cursor::check_region(data.len(), data_offset, data_count, 1) {
                Ok(_) => {}
                Err(er) => {
                    proof {
                        assert(!crate::cursor::region_in_bounds(data_offset as int,
                            data_count as int, 1, data@.len() as int));
                        assert(!apmd_wf(data@));
                    }
                    return Err(er);
                }
            }
            let mut entry_data: Vec<u8> = Vec::new();
            let start = data_offset as usize;
            let size = data_count as usize;
            if size > 0 {
                let mut b: usize = 0;
                while b < size
                    invariant
                        b <= size,
                        start + size <= data@.len(),
                        data@.len() <= usize::MAX,
                        entry_data@ =~= data@.subrange(start as int, start + b),
                    decreases size - b,
                {
                    proof {
                        assert(data@.subrange(start as int, start + b + 1) =~= data@.subrange(
                            start as int, start + b) + seq![data@[start + b]]);
                    }
                    entry_data.push(data[start + b]);
                    b += 1;
                }
            }
            let en = Entry { entry_type, entry_data };
            proof {
                if data_count > 0 {
                    assert(en.entry_data@ =~= data@.subrange(data_offset as int, data_offset
                        + data_count));
                } else {
                    assert(en.entry_data@ =~= Seq::<u8>::empty());
                }
                assert(entry_decoded(en, data@, rec0));
            }
            entries.push(en);
            i += 1;
        }
        Ok(Apmd { version, entries, unk2, unk3, unk })
    }

    /// Re-encodes the container: the 52-byte header, the entry table
    /// directly after it, then each payload on its own 4096-byte page,
    /// and page alignment at the end.
    ///
    /// An empty entry table is written with offset and count zero.
    pub fn write(&self) -> (r: Result<Vec<u8>, Xc3Error>)
        ensures
            r matches Ok(v) ==> {
                &&& v@.len() >= 52
                &&& u32_at(v@, 4, Endian::Little) == self.version
                &&& u32_at(v@, 12, Endian::Little) == self.entries@.len()
                &&& (self.entries@.len() == 0 ==> u32_at(v@, 8, Endian::Little) == 0)
                &&& (self.entries@.len() > 0 ==> u32_at(v@, 8, Endian::Little) == 52)
                &&& v@.len() as int % 4096 == 0
            },
            (self.entries@.len() == 0 && self.unk@.len() == 7) ==> r is Ok,
    {
        if self.entries.len() as u64 > 0xffff_ffffu64 || self.unk.len() != 7 {
            return Err(Xc3Error::InvariantViolation);
        }
        let e = Endian::Little;
        let count = self.entries.len() as u32;
        let entries_offset: u32 = if count == 0 {
            0
        } else {
            52
        };
        // First pass: assign each payload its page-aligned offset after
        // the table.
        let mut offsets: Vec<u64> = Vec::new();
        let mut pos: u64 = 52 + 12 * count as u64;
        let mut i: usize = 0;
        while i < self.entries.len()
            invariant
                i <= self.entries@.len(),
                offsets@.len() == i,
                pos <= u32::MAX as u64 * 3 + 52 + 12 * 0x1_0000_0000,
                self.entries@.len() == 0 ==> pos == 52,
            decreases self.entries@.len() - i,
        {
            if pos % 4096 != 0 {
                pos = pos + (4096 - pos % 4096);
            }
            offsets.push(pos);
            if self.entries[i].entry_data.len() as u64 > u32::MAX as u64 || pos > u32::MAX as u64
             {
                return Err(Xc3Error::InvariantViolation);
            }
            pos = pos + self.entries[i].entry_data.len() as u64;
            i += 1;
        }
        if pos > u32::MAX as u64 {
            return Err(Xc3Error::InvariantViolation);
        }
        // Second pass: emit the bytes.
        let mut out: Vec<u8> = Vec::new();
        out.push(68);
        out.push(77);
        out.push(80);
        out.push(65);
        push_u32(&mut out, self.version, e);
        push_u32(&mut out, entries_offset, e);
        push_u32(&mut out, count, e);
        push_u32(&mut out, self.unk2, e);
        push_u32(&mut out, self.unk3, e);
        crate::msmd::push_u32s(&mut out, &self.unk);
        proof {
            crate::msmd::lemma_enc_u32s_len(self.unk@);
            crate::cursor::lemma_enc32_dec(self.version, e);
            crate::cursor::lemma_enc32_dec(entries_offset, e);
            crate::cursor::lemma_enc32_dec(count, e);
            assert(out@ =~= seq![68u8, 77u8, 80u8, 65u8] + crate::cursor::enc32(
                self.version as int, e) + crate::cursor::enc32(entries_offset as int, e)
                + crate::cursor::enc32(count as int, e) + crate::cursor::enc32(self.unk2 as int,
                e) + crate::cursor::enc32(self.unk3 as int, e) + crate::msmd::enc_u32s(
                self.unk@));
            assert(u32_at(out@, 4, e) == self.version);
            assert(u32_at(out@, 8, e) == entries_offset);
            assert(u32_at(out@, 12, e) == count);
        }
        let ghost header = out@;
        let mut t: usize = 0;
        while t < self.entries.len()
            invariant
                t <= self.entries@.len(),
                offsets@.len() == self.entries@.len(),
                out@.len() >= 52,
                out@.subrange(0, 52) =~= header.subrange(0, 52),
                header.len() == 52,
                self.entries@.len() == 0 ==> out@ == header,
            decreases self.entries@.len() - t,
        {
            let ghost before = out@;
            if offsets[t] > u32::MAX as u64 {
                return Err(Xc3Error::InvariantViolation);
            }
            push_u32(&mut out, self.entries[t].entry_type.code(), e);
            push_u32(&mut out, offsets[t] as u32, e);
            push_u32(&mut out, self.entries[t].entry_data.len() as u32, e);
            proof {
                assert(out@.subrange(0, 52) =~= before.subrange(0, 52));
            }
            t += 1;
        }
        let mut b: usize = 0;
        while b < self.entries.len()
            invariant
                b <= self.entries@.len(),
                out@.len() >= 52,
                out@.subrange(0, 52) =~= header.subrange(0, 52),
                header.len() == 52,
                self.entries@.len() == 0 ==> out@ == header,
            decreases self.entries@.len() - b,
        {
            let ghost before_pad = out@;
            if out.len() >= usize::MAX - 4096 {
                return Err(Xc3Error::InvariantViolation);
            }
            crate::cursor::align_to(&mut out, 4096);
            proof {
                assert(out@.subrange(0, 52) =~= before_pad.subrange(0, 52));
            }
            let blob = &self.entries[b].entry_data;
            let mut w: usize = 0;
            let ghost before_blob = out@;
            while w < blob.len()
                invariant
                    w <= blob@.len(),
                    out@ =~= before_blob + blob@.take(w as int),
                    before_blob.len() >= 52,
                    before_blob.subrange(0, 52) =~= header.subrange(0, 52),
                    header.len() == 52,
                decreases blob@.len() - w,
            {
                out.push(blob[w]);
                w += 1;
            }
            proof {
                assert(out@.subrange(0, 52) =~= before_blob.subrange(0, 52));
            }
            b += 1;
        }
        let ghost before_final = out@;
        if out.len() >= usize::MAX - 4096 {
            return Err(Xc3Error::InvariantViolation);
        }
        crate::cursor::align_to(&mut out, 4096);
        proof {
            assert(out@.subrange(0, 52) =~= before_final.subrange(0, 52));
            assert(out@.subrange(0, 52)[4] == out@[4]);
            assert(header.subrange(0, 52)[4] == header[4]);
            assert(out@.subrange(0, 52)[5] == out@[5]);
            assert(header.subrange(0, 52)[5] == header[5]);
            assert(out@.subrange(0, 52)[6] == out@[6]);
            assert(header.subrange(0, 52)[6] == header[6]);
            assert(out@.subrange(0, 52)[7] == out@[7]);
            assert(header.subrange(0, 52)[7] == header[7]);
            assert(out@.subrange(0, 52)[8] == out@[8]);
            assert(header.subrange(0, 52)[8] == header[8]);
            assert(out@.subrange(0, 52)[9] == out@[9]);
            assert(header.subrange(0, 52)[9] == header[9]);
            assert(out@.subrange(0, 52)[10] == out@[10]);
            assert(header.subrange(0, 52)[10] == header[10]);
            assert(out@.subrange(0, 52)[11] == out@[11]);
            assert(header.subrange(0, 52)[11] == header[11]);
            assert(out@.subrange(0, 52)[12] == out@[12]);
            assert(header.subrange(0, 52)[12] == header[12]);
            assert(out@.subrange(0, 52)[13] == out@[13]);
            assert(header.subrange(0, 52)[13] == header[13]);
            assert(out@.subrange(0, 52)[14] == out@[14]);
            assert(header.subrange(0, 52)[14] == header[14]);
            assert(out@.subrange(0, 52)[15] == out@[15]);
            assert(header.subrange(0, 52)[15] == header[15]);
            assert(u32_at(out@, 4, e) == u32_at(header, 4, e));
            assert(u32_at(out@, 8, e) == u32_at(header, 8, e));
            assert(u32_at(out@, 12, e) == u32_at(header, 12, e));
        }
        Ok(out)
    }
}

} // verus!
