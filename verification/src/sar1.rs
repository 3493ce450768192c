//! The simple archive container, tagged `1RAS`: named entries whose data
//! regions are referenced by offset and count, plus the `CSVB` effect
//! record stored inside such archives.
use vstd::prelude::*;

use crate::cursor::{region_in_bounds, u16_at, u32_at, Endian};
use crate::error::Xc3Error;
use crate::msmd::{check_magic, read_u32s};

verus! {

/// Copies `len` bytes starting at `start`. Zero bytes copy from any
/// offset.
pub fn copy_range(data: &Vec<u8>, start: usize, len: usize) -> (r: Result<Vec<u8>, Xc3Error>)
    ensures
        len == 0 ==> (r matches Ok(v) && v@ == Seq::<u8>::empty()),
        len > 0 && start + len <= data.len() ==> (r matches Ok(v) && v@ == data@.subrange(
            start as int, start + len)),
        len > 0 && start + len > data.len() ==> (r matches Err(er) && er matches
            Xc3Error::UnexpectedEof { .. }),
{
    if len == 0 {
        let r: Vec<u8> = Vec::new();
        return Ok(r);
    }
    if start > data.len() || data.len() - start < len {
        return Err(Xc3Error::UnexpectedEof { requested: len, available: data.len() });
    }
    let mut v: Vec<u8> = Vec::new();
    let mut i: usize = 0;
    while i < len
        invariant
            i <= len,
            start + len <= data@.len(),
            data@.len() <= usize::MAX,
            v@ =~= data@.subrange(start as int, start + i),
        decreases len - i,
    {
        proof {
            assert(data@.subrange(start as int, start + i + 1) =~= data@.subrange(start as int,
                start + i) + seq![data@[start + i]]);
        }
        v.push(data[start + i]);
        i += 1;
    }
    Ok(v)
}

/// The bytes of a NUL-padded fixed field up to its first NUL.
pub fn trim_nul(field: &Vec<u8>) -> (r: Vec<u8>)
    ensures
        r@.len() <= field@.len(),
        forall|m: int| 0 <= m < r@.len() ==> (#[trigger] r@[m]) == field@[m] && field@[m] != 0,
        r@.len() < field@.len() ==> field@[r@.len() as int] == 0,
{
    let mut v: Vec<u8> = Vec::new();
    let mut i: usize = 0;
    while i < field.len()
        invariant
            i <= field@.len(),
            v@.len() == i,
            forall|m: int| 0 <= m < i ==> (#[trigger] v@[m]) == field@[m] && field@[m] != 0,
        decreases field@.len() - i,
    {
        let b = field[i];
        if b == 0 {
            return v;
        }
        v.push(b);
        i += 1;
    }
    v
}

/// One archive entry: its raw bytes, its name hash, and its name.
#[derive(Clone, Debug, PartialEq, Eq)]
pub struct Entry {
    pub entry_data: Vec<u8>,
    pub name_hash: u32,
    /// The entry name, NUL padded into 52 bytes on disk.
    pub name: Vec<u8>,
}

/// A NUL-trimmed name equals the padded field's bytes up to its first
/// NUL: every kept byte matches and is non-NUL, and the field continues
/// with a NUL unless the name fills it.
pub open spec fn name_trimmed(name: Seq<u8>, data: Seq<u8>, at: int, width: int) -> bool {
    &&& name.len() <= width
    &&& forall|m: int| 0 <= m < name.len() ==> (#[trigger] name[m]) == data[at + m] && data[at
        + m] != 0
    &&& (name.len() < width ==> data[at + name.len()] == 0)
}

/// The archive header lies in the file with its magic, the 64-byte entry
/// table lies in the file, and every entry's data range does too.
pub open spec fn sar1_wf(data: Seq<u8>) -> bool {
    let count = u32_at(data, 12, Endian::Little);
    let offset = u32_at(data, 16, Endian::Little);
    &&& data.len() >= 160
    &&& data[0] == 49 && data[1] == 82 && data[2] == 65 && data[3] == 83
    &&& region_in_bounds(offset, count, 64, data.len() as int)
    &&& forall|i: int| 0 <= i < count ==> region_in_bounds(#[trigger] u32_at(data, offset + 64
        * i, Endian::Little), u32_at(data, offset + 64 * i + 4, Endian::Little), 1,
        data.len() as int)
}

/// Entry `i` of the decoded archive matches its 64-byte record: the data
/// range it names, its name hash, and its NUL-trimmed name.
pub open spec fn sar1_entry_decoded(en: Entry, data: Seq<u8>, rec: int) -> bool {
    let off = u32_at(data, rec, Endian::Little);
    let cnt = u32_at(data, rec + 4, Endian::Little);
    &&& (cnt > 0 ==> en.entry_data@ == data.subrange(off, off + cnt))
    &&& (cnt == 0 ==> en.entry_data@ == Seq::<u8>::empty())
    &&& en.name_hash == u32_at(data, rec + 8, Endian::Little)
    &&& name_trimmed(en.name@, data, rec + 12, 52)
}

/// The simple archive: entries plus the archive name.
#[derive(Clone, Debug, PartialEq, Eq)]
pub struct Sar1 {
    pub file_size: u32,
    pub version: u32,
    pub entries: Vec<Entry>,
    pub unk_offset: u32,
    pub unk4: u32,
    pub unk5: u32,
    /// The archive name, NUL padded into 128 bytes on disk.
    pub name: Vec<u8>,
}

impl Sar1 {
    /// Decodes an archive from the start of the input: the magic, the
    /// file size and version, a count and offset of 64-byte entry
    /// records, three scalars and the padded archive name; each record
    /// holds the offset and count of its data, a name hash, and a padded
    /// name.
    pub fn read(data: &Vec<u8>) -> (r: Result<Sar1, Xc3Error>)
        ensures
            r matches Ok(a) ==> {
                &&& a.file_size == u32_at(data@, 4, Endian::Little)
                &&& a.version == u32_at(data@, 8, Endian::Little)
                &&& a.entries@.len() == u32_at(data@, 12, Endian::Little)
                &&& a.unk_offset == u32_at(data@, 20, Endian::Little)
                &&& a.unk4 == u32_at(data@, 24, Endian::Little)
                &&& a.unk5 == u32_at(data@, 28, Endian::Little)
                &&& name_trimmed(a.name@, data@, 32, 128)
                &&& forall|i: int| 0 <= i < a.entries@.len() ==> sar1_entry_decoded(
                    #[trigger] a.entries@[i], data@, u32_at(data@, 16, Endian::Little) + 64 * i)
            },
            r is Ok <==> sar1_wf(data@),
    {
        match check_magic(data, 0, 49, 82, 65, 83) {
            Ok(_) => {}
            Err(er) => {
                return Err(er);
            }
        }
        let head = match read_u32s(data, 4, 7) {
            Ok(v) => v,
            Err(er) => {
                return Err(er);
            }
        };
        let file_size = head[0];
        let version = head[1];
        let count = head[2];
        let offset = head[3];
        let unk_offset = head[4];
        let unk4 = head[5];
        let unk5 = head[6];
        let name_field = match copy_range(data, 32, 128) {
            Ok(v) => v,
            Err(er) => {
                return Err(er);
            }
        };
        let name = trim_nul(&name_field);
        proof {
            assert(name_field@ == data@.subrange(32, 160));
            assert forall|m: int| 0 <= m < name@.len() implies (#[trigger] name@[m]) == data@[32
                + m] && data@[32 + m] != 0 by {
                assert(name@[m] == name_field@[m]);
                assert(name_field@[m] == data@[32 + m]);
            }
            if name@.len() < 128 {
                assert(name_field@[name@.len() as int] == data@[32 + name@.len() as int]);
            }
            assert(name_trimmed(name@, data@, 32, 128));
        }
        match crate::cursor::check_region(data.len(), offset, count, 64) {
            Ok(_) => {}
            Err(er) => {
                return Err(er);
            }
        }
        let mut entries: Vec<Entry> = Vec::new();
        let mut i: u32 = 0;
        while i < count
            invariant
                i <= count,
                data@.len() >= 160,
                data@[0] == 49 && data@[1] == 82 && data@[2] == 65 && data@[3] == 83,
                count == u32_at(data@, 12, Endian::Little),
                offset == u32_at(data@, 16, Endian::Little),
                entries@.len() == i,
                crate::cursor::region_in_bounds(offset as int, count as int, 64,
                    data@.len() as int),
                data@.len() <= usize::MAX,
                forall|m: int| 0 <= m < i ==> sar1_entry_decoded(#[trigger] entries@[m], data@,
                    offset + 64 * m),
                forall|m: int| 0 <= m < i ==> region_in_bounds(#[trigger] u32_at(data@, offset
                    + 64 * m, Endian::Little), u32_at(data@, offset + 64 * m + 4,
                    Endian::Little), 1, data@.len() as int),
            decreases count - i,
        {
            proof {
                vstd::arithmetic::mul::lemma_mul_inequality(i as int + 1, count as int, 64);
                assert((i as int + 1) * 64 == i as int * 64 + 64) by (nonlinear_arith);
                vstd::arithmetic::mul::lemma_mul_is_commutative(count as int, 64);
                vstd::arithmetic::mul::lemma_mul_is_commutative(i as int + 1, 64);
            }
            let rec = offset as usize + 64 * i as usize;
            let ghost rec0: int = offset + 64 * (i as int);
            proof {
                assert(rec == rec0);
            }
            let data_offset = crate::vertex::read_u32_in_pub(data, rec, Endian::Little);
            let data_count = crate::vertex::read_u32_in_pub(data, rec + 4, Endian::Little);
            let name_hash = crate::vertex::read_u32_in_pub(data, rec + 8, Endian::Little);
            proof {
                assert(u32_at(data@, rec0, Endian::Little) == data_offset);
                assert(u32_at(data@, rec0 + 4, Endian::Little) == data_count);
            }
            let name_field = match copy_range(data, rec + 12, 52) {
                Ok(v) => v,
                Err(er) => {
                    return Err(er);
                }
            };
            let entry_name = trim_nul(&name_field);
            let entry_data = match copy_range(data, data_offset as usize, data_count as usize) {
                Ok(v) => v,
                Err(er) => {
                    proof {
                        assert(!region_in_bounds(data_offset as int, data_count as int, 1,
                            data@.len() as int));
                        assert(!sar1_wf(data@));
                    }
                    return Err(er);
                }
            };
            let en = Entry { entry_data, name_hash, name: entry_name };
            proof {
                if data_count > 0 {
                    assert(en.entry_data@ =~= data@.subrange(data_offset as int, data_offset
                        + data_count));
                } else {
                    assert(en.entry_data@ =~= Seq::<u8>::empty());
                }
                assert(name_field@ == data@.subrange(rec0 + 12, rec0 + 64));
                assert forall|m: int| 0 <= m < en.name@.len() implies (#[trigger] en.name@[m])
                    == data@[rec0 + 12 + m] && data@[rec0 + 12 + m] != 0 by {
                    assert(en.name@[m] == name_field@[m]);
                    assert(name_field@[m] == data@[rec0 + 12 + m]);
                }
                if en.name@.len() < 52 {
                    assert(name_field@[en.name@.len() as int] == data@[rec0 + 12
                        + en.name@.len() as int]);
                }
                assert(sar1_entry_decoded(en, data@, rec0));
            }
            entries.push(en);
            i += 1;
        }
        Ok(Sar1 { file_size, version, entries, unk_offset, unk4, unk5, name })
    }
}

/// One item of a `CSVB` effect record.
#[derive(Clone, Copy, Debug, PartialEq, Eq, Structural)]
pub struct CvsbItem {
    /// Offset of the first name, relative to the string section.
    pub name1_offset: u16,
    /// Offset of the second name, relative to the string section.
    pub name2_offset: u16,
    pub unk3: u32,
    pub unk4: u32,
    pub unk5: u32,
}

/// The effect record's header lies in the file with its magic, and its
/// packed half-words, items and both byte sections all fit behind it.
pub open spec fn csvb_wf(data: Seq<u8>, pos: int) -> bool {
    let items = u16_at(data, pos + 4, Endian::Little);
    let uk = u16_at(data, pos + 6, Endian::Little) / 8;
    let ulen = u32_at(data, pos + 8, Endian::Little);
    let slen = u32_at(data, pos + 12, Endian::Little);
    let body = pos + 16 + 2 * uk + 16 * items;
    &&& pos + 16 <= data.len()
    &&& data[pos] == 67 && data[pos + 1] == 83 && data[pos + 2] == 86 && data[pos + 3] == 66
    &&& body <= data.len()
    &&& (ulen > 0 ==> body + ulen <= data.len())
    &&& (slen > 0 ==> body + ulen + slen <= data.len())
}

/// Item `q` of the decoded record matches its sixteen bytes.
pub open spec fn cvsb_item_decoded(it: CvsbItem, data: Seq<u8>, rec: int) -> bool {
    &&& it.name1_offset == u16_at(data, rec, Endian::Little)
    &&& it.name2_offset == u16_at(data, rec + 2, Endian::Little)
    &&& it.unk3 == u32_at(data, rec + 4, Endian::Little)
    &&& it.unk4 == u32_at(data, rec + 8, Endian::Little)
    &&& it.unk5 == u32_at(data, rec + 12, Endian::Little)
}

/// The effect record, tagged `CSVB`: counted item and byte sections read
/// back to back.
#[derive(Clone, Debug, PartialEq, Eq)]
pub struct Csvb {
    pub item_count: u16,
    pub unk_count: u16,
    pub unk_section_length: u32,
    pub string_section_length: u32,
    pub unks: Vec<u16>,
    pub unk6: Vec<CvsbItem>,
    pub unk_section: Vec<u8>,
    pub string_section: Vec<u8>,
}

impl Csvb {
    /// Decodes the record at `pos`: four header scalars, an eighth of
    /// `unk_count` packed half-words, `item_count` sixteen-byte items,
    /// then the two raw sections.
    pub fn read(data: &Vec<u8>, pos: usize) -> (r: Result<Csvb, Xc3Error>)
        ensures
            r matches Ok(c) ==> {
                let uk = u16_at(data@, pos + 6, Endian::Little) / 8;
                let items0 = pos + 16 + 2 * uk;
                let body = items0 + 16 * c.item_count;
                &&& c.item_count == u16_at(data@, pos + 4, Endian::Little)
                &&& c.unk_count == u16_at(data@, pos + 6, Endian::Little)
                &&& c.unk_section_length == u32_at(data@, pos + 8, Endian::Little)
                &&& c.string_section_length == u32_at(data@, pos + 12, Endian::Little)
                &&& c.unks@.len() == uk
                &&& (forall|m: int| 0 <= m < c.unks@.len() ==> (#[trigger] c.unks@[m]) == u16_at(
                    data@, pos + 16 + 2 * m, Endian::Little))
                &&& c.unk6@.len() == c.item_count
                &&& (forall|q: int| 0 <= q < c.unk6@.len() ==> cvsb_item_decoded(
                    #[trigger] c.unk6@[q], data@, items0 + 16 * q))
                &&& c.unk_section@.len() == c.unk_section_length
                &&& (c.unk_section_length > 0 ==> c.unk_section@ == data@.subrange(body, body
                    + c.unk_section_length))
                &&& c.string_section@.len() == c.string_section_length
                &&& (c.string_section_length > 0 ==> c.string_section@ == data@.subrange(body
                    + c.unk_section_length, body + c.unk_section_length
                    + c.string_section_length))
            },
            r is Ok <==> csvb_wf(data@, pos as int),
    {
        let e = Endian::Little;
        match check_magic(data, pos, 67, 83, 86, 66) {
            Ok(_) => {}
            Err(er) => {
                return Err(er);
            }
        }
        if pos > data.len() || data.len() - pos < 16 {
            return Err(Xc3Error::UnexpectedEof { requested: 16, available: data.len() });
        }
        let item_count = crate::vertex::read_u16_in_pub(data, pos + 4, e);
        let unk_count = crate::vertex::read_u16_in_pub(data, pos + 6, e);
        let unk_section_length = crate::vertex::read_u32_in_pub(data, pos + 8, e);
        let string_section_length = crate::vertex::read_u32_in_pub(data, pos + 12, e);

        let unks_count = (unk_count / 8) as usize;
        let mut cur = pos + 16;
        let mut unks: Vec<u16> = Vec::new();
        let mut m: usize = 0;
        if cur as u128 + 2 * unks_count as u128 > data.len() as u128 {
            return Err(Xc3Error::UnexpectedEof { requested: 2 * unks_count,
                available: data.len() });
        }
        while m < unks_count
            invariant
                m <= unks_count,
                cur == pos + 16,
                cur + 2 * unks_count <= data@.len(),
                data@.len() <= usize::MAX,
                unks@.len() == m,
                forall|w: int| 0 <= w < m ==> (#[trigger] unks@[w]) == u16_at(data@, pos + 16
                    + 2 * w, Endian::Little),
            decreases unks_count - m,
        {
            unks.push(crate::vertex::read_u16_in_pub(data, cur + 2 * m, Endian::Little));
            m += 1;
        }
        cur = cur + 2 * unks_count;

        let items_count = item_count as usize;
        if cur as u128 + 16 * items_count as u128 > data.len() as u128 {
            return Err(Xc3Error::UnexpectedEof { requested: 16 * items_count,
                available: data.len() });
        }
        let mut unk6: Vec<CvsbItem> = Vec::new();
        let mut q: usize = 0;
        while q < items_count
            invariant
                q <= items_count,
                cur == pos + 16 + 2 * unks_count,
                cur + 16 * items_count <= data@.len(),
                data@.len() <= usize::MAX,
                unk6@.len() == q,
                forall|w: int| 0 <= w < q ==> cvsb_item_decoded(#[trigger] unk6@[w], data@, cur
                    + 16 * w),
            decreases items_count - q,
        {
            let rec = cur + 16 * q;
            let it = CvsbItem {
                name1_offset: crate::vertex::read_u16_in_pub(data, rec, Endian::Little),
                name2_offset: crate::vertex::read_u16_in_pub(data, rec + 2, Endian::Little),
                unk3: crate::vertex::read_u32_in_pub(data, rec + 4, Endian::Little),
                unk4: crate::vertex::read_u32_in_pub(data, rec + 8, Endian::Little),
                unk5: crate::vertex::read_u32_in_pub(data, rec + 12, Endian::Little),
            };
            proof {
                assert(cvsb_item_decoded(it, data@, cur + 16 * (q as int)));
            }
            unk6.push(it);
            q += 1;
        }
        cur = cur + 16 * items_count;

        let unk_section = match copy_range(data, cur, unk_section_length as usize) {
            Ok(v) => v,
            Err(er) => {
                return Err(er);
            }
        };
        let cur2 = cur + unk_section_length as usize;
        let string_section = match copy_range(data, cur2, string_section_length as usize) {
            Ok(v) => v,
            Err(er) => {
                return Err(er);
            }
        };
        Ok(Csvb {
            item_count,
            unk_count,
            unk_section_length,
            string_section_length,
            unks,
            unk6,
            unk_section,
            string_section,
        })
    }
}

} // verus!
