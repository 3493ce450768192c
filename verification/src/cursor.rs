//! Byte-level cursor primitives: bounds-checked scalar reads at explicit
//! positions, endian-tagged encodings, and the offset/count heap-reference
//! helpers shared by every container decoder.
use vstd::prelude::*;

use crate::error::Xc3Error;

verus! {

/// Byte order of multi-byte scalars in a container.
#[derive(Clone, Copy, Debug, PartialEq, Eq, Structural)]
pub enum Endian {
    Little,
    Big,
}

/// The value of two bytes read as a little-endian 16-bit integer.
pub open spec fn le16(b0: u8, b1: u8) -> int {
    b0 + b1 * 256
}

/// The value of two bytes read as a big-endian 16-bit integer.
pub open spec fn be16(b0: u8, b1: u8) -> int {
    b0 * 256 + b1
}

/// The value of four bytes read as a little-endian 32-bit integer.
pub open spec fn le32(b0: u8, b1: u8, b2: u8, b3: u8) -> int {
    b0 + b1 * 0x100 + b2 * 0x10000 + b3 * 0x1000000
}

/// The value of four bytes read as a big-endian 32-bit integer.
pub open spec fn be32(b0: u8, b1: u8, b2: u8, b3: u8) -> int {
    b0 * 0x1000000 + b1 * 0x10000 + b2 * 0x100 + b3
}

/// The 16-bit scalar stored at byte offset `i` of `data` in byte order `e`.
pub open spec fn u16_at(data: Seq<u8>, i: int, e: Endian) -> int {
    match e {
        Endian::Little => le16(data[i], data[i + 1]),
        Endian::Big => be16(data[i], data[i + 1]),
    }
}

/// The 32-bit scalar stored at byte offset `i` of `data` in byte order `e`.
pub open spec fn u32_at(data: Seq<u8>, i: int, e: Endian) -> int {
    match e {
        Endian::Little => le32(data[i], data[i + 1], data[i + 2], data[i + 3]),
        Endian::Big => be32(data[i], data[i + 1], data[i + 2], data[i + 3]),
    }
}

/// The two-byte encoding of `v` in byte order `e`.
pub open spec fn enc16(v: int, e: Endian) -> Seq<u8> {
    match e {
        Endian::Little => seq![(v % 256) as u8, ((v / 256) % 256) as u8],
        Endian::Big => seq![((v / 256) % 256) as u8, (v % 256) as u8],
    }
}

/// The four-byte encoding of `v` in byte order `e`.
pub open spec fn enc32(v: int, e: Endian) -> Seq<u8> {
    match e {
        Endian::Little => seq![
            (v % 256) as u8,
            ((v / 0x100) % 256) as u8,
            ((v / 0x10000) % 256) as u8,
            ((v / 0x1000000) % 256) as u8,
        ],
        Endian::Big => seq![
            ((v / 0x1000000) % 256) as u8,
            ((v / 0x10000) % 256) as u8,
            ((v / 0x100) % 256) as u8,
            (v % 256) as u8,
        ],
    }
}

/// Decoding the encoding of a 16-bit value gives the value back.
pub proof fn lemma_enc16_dec(v: u16, e: Endian)
    ensures
        enc16(v as int, e).len() == 2,
        u16_at(enc16(v as int, e), 0, e) == v,
{
}

/// Encoding the decoding of two bytes gives the bytes back.
pub proof fn lemma_dec16_enc(data: Seq<u8>, i: int, e: Endian)
    requires
        0 <= i,
        i + 2 <= data.len(),
    ensures
        enc16(u16_at(data, i, e), e) =~= data.subrange(i, i + 2),
{
}

/// Decoding the encoding of a 32-bit value gives the value back.
pub proof fn lemma_enc32_dec(v: u32, e: Endian)
    ensures
        enc32(v as int, e).len() == 4,
        u32_at(enc32(v as int, e), 0, e) == v,
{
}

/// Encoding the decoding of four bytes gives the bytes back.
pub proof fn lemma_dec32_enc(data: Seq<u8>, i: int, e: Endian)
    requires
        0 <= i,
        i + 4 <= data.len(),
    ensures
        enc32(u32_at(data, i, e), e) =~= data.subrange(i, i + 4),
{
    let v = u32_at(data, i, e);
    let (b0, b1, b2, b3) = match e {
        Endian::Little => (data[i], data[i + 1], data[i + 2], data[i + 3]),
        Endian::Big => (data[i + 3], data[i + 2], data[i + 1], data[i]),
    };
    assert(v == b0 + b1 * 0x100 + b2 * 0x10000 + b3 * 0x1000000);
    vstd::arithmetic::div_mod::lemma_fundamental_div_mod_converse(v, 0x100,
        b1 + b2 * 0x100 + b3 * 0x10000, b0 as int);
    vstd::arithmetic::div_mod::lemma_fundamental_div_mod_converse(v, 0x10000,
        b2 + b3 * 0x100, b0 + b1 * 0x100);
    vstd::arithmetic::div_mod::lemma_fundamental_div_mod_converse(v, 0x1000000, b3 as int,
        b0 + b1 * 0x100 + b2 * 0x10000);
    vstd::arithmetic::div_mod::lemma_fundamental_div_mod_converse(b1 + b2 * 0x100 + b3 * 0x10000,
        0x100, b2 + b3 * 0x100, b1 as int);
    vstd::arithmetic::div_mod::lemma_fundamental_div_mod_converse(b2 + b3 * 0x100, 0x100,
        b3 as int, b2 as int);
}

/// Reads the byte at `pos`, or reports how many bytes were available.
pub fn read_u8(data: &Vec<u8>, pos: usize) -> (r: Result<u8, Xc3Error>)
    ensures
        pos < data.len() ==> r == Ok::<u8, Xc3Error>(data[pos as int]),
        pos >= data.len() ==> r == Err::<u8, Xc3Error>(
            Xc3Error::UnexpectedEof { requested: 1, available: 0 },
        ),
{
    if pos < data.len() {
        Ok(data[pos])
    } else {
        Err(Xc3Error::UnexpectedEof { requested: 1, available: 0 })
    }
}

/// Reads the 16-bit scalar at `pos` in byte order `e`.
pub fn read_u16(data: &Vec<u8>, pos: usize, e: Endian) -> (r: Result<u16, Xc3Error>)
    ensures
        pos + 2 <= data.len() ==> r == Ok::<u16, Xc3Error>(u16_at(data@, pos as int, e) as u16),
        pos + 2 > data.len() ==> (r matches Err(er) && er matches Xc3Error::UnexpectedEof {
            ..
        }),
{
    if pos < data.len() && data.len() - pos >= 2 {
        let b0 = data[pos];
        let b1 = data[pos + 1];
        match e {
            Endian::Little => Ok(b0 as u16 + (b1 as u16) * 256),
            Endian::Big => Ok((b0 as u16) * 256 + b1 as u16),
        }
    } else {
        Err(Xc3Error::UnexpectedEof {
            requested: 2,
            available: if pos <= data.len() { data.len() - pos } else { 0 },
        })
    }
}

/// Reads the 32-bit scalar at `pos` in byte order `e`.
pub fn read_u32(data: &Vec<u8>, pos: usize, e: Endian) -> (r: Result<u32, Xc3Error>)
    ensures
        pos + 4 <= data.len() ==> r == Ok::<u32, Xc3Error>(u32_at(data@, pos as int, e) as u32),
        pos + 4 > data.len() ==> (r matches Err(er) && er matches Xc3Error::UnexpectedEof {
            ..
        }),
{
    if pos < data.len() && data.len() - pos >= 4 {
        let b0 = data[pos] as u32;
        let b1 = data[pos + 1] as u32;
        let b2 = data[pos + 2] as u32;
        let b3 = data[pos + 3] as u32;
        match e {
            Endian::Little => Ok(b0 + b1 * 0x100 + b2 * 0x10000 + b3 * 0x1000000),
            Endian::Big => Ok(b0 * 0x1000000 + b1 * 0x10000 + b2 * 0x100 + b3),
        }
    } else {
        Err(Xc3Error::UnexpectedEof {
            requested: 4,
            available: if pos <= data.len() { data.len() - pos } else { 0 },
        })
    }
}

/// Appends the two-byte encoding of `v` in byte order `e`.
pub fn push_u16(out: &mut Vec<u8>, v: u16, e: Endian)
    ensures
        final(out)@ =~= old(out)@ + enc16(v as int, e),
{
    match e {
        Endian::Little => {
            out.push((v % 256) as u8);
            out.push((v / 256) as u8);
        }
        Endian::Big => {
            out.push((v / 256) as u8);
            out.push((v % 256) as u8);
        }
    }
}

/// Appends the four-byte encoding of `v` in byte order `e`.
pub fn push_u32(out: &mut Vec<u8>, v: u32, e: Endian)
    ensures
        final(out)@ =~= old(out)@ + enc32(v as int, e),
{
    match e {
        Endian::Little => {
            out.push((v % 256) as u8);
            out.push(((v / 0x100) % 256) as u8);
            out.push(((v / 0x10000) % 256) as u8);
            out.push((v / 0x1000000) as u8);
        }
        Endian::Big => {
            out.push((v / 0x1000000) as u8);
            out.push(((v / 0x10000) % 256) as u8);
            out.push(((v / 0x100) % 256) as u8);
            out.push((v % 256) as u8);
        }
    }
}

/// A heap reference of `count` elements of `elem_size` bytes at `offset`
/// stays inside a file of `len` bytes. An empty reference is in bounds
/// whatever its offset: it reads nothing.
pub open spec fn region_in_bounds(offset: int, count: int, elem_size: int, len: int) -> bool {
    count <= 0 || offset + count * elem_size <= len
}

/// Checks that a heap region lies inside the file, reporting the resolved
/// offset against the file size otherwise. A count of zero passes with
/// any offset.
pub fn check_region(
    data_len: usize,
    offset: u32,
    count: u32,
    elem_size: u32,
) -> (r: Result<(), Xc3Error>)
    ensures
        r.is_ok() <==> region_in_bounds(offset as int, count as int, elem_size as int,
            data_len as int),
        r matches Err(er) ==> er matches Xc3Error::OffsetOutOfBounds { .. },
{
    if count == 0 {
        return Ok(());
    }
    proof {
        vstd::arithmetic::mul::lemma_mul_upper_bound(count as int, 0xffff_ffff, elem_size as int,
            0xffff_ffff);
    }
    let total = (count as u128) * (elem_size as u128);
    if (offset as u128) + total <= data_len as u128 {
        Ok(())
    } else {
        Err(Xc3Error::OffsetOutOfBounds { offset: offset as usize, file_size: data_len })
    }
}

/// Reads an optional 32-bit pointer: a stored zero means absent.
pub fn read_opt_ptr32(data: &Vec<u8>, pos: usize, e: Endian) -> (r: Result<Option<u32>,
    Xc3Error>)
    ensures
        pos + 4 <= data.len() ==> (r matches Ok(p) && p == (if u32_at(data@, pos as int, e)
            == 0 {
            Option::<u32>::None
        } else {
            Option::<u32>::Some(u32_at(data@, pos as int, e) as u32)
        })),
        pos + 4 > data.len() ==> (r matches Err(er) && er matches Xc3Error::UnexpectedEof {
            ..
        }),
{
    let v = match read_u32(data, pos, e) {
        Ok(v) => v,
        Err(er) => {
            return Err(er);
        }
    };
    if v == 0 {
        Ok(None)
    } else {
        Ok(Some(v))
    }
}

/// Appends an optional 32-bit pointer; an absent pointer is re-emitted as
/// zero.
pub fn push_opt_ptr32(out: &mut Vec<u8>, p: &Option<u32>, e: Endian)
    ensures
        final(out)@ =~= old(out)@ + enc32(
            match p {
                Some(v) => *v as int,
                None => 0int,
            },
            e,
        ),
{
    match p {
        Some(v) => push_u32(out, *v, e),
        None => push_u32(out, 0, e),
    }
}

/// Reads the NUL-terminated byte string at `offset`, without the
/// terminator.
///
/// Fails when the offset is outside the file or no terminator follows it.
pub fn read_cstring(data: &Vec<u8>, offset: usize) -> (r: Result<Vec<u8>, Xc3Error>)
    ensures
        r matches Ok(v) ==> {
            &&& offset + v@.len() < data@.len()
            &&& v@ == data@.subrange(offset as int, offset + v@.len())
            &&& data@[offset + v@.len()] == 0
            &&& forall|m: int| offset <= m < offset + v@.len() ==> data@[m] != 0
        },
        (exists|t: int| offset <= t < data@.len() && data@[t] == 0) ==> r is Ok,
{
    if offset >= data.len() {
        return Err(Xc3Error::OffsetOutOfBounds { offset, file_size: data.len() });
    }
    let mut v: Vec<u8> = Vec::new();
    let mut i: usize = offset;
    while i < data.len()
        invariant
            offset <= i <= data@.len(),
            data@.len() <= usize::MAX,
            v@ =~= data@.subrange(offset as int, i as int),
            forall|m: int| offset <= m < i ==> data@[m] != 0,
        decreases data@.len() - i,
    {
        let b = data[i];
        if b == 0 {
            return Ok(v);
        }
        proof {
            assert(data@.subrange(offset as int, i as int + 1) =~= data@.subrange(offset as int,
                i as int) + seq![data@[i as int]]);
        }
        v.push(b);
        i += 1;
    }
    Err(Xc3Error::UnexpectedEof { requested: 1, available: 0 })
}

/// The number of padding bytes that take `pos` up to a multiple of `align`.
pub open spec fn pad_to_align(pos: int, align: int) -> int
    recommends
        align > 0,
{
    if pos % align == 0 {
        0
    } else {
        align - pos % align
    }
}

/// Appends zero bytes until the buffer length is a multiple of `align`.
pub fn align_to(out: &mut Vec<u8>, align: usize)
    requires
        align > 0,
        old(out)@.len() + align <= usize::MAX,
    ensures
        final(out)@ =~= old(out)@ + Seq::new(pad_to_align(old(out)@.len() as int,
            align as int) as nat, |i: int| 0u8),
        final(out)@.len() as int % (align as int) == 0,
{
    let rem = out.len() % align;
    let ghost start = out@.len() as int;
    if rem != 0 {
        let pad = align - rem;
        let mut i: usize = 0;
        while i < pad
            invariant
                i <= pad,
                pad == align - rem,
                rem == start % align as int,
                0 < align,
                rem != 0,
                start + align <= usize::MAX,
                out@ =~= old(out)@ + Seq::new(i as nat, |j: int| 0u8),
                start == old(out)@.len(),
            decreases pad - i,
        {
            out.push(0u8);
            i += 1;
        }
        proof {
            let a = align as int;
            let q = start / a;
            let r = start % a;
            vstd::arithmetic::div_mod::lemma_fundamental_div_mod(start, a);
            assert(start + (a - r) == (q + 1) * a) by (nonlinear_arith)
                requires
                    start == a * q + r,
            ;
            vstd::arithmetic::div_mod::lemma_mod_multiples_basic(q + 1, a);
            assert(out@.len() as int % a == 0);
        }
    } else {
        assert(out@ =~= old(out)@ + Seq::new(0nat, |j: int| 0u8));
    }
}

} // verus!
