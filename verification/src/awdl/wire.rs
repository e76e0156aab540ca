//! Endian-aware, bounds-checked reads and writes on byte buffers.

use vstd::prelude::*;
use vstd::slice::slice_subrange;

verus! {

broadcast use vstd::slice::group_slice_axioms;

/// The error of every bounds-checked access: the range is out of the buffer.
#[derive(Debug, Clone, Copy, PartialEq, Eq, Structural)]
pub struct WireError;

/// Result of a bounds-checked access.
pub type WireResult<T> = Result<T, WireError>;

/// Value of two bytes read in little-endian order.
pub open spec fn le16_value(b0: u8, b1: u8) -> int {
    b0 as int + 256 * (b1 as int)
}

/// Value of two bytes read in big-endian order.
pub open spec fn be16_value(b0: u8, b1: u8) -> int {
    256 * (b0 as int) + b1 as int
}

/// Value of four bytes read in little-endian order.
pub open spec fn le32_value(b0: u8, b1: u8, b2: u8, b3: u8) -> int {
    b0 as int + 256 * (b1 as int) + 65536 * (b2 as int) + 16777216 * (b3 as int)
}

/// Value of four bytes read in big-endian order.
pub open spec fn be32_value(b0: u8, b1: u8, b2: u8, b3: u8) -> int {
    16777216 * (b0 as int) + 65536 * (b1 as int) + 256 * (b2 as int) + b3 as int
}

/// The two bytes of `v` in little-endian order.
pub open spec fn le16_bytes(v: u16) -> Seq<u8> {
    seq![(v % 256) as u8, (v / 256) as u8]
}

/// The two bytes of `v` in big-endian order.
pub open spec fn be16_bytes(v: u16) -> Seq<u8> {
    seq![(v / 256) as u8, (v % 256) as u8]
}

/// The four bytes of `v` in little-endian order.
pub open spec fn le32_bytes(v: u32) -> Seq<u8> {
    seq![(v % 256) as u8, ((v / 256) % 256) as u8, ((v / 65536) % 256) as u8, (v / 16777216) as u8]
}

/// The four bytes of `v` in big-endian order.
pub open spec fn be32_bytes(v: u32) -> Seq<u8> {
    seq![(v / 16777216) as u8, ((v / 65536) % 256) as u8, ((v / 256) % 256) as u8, (v % 256) as u8]
}

/// `s` with the bytes starting at `off` replaced by `b`.
pub open spec fn splice(s: Seq<u8>, off: int, b: Seq<u8>) -> Seq<u8> {
    s.subrange(0, off) + b + s.subrange(off + b.len(), s.len() as int)
}

/// True when `n` bytes starting at `off` lie inside a buffer of length `len`.
pub open spec fn fits(off: int, n: int, len: int) -> bool {
    off + n <= len
}

/// Read one byte at `offset`.
pub fn read_u8(data: &[u8], offset: usize) -> (res: WireResult<u8>)
    ensures
        match res {
            Ok(v) => fits(offset as int, 1, data@.len() as int) && v == data@[offset as int],
            Err(_) => !fits(offset as int, 1, data@.len() as int),
        },
{
    if offset >= data.len() {
        return Err(WireError);
    }
    Ok(data[offset])
}

/// Read a little-endian `u16` at `offset`.
pub fn read_le16(data: &[u8], offset: usize) -> (res: WireResult<u16>)
    ensures
        match res {
            Ok(v) => fits(offset as int, 2, data@.len() as int) && v as int == le16_value(
                data@[offset as int],
                data@[offset + 1],
            ),
            Err(_) => !fits(offset as int, 2, data@.len() as int),
        },
{
    if data.len() < 2 || offset > data.len() - 2 {
        return Err(WireError);
    }
    Ok(data[offset] as u16 + (data[offset + 1] as u16) * 256)
}

/// Read a big-endian `u16` at `offset`.
pub fn read_be16(data: &[u8], offset: usize) -> (res: WireResult<u16>)
    ensures
        match res {
            Ok(v) => fits(offset as int, 2, data@.len() as int) && v as int == be16_value(
                data@[offset as int],
                data@[offset + 1],
            ),
            Err(_) => !fits(offset as int, 2, data@.len() as int),
        },
{
    if data.len() < 2 || offset > data.len() - 2 {
        return Err(WireError);
    }
    Ok((data[offset] as u16) * 256 + data[offset + 1] as u16)
}

/// Read a little-endian `u32` at `offset`.
pub fn read_le32(data: &[u8], offset: usize) -> (res: WireResult<u32>)
    ensures
        match res {
            Ok(v) => fits(offset as int, 4, data@.len() as int) && v as int == le32_value(
                data@[offset as int],
                data@[offset + 1],
                data@[offset + 2],
                data@[offset + 3],
            ),
            Err(_) => !fits(offset as int, 4, data@.len() as int),
        },
{
    if data.len() < 4 || offset > data.len() - 4 {
        return Err(WireError);
    }
    Ok(data[offset] as u32 + (data[offset + 1] as u32) * 256 + (data[offset + 2] as u32) * 65536
        + (data[offset + 3] as u32) * 16777216)
}

/// Read a big-endian `u32` at `offset`.
pub fn read_be32(data: &[u8], offset: usize) -> (res: WireResult<u32>)
    ensures
        match res {
            Ok(v) => fits(offset as int, 4, data@.len() as int) && v as int == be32_value(
                data@[offset as int],
                data@[offset + 1],
                data@[offset + 2],
                data@[offset + 3],
            ),
            Err(_) => !fits(offset as int, 4, data@.len() as int),
        },
{
    if data.len() < 4 || offset > data.len() - 4 {
        return Err(WireError);
    }
    Ok((data[offset] as u32) * 16777216 + (data[offset + 1] as u32) * 65536 + (data[offset + 2] as u32)
        * 256 + data[offset + 3] as u32)
}


/// Borrow the `len` bytes starting at `offset`.
pub fn read_bytes<'a>(data: &'a [u8], offset: usize, len: usize) -> (res: WireResult<&'a [u8]>)
    ensures
        match res {
            Ok(v) => fits(offset as int, len as int, data@.len() as int) && v@ == data@.subrange(
                offset as int,
                offset + len,
            ),
            Err(_) => !fits(offset as int, len as int, data@.len() as int),
        },
{
    if len > data.len() || offset > data.len() - len {
        return Err(WireError);
    }
    Ok(slice_subrange(data, offset, offset + len))
}

/// Copy `dst.len()` bytes starting at `offset` into `dst`; `dst` is left
/// unchanged when the range is out of bounds.
pub fn read_bytes_copy(data: &[u8], offset: usize, dst: &mut [u8]) -> (res: WireResult<()>)
    ensures
        final(dst)@.len() == old(dst)@.len(),
        match res {
            Ok(_) => fits(offset as int, old(dst)@.len() as int, data@.len() as int) && final(dst)@
                == data@.subrange(offset as int, offset + old(dst)@.len()),
            Err(_) => !fits(offset as int, old(dst)@.len() as int, data@.len() as int) && final(dst)@
                == old(dst)@,
        },
{
    let len = dst.len();
    if len > data.len() || offset > data.len() - len {
        return Err(WireError);
    }
    let mut i: usize = 0;
    while i < len
        invariant
            len == dst@.len(),
            offset + len <= data@.len(),
            data@.len() == data.len(),
            i <= len,
            forall|j: int| 0 <= j < i ==> dst@[j] == data@[offset + j],
        decreases len - i,
    {
        dst[i] = data[offset + i];
        i = i + 1;
    }
    assert(dst@ =~= data@.subrange(offset as int, offset + len));
    Ok(())
}

/// Read a six-byte Ethernet address at `offset`.
pub fn read_ether_addr(data: &[u8], offset: usize) -> (res: WireResult<[u8; 6]>)
    ensures
        match res {
            Ok(a) => fits(offset as int, 6, data@.len() as int) && a@ == data@.subrange(
                offset as int,
                offset + 6,
            ),
            Err(_) => !fits(offset as int, 6, data@.len() as int),
        },
{
    if data.len() < 6 || offset > data.len() - 6 {
        return Err(WireError);
    }
    let addr: [u8; 6] = [
        data[offset],
        data[offset + 1],
        data[offset + 2],
        data[offset + 3],
        data[offset + 4],
        data[offset + 5],
    ];
    assert(addr@ =~= data@.subrange(offset as int, offset + 6));
    Ok(addr)
}

/// The characters that lossy UTF-8 decoding gives for `bytes`.
pub uninterp spec fn utf8_lossy(bytes: Seq<u8>) -> Seq<char>;

/// True when every byte is below 0x80.
pub open spec fn all_ascii(bytes: Seq<u8>) -> bool {
    forall|i: int| 0 <= i < bytes.len() ==> bytes[i] < 0x80
}

/// The characters of an ASCII byte string.
pub open spec fn ascii_chars(bytes: Seq<u8>) -> Seq<char> {
    bytes.map_values(|b: u8| b as char)
}

/// Decodes `bytes` with `String::from_utf8_lossy`. The result is named
/// `utf8_lossy(bytes)`; for ASCII input it holds the same characters, since
/// ASCII is valid UTF-8 and each byte decodes to its own character.
#[verifier::external_body]
pub(crate) fn decode_utf8_lossy(bytes: &[u8]) -> (res: String)
    ensures
        res@ == utf8_lossy(bytes@),
        all_ascii(bytes@) ==> res@ == ascii_chars(bytes@),
{
    String::from_utf8_lossy(bytes).into_owned()
}

/// The text of a length-prefixed string at `offset`: the prefix byte, then at
/// most `max_len` of the bytes it announces.
pub open spec fn int_string_bytes(data: Seq<u8>, offset: int, max_len: int) -> Seq<u8> {
    let slen = data[offset] as int;
    let actual = if slen < max_len { slen } else { max_len };
    data.subrange(offset + 1, offset + 1 + actual)
}

/// True when the length-prefixed string at `offset` lies inside `data`.
pub open spec fn int_string_fits(data: Seq<u8>, offset: int, max_len: int) -> bool {
    let slen = data[offset] as int;
    let actual = if slen < max_len { slen } else { max_len };
    fits(offset, 1, data.len() as int) && fits(offset + 1, actual, data.len() as int)
}

/// Read a string with a one-byte length prefix, keeping at most `max_len`
/// bytes of it.
pub fn read_int_string(data: &[u8], offset: usize, max_len: usize) -> (res: WireResult<String>)
    ensures
        match res {
            Ok(s) => int_string_fits(data@, offset as int, max_len as int) && s@ == utf8_lossy(
                int_string_bytes(data@, offset as int, max_len as int),
            ),
            Err(_) => !int_string_fits(data@, offset as int, max_len as int),
        },
{
    assert(data@.len() == data.len());
    let slen = read_u8(data, offset)? as usize;
    let actual = if slen < max_len {
        slen
    } else {
        max_len
    };
    let bytes = read_bytes(data, offset + 1, actual)?;
    Ok(decode_utf8_lossy(bytes))
}

/// A TLV at `offset` lies inside `data`: header and value.
pub open spec fn tlv_fits(data: Seq<u8>, offset: int) -> bool {
    fits(offset, 3, data.len() as int) && fits(
        offset + 3,
        le16_value(data[offset + 1], data[offset + 2]),
        data.len() as int,
    )
}

/// Read a TLV at `offset`: (type, length, value, bytes consumed).
pub fn read_tlv<'a>(data: &'a [u8], offset: usize) -> (res: WireResult<(u8, u16, &'a [u8], usize)>)
    ensures
        match res {
            Ok((t, l, v, total)) => {
                &&& tlv_fits(data@, offset as int)
                &&& t == data@[offset as int]
                &&& l as int == le16_value(data@[offset + 1], data@[offset + 2])
                &&& v@ == data@.subrange(offset + 3, offset + 3 + l)
                &&& total == 3 + l
            },
            Err(_) => !tlv_fits(data@, offset as int),
        },
{
    assert(data@.len() == data.len());
    let t = read_u8(data, offset)?;
    let l = read_le16(data, offset + 1)?;
    let v = read_bytes(data, offset + 3, l as usize)?;
    let total = 3 + l as usize;
    Ok((t, l, v, total))
}

/// Write one byte at `offset`.
pub fn write_u8(buf: &mut [u8], offset: usize, value: u8) -> (res: WireResult<()>)
    ensures
        match res {
            Ok(_) => fits(offset as int, 1, old(buf)@.len() as int) && final(buf)@ == splice(
                old(buf)@,
                offset as int,
                seq![value],
            ),
            Err(_) => !fits(offset as int, 1, old(buf)@.len() as int) && final(buf)@ == old(buf)@,
        },
{
    if offset >= buf.len() {
        return Err(WireError);
    }
    buf[offset] = value;
    assert(buf@ =~= splice(old(buf)@, offset as int, seq![value]));
    Ok(())
}

/// Write `src` at `offset`; `buf` is left unchanged when it does not fit.
pub fn write_bytes(buf: &mut [u8], offset: usize, src: &[u8]) -> (res: WireResult<()>)
    ensures
        match res {
            Ok(_) => fits(offset as int, src@.len() as int, old(buf)@.len() as int) && final(buf)@
                == splice(old(buf)@, offset as int, src@),
            Err(_) => !fits(offset as int, src@.len() as int, old(buf)@.len() as int) && final(buf)@
                == old(buf)@,
        },
{
    let len = src.len();
    if len > buf.len() || offset > buf.len() - len {
        return Err(WireError);
    }
    let mut i: usize = 0;
    while i < len
        invariant
            len == src@.len(),
            offset + len <= buf@.len(),
            buf@.len() == buf.len(),
            buf@.len() == old(buf)@.len(),
            i <= len,
            forall|k: int|
                0 <= k < buf@.len() && !(offset <= k < offset + i) ==> buf@[k] == old(buf)@[k],
            forall|k: int| offset <= k < offset + i ==> buf@[k] == src@[k - offset],
        decreases len - i,
    {
        buf[offset + i] = src[i];
        i = i + 1;
    }
    assert(buf@ =~= splice(old(buf)@, offset as int, src@));
    Ok(())
}

/// Write a little-endian `u16` at `offset`.
pub fn write_le16(buf: &mut [u8], offset: usize, value: u16) -> (res: WireResult<()>)
    ensures
        match res {
            Ok(_) => fits(offset as int, 2, old(buf)@.len() as int) && final(buf)@ == splice(
                old(buf)@,
                offset as int,
                le16_bytes(value),
            ),
            Err(_) => !fits(offset as int, 2, old(buf)@.len() as int) && final(buf)@ == old(buf)@,
        },
{
    if buf.len() < 2 || offset > buf.len() - 2 {
        return Err(WireError);
    }
    buf[offset] = (value % 256) as u8;
    buf[offset + 1] = (value / 256) as u8;
    assert(buf@ =~= splice(old(buf)@, offset as int, le16_bytes(value)));
    Ok(())
}

/// Write a big-endian `u16` at `offset`.
pub fn write_be16(buf: &mut [u8], offset: usize, value: u16) -> (res: WireResult<()>)
    ensures
        match res {
            Ok(_) => fits(offset as int, 2, old(buf)@.len() as int) && final(buf)@ == splice(
                old(buf)@,
                offset as int,
                be16_bytes(value),
            ),
            Err(_) => !fits(offset as int, 2, old(buf)@.len() as int) && final(buf)@ == old(buf)@,
        },
{
    if buf.len() < 2 || offset > buf.len() - 2 {
        return Err(WireError);
    }
    buf[offset] = (value / 256) as u8;
    buf[offset + 1] = (value % 256) as u8;
    assert(buf@ =~= splice(old(buf)@, offset as int, be16_bytes(value)));
    Ok(())
}

/// Write a little-endian `u32` at `offset`.
pub fn write_le32(buf: &mut [u8], offset: usize, value: u32) -> (res: WireResult<()>)
    ensures
        match res {
            Ok(_) => fits(offset as int, 4, old(buf)@.len() as int) && final(buf)@ == splice(
                old(buf)@,
                offset as int,
                le32_bytes(value),
            ),
            Err(_) => !fits(offset as int, 4, old(buf)@.len() as int) && final(buf)@ == old(buf)@,
        },
{
    if buf.len() < 4 || offset > buf.len() - 4 {
        return Err(WireError);
    }
    buf[offset] = (value % 256) as u8;
    buf[offset + 1] = ((value / 256) % 256) as u8;
    buf[offset + 2] = ((value / 65536) % 256) as u8;
    buf[offset + 3] = (value / 16777216) as u8;
    assert(buf@ =~= splice(old(buf)@, offset as int, le32_bytes(value)));
    Ok(())
}

/// Write a big-endian `u32` at `offset`.
pub fn write_be32(buf: &mut [u8], offset: usize, value: u32) -> (res: WireResult<()>)
    ensures
        match res {
            Ok(_) => fits(offset as int, 4, old(buf)@.len() as int) && final(buf)@ == splice(
                old(buf)@,
                offset as int,
                be32_bytes(value),
            ),
            Err(_) => !fits(offset as int, 4, old(buf)@.len() as int) && final(buf)@ == old(buf)@,
        },
{
    if buf.len() < 4 || offset > buf.len() - 4 {
        return Err(WireError);
    }
    buf[offset] = (value / 16777216) as u8;
    buf[offset + 1] = ((value / 65536) % 256) as u8;
    buf[offset + 2] = ((value / 256) % 256) as u8;
    buf[offset + 3] = (value % 256) as u8;
    assert(buf@ =~= splice(old(buf)@, offset as int, be32_bytes(value)));
    Ok(())
}

/// Write a six-byte Ethernet address at `offset`.
pub fn write_ether_addr(buf: &mut [u8], offset: usize, addr: &[u8; 6]) -> (res: WireResult<()>)
    ensures
        match res {
            Ok(_) => fits(offset as int, 6, old(buf)@.len() as int) && final(buf)@ == splice(
                old(buf)@,
                offset as int,
                addr@,
            ),
            Err(_) => !fits(offset as int, 6, old(buf)@.len() as int) && final(buf)@ == old(buf)@,
        },
{
    write_bytes(buf, offset, addr.as_slice())
}


/// A little-endian `u16` written at `off` reads back as the same value.
pub proof fn lemma_le16_write_read(s: Seq<u8>, off: int, v: u16)
    requires
        0 <= off,
        fits(off, 2, s.len() as int),
    ensures
        splice(s, off, le16_bytes(v)).len() == s.len(),
        le16_value(splice(s, off, le16_bytes(v))[off], splice(s, off, le16_bytes(v))[off + 1]) == v,
{
    let t = splice(s, off, le16_bytes(v));
    assert(t[off] == le16_bytes(v)[0]);
    assert(t[off + 1] == le16_bytes(v)[1]);
}

/// A big-endian `u16` written at `off` reads back as the same value.
pub proof fn lemma_be16_write_read(s: Seq<u8>, off: int, v: u16)
    requires
        0 <= off,
        fits(off, 2, s.len() as int),
    ensures
        splice(s, off, be16_bytes(v)).len() == s.len(),
        be16_value(splice(s, off, be16_bytes(v))[off], splice(s, off, be16_bytes(v))[off + 1]) == v,
{
    let t = splice(s, off, be16_bytes(v));
    assert(t[off] == be16_bytes(v)[0]);
    assert(t[off + 1] == be16_bytes(v)[1]);
}

/// A little-endian `u32` written at `off` reads back as the same value.
pub proof fn lemma_le32_write_read(s: Seq<u8>, off: int, v: u32)
    requires
        0 <= off,
        fits(off, 4, s.len() as int),
    ensures
        splice(s, off, le32_bytes(v)).len() == s.len(),
        le32_value(
            splice(s, off, le32_bytes(v))[off],
            splice(s, off, le32_bytes(v))[off + 1],
            splice(s, off, le32_bytes(v))[off + 2],
            splice(s, off, le32_bytes(v))[off + 3],
        ) == v,
{
    let t = splice(s, off, le32_bytes(v));
    assert(t[off] == le32_bytes(v)[0]);
    assert(t[off + 1] == le32_bytes(v)[1]);
    assert(t[off + 2] == le32_bytes(v)[2]);
    assert(t[off + 3] == le32_bytes(v)[3]);
}

/// A big-endian `u32` written at `off` reads back as the same value.
pub proof fn lemma_be32_write_read(s: Seq<u8>, off: int, v: u32)
    requires
        0 <= off,
        fits(off, 4, s.len() as int),
    ensures
        splice(s, off, be32_bytes(v)).len() == s.len(),
        be32_value(
            splice(s, off, be32_bytes(v))[off],
            splice(s, off, be32_bytes(v))[off + 1],
            splice(s, off, be32_bytes(v))[off + 2],
            splice(s, off, be32_bytes(v))[off + 3],
        ) == v,
{
    let t = splice(s, off, be32_bytes(v));
    assert(t[off] == be32_bytes(v)[0]);
    assert(t[off + 1] == be32_bytes(v)[1]);
    assert(t[off + 2] == be32_bytes(v)[2]);
    assert(t[off + 3] == be32_bytes(v)[3]);
}

/// Bytes written at `off` read back unchanged, and every byte outside the
/// written range keeps its value.
pub proof fn lemma_write_bytes_frame(s: Seq<u8>, off: int, b: Seq<u8>)
    requires
        0 <= off,
        fits(off, b.len() as int, s.len() as int),
    ensures
        splice(s, off, b).len() == s.len(),
        splice(s, off, b).subrange(off, off + b.len()) == b,
        forall|k: int|
            0 <= k < s.len() && !(off <= k < off + b.len()) ==> #[trigger] splice(s, off, b)[k]
                == s[k],
{
    assert(splice(s, off, b).subrange(off, off + b.len()) =~= b);
}

} // verus!
