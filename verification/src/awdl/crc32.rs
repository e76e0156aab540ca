//! CRC-32 (IEEE 802.3, reflected polynomial 0xEDB88320), as used for the
//! 802.11 frame check sequence.

use vstd::prelude::*;

verus! {

/// One bit step of the reflected CRC-32 register.
pub open spec fn crc_bit(c: u32) -> u32 {
    if c & 1 == 1 {
        (c >> 1u32) ^ 0xEDB88320u32
    } else {
        c >> 1u32
    }
}

/// `n` bit steps of the register.
pub open spec fn crc_bits(c: u32, n: nat) -> u32
    decreases n,
{
    if n == 0 {
        c
    } else {
        crc_bit(crc_bits(c, (n - 1) as nat))
    }
}

/// The register after folding in one byte.
pub open spec fn crc_byte(c: u32, b: u8) -> u32 {
    crc_bits(c ^ (b as u32), 8)
}

/// The register after folding in the first `n` bytes of `s`.
pub open spec fn crc_update(c: u32, s: Seq<u8>, n: nat) -> u32
    decreases n,
{
    if n == 0 {
        c
    } else {
        crc_byte(crc_update(c, s, (n - 1) as nat), s[n - 1])
    }
}

/// CRC-32 of `s`: initial register all ones, final value inverted.
pub open spec fn spec_crc32(s: Seq<u8>) -> u32 {
    crc_update(0xffffffffu32, s, s.len()) ^ 0xffffffffu32
}

/// CRC-32 of `data`.
pub fn crc32(data: &[u8]) -> (res: u32)
    ensures
        res == spec_crc32(data@),
{
    let mut c: u32 = 0xffffffff;
    let mut i: usize = 0;
    while i < data.len()
        invariant
            i <= data@.len(),
            c == crc_update(0xffffffffu32, data@, i as nat),
        decreases data@.len() - i,
    {
        let mut r: u32 = c ^ (data[i] as u32);
        let mut k: u32 = 0;
        while k < 8
            invariant
                k <= 8,
                r == crc_bits(c ^ (data@[i as int] as u32), k as nat),
            decreases 8 - k,
        {
            if r & 1 == 1 {
                r = (r >> 1u32) ^ 0xEDB88320u32;
            } else {
                r = r >> 1u32;
            }
            k += 1;
        }
        c = r;
        i += 1;
    }
    c ^ 0xffffffff
}

} // verus!
