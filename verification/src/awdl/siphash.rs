//! SipHash-2-4 over byte strings.

use vstd::prelude::*;
use vstd::wrapping::u64_specs::wrapping_add;

verus! {

broadcast use vstd::slice::group_slice_axioms;

/// The four words of SipHash state.
pub type SipState = (u64, u64, u64, u64);

/// Rotate `x` left by `b` bits (0 < b < 64).
pub open spec fn spec_rotl64(x: u64, b: u64) -> u64 {
    (x << b) | (x >> ((64 - b) as u64))
}

/// One SipRound.
pub open spec fn sip_round(v: SipState) -> SipState {
    let v0 = wrapping_add(v.0, v.1);
    let v1 = spec_rotl64(v.1, 13);
    let v1 = v1 ^ v0;
    let v0 = spec_rotl64(v0, 32);
    let v2 = wrapping_add(v.2, v.3);
    let v3 = spec_rotl64(v.3, 16);
    let v3 = v3 ^ v2;
    let v0 = wrapping_add(v0, v3);
    let v3 = spec_rotl64(v3, 21);
    let v3 = v3 ^ v0;
    let v2 = wrapping_add(v2, v1);
    let v1 = spec_rotl64(v1, 17);
    let v1 = v1 ^ v2;
    let v2 = spec_rotl64(v2, 32);
    (v0, v1, v2, v3)
}

/// The little-endian value of the eight bytes of `s` starting at `i`.
pub open spec fn load_le64(s: Seq<u8>, i: int) -> u64 {
    (s[i] as int + 0x100 * (s[i + 1] as int) + 0x10000 * (s[i + 2] as int) + 0x1000000 * (
    s[i + 3] as int) + 0x100000000 * (s[i + 4] as int) + 0x10000000000 * (s[i + 5] as int)
        + 0x1000000000000 * (s[i + 6] as int) + 0x100000000000000 * (s[i + 7] as int)) as u64
}

/// The eight bytes of `x` in little-endian order.
pub open spec fn le64_bytes(x: u64) -> Seq<u8> {
    seq![
        (x % 0x100) as u8,
        ((x / 0x100) % 0x100) as u8,
        ((x / 0x10000) % 0x100) as u8,
        ((x / 0x1000000) % 0x100) as u8,
        ((x / 0x100000000) % 0x100) as u8,
        ((x / 0x10000000000) % 0x100) as u8,
        ((x / 0x1000000000000) % 0x100) as u8,
        ((x / 0x100000000000000) % 0x100) as u8,
    ]
}

/// State after keying with the 16-byte key `k`.
pub open spec fn sip_init(k: Seq<u8>) -> SipState {
    let k0 = load_le64(k, 0);
    let k1 = load_le64(k, 8);
    (0x736f6d6570736575u64 ^ k0, 0x646f72616e646f6du64 ^ k1, 0x6c7967656e657261u64 ^ k0,
    0x7465646279746573u64 ^ k1)
}

/// Absorb one message word with two SipRounds.
pub open spec fn sip_absorb(v: SipState, m: u64) -> SipState {
    let r = sip_round(sip_round((v.0, v.1, v.2, v.3 ^ m)));
    (r.0 ^ m, r.1, r.2, r.3)
}

/// State after absorbing the first `n` full 8-byte blocks of `input`.
pub open spec fn sip_blocks(v: SipState, input: Seq<u8>, n: nat) -> SipState
    decreases n,
{
    if n == 0 {
        v
    } else {
        sip_absorb(sip_blocks(v, input, (n - 1) as nat), load_le64(input, 8 * (n - 1)))
    }
}

/// The final word: the input length in the top byte, then the first `k`
/// trailing bytes starting at `end`.
pub open spec fn sip_tail(input: Seq<u8>, end: int, k: nat) -> u64
    decreases k,
{
    if k == 0 {
        ((input.len() % 256) as u64) << 56u64
    } else {
        sip_tail(input, end, (k - 1) as nat) | ((input[end + k - 1] as u64) << ((8 * (k - 1))
            as u64))
    }
}

/// Four finalization rounds and the xor of the state words.
pub open spec fn sip_finish(v: SipState) -> u64 {
    let f = sip_round(sip_round(sip_round(sip_round((v.0, v.1, v.2 ^ 0xff, v.3)))));
    f.0 ^ f.1 ^ f.2 ^ f.3
}

/// SipHash-2-4 of `input` under the 16-byte key `key`, as a 64-bit word.
pub open spec fn siphash24_word(input: Seq<u8>, key: Seq<u8>) -> u64 {
    let nblocks = input.len() / 8;
    let end = 8 * nblocks;
    let v = sip_blocks(sip_init(key), input, nblocks);
    let b = sip_tail(input, end as int, (input.len() % 8) as nat);
    sip_finish(sip_absorb(v, b))
}

fn rotl64(x: u64, b: u32) -> (r: u64)
    requires
        0 < b < 64,
    ensures
        r == spec_rotl64(x, b as u64),
{
    (x << b) | (x >> (64 - b))
}

fn sipround(v0: &mut u64, v1: &mut u64, v2: &mut u64, v3: &mut u64)
    ensures
        (*final(v0), *final(v1), *final(v2), *final(v3)) == sip_round(
            (*old(v0), *old(v1), *old(v2), *old(v3)),
        ),
{
    *v0 = v0.wrapping_add(*v1);
    *v1 = rotl64(*v1, 13);
    *v1 ^= *v0;
    *v0 = rotl64(*v0, 32);
    *v2 = v2.wrapping_add(*v3);
    *v3 = rotl64(*v3, 16);
    *v3 ^= *v2;
    *v0 = v0.wrapping_add(*v3);
    *v3 = rotl64(*v3, 21);
    *v3 ^= *v0;
    *v2 = v2.wrapping_add(*v1);
    *v1 = rotl64(*v1, 17);
    *v1 ^= *v2;
    *v2 = rotl64(*v2, 32);
}

fn load_le64_exec(s: &[u8], i: usize) -> (r: u64)
    requires
        i + 8 <= s@.len(),
    ensures
        r == load_le64(s@, i as int),
{
    s[i] as u64 + 0x100 * (s[i + 1] as u64) + 0x10000 * (s[i + 2] as u64) + 0x1000000 * (s[i
        + 3] as u64) + 0x100000000 * (s[i + 4] as u64) + 0x10000000000 * (s[i + 5] as u64)
        + 0x1000000000000 * (s[i + 6] as u64) + 0x100000000000000 * (s[i + 7] as u64)
}

fn le64_bytes_exec(x: u64) -> (r: [u8; 8])
    ensures
        r@ == le64_bytes(x),
{
    let r: [u8; 8] = [
        (x % 0x100) as u8,
        ((x / 0x100) % 0x100) as u8,
        ((x / 0x10000) % 0x100) as u8,
        ((x / 0x1000000) % 0x100) as u8,
        ((x / 0x100000000) % 0x100) as u8,
        ((x / 0x10000000000) % 0x100) as u8,
        ((x / 0x1000000000000) % 0x100) as u8,
        ((x / 0x100000000000000) % 0x100) as u8,
    ];
    assert(r@ =~= le64_bytes(x));
    r
}

/// SipHash-2-4: the eight-byte hash of `input` under the 16-byte `key`.
pub fn siphash24(input: &[u8], key: &[u8; 16]) -> (res: [u8; 8])
    ensures
        res@ == le64_bytes(siphash24_word(input@, key@)),
{
    let k0 = load_le64_exec(key.as_slice(), 0);
    let k1 = load_le64_exec(key.as_slice(), 8);

    let mut v0: u64 = 0x736f6d6570736575;
    let mut v1: u64 = 0x646f72616e646f6d;
    let mut v2: u64 = 0x6c7967656e657261;
    let mut v3: u64 = 0x7465646279746573;

    v3 ^= k1;
    v2 ^= k0;
    v1 ^= k1;
    v0 ^= k0;

    let inlen = input.len();
    let nblocks = inlen / 8;
    let end = nblocks * 8;

    // Process 8-byte blocks
    let mut j: usize = 0;
    while j < nblocks
        invariant
            inlen == input@.len(),
            nblocks == inlen / 8,
            j <= nblocks,
            (v0, v1, v2, v3) == sip_blocks(sip_init(key@), input@, j as nat),
        decreases nblocks - j,
    {
        let m = load_le64_exec(input, 8 * j);
        v3 ^= m;
        sipround(&mut v0, &mut v1, &mut v2, &mut v3);
        sipround(&mut v0, &mut v1, &mut v2, &mut v3);
        v0 ^= m;
        j += 1;
    }

    // Trailing word: length in the top byte, then the remaining bytes.
    let left = inlen % 8;
    let mut b: u64 = ((inlen % 256) as u64) << 56u64;
    let mut k: usize = 0;
    while k < left
        invariant
            inlen == input@.len(),
            end == 8 * (inlen / 8),
            left == inlen % 8,
            k <= left,
            b == sip_tail(input@, end as int, k as nat),
        decreases left - k,
    {
        b |= (input[end + k] as u64) << ((8 * k) as u64);
        k += 1;
    }

    v3 ^= b;
    sipround(&mut v0, &mut v1, &mut v2, &mut v3);
    sipround(&mut v0, &mut v1, &mut v2, &mut v3);
    v0 ^= b;

    v2 ^= 0xff;
    sipround(&mut v0, &mut v1, &mut v2, &mut v3);
    sipround(&mut v0, &mut v1, &mut v2, &mut v3);
    sipround(&mut v0, &mut v1, &mut v2, &mut v3);
    sipround(&mut v0, &mut v1, &mut v2, &mut v3);

    let result = v0 ^ v1 ^ v2 ^ v3;
    le64_bytes_exec(result)
}

/// The 16-byte key made of `a` and then `b`, each in little-endian order.
pub fn sipkey(a: u64, b: u64) -> (key: [u8; 16])
    ensures
        key@ == le64_bytes(a) + le64_bytes(b),
{
    let x = le64_bytes_exec(a);
    let y = le64_bytes_exec(b);
    let key: [u8; 16] = [
        x[0],
        x[1],
        x[2],
        x[3],
        x[4],
        x[5],
        x[6],
        x[7],
        y[0],
        y[1],
        y[2],
        y[3],
        y[4],
        y[5],
        y[6],
        y[7],
    ];
    assert(key@ =~= le64_bytes(a) + le64_bytes(b));
    key
}

/// The low 16 bits of a hash: its first two bytes, little-endian.
pub fn siphash_truncate(hash: [u8; 8]) -> (r: u16)
    ensures
        r as int == hash@[0] as int + 256 * (hash@[1] as int),
{
    hash[0] as u16 + (hash[1] as u16) * 256
}

proof fn lemma_byte_step(x: int, d: int)
    requires
        x >= 0,
        d > 0,
    ensures
        x / d == 256 * (x / (d * 256)) + (x / d) % 256,
        0 <= (x / d) % 256 < 256,
{
    vstd::arithmetic::div_mod::lemma_div_denominator(x, d, 256);
    vstd::arithmetic::div_mod::lemma_fundamental_div_mod(x / d, 256);
    vstd::arithmetic::div_mod::lemma_mod_bound(x / d, 256);
    vstd::arithmetic::div_mod::lemma_div_pos_is_pos(x, d);
}

/// Eight bytes that are the little-endian encoding of `x` read back as `x`.
proof fn lemma_le64_read_back(x: u64)
    ensures
        load_le64(le64_bytes(x), 0) == x,
{
    let b = le64_bytes(x);
    let v = x as int;
    lemma_byte_step(v, 1);
    lemma_byte_step(v, 0x100);
    lemma_byte_step(v, 0x10000);
    lemma_byte_step(v, 0x1000000);
    lemma_byte_step(v, 0x100000000);
    lemma_byte_step(v, 0x10000000000);
    lemma_byte_step(v, 0x1000000000000);
    lemma_byte_step(v, 0x100000000000000);
    assert(v / 0x10000000000000000 == 0) by {
        vstd::arithmetic::div_mod::lemma_basic_div(v, 0x10000000000000000);
    }
    assert(v / 1 == v);
    assert(b[0] as int == v % 0x100);
    assert(b[1] as int == (v / 0x100) % 0x100);
    assert(b[2] as int == (v / 0x10000) % 0x100);
    assert(b[3] as int == (v / 0x1000000) % 0x100);
    assert(b[4] as int == (v / 0x100000000) % 0x100);
    assert(b[5] as int == (v / 0x10000000000) % 0x100);
    assert(b[6] as int == (v / 0x1000000000000) % 0x100);
    assert(b[7] as int == (v / 0x100000000000000) % 0x100);
}

/// SipHash-2-4 keys its state with the two halves of the key: for the key
/// made of the little-endian words `k0` and then `k1`, the first word is
/// xored into the first and third state words and the second into the
/// second and fourth, before the message is absorbed.
pub proof fn lemma_siphash_key_halves(input: Seq<u8>, k0: u64, k1: u64)
    ensures
        siphash24_word(input, le64_bytes(k0) + le64_bytes(k1)) == sip_finish(
            sip_absorb(
                sip_blocks(
                    (
                        0x736f6d6570736575u64 ^ k0,
                        0x646f72616e646f6du64 ^ k1,
                        0x6c7967656e657261u64 ^ k0,
                        0x7465646279746573u64 ^ k1,
                    ),
                    input,
                    input.len() / 8,
                ),
                sip_tail(input, 8 * (input.len() / 8) as int, (input.len() % 8) as nat),
            ),
        ),
{
    let key = le64_bytes(k0) + le64_bytes(k1);
    lemma_le64_read_back(k0);
    lemma_le64_read_back(k1);
    let lo = le64_bytes(k0);
    let hi = le64_bytes(k1);
    assert(key.subrange(0, 8) =~= lo);
    assert(key.subrange(8, 16) =~= hi);
    assert(load_le64(key, 0) == load_le64(lo, 0)) by {
        assert(forall|i: int| 0 <= i < 8 ==> key[i] == lo[i]);
    }
    assert(load_le64(key, 8) == load_le64(hi, 0)) by {
        assert(forall|i: int| 0 <= i < 8 ==> key[8 + i] == hi[i]);
    }
}

} // verus!
