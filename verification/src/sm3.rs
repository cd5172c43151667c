//! The SM3 hash engine: block compression, incremental absorption and
//! standard length padding.
//!
//! The specification side models the compression function as a 64-round
//! recurrence over eight 32-bit registers, with the message schedule
//! defined recursively; the executable side computes the same recurrence
//! and is proved equal to it round by round.

use vstd::prelude::*;
use vstd::slice::*;
use crate::context::SpxCtx;
use crate::params::SPX_N;
use crate::params::SPX_SM3_ADDR_BYTES;
use crate::params::SPX_SM3_OUTPUT_BYTES;
use crate::utils::zeroes;

verus! {

/// Left rotation of a 32-bit word by `n % 32` positions.
pub open spec fn rotl_s(x: u32, n: u32) -> u32 {
    if n % 32 == 0 {
        x
    } else {
        (x << (n % 32)) | (x >> (32 - n % 32))
    }
}

/// The permutation applied to the register mix in each round.
pub open spec fn p0_s(x: u32) -> u32 {
    x ^ rotl_s(x, 9) ^ rotl_s(x, 17)
}

/// The permutation applied during message expansion.
pub open spec fn p1_s(x: u32) -> u32 {
    x ^ rotl_s(x, 15) ^ rotl_s(x, 23)
}

/// The boolean round function on the first register group.
pub open spec fn ff_s(x: u32, y: u32, z: u32, j: int) -> u32 {
    if j < 16 {
        x ^ y ^ z
    } else {
        (x & y) | (x & z) | (y & z)
    }
}

/// The boolean round function on the second register group.
pub open spec fn gg_s(x: u32, y: u32, z: u32, j: int) -> u32 {
    if j < 16 {
        x ^ y ^ z
    } else {
        (x & y) | ((!x) & z)
    }
}

/// The round constant.
pub open spec fn t_s(j: int) -> u32 {
    if j < 16 {
        0x79cc4519u32
    } else {
        0x7a879d8au32
    }
}

/// The big-endian 32-bit word held in the first four bytes of `s`.
pub open spec fn be32_of(s: Seq<u8>) -> u32 {
    ((s[0] as u32) << 24) | ((s[1] as u32) << 16) | ((s[2] as u32) << 8) | (s[3] as u32)
}

/// The big-endian 64-bit word held in the first eight bytes of `s`.
pub open spec fn be64_of(s: Seq<u8>) -> u64 {
    ((s[0] as u64) << 56) | ((s[1] as u64) << 48) | ((s[2] as u64) << 40) | ((s[3] as u64) << 32)
        | ((s[4] as u64) << 24) | ((s[5] as u64) << 16) | ((s[6] as u64) << 8) | (s[7] as u64)
}

/// The four big-endian bytes of a 32-bit word.
pub open spec fn be32_bytes(x: u32) -> Seq<u8> {
    seq![(x >> 24) as u8, (x >> 16) as u8, (x >> 8) as u8, x as u8]
}

/// The eight big-endian bytes of a 64-bit word.
pub open spec fn be64_bytes(x: u64) -> Seq<u8> {
    seq![
        (x >> 56) as u8,
        (x >> 48) as u8,
        (x >> 40) as u8,
        (x >> 32) as u8,
        (x >> 24) as u8,
        (x >> 16) as u8,
        (x >> 8) as u8,
        x as u8,
    ]
}

/// The eight state words held big-endian in the first 32 bytes of `b`.
pub open spec fn words_of_bytes(b: Seq<u8>) -> Seq<u32> {
    Seq::new(8, |i: int| be32_of(b.subrange(4 * i, 4 * i + 4)))
}

/// The 32 bytes holding eight state words big-endian.
pub open spec fn bytes_of_words(w: Seq<u32>) -> Seq<u8> {
    Seq::new(32, |i: int| be32_bytes(w[i / 4])[i % 4])
}

/// Word `i` of the message schedule of one 64-byte block.
pub open spec fn sched_w(blk: Seq<u8>, i: int) -> u32
    decreases i,
{
    if i < 16 {
        be32_of(blk.subrange(4 * i, 4 * i + 4))
    } else {
        p1_s(sched_w(blk, i - 16) ^ sched_w(blk, i - 9) ^ rotl_s(sched_w(blk, i - 3), 15))
            ^ rotl_s(sched_w(blk, i - 13), 7) ^ sched_w(blk, i - 6)
    }
}

/// Word `i` of the derived schedule fed to the first register group.
pub open spec fn sched_wp(blk: Seq<u8>, i: int) -> u32 {
    sched_w(blk, i) ^ sched_w(blk, i + 4)
}

/// One round of the compression recurrence on the eight registers.
pub open spec fn round_s(blk: Seq<u8>, s: Seq<u32>, j: int) -> Seq<u32> {
    let a = s[0];
    let b = s[1];
    let c = s[2];
    let d = s[3];
    let e = s[4];
    let f = s[5];
    let g = s[6];
    let h = s[7];
    let ss1 = rotl_s(rotl_s(a, 12).wrapping_add(e).wrapping_add(rotl_s(t_s(j), j as u32)), 7);
    let ss2 = ss1 ^ rotl_s(a, 12);
    let tt1 = ff_s(a, b, c, j).wrapping_add(d).wrapping_add(ss2).wrapping_add(sched_wp(blk, j));
    let tt2 = gg_s(e, f, g, j).wrapping_add(h).wrapping_add(ss1).wrapping_add(sched_w(blk, j));
    seq![tt1, a, rotl_s(b, 9), c, p0_s(tt2), e, rotl_s(f, 19), g]
}

/// The register state after the first `j` rounds on one block.
pub open spec fn rounds_s(blk: Seq<u8>, s: Seq<u32>, j: int) -> Seq<u32>
    decreases j,
{
    if j <= 0 {
        s
    } else {
        round_s(blk, rounds_s(blk, s, j - 1), j - 1)
    }
}

/// The compression function: 64 rounds, then a feed-forward XOR.
pub open spec fn compress(s: Seq<u32>, blk: Seq<u8>) -> Seq<u32> {
    let r = rounds_s(blk, s, 64);
    Seq::new(8, |i: int| s[i] ^ r[i])
}

/// Folds the compression function over every whole 64-byte block of
/// `input`; a trailing partial block is ignored.
pub open spec fn hashblocks(s: Seq<u32>, input: Seq<u8>) -> Seq<u32>
    decreases input.len(),
{
    if input.len() < 64 {
        s
    } else {
        hashblocks(compress(s, input.take(64)), input.skip(64))
    }
}

/// The initial 40-byte incremental state: the SM3 initialization vector
/// followed by a zero byte count.
pub open spec fn iv_state() -> Seq<u8> {
    seq![
        0x73u8, 0x80, 0x16, 0x6F,
        0x49, 0x14, 0xB2, 0xB9,
        0x17, 0x24, 0x42, 0xD7,
        0xDA, 0x8A, 0x06, 0x00,
        0xA9, 0x6F, 0x30, 0xBC,
        0x16, 0x31, 0x38, 0xAA,
        0xE3, 0x8D, 0xEE, 0x4D,
        0xB0, 0xFB, 0x0E, 0x4E,
        0, 0, 0, 0, 0, 0, 0, 0,
    ]
}

/// The eight digest words of a 40-byte incremental state.
pub open spec fn state_words(st: Seq<u8>) -> Seq<u32> {
    words_of_bytes(st.take(32))
}

/// The byte count of a 40-byte incremental state.
pub open spec fn state_count(st: Seq<u8>) -> u64 {
    be64_of(st.skip(32))
}

/// Reads a big-endian 32-bit word from the head of a byte slice.
pub fn load_bigendian_32(x: &[u8]) -> (r: u32)
    requires
        x@.len() >= 4,
    ensures
        r == be32_of(x@),
{
    ((*slice_index_get(x, 0) as u32) << 24) | ((*slice_index_get(x, 1) as u32) << 16)
        | ((*slice_index_get(x, 2) as u32) << 8) | (*slice_index_get(x, 3) as u32)
}

/// Reads a big-endian 64-bit word from the head of a byte slice.
pub fn load_bigendian_64(x: &[u8]) -> (r: u64)
    requires
        x@.len() >= 8,
    ensures
        r == be64_of(x@),
{
    ((*slice_index_get(x, 0) as u64) << 56) | ((*slice_index_get(x, 1) as u64) << 48)
        | ((*slice_index_get(x, 2) as u64) << 40) | ((*slice_index_get(x, 3) as u64) << 32)
        | ((*slice_index_get(x, 4) as u64) << 24) | ((*slice_index_get(x, 5) as u64) << 16)
        | ((*slice_index_get(x, 6) as u64) << 8) | (*slice_index_get(x, 7) as u64)
}

/// Writes a 32-bit word big-endian into `x` at offset `off`.
pub fn store_bigendian_32(x: &mut Vec<u8>, off: usize, u: u32)
    requires
        off + 4 <= old(x)@.len(),
    ensures
        final(x)@.len() == old(x)@.len(),
        final(x)@.subrange(off as int, off + 4) == be32_bytes(u),
        forall|i: int|
            0 <= i < final(x)@.len() && !(off <= i < off + 4) ==> final(x)@[i] == old(x)@[i],
{
    let _n: usize = x.len();
    x[off] = (u >> 24) as u8;
    x[off + 1] = (u >> 16) as u8;
    x[off + 2] = (u >> 8) as u8;
    x[off + 3] = u as u8;
    assert(x@.subrange(off as int, off + 4) =~= be32_bytes(u));
}

/// Writes a 64-bit word big-endian into `x` at offset `off`.
pub fn store_bigendian_64(x: &mut Vec<u8>, off: usize, u: u64)
    requires
        off + 8 <= old(x)@.len(),
    ensures
        final(x)@.len() == old(x)@.len(),
        final(x)@.subrange(off as int, off + 8) == be64_bytes(u),
        forall|i: int|
            0 <= i < final(x)@.len() && !(off <= i < off + 8) ==> final(x)@[i] == old(x)@[i],
{
    let _n: usize = x.len();
    x[off] = (u >> 56) as u8;
    x[off + 1] = (u >> 48) as u8;
    x[off + 2] = (u >> 40) as u8;
    x[off + 3] = (u >> 32) as u8;
    x[off + 4] = (u >> 24) as u8;
    x[off + 5] = (u >> 16) as u8;
    x[off + 6] = (u >> 8) as u8;
    x[off + 7] = u as u8;
    assert(x@.subrange(off as int, off + 8) =~= be64_bytes(u));
}

/// Left rotation of a 32-bit word.
pub fn rotl(x: u32, n: u32) -> (r: u32)
    ensures
        r == rotl_s(x, n),
{
    let m = n % 32;
    if m == 0 {
        x
    } else {
        (x << m) | (x >> (32 - m))
    }
}

/// The permutation applied to the register mix in each round.
#[allow(non_snake_case)]
pub fn P0(x: u32) -> (r: u32)
    ensures
        r == p0_s(x),
{
    x ^ rotl(x, 9) ^ rotl(x, 17)
}

/// The permutation applied during message expansion.
#[allow(non_snake_case)]
pub fn P1(x: u32) -> (r: u32)
    ensures
        r == p1_s(x),
{
    x ^ rotl(x, 15) ^ rotl(x, 23)
}

/// The boolean round function on the first register group.
#[allow(non_snake_case)]
pub fn FF(x: u32, y: u32, z: u32, j: usize) -> (r: u32)
    ensures
        r == ff_s(x, y, z, j as int),
{
    if j < 16 {
        x ^ y ^ z
    } else {
        (x & y) | (x & z) | (y & z)
    }
}

/// The boolean round function on the second register group.
#[allow(non_snake_case)]
pub fn GG(x: u32, y: u32, z: u32, j: usize) -> (r: u32)
    ensures
        r == gg_s(x, y, z, j as int),
{
    if j < 16 {
        x ^ y ^ z
    } else {
        (x & y) | ((!x) & z)
    }
}

/// The round constant.
#[allow(non_snake_case)]
pub fn T(j: usize) -> (r: u32)
    ensures
        r == t_s(j as int),
{
    if j < 16 {
        0x79cc4519
    } else {
        0x7a879d8a
    }
}


/// Absorbs every whole 64-byte block of `input` into the digest words in
/// `statebytes[..32]`; a trailing partial block and the byte count in
/// `statebytes[32..]` are left untouched.
#[verifier::loop_isolation(false)]
pub fn crypto_hashblocks_sm3(statebytes: &mut Vec<u8>, input: &[u8])
    requires
        old(statebytes)@.len() >= 32,
    ensures
        final(statebytes)@.len() == old(statebytes)@.len(),
        final(statebytes)@.subrange(0, 32) == bytes_of_words(
            hashblocks(words_of_bytes(old(statebytes)@.subrange(0, 32)), input@),
        ),
        forall|i: int|
            32 <= i < final(statebytes)@.len() ==> final(statebytes)@[i] == old(statebytes)@[i],
{
    let ghost sb0 = statebytes@;
    let ghost s_init = words_of_bytes(sb0.subrange(0, 32));
    let ghost full = input@;
    let ilen: usize = input.len();
    let mut st: Vec<u32> = Vec::new();
    let mut k: usize = 0;
    while k < 8
        invariant
            k <= 8,
            statebytes@ == sb0,
            statebytes@.len() >= 32,
            st@.len() == k,
            forall|t: int| 0 <= t < k ==> st@[t] == s_init[t],
        decreases 8 - k,
    {
        let v = load_bigendian_32(slice_subrange(statebytes.as_slice(), 4 * k, 4 * k + 4));
        proof {
            assert(statebytes@.subrange(4 * k as int, 4 * k as int + 4) =~= sb0.subrange(
                0,
                32,
            ).subrange(4 * k as int, 4 * k as int + 4));
        }
        st.push(v);
        proof {
            let kk = k as int;
            assert(s_init[kk] == be32_of(sb0.subrange(0, 32).subrange(4 * kk, 4 * kk + 4)));
            assert(st@[kk] == s_init[kk]);
        }
        k = k + 1;
    }
    assert(st@ =~= s_init);
    assert(full.skip(0) =~= full);

    let mut off: usize = 0;
    while input.len() - off >= 64
        invariant
            off <= input@.len(),
            ilen == input@.len(),
            statebytes@ == sb0,
            statebytes@.len() >= 32,
            full == input@,
            st@.len() == 8,
            hashblocks(s_init, full) == hashblocks(st@, full.skip(off as int)),
        decreases input@.len() - off,
    {
        let ghost blk = full.subrange(off as int, off as int + 64);
        let ghost s0 = st@;

        // message schedule: 68 expanded words
        let mut w: Vec<u32> = Vec::new();
        let mut i: usize = 0;
        while i < 16
            invariant
                i <= 16,
                off + 64 <= input@.len(),
                ilen == input@.len(),
                full == input@,
                blk == full.subrange(off as int, off as int + 64),
                w@.len() == i,
                forall|t: int| 0 <= t < i ==> w@[t] == sched_w(blk, t),
            decreases 16 - i,
        {
            let v = load_bigendian_32(slice_subrange(input, off + 4 * i, off + 4 * i + 4));
            proof {
                assert(full.subrange(
                    off as int + 4 * i as int,
                    off as int + 4 * i as int + 4,
                ) =~= blk.subrange(4 * i as int, 4 * i as int + 4));
            }
            w.push(v);
            i = i + 1;
        }
        while i < 68
            invariant
                16 <= i <= 68,
                w@.len() == i,
                forall|t: int| 0 <= t < i ==> w@[t] == sched_w(blk, t),
            decreases 68 - i,
        {
            let v = P1(w[i - 16] ^ w[i - 9] ^ rotl(w[i - 3], 15)) ^ rotl(w[i - 13], 7) ^ w[i - 6];
            proof {
                let ii = i as int;
                assert(sched_w(blk, ii) == p1_s(
                    sched_w(blk, ii - 16) ^ sched_w(blk, ii - 9) ^ rotl_s(sched_w(blk, ii - 3), 15),
                ) ^ rotl_s(sched_w(blk, ii - 13), 7) ^ sched_w(blk, ii - 6));
            }
            w.push(v);
            i = i + 1;
        }

        // derived schedule for the first register group
        let mut wp: Vec<u32> = Vec::new();
        let mut j: usize = 0;
        while j < 64
            invariant
                j <= 64,
                w@.len() == 68,
                forall|t: int| 0 <= t < 68 ==> w@[t] == sched_w(blk, t),
                wp@.len() == j,
                forall|t: int| 0 <= t < j ==> wp@[t] == sched_wp(blk, t),
            decreases 64 - j,
        {
            wp.push(w[j] ^ w[j + 4]);
            j = j + 1;
        }

        // 64 rounds over eight registers
        let mut a = st[0];
        let mut b = st[1];
        let mut c = st[2];
        let mut d = st[3];
        let mut e = st[4];
        let mut f = st[5];
        let mut g = st[6];
        let mut h = st[7];
        let mut j: usize = 0;
        while j < 64
            invariant
                j <= 64,
                s0.len() == 8,
                w@.len() == 68,
                wp@.len() == 64,
                forall|t: int| 0 <= t < 68 ==> w@[t] == sched_w(blk, t),
                forall|t: int| 0 <= t < 64 ==> wp@[t] == sched_wp(blk, t),
                a == rounds_s(blk, s0, j as int)[0],
                b == rounds_s(blk, s0, j as int)[1],
                c == rounds_s(blk, s0, j as int)[2],
                d == rounds_s(blk, s0, j as int)[3],
                e == rounds_s(blk, s0, j as int)[4],
                f == rounds_s(blk, s0, j as int)[5],
                g == rounds_s(blk, s0, j as int)[6],
                h == rounds_s(blk, s0, j as int)[7],
            decreases 64 - j,
        {
            let ss1 = rotl(rotl(a, 12).wrapping_add(e).wrapping_add(rotl(T(j), j as u32)), 7);
            let ss2 = ss1 ^ rotl(a, 12);
            let tt1 = FF(a, b, c, j).wrapping_add(d).wrapping_add(ss2).wrapping_add(wp[j]);
            let tt2 = GG(e, f, g, j).wrapping_add(h).wrapping_add(ss1).wrapping_add(w[j]);
            proof {
                assert(rounds_s(blk, s0, j as int + 1) == round_s(
                    blk,
                    rounds_s(blk, s0, j as int),
                    j as int,
                ));
            }
            d = c;
            c = rotl(b, 9);
            b = a;
            a = tt1;
            h = g;
            g = rotl(f, 19);
            f = e;
            e = P0(tt2);
            j = j + 1;
        }

        // feed-forward
        let mut st2: Vec<u32> = Vec::new();
        st2.push(st[0] ^ a);
        st2.push(st[1] ^ b);
        st2.push(st[2] ^ c);
        st2.push(st[3] ^ d);
        st2.push(st[4] ^ e);
        st2.push(st[5] ^ f);
        st2.push(st[6] ^ g);
        st2.push(st[7] ^ h);
        st = st2;
        proof {
            assert(st@ =~= compress(s0, blk));
            assert(full.skip(off as int).take(64) =~= blk);
            assert(full.skip(off as int).skip(64) =~= full.skip(off as int + 64));
            assert(hashblocks(s0, full.skip(off as int)) == hashblocks(
                compress(s0, full.skip(off as int).take(64)),
                full.skip(off as int).skip(64),
            ));
        }
        off = off + 64;
    }
    proof {
        assert(full.skip(off as int).len() < 64);
        assert(hashblocks(st@, full.skip(off as int)) == st@);
    }

    // store the digest words back
    let ghost stf = st@;
    let mut k2: usize = 0;
    while k2 < 8
        invariant
            k2 <= 8,
            st@ == stf,
            st@.len() == 8,
            statebytes@.len() == sb0.len(),
            statebytes@.len() >= 32,
            forall|t: int| 0 <= t < 4 * k2 ==> statebytes@[t] == bytes_of_words(stf)[t],
            forall|t: int| 4 * k2 <= t < statebytes@.len() ==> statebytes@[t] == sb0[t],
        decreases 8 - k2,
    {
        store_bigendian_32(statebytes, 4 * k2, st[k2]);
        proof {
            let kk = k2 as int;
            assert forall|t: int| 4 * kk <= t < 4 * kk + 4 implies statebytes@[t]
                == bytes_of_words(stf)[t] by {
                vstd::arithmetic::div_mod::lemma_fundamental_div_mod_converse(t, 4, kk, t - 4 * kk);
                assert(statebytes@[t] == statebytes@.subrange(4 * kk, 4 * kk + 4)[t - 4 * kk]);
            }
        }
        k2 = k2 + 1;
    }
    proof {
        assert(statebytes@.subrange(0, 32) =~= bytes_of_words(
            hashblocks(words_of_bytes(sb0.subrange(0, 32)), input@),
        ));
    }
}


/// The eight length bytes appended by the padding: the bit count of the
/// absorbed message, big-endian.
pub open spec fn len_pad_bytes(bytes: u64) -> Seq<u8> {
    seq![
        (bytes >> 53) as u8,
        (bytes >> 45) as u8,
        (bytes >> 37) as u8,
        (bytes >> 29) as u8,
        (bytes >> 21) as u8,
        (bytes >> 13) as u8,
        (bytes >> 5) as u8,
        (bytes << 3) as u8,
    ]
}

/// The final padded material: the partial tail, a `0x80` marker, zero
/// fill, and the bit count, filling one 64-byte block or two.
pub open spec fn pad_tail(tail: Seq<u8>, bytes: u64) -> Seq<u8> {
    if tail.len() < 56 {
        tail + seq![0x80u8] + zeroes(55 - tail.len()) + len_pad_bytes(bytes)
    } else {
        tail + seq![0x80u8] + zeroes(119 - tail.len()) + len_pad_bytes(bytes)
    }
}

/// The 40-byte state after absorbing whole blocks into `st`.
pub open spec fn inc_blocks_s(st: Seq<u8>, blocks: Seq<u8>) -> Seq<u8> {
    bytes_of_words(hashblocks(state_words(st), blocks)) + be64_bytes(
        (state_count(st) + blocks.len()) as u64,
    )
}

/// The 32-byte digest produced by absorbing `input` into state `st` and
/// applying the standard length padding.
pub open spec fn inc_finalize_s(st: Seq<u8>, input: Seq<u8>) -> Seq<u8> {
    let bytes = (state_count(st) + input.len()) as u64;
    let w1 = hashblocks(state_words(st), input);
    let tail = input.skip(input.len() - (input.len() % 64));
    bytes_of_words(hashblocks(w1, pad_tail(tail, bytes)))
}

/// The SM3 digest of a byte sequence.
pub open spec fn sm3_s(input: Seq<u8>) -> Seq<u8> {
    inc_finalize_s(iv_state(), input)
}

/// Packing a 32-bit word big-endian and reading it back is the identity.
pub proof fn lemma_be32_roundtrip(x: u32)
    ensures
        be32_of(be32_bytes(x)) == x,
{
    let b0 = (x >> 24) as u8;
    let b1 = (x >> 16) as u8;
    let b2 = (x >> 8) as u8;
    let b3 = x as u8;
    assert((((b0 as u32) << 24) | ((b1 as u32) << 16) | ((b2 as u32) << 8) | (b3 as u32)) == x)
        by (bit_vector)
        requires
            b0 == (x >> 24) as u8,
            b1 == (x >> 16) as u8,
            b2 == (x >> 8) as u8,
            b3 == x as u8,
    ;
}

/// Packing a 64-bit word big-endian and reading it back is the identity.
pub proof fn lemma_be64_roundtrip(x: u64)
    ensures
        be64_of(be64_bytes(x)) == x,
{
    let b0 = (x >> 56) as u8;
    let b1 = (x >> 48) as u8;
    let b2 = (x >> 40) as u8;
    let b3 = (x >> 32) as u8;
    let b4 = (x >> 24) as u8;
    let b5 = (x >> 16) as u8;
    let b6 = (x >> 8) as u8;
    let b7 = x as u8;
    assert((((b0 as u64) << 56) | ((b1 as u64) << 48) | ((b2 as u64) << 40) | ((b3 as u64) << 32)
        | ((b4 as u64) << 24) | ((b5 as u64) << 16) | ((b6 as u64) << 8) | (b7 as u64)) == x)
        by (bit_vector)
        requires
            b0 == (x >> 56) as u8,
            b1 == (x >> 48) as u8,
            b2 == (x >> 40) as u8,
            b3 == (x >> 32) as u8,
            b4 == (x >> 24) as u8,
            b5 == (x >> 16) as u8,
            b6 == (x >> 8) as u8,
            b7 == x as u8,
    ;
}

/// Serializing eight state words and reading them back is the identity.
pub proof fn lemma_words_roundtrip(w: Seq<u32>)
    requires
        w.len() == 8,
    ensures
        words_of_bytes(bytes_of_words(w)) == w,
{
    assert forall|i: int| 0 <= i < 8 implies words_of_bytes(bytes_of_words(w))[i] == w[i] by {
        assert forall|k: int| 0 <= k < 4 implies bytes_of_words(w)[4 * i + k] == be32_bytes(
            w[i],
        )[k] by {
            vstd::arithmetic::div_mod::lemma_fundamental_div_mod_converse(4 * i + k, 4, i, k);
        }
        assert(bytes_of_words(w).subrange(4 * i, 4 * i + 4) =~= be32_bytes(w[i]));
        lemma_be32_roundtrip(w[i]);
    }
    assert(words_of_bytes(bytes_of_words(w)) =~= w);
}

/// Folding the compression function preserves the eight-word shape.
pub proof fn lemma_hashblocks_len(s: Seq<u32>, input: Seq<u8>)
    requires
        s.len() == 8,
    ensures
        hashblocks(s, input).len() == 8,
    decreases input.len(),
{
    if input.len() >= 64 {
        lemma_hashblocks_len(compress(s, input.take(64)), input.skip(64));
    }
}

/// Absorbing a whole number of blocks and then more input hashes the
/// same blocks as absorbing the concatenation at once.
pub proof fn lemma_hashblocks_append(s: Seq<u32>, a: Seq<u8>, b: Seq<u8>)
    requires
        a.len() % 64 == 0,
    ensures
        hashblocks(s, a + b) == hashblocks(hashblocks(s, a), b),
    decreases a.len(),
{
    if a.len() == 0 {
        assert(a + b =~= b);
    } else {
        assert(a.len() >= 64) by {
            if a.len() < 64 {
                vstd::arithmetic::div_mod::lemma_small_mod(a.len(), 64);
            }
        }
        assert((a + b).take(64) =~= a.take(64));
        assert((a + b).skip(64) =~= a.skip(64) + b);
        assert(a.skip(64).len() % 64 == 0) by {
            vstd::arithmetic::div_mod::lemma_mod_sub_multiples_vanish(a.len() as int, 64);
        }
        lemma_hashblocks_append(compress(s, a.take(64)), a.skip(64), b);
    }
}

/// Finalizing after a whole-block absorption gives the digest of the
/// concatenated input.
pub proof fn lemma_inc_compose(st: Seq<u8>, a: Seq<u8>, b: Seq<u8>)
    requires
        st.len() == 40,
        a.len() % 64 == 0,
        state_count(st) + a.len() + b.len() <= u64::MAX,
    ensures
        inc_finalize_s(inc_blocks_s(st, a), b) == inc_finalize_s(st, a + b),
{
    let st2 = inc_blocks_s(st, a);
    let w1 = hashblocks(state_words(st), a);
    lemma_hashblocks_len(state_words(st), a);
    assert(st2.take(32) =~= bytes_of_words(w1));
    assert(st2.skip(32) =~= be64_bytes((state_count(st) + a.len()) as u64));
    lemma_words_roundtrip(w1);
    lemma_be64_roundtrip((state_count(st) + a.len()) as u64);
    assert(state_words(st2) == w1);
    assert(state_count(st2) == state_count(st) + a.len());
    lemma_hashblocks_append(state_words(st), a, b);
    assert(hashblocks(state_words(st), a + b) == hashblocks(w1, b));
    let r = b.len() % 64;
    assert((a.len() + b.len()) % 64 == r) by {
        vstd::arithmetic::div_mod::lemma_add_mod_noop(a.len() as int, b.len() as int, 64);
        vstd::arithmetic::div_mod::lemma_mod_twice(b.len() as int, 64);
    }
    assert(r <= b.len()) by {
        vstd::arithmetic::div_mod::lemma_mod_decreases(b.len(), 64);
    }
    let tail1 = b.skip(b.len() - r);
    let tail2 = (a + b).skip((a + b).len() - ((a + b).len() % 64));
    assert(tail2 =~= tail1);
    assert(inc_finalize_s(st2, b) == bytes_of_words(
        hashblocks(hashblocks(w1, b), pad_tail(tail1, (state_count(st2) + b.len()) as u64)),
    ));
    assert(inc_finalize_s(st, a + b) == bytes_of_words(
        hashblocks(
            hashblocks(w1, b),
            pad_tail(tail1, (state_count(st) + (a + b).len()) as u64),
        ),
    ));
}

/// Initializes a 40-byte incremental state: IV and a zero byte count.
pub fn sm3_inc_init(state: &mut Vec<u8>)
    ensures
        final(state)@ == iv_state(),
{
    let iv: Vec<u8> = vec![
        0x73u8, 0x80, 0x16, 0x6F, 0x49, 0x14, 0xB2, 0xB9, 0x17, 0x24, 0x42, 0xD7, 0xDA, 0x8A,
        0x06, 0x00, 0xA9, 0x6F, 0x30, 0xBC, 0x16, 0x31, 0x38, 0xAA, 0xE3, 0x8D, 0xEE, 0x4D,
        0xB0, 0xFB, 0x0E, 0x4E, 0, 0, 0, 0, 0, 0, 0, 0,
    ];
    *state = iv;
    proof {
        assert(state@ =~= iv_state());
    }
}

/// Absorbs `inblocks` whole 64-byte blocks from `input` and advances the
/// byte count.
pub fn sm3_inc_blocks(state: &mut Vec<u8>, input: &[u8], inblocks: usize)
    requires
        old(state)@.len() == 40,
        64 * inblocks <= input@.len(),
        state_count(old(state)@) + 64 * inblocks <= u64::MAX,
    ensures
        final(state)@ == inc_blocks_s(old(state)@, input@.take(64 * inblocks as int)),
        final(state)@.len() == 40,
{
    let ghost st_in = state@;
    let _ilen: usize = input.len();
    proof {
        assert(st_in.skip(32) =~= st_in.subrange(32, 40));
    }
    let mut bytes = load_bigendian_64(slice_subrange(state.as_slice(), 32, 40));
    crypto_hashblocks_sm3(state, slice_subrange(input, 0, 64 * inblocks));
    bytes = bytes + (64 * inblocks) as u64;
    store_bigendian_64(state, 32, bytes);
    proof {
        assert(input@.subrange(0, 64 * inblocks as int) =~= input@.take(64 * inblocks as int));
        assert(st_in.subrange(0, 32) =~= st_in.take(32));
        assert(state@ =~= inc_blocks_s(st_in, input@.take(64 * inblocks as int)));
    }
}

/// Absorbs the first `inlen` bytes of `input`, applies the length
/// padding, and returns the 32-byte digest.  The state is consumed:
/// only its length is meaningful afterwards.
#[verifier::loop_isolation(false)]
pub fn sm3_inc_finalize(state: &mut Vec<u8>, input: &[u8], inlen: usize) -> (out: Vec<u8>)
    requires
        old(state)@.len() == 40,
        inlen <= input@.len(),
        state_count(old(state)@) + inlen <= u64::MAX,
    ensures
        out@ == inc_finalize_s(old(state)@, input@.take(inlen as int)),
        out@.len() == 32,
        final(state)@.len() == 40,
{
    let ghost st_in = state@;
    let ghost msg = input@.take(inlen as int);
    proof {
        assert(st_in.skip(32) =~= st_in.subrange(32, 40));
        assert(st_in.subrange(0, 32) =~= st_in.take(32));
    }
    let bytes = load_bigendian_64(slice_subrange(state.as_slice(), 32, 40)) + inlen as u64;
    crypto_hashblocks_sm3(state, slice_subrange(input, 0, inlen));
    proof {
        assert(input@.subrange(0, inlen as int) =~= msg);
    }

    let rem_len: usize = inlen % 64;
    let rem = slice_subrange(input, inlen - rem_len, inlen);
    proof {
        assert(rem@ =~= msg.skip(msg.len() - (msg.len() % 64)));
    }
    let ghost tail = rem@;

    let mut padded: Vec<u8> = Vec::new();
    padded.extend_from_slice(rem);
    padded.push(0x80u8);
    let zcount: usize = if rem_len < 56 {
        55 - rem_len
    } else {
        119 - rem_len
    };
    let mut z: usize = 0;
    while z < zcount
        invariant
            z <= zcount,
            padded@ == tail + seq![0x80u8] + zeroes(z as int),
        decreases zcount - z,
    {
        padded.push(0u8);
        proof {
            assert(tail + seq![0x80u8] + zeroes(z as int) + seq![0u8] =~= tail + seq![0x80u8]
                + zeroes(z as int + 1));
        }
        z = z + 1;
    }
    padded.push((bytes >> 53) as u8);
    padded.push((bytes >> 45) as u8);
    padded.push((bytes >> 37) as u8);
    padded.push((bytes >> 29) as u8);
    padded.push((bytes >> 21) as u8);
    padded.push((bytes >> 13) as u8);
    padded.push((bytes >> 5) as u8);
    padded.push((bytes << 3) as u8);
    proof {
        assert(padded@ =~= pad_tail(tail, bytes));
    }

    proof {
        let w1 = hashblocks(state_words(st_in), msg);
        lemma_hashblocks_len(state_words(st_in), msg);
        assert(state@.subrange(0, 32) == bytes_of_words(w1));
        lemma_words_roundtrip(w1);
    }
    crypto_hashblocks_sm3(state, padded.as_slice());
    let mut out: Vec<u8> = Vec::new();
    out.extend_from_slice(slice_subrange(state.as_slice(), 0, 32));
    proof {
        assert(out@ =~= inc_finalize_s(st_in, msg));
    }
    out
}

/// The SM3 digest of the first `inlen` bytes of `input`.
pub fn sm3(input: &[u8], inlen: usize) -> (out: Vec<u8>)
    requires
        inlen <= input@.len(),
    ensures
        out@ == sm3_s(input@.take(inlen as int)),
        out@.len() == 32,
{
    let mut state: Vec<u8> = Vec::new();
    sm3_inc_init(&mut state);
    proof {
        let z = iv_state().skip(32);
        assert(((0u64 << 56) | (0u64 << 48) | (0u64 << 40) | (0u64 << 32) | (0u64 << 24) | (0u64
            << 16) | (0u64 << 8) | 0u64) == 0) by (bit_vector);
        assert(state_count(iv_state()) == 0);
    }
    sm3_inc_finalize(&mut state, input, inlen)
}


/// The initial state has absorbed nothing.
pub proof fn lemma_iv_count()
    ensures
        state_count(iv_state()) == 0,
{
    assert(((0u64 << 56) | (0u64 << 48) | (0u64 << 40) | (0u64 << 32) | (0u64 << 24) | (0u64
        << 16) | (0u64 << 8) | 0u64) == 0) by (bit_vector);
}

/// Digest block `i` of the counter-based mask expansion of `seed`.
pub open spec fn mgf1_block(seed: Seq<u8>, i: int) -> Seq<u8> {
    sm3_s(seed + be32_bytes(i as u32))
}

/// `outlen` bytes of mask: successive digests of `seed` followed by a
/// four-byte big-endian counter starting at zero, the last digest
/// truncated.
pub open spec fn mgf1_s(seed: Seq<u8>, outlen: int) -> Seq<u8> {
    Seq::new(outlen as nat, |k: int| mgf1_block(seed, k / 32)[k % 32])
}

/// Expands `seed` to `outlen` bytes by iterated hashing with a counter.
#[verifier::loop_isolation(false)]
fn mgf1_core(seed: &[u8], outlen: usize) -> (out: Vec<u8>)
    requires
        seed@.len() + 8 <= usize::MAX,
        outlen <= u32::MAX,
    ensures
        out@ == mgf1_s(seed@, outlen as int),
{
    let _slen: usize = seed.len();
    let mut out: Vec<u8> = Vec::new();
    let mut i: usize = 0;
    while out.len() < outlen
        invariant
            out@.len() == if 32 * (i as int) <= outlen as int {
                32 * (i as int)
            } else {
                outlen as int
            },
            forall|k: int| 0 <= k < out@.len() ==> out@[k] == mgf1_block(seed@, k / 32)[k % 32],
        decreases outlen - out@.len(),
    {
        let ctr = i as u32;
        let mut buf: Vec<u8> = Vec::new();
        buf.extend_from_slice(seed);
        buf.push((ctr >> 24) as u8);
        buf.push((ctr >> 16) as u8);
        buf.push((ctr >> 8) as u8);
        buf.push(ctr as u8);
        let blen = buf.len();
        let digest = sm3(buf.as_slice(), blen);
        proof {
            assert(buf@.take(blen as int) =~= buf@);
            assert(buf@ =~= seed@ + be32_bytes(i as u32));
            assert(digest@ == mgf1_block(seed@, i as int));
        }
        let room = outlen - out.len();
        let take = if room < 32 {
            room
        } else {
            32
        };
        let ghost base = out@.len();
        let mut k: usize = 0;
        while k < take
            invariant
                k <= take,
                out@.len() == base + k,
                forall|t: int| 0 <= t < out@.len() ==> out@[t] == mgf1_block(seed@, t / 32)[t % 32],
            decreases take - k,
        {
            out.push(digest[k]);
            proof {
                vstd::arithmetic::div_mod::lemma_fundamental_div_mod_converse(
                    base + k,
                    32,
                    i as int,
                    k as int,
                );
            }
            k = k + 1;
        }
        i = i + 1;
    }
    proof {
        assert(out@ =~= mgf1_s(seed@, outlen as int));
    }
    out
}

/// Mask expansion whose seed is a public seed followed by a serialized
/// address.
pub fn mgf1_256(input: &[u8], outlen: usize) -> (out: Vec<u8>)
    requires
        input@.len() >= SPX_N + SPX_SM3_ADDR_BYTES,
        outlen <= u32::MAX,
    ensures
        out@ == mgf1_s(input@.take((SPX_N + SPX_SM3_ADDR_BYTES) as int), outlen as int),
{
    mgf1_core(slice_subrange(input, 0, SPX_N + SPX_SM3_ADDR_BYTES), outlen)
}

/// Mask expansion whose seed is a randomizer, a public seed and an
/// inner digest.
pub fn mgf1_256_2(input: &[u8], outlen: usize) -> (out: Vec<u8>)
    requires
        input@.len() >= 2 * SPX_N + SPX_SM3_OUTPUT_BYTES,
        outlen <= u32::MAX,
    ensures
        out@ == mgf1_s(input@.take((2 * SPX_N + SPX_SM3_OUTPUT_BYTES) as int), outlen as int),
{
    mgf1_core(slice_subrange(input, 0, 2 * SPX_N + SPX_SM3_OUTPUT_BYTES), outlen)
}

/// The incremental state primed with one padded block holding the
/// public seed.
pub open spec fn seeded_state_s(seed: Seq<u8>) -> Seq<u8> {
    inc_blocks_s(iv_state(), seed + zeroes(48))
}

/// Primes the context state by absorbing one block holding the public
/// seed followed by zero padding; tree hashing then resumes from that
/// state instead of re-absorbing the seed each time.
pub fn seed_state(ctx: &mut SpxCtx)
    requires
        old(ctx).pub_seed@.len() == SPX_N,
    ensures
        final(ctx).pub_seed@ == old(ctx).pub_seed@,
        final(ctx).state_seeded@ == seeded_state_s(old(ctx).pub_seed@),
        final(ctx).wf(),
{
    let ghost seed0 = ctx.pub_seed@;
    let mut block: Vec<u8> = Vec::new();
    block.extend_from_slice(ctx.pub_seed.as_slice());
    let mut z: usize = 0;
    while z < 48
        invariant
            z <= 48,
            ctx.pub_seed@ == seed0,
            block@ == seed0 + zeroes(z as int),
        decreases 48 - z,
    {
        block.push(0u8);
        proof {
            assert(seed0 + zeroes(z as int) + seq![0u8] =~= seed0 + zeroes(z as int + 1));
        }
        z = z + 1;
    }
    let mut st: Vec<u8> = Vec::new();
    sm3_inc_init(&mut st);
    proof {
        lemma_iv_count();
        assert(block@.take(64) =~= block@);
    }
    sm3_inc_blocks(&mut st, block.as_slice(), 1);
    ctx.state_seeded = st;
}

} // verus!
