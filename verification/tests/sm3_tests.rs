//! Tests of the SM3 engine, the mask expansion and the byte helpers.

use spx_sm3::params::{SPX_N, SPX_SM3_ADDR_BYTES, SPX_SM3_OUTPUT_BYTES};
use spx_sm3::sm3::{
    load_bigendian_32, load_bigendian_64, mgf1_256, mgf1_256_2, sm3, sm3_inc_blocks,
    sm3_inc_finalize, sm3_inc_init, store_bigendian_32, store_bigendian_64,
};
use spx_sm3::utils::bytes_to_ull;

#[test]
fn sm3_finalize() {
    let buf = [
        0, 46, 130, 247, 82, 182, 99, 36, 30, 6, 0, 0, 0, 1, 0, 0, 0, 0, 0, 0, 0, 4, 124, 153,
        53, 160, 176, 118, 148, 170, 12, 109, 16, 228, 219, 107, 26, 221,
    ];
    let mut sm3_state = vec![
        20, 22, 52, 101, 4, 22, 68, 118, 244, 194, 114, 161, 208, 242, 205, 126, 223, 57, 106,
        139, 71, 255, 239, 55, 65, 254, 4, 118, 170, 37, 3, 106, 0, 0, 0, 0, 0, 0, 0, 64,
    ];
    // the SM3 continuation digest of the given state and tail
    let expected = [
        224, 110, 107, 10, 4, 204, 106, 7, 28, 199, 72, 94, 7, 45, 214, 50, 196, 239, 205, 206,
        154, 108, 85, 195, 0, 121, 62, 36, 41, 224, 71, 181,
    ];
    let outbuf = sm3_inc_finalize(&mut sm3_state, &buf, SPX_SM3_ADDR_BYTES + SPX_N);
    assert_eq!(outbuf, expected.to_vec());
}

#[test]
fn sm3_standard_vector() {
    // the reference digest of the three-byte message "abc"
    let digest = sm3(b"abc", 3);
    let expected = vec![
        0x66u8, 0xc7, 0xf0, 0xf4, 0x62, 0xee, 0xed, 0xd9, 0xd1, 0xf2, 0xd4, 0x6b, 0xdc, 0x10,
        0xe4, 0xe2, 0x41, 0x67, 0xc4, 0x87, 0x5c, 0xf2, 0xf7, 0xa2, 0x29, 0x7d, 0xa0, 0x2b,
        0x8f, 0x4b, 0xa8, 0xe0,
    ];
    assert_eq!(digest, expected);
}

#[test]
fn sm3_incremental_matches_one_shot() {
    // 100 bytes absorbed as one block plus a 36-byte tail
    let data: Vec<u8> = (0..100u32).map(|i| (i * 7 + 3) as u8).collect();
    let mut state = Vec::new();
    sm3_inc_init(&mut state);
    sm3_inc_blocks(&mut state, &data, 1);
    let split = sm3_inc_finalize(&mut state, &data[64..], 36);
    let whole = sm3(&data, 100);
    assert_eq!(split, whole);
}

#[test]
fn sm3_empty_input() {
    // padding alone: one block of 0x80 then the zero bit count
    let d1 = sm3(&[], 0);
    let d2 = sm3(b"anything", 0);
    assert_eq!(d1, d2);
    assert_eq!(d1.len(), SPX_SM3_OUTPUT_BYTES);
}

#[test]
fn bigendian_roundtrip() {
    let mut buf = vec![0u8; 16];
    store_bigendian_32(&mut buf, 2, 0xCAFEBABE);
    assert_eq!(&buf[2..6], &[0xCA, 0xFE, 0xBA, 0xBE]);
    assert_eq!(load_bigendian_32(&buf[2..]), 0xCAFEBABE);
    store_bigendian_64(&mut buf, 8, 0x0123456789ABCDEF);
    assert_eq!(load_bigendian_64(&buf[8..]), 0x0123456789ABCDEF);
    assert_eq!(buf[0], 0);
}

#[test]
fn bytes_to_ull_reads_big_endian() {
    let buf = [0x01u8, 0x02, 0x03, 0x04, 0x05, 0x06, 0x07, 0x08];
    assert_eq!(bytes_to_ull(&buf, 1), 0x01);
    assert_eq!(bytes_to_ull(&buf, 2), 0x0102);
    assert_eq!(bytes_to_ull(&buf, 8), 0x0102030405060708);
}

#[test]
fn mgf1_blocks_are_counter_hashes() {
    // each 32-byte output block is the digest of seed ‖ counter
    let seed: Vec<u8> = (0..64u32).map(|i| i as u8).collect();
    let out = mgf1_256_2(&seed, 80);
    assert_eq!(out.len(), 80);
    let mut in0 = seed.clone();
    in0.extend_from_slice(&[0, 0, 0, 0]);
    let b0 = sm3(&in0, 68);
    assert_eq!(&out[..32], &b0[..]);
    let mut in1 = seed.clone();
    in1.extend_from_slice(&[0, 0, 0, 1]);
    let b1 = sm3(&in1, 68);
    assert_eq!(&out[32..64], &b1[..]);
    let mut in2 = seed.clone();
    in2.extend_from_slice(&[0, 0, 0, 2]);
    let b2 = sm3(&in2, 68);
    assert_eq!(&out[64..80], &b2[..16]);
}

#[test]
fn mgf1_prefix_consistency() {
    // a shorter expansion is a prefix of a longer one
    let seed: Vec<u8> = (0..38u32).map(|i| (255 - i) as u8).collect();
    let short = mgf1_256(&seed, 16);
    let long = mgf1_256(&seed, 96);
    assert_eq!(&long[..16], &short[..]);
}
