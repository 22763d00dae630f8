use std::time::SystemTime;

use rand::random;
use sheave::errors::RtmpError;
use sheave::handshake::{
    calculate_digest, calculate_hmac_sha256, genuine_fms_key, genuine_fp_key, get_digest_offset,
    verify_digest, Algorithm, RtmpHandshake, DIGEST_LEN, HANDSHAKE_CHUNK_SIZE, RTMP_VERSION,
};

fn now_millis() -> u64 {
    SystemTime::now().duration_since(SystemTime::UNIX_EPOCH).unwrap().as_millis() as u64
}

fn now_secs() -> u64 {
    SystemTime::now().duration_since(SystemTime::UNIX_EPOCH).unwrap().as_secs()
}

/// C0 and C1 of a client of Flash Player 9, its digest at offset 1.
fn digested_c0c1() -> Vec<u8> {
    let mut c0c1: Vec<u8> = Vec::new();
    let flash_version: [u8; 4] = [9, 0, 124, 2];

    c0c1.push(RTMP_VERSION);
    c0c1.extend_from_slice(&(now_secs() as u32).to_be_bytes());
    c0c1.extend_from_slice(&flash_version);

    for _ in 8..HANDSHAKE_CHUNK_SIZE {
        c0c1.push(random());
    }

    let key = genuine_fp_key();
    let digest_pos_client = get_digest_offset(Algorithm::DigestOffset1, &c0c1[1..]);
    let digest_client = calculate_digest(digest_pos_client, &c0c1[1..], &key[..30]);

    for i in 0..digest_client.len() {
        c0c1[digest_pos_client + i + 1] = digest_client[i];
    }
    c0c1
}

/// C2 that answers S0, S1 and S2: S1 with the client's signature at its end.
fn signed_c2(s0s1s2: &[u8]) -> Vec<u8> {
    let mut c2 = s0s1s2[1..(HANDSHAKE_CHUNK_SIZE + 1)].to_vec();
    let digest_pos_server = get_digest_offset(Algorithm::DigestOffset1, c2.as_slice());
    let digest_server =
        calculate_hmac_sha256(&c2[digest_pos_server..(digest_pos_server + DIGEST_LEN)], &genuine_fp_key());
    let signature_server = calculate_hmac_sha256(&c2[..(HANDSHAKE_CHUNK_SIZE - DIGEST_LEN)], &digest_server);

    for i in 0..signature_server.len() {
        c2[HANDSHAKE_CHUNK_SIZE - DIGEST_LEN + i] = signature_server[i];
    }
    c2
}

#[test]
fn test_get_digest_offset() {
    let mut v: Vec<u8> = Vec::new();
    let flash_version: [u8; 4] = [9, 0, 124, 2];
    let digest_offsets: [u8; 4] = [1, 1, 1, 1];

    v.extend_from_slice(&(now_secs() as u32).to_be_bytes());
    v.extend_from_slice(&flash_version);
    v.extend_from_slice(&digest_offsets);

    for _ in 8..(HANDSHAKE_CHUNK_SIZE - digest_offsets.len()) {
        v.push(random());
    }

    let digest_pos1 = get_digest_offset(Algorithm::DigestOffset1, v.as_slice());

    v = Vec::new();
    v.extend_from_slice(&(now_secs() as u32).to_be_bytes());
    v.extend_from_slice(&flash_version);

    for _ in 8..HANDSHAKE_CHUNK_SIZE {
        v.push(random());
    }

    for i in 0..digest_offsets.len() {
        v[772 + i] = digest_offsets[i];
    }

    let digest_pos2 = get_digest_offset(Algorithm::DigestOffset2, v.as_slice());

    assert_eq!((1 + 1 + 1 + 1) % 728 + 12, digest_pos1);
    assert_eq!((1 + 1 + 1 + 1) % 728 + 776, digest_pos2)
}

#[test]
fn test_decode_client_request() {
    let mut handshake = RtmpHandshake::new(now_millis());
    let c0c1 = digested_c0c1();

    let result1 = handshake.decode_client_request1(c0c1);

    assert!(result1.is_ok());

    let s0s1s2 = handshake.get_s0s1s2();
    let c2 = signed_c2(&s0s1s2);

    let result2 = handshake.decode_client_request2(c2);

    assert!(result2.is_ok())
}

#[test]
fn digest_offsets_wrap_at_728() {
    let mut v = vec![0u8; HANDSHAKE_CHUNK_SIZE];
    v[8] = 255;
    v[9] = 255;
    v[10] = 255;
    v[11] = 255;
    v[772] = 200;
    v[773] = 200;
    v[774] = 200;
    v[775] = 200;
    assert_eq!(get_digest_offset(Algorithm::DigestOffset1, &v), 1020 % 728 + 12);
    assert_eq!(get_digest_offset(Algorithm::DigestOffset2, &v), 800 % 728 + 776);
}

#[test]
fn hmac_sha256_matches_the_rfc_4231_vector() {
    let code = calculate_hmac_sha256(b"what do ya want for nothing?", b"Jefe");
    let expected: [u8; 32] = [
        0x5b, 0xdc, 0xc1, 0x46, 0xbf, 0x60, 0x75, 0x4e, 0x6a, 0x04, 0x24, 0x26, 0x08, 0x95, 0x75,
        0xc7, 0x5a, 0x00, 0x3f, 0x08, 0x9d, 0x27, 0x39, 0x83, 0x9d, 0xec, 0x58, 0xb9, 0x64, 0xec,
        0x38, 0x43,
    ];
    assert_eq!(code, expected.to_vec());
}

#[test]
fn keys_name_the_server_and_the_player() {
    let fms = genuine_fms_key();
    let fp = genuine_fp_key();
    assert_eq!(fms.len(), 68);
    assert_eq!(fp.len(), 62);
    assert_eq!(&fms[..36], b"Genuine Adobe Flash Media Server 001");
    assert_eq!(&fp[..30], b"Genuine Adobe Flash Player 001");
}

#[test]
fn a_written_digest_verifies_and_a_changed_one_does_not() {
    let mut c1: Vec<u8> = (0..HANDSHAKE_CHUNK_SIZE).map(|i| (i * 7 % 251) as u8).collect();
    let key = genuine_fp_key();
    let pos = get_digest_offset(Algorithm::DigestOffset1, &c1);
    let digest = calculate_digest(pos, &c1, &key[..30]);
    c1[pos..pos + 32].copy_from_slice(&digest);
    assert!(verify_digest(pos, &c1, &key[..30]));
    c1[pos] ^= 1;
    assert!(!verify_digest(pos, &c1, &key[..30]));
}

#[test]
fn a_short_c0c1_is_a_chunk_length_error() {
    let mut handshake = RtmpHandshake::new(now_millis());
    match handshake.decode_client_request1(vec![3u8; 100]) {
        Err(RtmpError::ChunkLength(e)) => assert_eq!(
            e.to_string(),
            "ChunkLengthError: description Requested RTMP chunk's size is not 1537 bytes!, source None\n"
        ),
        _ => panic!("expected a chunk length error"),
    }
}

#[test]
fn an_undigested_c1_is_a_digest_verification_error() {
    let mut handshake = RtmpHandshake::new(now_millis());
    let mut c0c1 = vec![0u8; HANDSHAKE_CHUNK_SIZE + 1];
    c0c1[0] = RTMP_VERSION;
    c0c1[5] = 9;
    match handshake.decode_client_request1(c0c1) {
        Err(RtmpError::DigestVerification(_)) => {},
        _ => panic!("expected a digest verification error"),
    }
}

#[test]
fn a_clock_before_the_start_is_a_state_error() {
    let mut handshake = RtmpHandshake::new(u64::MAX);
    match handshake.decode_client_request1(digested_c0c1()) {
        Err(RtmpError::RtmpState(_)) => {},
        _ => panic!("expected a state error"),
    }
}

#[test]
fn a_version_0_client_gets_time_zeroes_and_its_c1() {
    let mut handshake = RtmpHandshake::new(now_millis());
    let mut c0c1 = vec![RTMP_VERSION];
    let c1: Vec<u8> = (0..HANDSHAKE_CHUNK_SIZE).map(|i| if (4..8).contains(&i) { 0 } else { (i % 200) as u8 + 1 }).collect();
    c0c1.extend_from_slice(&c1);
    assert!(handshake.decode_client_request1(c0c1).is_ok());
    let s0s1s2 = handshake.get_s0s1s2();
    assert_eq!(s0s1s2.len(), 1 + 4 + 1532 + HANDSHAKE_CHUNK_SIZE);
    assert_eq!(s0s1s2[0], RTMP_VERSION);
    assert!(s0s1s2[5..1537].iter().all(|b| *b == 0));
    assert_eq!(&s0s1s2[1537..], &c1[..]);
    let s1 = s0s1s2[1..].to_vec();
    assert!(handshake.decode_client_request2(s1).is_ok());
    let mut other = s0s1s2[1..].to_vec();
    other[100] ^= 0xff;
    match handshake.decode_client_request2(other) {
        Err(RtmpError::SignatureDoesNotMatch(_)) => {},
        _ => panic!("expected a signature error"),
    }
}

#[test]
fn the_server_digest_verifies_and_s2_echoes_c1() {
    let mut handshake = RtmpHandshake::new(now_millis());
    let c0c1 = digested_c0c1();
    assert!(handshake.decode_client_request1(c0c1.clone()).is_ok());
    let s0s1s2 = handshake.get_s0s1s2();
    assert_eq!(s0s1s2.len(), 1 + 2 * HANDSHAKE_CHUNK_SIZE);
    let s1 = &s0s1s2[1..(HANDSHAKE_CHUNK_SIZE + 1)];
    assert_eq!(&s1[4..8], &[5, 0, 10, 0]);
    let fms = genuine_fms_key();
    let pos = get_digest_offset(Algorithm::DigestOffset1, s1);
    assert!(verify_digest(pos, s1, &fms[..36]));
    let s2 = &s0s1s2[(HANDSHAKE_CHUNK_SIZE + 1)..];
    assert_eq!(&s2[..(HANDSHAKE_CHUNK_SIZE - DIGEST_LEN)], &c0c1[1..(HANDSHAKE_CHUNK_SIZE + 1 - DIGEST_LEN)]);
}

#[test]
fn a_short_c2_is_a_chunk_length_error() {
    let mut handshake = RtmpHandshake::new(now_millis());
    assert!(handshake.decode_client_request1(digested_c0c1()).is_ok());
    match handshake.decode_client_request2(vec![0u8; 10]) {
        Err(RtmpError::ChunkLength(_)) => {},
        _ => panic!("expected a chunk length error"),
    }
}

#[test]
fn up_time_counts_from_the_start() {
    let handshake = RtmpHandshake::new(1000);
    assert_eq!(handshake.up_time_at(3500), Some(2500));
    assert_eq!(handshake.up_time_at(999), None);
}
