//! # The RTMP handshake
//!
//! Before the chunks, the client and the server exchange three chunks each:
//!
//! 1. C0/S0 (1 byte): the RTMP version, 3.
//! 2. C1/S1 (1536 bytes): the time (4 bytes), a version (4 bytes), then
//!    random bytes (1528 bytes).
//! 3. C2/S2 (1536 bytes): the other side's C1/S1, echoed.
//!
//! Where the version in C1 is not 0, C1 and S1 carry an HMAC-SHA256 digest of
//! themselves (without the digest) at an offset that their bytes give:
//!
//! * offset 1: `(R[8] + R[9] + R[10] + R[11]) % 728 + 12`;
//! * offset 2: `(R[772] + R[773] + R[774] + R[775]) % 728 + 776`.
//!
//! The server's digest is keyed by "Genuine Adobe Media Server 001", the
//! client's by "Genuine Adobe Flash Player 001". S2 and C2 end with a
//! signature: the HMAC-SHA256 of their first 1504 bytes, keyed by the
//! HMAC-SHA256 of the other side's digest under the longer key (the name and
//! 32 more bytes).
//!
//! Where the version in C1 is 0, S1 is the time, zeroes, and C1; S2 is empty,
//! and C2 must be S1.
use vstd::prelude::*;
use crypto::hmac::Hmac;
use crypto::mac::Mac;
use crypto::sha2::Sha256;
use crate::byteorder::{be4_bytes, push_be_u32, slice_to_vec, push_all};
use crate::clock::millis_since_epoch;
use crate::errors::{
    ChunkLengthError, DigestVerificationError, RtmpError, RtmpStateError,
    SignatureDoesNotMatchError,
};

verus! {

/// The size of C0/S0.
pub const VERSION_CHUNK_SIZE: usize = 1;
/// The size of C1/S1 and of C2/S2.
pub const HANDSHAKE_CHUNK_SIZE: usize = 1536;
/// The RTMP version: the raw RTMP.
pub const RTMP_VERSION: u8 = 3;
/// The length of a digest and of a signature.
pub const DIGEST_LEN: usize = 32;

/// The server's key: "Genuine Adobe Media Server 001", then 32 bytes.
pub open spec fn genuine_fms_key_spec() -> Seq<u8> {
    seq![
        0x47u8, 0x65, 0x6e, 0x75, 0x69, 0x6e, 0x65, 0x20, 0x41, 0x64, 0x6f, 0x62, 0x65, 0x20,
        0x46, 0x6c, 0x61, 0x73, 0x68, 0x20, 0x4d, 0x65, 0x64, 0x69, 0x61, 0x20, 0x53, 0x65,
        0x72, 0x76, 0x65, 0x72, 0x20, 0x30, 0x30, 0x31, 0xf0, 0xee, 0xc2, 0x4a, 0x80, 0x68,
        0xbe, 0xe8, 0x2e, 0x00, 0xd0, 0xd1, 0x02, 0x9e, 0x7e, 0x57, 0x6e, 0xec, 0x5d, 0x2d,
        0x29, 0x80, 0x6f, 0xab, 0x93, 0xb8, 0xe6, 0x36, 0xcf, 0xeb, 0x31, 0xae,
    ]
}

/// The client's key: "Genuine Adobe Flash Player 001", then 32 bytes.
pub open spec fn genuine_fp_key_spec() -> Seq<u8> {
    seq![
        0x47u8, 0x65, 0x6e, 0x75, 0x69, 0x6e, 0x65, 0x20, 0x41, 0x64, 0x6f, 0x62, 0x65, 0x20,
        0x46, 0x6c, 0x61, 0x73, 0x68, 0x20, 0x50, 0x6c, 0x61, 0x79, 0x65, 0x72, 0x20, 0x30,
        0x30, 0x31, 0xf0, 0xee, 0xc2, 0x4a, 0x80, 0x68, 0xbe, 0xe8, 0x2e, 0x00, 0xd0, 0xd1,
        0x02, 0x9e, 0x7e, 0x57, 0x6e, 0xec, 0x5d, 0x2d, 0x29, 0x80, 0x6f, 0xab, 0x93, 0xb8,
        0xe6, 0x36, 0xcf, 0xeb, 0x31, 0xae,
    ]
}

/// Returns the server's key.
pub fn genuine_fms_key() -> (r: Vec<u8>)
    ensures
        r@ == genuine_fms_key_spec(),
{
    let r: Vec<u8> = vec![
        0x47, 0x65, 0x6e, 0x75, 0x69, 0x6e, 0x65, 0x20, 0x41, 0x64, 0x6f, 0x62, 0x65, 0x20,
        0x46, 0x6c, 0x61, 0x73, 0x68, 0x20, 0x4d, 0x65, 0x64, 0x69, 0x61, 0x20, 0x53, 0x65,
        0x72, 0x76, 0x65, 0x72, 0x20, 0x30, 0x30, 0x31, 0xf0, 0xee, 0xc2, 0x4a, 0x80, 0x68,
        0xbe, 0xe8, 0x2e, 0x00, 0xd0, 0xd1, 0x02, 0x9e, 0x7e, 0x57, 0x6e, 0xec, 0x5d, 0x2d,
        0x29, 0x80, 0x6f, 0xab, 0x93, 0xb8, 0xe6, 0x36, 0xcf, 0xeb, 0x31, 0xae,
    ];
    assert(r@ =~= genuine_fms_key_spec());
    r
}

/// Returns the client's key.
pub fn genuine_fp_key() -> (r: Vec<u8>)
    ensures
        r@ == genuine_fp_key_spec(),
{
    let r: Vec<u8> = vec![
        0x47, 0x65, 0x6e, 0x75, 0x69, 0x6e, 0x65, 0x20, 0x41, 0x64, 0x6f, 0x62, 0x65, 0x20,
        0x46, 0x6c, 0x61, 0x73, 0x68, 0x20, 0x50, 0x6c, 0x61, 0x79, 0x65, 0x72, 0x20, 0x30,
        0x30, 0x31, 0xf0, 0xee, 0xc2, 0x4a, 0x80, 0x68, 0xbe, 0xe8, 0x2e, 0x00, 0xd0, 0xd1,
        0x02, 0x9e, 0x7e, 0x57, 0x6e, 0xec, 0x5d, 0x2d, 0x29, 0x80, 0x6f, 0xab, 0x93, 0xb8,
        0xe6, 0x36, 0xcf, 0xeb, 0x31, 0xae,
    ];
    assert(r@ =~= genuine_fp_key_spec());
    r
}

// ---------------------------------------------------------------------------
// Trusted: the HMAC of rust-crypto and the random bytes of rand
// ---------------------------------------------------------------------------

/// The HMAC-SHA256 of `message` under `key`, as rust-crypto computes it.
pub uninterp spec fn hmac_sha256_spec(message: Seq<u8>, key: Seq<u8>) -> Seq<u8>;

/// rust-crypto's `Hmac::new(Sha256::new(), key)`, `input(message)`,
/// `result().code()`: the HMAC-SHA256 of `message` under `key`, which is
/// `hmac_sha256_spec` of them, 32 bytes (the output size of SHA-256).
#[verifier::external_body]
fn hmac_sha256(message: &[u8], key: &[u8]) -> (r: Vec<u8>)
    ensures
        r@ == hmac_sha256_spec(message@, key@),
        r@.len() == 32,
{
    let mut hmac = Hmac::new(Sha256::new(), key);
    hmac.input(message);
    hmac.result().code().to_vec()
}

/// rand's `random::<u8>()`: a random byte. Nothing is stated of it.
#[verifier::external_body]
fn random_byte() -> (r: u8) {
    rand::random::<u8>()
}

/// Returns `n` random bytes.
fn random_bytes(n: usize) -> (r: Vec<u8>)
    ensures
        r@.len() == n,
{
    let mut r: Vec<u8> = Vec::new();
    let mut i: usize = 0;
    while i < n
        invariant
            i <= n,
            r@.len() == i,
        decreases n - i,
    {
        r.push(random_byte());
        i = i + 1;
    }
    r
}

// ---------------------------------------------------------------------------
// Digests
// ---------------------------------------------------------------------------

/// Where a digest stands in a C1/S1 chunk.
#[derive(Clone, Copy, Debug, PartialEq, Eq, Structural)]
pub enum Algorithm {
    DigestOffset1,
    DigestOffset2,
}

/// The offset of the digest that `algorithm` gives for `b`.
pub open spec fn digest_offset_spec(algorithm: Algorithm, b: Seq<u8>) -> int {
    match algorithm {
        Algorithm::DigestOffset1 => (b[8] + b[9] + b[10] + b[11]) % 728 + 12,
        Algorithm::DigestOffset2 => (b[772] + b[773] + b[774] + b[775]) % 728 + 776,
    }
}

/// The sum of the bytes of `s`.
pub open spec fn byte_sum(s: Seq<u8>) -> int
    decreases s.len(),
{
    if s.len() == 0 {
        0
    } else {
        byte_sum(s.drop_last()) + s.last()
    }
}

/// The sum of four bytes is their sum, each counted once.
proof fn lemma_byte_sum4(s: Seq<u8>)
    requires
        s.len() == 4,
    ensures
        byte_sum(s) == s[0] + s[1] + s[2] + s[3],
{
    let s3 = s.drop_last();
    let s2 = s3.drop_last();
    let s1 = s2.drop_last();
    let s0 = s1.drop_last();
    assert(s0.len() == 0);
    assert(byte_sum(s0) == 0);
    assert(byte_sum(s1) == s[0]);
    assert(byte_sum(s2) == s[0] + s[1]);
    assert(byte_sum(s3) == s[0] + s[1] + s[2]);
}

/// The digest offset is the sum of the four bytes from 8 on (offset 1) or
/// from 772 on (offset 2), modulo 728, plus 12 (or 776): the handshake
/// scheme of Flash Player 9.
pub proof fn lemma_digest_offset_sums(b: Seq<u8>)
    ensures
        b.len() >= 12 ==> digest_offset_spec(Algorithm::DigestOffset1, b) == byte_sum(
            b.subrange(8, 12),
        ) % 728 + 12,
        b.len() >= 776 ==> digest_offset_spec(Algorithm::DigestOffset2, b) == byte_sum(
            b.subrange(772, 776),
        ) % 728 + 776,
{
    if b.len() >= 12 {
        lemma_byte_sum4(b.subrange(8, 12));
    }
    if b.len() >= 776 {
        lemma_byte_sum4(b.subrange(772, 776));
    }
}

/// Returns the offset of the digest that `algorithm` gives for
/// `handshake_bytes`: offset 1 from the bytes at 8 to 11, offset 2 from those
/// at 772 to 775. The digest then ends within the chunk's 1536 bytes.
pub fn get_digest_offset(algorithm: Algorithm, handshake_bytes: &[u8]) -> (r: usize)
    requires
        handshake_bytes@.len() >= 776 || (algorithm == Algorithm::DigestOffset1
            && handshake_bytes@.len() >= 12),
    ensures
        r == digest_offset_spec(algorithm, handshake_bytes@),
        algorithm == Algorithm::DigestOffset1 ==> r == byte_sum(handshake_bytes@.subrange(8, 12))
            % 728 + 12,
        algorithm == Algorithm::DigestOffset2 ==> r == byte_sum(handshake_bytes@.subrange(772, 776))
            % 728 + 776,
        algorithm == Algorithm::DigestOffset1 ==> 12 <= r && r + 32 <= 771,
        algorithm == Algorithm::DigestOffset2 ==> 776 <= r && r + 32 <= 1535,
{
    let start: usize = match algorithm {
        Algorithm::DigestOffset1 => 8,
        Algorithm::DigestOffset2 => 772,
    };
    let base: usize = match algorithm {
        Algorithm::DigestOffset1 => 12,
        Algorithm::DigestOffset2 => 776,
    };
    let sum = handshake_bytes[start] as usize + handshake_bytes[start + 1] as usize
        + handshake_bytes[start + 2] as usize + handshake_bytes[start + 3] as usize;
    proof {
        lemma_digest_offset_sums(handshake_bytes@);
    }
    sum % 728 + base
}

/// What a digest is computed of: the chunk without the 32 bytes at `pos`.
pub open spec fn digest_message(b: Seq<u8>, pos: int) -> Seq<u8> {
    b.subrange(0, pos) + b.subrange(pos + 32, b.len() as int)
}

/// The digest of the chunk `b` whose digest stands at `pos`, under `key`.
pub open spec fn calculate_digest_spec(pos: int, b: Seq<u8>, key: Seq<u8>) -> Seq<u8> {
    hmac_sha256_spec(digest_message(b, pos), key)
}

/// Returns the HMAC-SHA256 of `message` under `key`.
pub fn calculate_hmac_sha256(message: &[u8], key: &[u8]) -> (r: Vec<u8>)
    ensures
        r@ == hmac_sha256_spec(message@, key@),
        r@.len() == 32,
{
    hmac_sha256(message, key)
}

/// Returns the digest of `handshake_message` whose digest stands at
/// `digest_pos`: the HMAC-SHA256, under `key`, of the chunk without those 32 bytes.
pub fn calculate_digest(digest_pos: usize, handshake_message: &[u8], key: &[u8]) -> (r: Vec<u8>)
    requires
        digest_pos + 32 <= handshake_message@.len(),
    ensures
        r@ == calculate_digest_spec(digest_pos as int, handshake_message@, key@),
        r@.len() == 32,
{
    let n = handshake_message.len();
    let mut message: Vec<u8> = Vec::new();
    let mut i: usize = 0;
    while i < digest_pos
        invariant
            i <= digest_pos,
            digest_pos + 32 <= handshake_message@.len(),
            message@ == handshake_message@.subrange(0, i as int),
        decreases digest_pos - i,
    {
        message.push(handshake_message[i]);
        i = i + 1;
        assert(handshake_message@.subrange(0, i as int) =~= handshake_message@.subrange(0, i - 1)
            + seq![handshake_message@[i - 1]]);
    }
    let mut j: usize = digest_pos + 32;
    while j < handshake_message.len()
        invariant
            digest_pos + 32 <= j <= handshake_message@.len(),
            message@ == handshake_message@.subrange(0, digest_pos as int)
                + handshake_message@.subrange(digest_pos + 32, j as int),
        decreases handshake_message@.len() - j,
    {
        message.push(handshake_message[j]);
        j = j + 1;
        assert(handshake_message@.subrange(digest_pos + 32, j as int) =~= handshake_message@.subrange(
            digest_pos + 32,
            j - 1,
        ) + seq![handshake_message@[j - 1]]);
    }
    hmac_sha256(message.as_slice(), key)
}

/// Whether the digest at `pos` of the chunk `b` is its digest under `key`.
pub open spec fn verify_digest_spec(pos: int, b: Seq<u8>, key: Seq<u8>) -> bool {
    calculate_digest_spec(pos, b, key) == b.subrange(pos, pos + 32)
}

/// Returns whether the 32 bytes at `digest_pos` are the digest of the rest of
/// `handshake_message` under `key`.
pub fn verify_digest(digest_pos: usize, handshake_message: &[u8], key: &[u8]) -> (r: bool)
    requires
        digest_pos + 32 <= handshake_message@.len(),
    ensures
        r == verify_digest_spec(digest_pos as int, handshake_message@, key@),
{
    let n = handshake_message.len();
    let digest = calculate_digest(digest_pos, handshake_message, key);
    let mut same = true;
    let mut i: usize = 0;
    assert(digest@.subrange(0, 0) =~= handshake_message@.subrange(digest_pos as int, digest_pos as int));
    while i < 32
        invariant
            i <= 32,
            digest@.len() == 32,
            n == handshake_message@.len(),
            digest_pos + 32 <= handshake_message@.len(),
            same == (digest@.subrange(0, i as int) == handshake_message@.subrange(
                digest_pos as int,
                digest_pos + i,
            )),
        decreases 32 - i,
    {
        if digest[i] != handshake_message[digest_pos + i] {
            same = false;
        }
        i = i + 1;
        proof {
            let a = digest@.subrange(0, i as int);
            let b = handshake_message@.subrange(digest_pos as int, digest_pos + i);
            assert(a.drop_last() =~= digest@.subrange(0, i - 1));
            assert(b.drop_last() =~= handshake_message@.subrange(digest_pos as int, digest_pos + i - 1));
            if a == b {
                assert(a.last() == b.last());
            }
            if digest@.subrange(0, i - 1) == handshake_message@.subrange(digest_pos as int, digest_pos + i - 1)
                && digest@[i - 1] == handshake_message@[digest_pos + i - 1] {
                assert(a =~= b);
            }
        }
    }
    assert(digest@.subrange(0, 32) =~= digest@);
    same
}

/// Returns the first `n` bytes of `b`.
fn prefix(b: &[u8], n: usize) -> (r: Vec<u8>)
    requires
        n <= b@.len(),
    ensures
        r@ == b@.subrange(0, n as int),
{
    let mut r: Vec<u8> = Vec::new();
    let mut i: usize = 0;
    while i < n
        invariant
            i <= n <= b@.len(),
            r@ == b@.subrange(0, i as int),
        decreases n - i,
    {
        r.push(b[i]);
        i = i + 1;
        assert(b@.subrange(0, i as int) =~= b@.subrange(0, i - 1) + seq![b@[i - 1]]);
    }
    r
}

/// Returns whether two byte sequences are equal.
fn bytes_equal(a: &[u8], b: &[u8]) -> (r: bool)
    ensures
        r == (a@ == b@),
{
    if a.len() != b.len() {
        return false;
    }
    let mut i: usize = 0;
    while i < a.len()
        invariant
            a@.len() == b@.len(),
            i <= a@.len(),
            forall|j: int| 0 <= j < i ==> a@[j] == b@[j],
        decreases a@.len() - i,
    {
        if a[i] != b[i] {
            return false;
        }
        i = i + 1;
    }
    assert(a@ =~= b@);
    true
}

// ---------------------------------------------------------------------------
// The handshake
// ---------------------------------------------------------------------------

/// # The handshake as the contracts see it
pub struct RtmpHandshakeView {
    pub fp9_handshake: bool,
    pub digest_pos_server: usize,
    pub start_time: u64,
    pub s1: Seq<u8>,
    pub s2: Seq<u8>,
}

/// # The handshake of the server
///
/// Whether the client's version asks for digests, where the server's digest
/// stands in S1, the time the server started (milliseconds since the Unix
/// epoch), and S1 and S2 once they are made.
#[derive(Debug)]
pub struct RtmpHandshake {
    fp9_handshake: bool,
    digest_pos_server: usize,
    start_time: u64,
    s1: Vec<u8>,
    s2: Vec<u8>,
}

impl View for RtmpHandshake {
    type V = RtmpHandshakeView;

    closed spec fn view(&self) -> RtmpHandshakeView {
        RtmpHandshakeView {
            fp9_handshake: self.fp9_handshake,
            digest_pos_server: self.digest_pos_server,
            start_time: self.start_time,
            s1: self.s1@,
            s2: self.s2@,
        }
    }
}

/// S1 of a client whose version is 0: the up time in seconds (4 bytes, cut
/// to 32 bits), 1532 zeroes, then C1.
pub open spec fn unversioned_s1(up_secs: u64, c1: Seq<u8>) -> Seq<u8> {
    be4_bytes(up_secs as int % 4294967296) + Seq::new(1532, |i: int| 0u8) + c1
}

/// The server's own C1-like chunk: the up time in seconds, the version
/// 5.0.10.0, then the random bytes.
pub open spec fn server_handshake_bytes(up_secs: u64, randoms: Seq<u8>) -> Seq<u8> {
    be4_bytes(up_secs as int % 4294967296) + seq![5u8, 0u8, 10u8, 0u8] + randoms
}

/// Where the client's digest stands in C1: at offset 2 where it verifies
/// there, at offset 1 where it verifies there instead, `None` otherwise.
pub open spec fn client_digest_pos(c1: Seq<u8>) -> Option<int> {
    let key = genuine_fp_key_spec().subrange(0, 30);
    if verify_digest_spec(digest_offset_spec(Algorithm::DigestOffset2, c1), c1, key) {
        Some(digest_offset_spec(Algorithm::DigestOffset2, c1))
    } else if verify_digest_spec(digest_offset_spec(Algorithm::DigestOffset1, c1), c1, key) {
        Some(digest_offset_spec(Algorithm::DigestOffset1, c1))
    } else {
        None
    }
}

/// S2 for a client whose digest stands at `pos` in C1: C1 without its last
/// 32 bytes, then the signature of its first 1504 bytes, keyed by the digest
/// of the client's digest under the server's key.
pub open spec fn server_s2(c1: Seq<u8>, pos: int) -> Seq<u8> {
    let digest_resp = hmac_sha256_spec(c1.subrange(pos, pos + 32), genuine_fms_key_spec());
    c1.subrange(0, c1.len() - 32) + hmac_sha256_spec(c1.subrange(0, 1504), digest_resp)
}

/// The outcome of reading C0 and C1.
pub enum Request1Outcome {
    /// S1 and S2 were made.
    Done,
    /// C0 and C1 were shorter than 1537 bytes.
    ChunkLength,
    /// The clock stood before the server's start.
    Clock,
    /// The client's digest was found at neither offset.
    DigestVerification,
}

/// What reading C0 and C1 gives: the outcome and the handshake after it, for
/// the up time `up` (in seconds, where the clock gave one) and the server's
/// 1528 random bytes.
pub open spec fn request1_spec(
    h: RtmpHandshakeView,
    c0c1: Seq<u8>,
    up: Option<u64>,
    randoms: Seq<u8>,
) -> (Request1Outcome, RtmpHandshakeView) {
    if c0c1.len() < 1537 {
        (Request1Outcome::ChunkLength, h)
    } else {
        let c1 = c0c1.subrange(1, c0c1.len() as int);
        let fp9 = c1[4] != 0;
        let h1 = RtmpHandshakeView { fp9_handshake: fp9, ..h };
        match up {
            None => (Request1Outcome::Clock, h1),
            Some(up_secs) => if !fp9 {
                (Request1Outcome::Done, RtmpHandshakeView { s1: unversioned_s1(up_secs, c1), ..h1 })
            } else {
                let h2 = RtmpHandshakeView {
                    digest_pos_server: server_digest_pos(up_secs, randoms) as usize,
                    s1: imprinted_s1(h.s1, up_secs, randoms),
                    ..h1
                };
                match client_digest_pos(c1) {
                    Some(pos) => (Request1Outcome::Done, RtmpHandshakeView { s2: server_s2(c1, pos), ..h2 }),
                    None => (Request1Outcome::DigestVerification, h2),
                }
            },
        }
    }
}


/// A client that asked for digests and whose digest verifies at offset 1 or
/// 2 of C1 is answered (S1 and S2 are made), where C0 and C1 are 1537 bytes
/// and the clock stands after the server's start.
pub proof fn lemma_digested_client_answered(
    h: RtmpHandshakeView,
    c0c1: Seq<u8>,
    up_secs: u64,
    randoms: Seq<u8>,
)
    requires
        c0c1.len() >= 1537,
        c0c1[5] != 0,
        client_digest_pos(c0c1.subrange(1, c0c1.len() as int)) is Some,
    ensures
        request1_spec(h, c0c1, Some(up_secs), randoms).0 == Request1Outcome::Done,
{
    assert(c0c1.subrange(1, c0c1.len() as int)[4] == c0c1[5]);
}

/// Where the server's digest stands in its chunk.
pub open spec fn server_digest_pos(up_secs: u64, randoms: Seq<u8>) -> int {
    digest_offset_spec(Algorithm::DigestOffset1, server_handshake_bytes(up_secs, randoms))
}

/// S1 after the server's chunk was appended to `s1` and its digest, under the
/// first 36 bytes of the server's key, written at the digest's offset
/// (counted from the start of `s1`).
pub open spec fn imprinted_s1(s1: Seq<u8>, up_secs: u64, randoms: Seq<u8>) -> Seq<u8> {
    let hb = server_handshake_bytes(up_secs, randoms);
    let dps = server_digest_pos(up_secs, randoms);
    let digest = calculate_digest_spec(dps, hb, genuine_fms_key_spec().subrange(0, 36));
    Seq::new(
        (s1 + hb).len(),
        |i: int|
            if dps <= i < dps + 32 {
                digest[i - dps]
            } else {
                (s1 + hb)[i]
            },
    )
}

/// Whether `r` is the result that stands for the outcome `o`, with the
/// description of its error.
pub open spec fn request1_result(r: Result<(), RtmpError>, o: Request1Outcome) -> bool {
    match o {
        Request1Outcome::Done => r is Ok,
        Request1Outcome::ChunkLength => r matches Err(RtmpError::ChunkLength(e)) && e@
            == "Requested RTMP chunk's size is not 1537 bytes!"@,
        Request1Outcome::Clock => r matches Err(RtmpError::RtmpState(e)) && e@
            == "The clock stands before the start of the server."@,
        Request1Outcome::DigestVerification => r matches Err(RtmpError::DigestVerification(e))
            && e@ == "Client digest verification failed."@,
    }
}

/// Whether C2 is accepted by the handshake `h`: for a client that asked for
/// digests, where its last 32 bytes are the signature of its first 1504, keyed
/// by the digest of the server's digest under the client's key, or where it
/// echoes S1 from its 9th byte on; otherwise where it is S1.
pub open spec fn c2_accepted(h: RtmpHandshakeView, c2: Seq<u8>) -> bool {
    if h.fp9_handshake {
        let digest = hmac_sha256_spec(
            h.s1.subrange(h.digest_pos_server as int, h.digest_pos_server + 32),
            genuine_fp_key_spec(),
        );
        hmac_sha256_spec(c2.subrange(0, 1504), digest) == c2.subrange(1504, 1536)
            || h.s1.subrange(8, h.s1.len() as int) == c2.subrange(8, c2.len() as int)
    } else {
        h.s1 == c2
    }
}

/// Returns where the client's digest stands in C1 (see `client_digest_pos`).
fn find_client_digest(c1: &Vec<u8>) -> (r: Option<usize>)
    requires
        c1@.len() >= 1536,
    ensures
        match client_digest_pos(c1@) {
            Some(p) => r == Some(p as usize) && p + 32 <= c1@.len(),
            None => r is None,
        },
{
    let fp_key = genuine_fp_key();
    let fp_key30 = prefix(fp_key.as_slice(), 30);
    let pos2 = get_digest_offset(Algorithm::DigestOffset2, c1.as_slice());
    if verify_digest(pos2, c1.as_slice(), fp_key30.as_slice()) {
        return Some(pos2);
    }
    let pos1 = get_digest_offset(Algorithm::DigestOffset1, c1.as_slice());
    if verify_digest(pos1, c1.as_slice(), fp_key30.as_slice()) {
        return Some(pos1);
    }
    None
}

/// Returns S2 for a client whose digest stands at `pos` in C1 (see `server_s2`).
fn make_s2(c1: &Vec<u8>, pos: usize) -> (r: Vec<u8>)
    requires
        c1@.len() >= 1536,
        pos + 32 <= c1@.len(),
    ensures
        r@ == server_s2(c1@, pos as int),
        r@.len() == c1@.len(),
{
    let n = c1.len();
    let fms_key = genuine_fms_key();
    let client_digest = slice_to_vec(c1, pos, pos + 32);
    let digest_resp = hmac_sha256(client_digest.as_slice(), fms_key.as_slice());
    let head = prefix(c1.as_slice(), 1504);
    let signature = hmac_sha256(head.as_slice(), digest_resp.as_slice());
    let mut s2 = slice_to_vec(c1, 0, c1.len() - 32);
    push_all(&mut s2, &signature);
    s2
}

impl RtmpHandshake {
    /// Constructs a handshake for a server started at `start_time`
    /// (milliseconds since the Unix epoch).
    pub fn new(start_time: u64) -> (r: Self)
        ensures
            r@ == (RtmpHandshakeView {
                fp9_handshake: true,
                digest_pos_server: 0,
                start_time,
                s1: Seq::empty(),
                s2: Seq::empty(),
            }),
    {
        RtmpHandshake {
            fp9_handshake: true,
            digest_pos_server: 0,
            start_time,
            s1: Vec::new(),
            s2: Vec::new(),
        }
    }

    /// The time from the server's start to `now`, where `now` is not before it.
    pub open spec fn up_time_spec(&self, now: u64) -> Option<u64> {
        if now >= self@.start_time {
            Some((now - self@.start_time) as u64)
        } else {
            None
        }
    }

    /// Returns the time from the server's start to `now` (both in
    /// milliseconds); `None` where `now` is before the start.
    pub fn up_time_at(&self, now: u64) -> (r: Option<u64>)
        ensures
            r == self.up_time_spec(now),
    {
        now.checked_sub(self.start_time)
    }

    /// Returns the time from the server's start to the time of the clock (in
    /// milliseconds); `None` where the clock stands before the start or before
    /// the Unix epoch.
    pub fn get_up_time(&self) -> (r: Option<u64>)
        ensures
            r matches Some(t) ==> exists|now: u64| #[trigger] self.up_time_spec(now) == Some(t),
    {
        match millis_since_epoch() {
            Some(now) => self.up_time_at(now),
            None => None,
        }
    }

    /// Reads C0 and C1 and makes S1 and S2 (see `request1_spec`), for the up
    /// time `up_secs` (in seconds, where the clock gave one) and the server's
    /// 1528 random bytes.
    pub fn decode_client_request1_with(
        &mut self,
        c0c1: Vec<u8>,
        up_secs: Option<u64>,
        randoms: Vec<u8>,
    ) -> (r: Result<(), RtmpError>)
        requires
            randoms@.len() == 1528,
        ensures
            request1_result(r, request1_spec(old(self)@, c0c1@, up_secs, randoms@).0),
            final(self)@ == request1_spec(old(self)@, c0c1@, up_secs, randoms@).1,
            r is Ok && final(self)@.fp9_handshake ==> final(self)@.s2.len() == c0c1@.len() - 1,
    {
        proof {
            reveal_strlit("Requested RTMP chunk's size is not 1537 bytes!");
        }
        if c0c1.len() < VERSION_CHUNK_SIZE + HANDSHAKE_CHUNK_SIZE {
            return Err(
                RtmpError::ChunkLength(
                    ChunkLengthError::new("Requested RTMP chunk's size is not 1537 bytes!".to_owned()),
                ),
            );
        }
        let c1 = slice_to_vec(&c0c1, 1, c0c1.len());
        self.fp9_handshake = c1[4] != 0;
        let up = match up_secs {
            Some(u) => u,
            None => {
                return Err(
                    RtmpError::RtmpState(
                        RtmpStateError::new("The clock stands before the start of the server.".to_owned()),
                    ),
                );
            },
        };
        if !self.fp9_handshake {
            let mut chunk: Vec<u8> = Vec::new();
            push_be_u32(&mut chunk, (up % 4294967296) as u32);
            let mut i: usize = 0;
            while i < 1532
                invariant
                    i <= 1532,
                    chunk@ == be4_bytes(up as int % 4294967296) + Seq::new(i as nat, |k: int| 0u8),
                decreases 1532 - i,
            {
                chunk.push(0);
                i = i + 1;
                assert(chunk@ =~= be4_bytes(up as int % 4294967296) + Seq::new(i as nat, |k: int| 0u8));
            }
            push_all(&mut chunk, &c1);
            self.s1 = chunk;
            return Ok(());
        }
        self.imprint_s1(up, &randoms);
        proof {
            reveal_strlit("Client digest verification failed.");
        }
        match find_client_digest(&c1) {
            Some(pos) => {
                self.s2 = make_s2(&c1, pos);
                Ok(())
            },
            None => Err(
                RtmpError::DigestVerification(
                    DigestVerificationError::new("Client digest verification failed.".to_owned()),
                ),
            ),
        }
    }

    /// Appends the server's chunk to S1 and writes its digest into it.
    fn imprint_s1(&mut self, up: u64, randoms: &Vec<u8>)
        requires
            randoms@.len() == 1528,
        ensures
            final(self)@ == (RtmpHandshakeView {
                digest_pos_server: server_digest_pos(up, randoms@) as usize,
                s1: imprinted_s1(old(self)@.s1, up, randoms@),
                ..old(self)@
            }),
    {
        let mut handshake_bytes: Vec<u8> = Vec::new();
        push_be_u32(&mut handshake_bytes, (up % 4294967296) as u32);
        handshake_bytes.push(5);
        handshake_bytes.push(0);
        handshake_bytes.push(10);
        handshake_bytes.push(0);
        push_all(&mut handshake_bytes, randoms);
        assert(handshake_bytes@ =~= server_handshake_bytes(up, randoms@));
        let dps = get_digest_offset(Algorithm::DigestOffset1, handshake_bytes.as_slice());
        let fms_key = genuine_fms_key();
        let fms_key36 = prefix(fms_key.as_slice(), 36);
        let digest = calculate_digest(dps, handshake_bytes.as_slice(), fms_key36.as_slice());
        self.digest_pos_server = dps;
        let ghost joined = self.s1@ + handshake_bytes@;
        push_all(&mut self.s1, &handshake_bytes);
        let total = self.s1.len();
        assert(joined.len() == total);
        let mut i: usize = 0;
        while i < 32
            invariant
                i <= 32,
                digest@.len() == 32,
                dps + 32 <= joined.len(),
                joined.len() <= usize::MAX,
                self.s1@.len() == joined.len(),
                forall|k: int|
                    0 <= k < joined.len() ==> self.s1@[k] == if dps <= k < dps + i {
                        digest@[k - dps]
                    } else {
                        joined[k]
                    },
                self@ == (RtmpHandshakeView { digest_pos_server: dps, s1: self.s1@, ..old(self)@ }),
            decreases 32 - i,
        {
            self.s1.set(dps + i, digest[i]);
            i = i + 1;
        }
        assert(self.s1@ =~= imprinted_s1(old(self)@.s1, up, randoms@));
    }

    /// Reads C0 and C1 and makes S1 and S2, taking the up time from the clock
    /// and the server's random bytes from rand (see `decode_client_request1_with`).
    pub fn decode_client_request1(&mut self, c0c1: Vec<u8>) -> (r: Result<(), RtmpError>)
        ensures
            exists|up: Option<u64>, randoms: Seq<u8>|
                randoms.len() == 1528 && request1_result(
                    r,
                    #[trigger] request1_spec(old(self)@, c0c1@, up, randoms).0,
                ) && final(self)@ == request1_spec(old(self)@, c0c1@, up, randoms).1,
            r is Ok && final(self)@.fp9_handshake ==> final(self)@.s2.len() == c0c1@.len() - 1,
    {
        let up_secs = match self.get_up_time() {
            Some(t) => Some(t / 1000),
            None => None,
        };
        let randoms = random_bytes(1528);
        self.decode_client_request1_with(c0c1, up_secs, randoms)
    }

    /// Returns S0, S1 and S2, one after the other.
    pub fn get_s0s1s2(&mut self) -> (r: Vec<u8>)
        ensures
            final(self)@ == old(self)@,
            r@ == seq![RTMP_VERSION] + old(self)@.s1 + old(self)@.s2,
    {
        let mut r: Vec<u8> = Vec::new();
        r.push(RTMP_VERSION);
        push_all(&mut r, &self.s1);
        push_all(&mut r, &self.s2);
        r
    }

    /// Reads C2: `Ok` where it is accepted (see `c2_accepted`); a
    /// `ChunkLengthError` where it is shorter than 1536 bytes; a
    /// `SignatureDoesNotMatchError` otherwise.
    pub fn decode_client_request2(&mut self, c2: Vec<u8>) -> (r: Result<(), RtmpError>)
        requires
            old(self)@.fp9_handshake ==> old(self)@.digest_pos_server + 32 <= old(self)@.s1.len()
                && 8 <= old(self)@.s1.len(),
        ensures
            final(self)@ == old(self)@,
            c2@.len() < 1536 ==> (r matches Err(RtmpError::ChunkLength(e)) && e@
                == "Requested RTMP chunk's size is not 1536 bytes!"@),
            c2@.len() >= 1536 && c2_accepted(old(self)@, c2@) ==> r is Ok,
            c2@.len() >= 1536 && !c2_accepted(old(self)@, c2@) ==> (r matches Err(
                RtmpError::SignatureDoesNotMatch(e),
            ) && e@ == "Client signature doesn't match!"@),
    {
        proof {
            reveal_strlit("Requested RTMP chunk's size is not 1536 bytes!");
            reveal_strlit("Client signature doesn't match!");
        }
        let s1_len = self.s1.len();
        if c2.len() < HANDSHAKE_CHUNK_SIZE {
            return Err(
                RtmpError::ChunkLength(
                    ChunkLengthError::new("Requested RTMP chunk's size is not 1536 bytes!".to_owned()),
                ),
            );
        }
        let accepted = if self.fp9_handshake {
            let dps = self.digest_pos_server;
            let server_digest = slice_to_vec(&self.s1, dps, dps + 32);
            let fp_key = genuine_fp_key();
            let digest = hmac_sha256(server_digest.as_slice(), fp_key.as_slice());
            let head = prefix(c2.as_slice(), 1504);
            let signature = hmac_sha256(head.as_slice(), digest.as_slice());
            let sent = slice_to_vec(&c2, 1504, 1536);
            if bytes_equal(signature.as_slice(), sent.as_slice()) {
                true
            } else {
                let a = slice_to_vec(&self.s1, 8, self.s1.len());
                let b = slice_to_vec(&c2, 8, c2.len());
                bytes_equal(a.as_slice(), b.as_slice())
            }
        } else {
            bytes_equal(self.s1.as_slice(), c2.as_slice())
        };
        if accepted {
            Ok(())
        } else {
            Err(
                RtmpError::SignatureDoesNotMatch(
                    SignatureDoesNotMatchError::new("Client signature doesn't match!".to_owned()),
                ),
            )
        }
    }
}

} // verus!
