//! # What the decoders read back of what the encoders wrote
//!
//! The AMF0 values, the chunk headers and the chunk data that the encoders
//! write are read back by the decoders as they were written, where they can be
//! written at all: strings and names of fewer than 65536 UTF-8 bytes, names of
//! an object not standing twice, no object end standing as a value.
use vstd::prelude::*;
use vstd::utf8::{encode_utf8, valid_utf8, decode_utf8, encode_utf8_valid_utf8, encode_utf8_decode_utf8};
use crate::byteorder::{
    be2, be2_bytes, be3, be3_bytes, be4, be4_bytes, be8, be8_bytes, le2, le2_bytes, le4, le4_bytes,
    lemma_be2_roundtrip, lemma_be3_roundtrip, lemma_be4_roundtrip, lemma_be8_roundtrip,
    lemma_le2_roundtrip, lemma_le4_roundtrip,
};
use crate::decoders::{
    can_read, is_object_end, parse_amf, parse_pairs, parse_string_body, parse_basic_header,
    parse_message_header, parse_extended_timestamp, parse_chunk_data, chunk_id_of,
    parse_amf_string_value, parse_amf_number_value, parse_invoke, parse_invoke_release_stream_result,
    parse_invoke_create_stream_result, net_connection_data, skip_byte, parse_response_head,
    parse_invoke_on_status,
};
use crate::amf_number::{number_to_u64_spec, u64_to_number_spec, lemma_number_roundtrip};
use crate::commands::{
    InvokeCommandView, NetConnectionCommandView, NetStreamCommandView, FcPublishCommandView,
};
use crate::encoders::{
    amf_bytes, pairs_bytes, string_body_bytes, basic_header_bytes, message_header_bytes,
    extended_timestamp_bytes, chunk_data_bytes, amf_string, amf_integer, invoke_bytes,
    net_connection_bytes,
};
use crate::messages::{
    AmfValue, ChunkDataView, ChunkId, MessageFormat, MessageHeader, MessageType, PingData,
    LimitType, key_index, pairs_insert, U24_MAX, NetConnectionResult, PlayType,
    lemma_play_type_names, lemma_net_connection_result_names,
};

verus! {

/// An AMF0 value that the encoders can write and the decoders read back:
/// strings of fewer than 65536 UTF-8 bytes, objects and mixed arrays of such
/// pairs, and no object end.
pub open spec fn amf_wf(v: AmfValue) -> bool
    decreases v,
{
    match v {
        AmfValue::String(s) => encode_utf8(s).len() < 65536,
        AmfValue::Object(o) => pairs_wf(o),
        AmfValue::MixedArray(o) => pairs_wf(o),
        AmfValue::ObjectEnd => false,
        _ => true,
    }
}

/// Name/value pairs that can be written and read back: each name of fewer
/// than 65536 UTF-8 bytes and not standing before, each value `amf_wf`.
pub open spec fn pairs_wf(o: Seq<(Seq<char>, AmfValue)>) -> bool
    decreases o,
{
    if o.len() == 0 {
        true
    } else {
        let prefix = o.subrange(0, o.len() - 1);
        &&& pairs_wf(prefix)
        &&& encode_utf8(o[o.len() - 1].0).len() < 65536
        &&& amf_wf(o[o.len() - 1].1)
        &&& key_index(prefix, o[o.len() - 1].0) < 0
    }
}

/// The pairs of a prefix of well-formed pairs are well formed, and the next
/// pair's name stands in none of them.
proof fn lemma_pairs_wf_prefix(o: Seq<(Seq<char>, AmfValue)>, j: int)
    requires
        pairs_wf(o),
        0 <= j < o.len(),
    ensures
        pairs_wf(o.subrange(0, j)),
        encode_utf8(o[j].0).len() < 65536,
        amf_wf(o[j].1),
        key_index(o.subrange(0, j), o[j].0) < 0,
    decreases o.len() - j,
{
    let prefix = o.subrange(0, o.len() - 1);
    if j < o.len() - 1 {
        lemma_pairs_wf_prefix(prefix, j);
        assert(prefix.subrange(0, j) =~= o.subrange(0, j));
        assert(prefix[j] == o[j]);
    } else {
        assert(prefix =~= o.subrange(0, j));
    }
}

/// The bytes of the first `j` pairs begin the bytes of all of them.
proof fn lemma_pairs_bytes_is_prefix(o: Seq<(Seq<char>, AmfValue)>, j: int)
    requires
        0 <= j <= o.len(),
    ensures
        pairs_bytes(o.subrange(0, j)).len() <= pairs_bytes(o).len(),
        pairs_bytes(o).subrange(0, pairs_bytes(o.subrange(0, j)).len() as int) == pairs_bytes(
            o.subrange(0, j),
        ),
    decreases o.len() - j,
{
    if j == o.len() {
        assert(o.subrange(0, j) =~= o);
        assert(pairs_bytes(o).subrange(0, pairs_bytes(o).len() as int) =~= pairs_bytes(o));
    } else {
        lemma_pairs_bytes_is_prefix(o, j + 1);
        let a = pairs_bytes(o.subrange(0, j));
        let a1 = pairs_bytes(o.subrange(0, j + 1));
        assert(o.subrange(0, j + 1).subrange(0, j) =~= o.subrange(0, j));
        assert(a1 == a + string_body_bytes(o[j].0) + amf_bytes(o[j].1));
        assert(pairs_bytes(o).subrange(0, a.len() as int) =~= a1.subrange(0, a.len() as int));
        assert(a1.subrange(0, a.len() as int) =~= a);
    }
}

/// A value that can be written has some bytes, the first its type marker,
/// which is not the object end's.
proof fn lemma_amf_bytes_marker(v: AmfValue)
    requires
        amf_wf(v),
    ensures
        amf_bytes(v).len() >= 1,
        amf_bytes(v)[0] != 9,
{
}

/// A string body of fewer than 65536 bytes is read back.
proof fn lemma_string_body_roundtrip(s: Seq<char>, b: Seq<u8>, p: int)
    requires
        encode_utf8(s).len() < 65536,
        0 <= p,
        p + string_body_bytes(s).len() <= b.len(),
        b.subrange(p, p + string_body_bytes(s).len()) == string_body_bytes(s),
    ensures
        parse_string_body(b, p) == Some((s, p + string_body_bytes(s).len())),
{
    let u = encode_utf8(s);
    let n = u.len() as int;
    lemma_be2_roundtrip(n as u16);
    assert(n as int % 65536 == n);
    let x = string_body_bytes(s);
    assert(x == be2_bytes(n as int) + u);
    assert(b[p] == x[0] && b[p + 1] == x[1]);
    assert(be2(b, p) == be2(be2_bytes(n as int), 0));
    assert(b.subrange(p + 2, p + 2 + n) =~= x.subrange(2, 2 + n));
    assert(x.subrange(2, 2 + n) =~= u);
    encode_utf8_valid_utf8(s);
    encode_utf8_decode_utf8(s);
}

/// The bytes of a value that can be written are read back as that value.
pub proof fn lemma_amf_roundtrip(v: AmfValue, b: Seq<u8>, p: int)
    requires
        amf_wf(v),
        0 <= p,
        p + amf_bytes(v).len() <= b.len(),
        b.subrange(p, p + amf_bytes(v).len()) == amf_bytes(v),
    ensures
        parse_amf(b, p) == Some((v, p + amf_bytes(v).len())),
    decreases v, 0int,
{
    let x = amf_bytes(v);
    assert(b[p] == x[0]);
    match v {
        AmfValue::Number(n) => {
            lemma_be8_roundtrip(n);
            let e = be8_bytes(n as int);
            assert(x.len() == 9);
            assert(b.subrange(p + 1, p + 9) =~= x.subrange(1, 9));
            assert(x.subrange(1, 9) =~= e);
            assert forall|i: int| 0 <= i < 8 implies b[p + 1 + i] == e[i] by {
                assert(b.subrange(p + 1, p + 9)[i] == b[p + 1 + i]);
            }
            assert(be8(b, p + 1) == be8(e, 0));
        },
        AmfValue::Boolean(t) => {
            assert(b[p + 1] == x[1]);
        },
        AmfValue::String(s) => {
            let sb = string_body_bytes(s);
            let m = sb.len() as int;
            assert(b.subrange(p + 1, p + 1 + m) =~= x.subrange(1, 1 + m));
            assert(x.subrange(1, 1 + m) =~= sb);
            lemma_string_body_roundtrip(s, b, p + 1);
        },
        AmfValue::Object(o) => {
            let pb = pairs_bytes(o);
            let m = pb.len() as int;
            assert(b.subrange(p + 1, p + 1 + m) =~= x.subrange(1, 1 + m));
            assert(x.subrange(1, 1 + m) =~= pb);
            assert(b[p + 1 + m] == x[1 + m]);
            assert(b[p + 2 + m] == x[2 + m]);
            assert(b[p + 3 + m] == x[3 + m]);
            assert(o.subrange(0, 0) =~= Seq::<(Seq<char>, AmfValue)>::empty());
            lemma_pairs_roundtrip(o, b, p + 1, 0);
        },
        AmfValue::Null => {},
        AmfValue::MixedArray(o) => {
            let pb = pairs_bytes(o);
            let m = pb.len() as int;
            assert(b.subrange(p + 5, p + 5 + m) =~= x.subrange(5, 5 + m));
            assert(x.subrange(5, 5 + m) =~= pb);
            assert(b[p + 5 + m] == x[5 + m]);
            assert(b[p + 6 + m] == x[6 + m]);
            assert(b[p + 7 + m] == x[7 + m]);
            assert(o.subrange(0, 0) =~= Seq::<(Seq<char>, AmfValue)>::empty());
            lemma_pairs_roundtrip(o, b, p + 5, 0);
        },
        AmfValue::ObjectEnd => {},
    }
}

/// The bytes of well-formed pairs and the object end marker, from the `j`th
/// pair on, are read back as the pairs, having read the first `j` already.
#[verifier::spinoff_prover]
#[verifier::rlimit(40)]
proof fn lemma_pairs_roundtrip(o: Seq<(Seq<char>, AmfValue)>, b: Seq<u8>, p: int, j: int)
    requires
        pairs_wf(o),
        0 <= j <= o.len(),
        0 <= p,
        p + pairs_bytes(o).len() + 3 <= b.len(),
        b.subrange(p, p + pairs_bytes(o).len()) == pairs_bytes(o),
        b[p + pairs_bytes(o).len()] == 0,
        b[p + pairs_bytes(o).len() + 1] == 0,
        b[p + pairs_bytes(o).len() + 2] == 9,
    ensures
        parse_pairs(b, p + pairs_bytes(o.subrange(0, j)).len(), o.subrange(0, j)) == Some(
            (o, p + pairs_bytes(o).len() + 3),
        ),
    decreases o, o.len() - j,
{
    let pb = pairs_bytes(o);
    let a = pairs_bytes(o.subrange(0, j));
    let al = a.len() as int;
    let pos = p + al;
    lemma_pairs_bytes_is_prefix(o, j);
    if j == o.len() {
        assert(o.subrange(0, j) =~= o);
        assert(is_object_end(b, pos));
    } else {
        lemma_pairs_wf_prefix(o, j);
        lemma_pairs_bytes_is_prefix(o, j + 1);
        let k = o[j].0;
        let v = o[j].1;
        let sb = string_body_bytes(k);
        let vb = amf_bytes(v);
        let sl = sb.len() as int;
        let vl = vb.len() as int;
        let a1 = pairs_bytes(o.subrange(0, j + 1));
        assert(o.subrange(0, j + 1).subrange(0, j) =~= o.subrange(0, j));
        assert(a1 == a + sb + vb);
        // The bytes of the `j`th pair stand at `pos`.
        assert(b.subrange(pos, pos + sl) =~= a1.subrange(al, al + sl));
        assert(b.subrange(pos + sl, pos + sl + vl) =~= a1.subrange(al + sl, a1.len() as int));
        assert(a1.subrange(al, al + sl) =~= sb);
        assert(a1.subrange(al + sl, a1.len() as int) =~= vb);
        lemma_string_body_roundtrip(k, b, pos);
        assert(decreases_to!(o => o[j]));
        assert(decreases_to!(o[j] => o[j].1));
        lemma_amf_roundtrip(v, b, pos + sl);
        lemma_amf_bytes_marker(v);
        // The pair does not begin with the object end marker.
        let n = encode_utf8(k).len() as int;
        assert(b[pos] == sb[0] && b[pos + 1] == sb[1]);
        assert(b[pos + sl] == vb[0]);
        if n == 0 {
            assert(sb.len() == 2);
            assert(b[pos + 2] != 9);
        } else {
            lemma_be2_roundtrip(n as u16);
            assert(n as int % 65536 == n);
            assert(be2(b, pos) == n);
        }
        assert(!is_object_end(b, pos));
        // Inserting a name that stands nowhere before appends the pair.
        assert(pairs_insert(o.subrange(0, j), k, v) =~= o.subrange(0, j + 1));
        lemma_pairs_roundtrip(o, b, p, j + 1);
    }
}

/// A chunk stream id held as the basic header reads it back: `U8` for 2 to
/// 255 and `U16` for 256 to 65535. Ids 0 and 1 stand for the longer forms of
/// the header and cannot be written.
pub open spec fn chunk_id_wf(id: ChunkId) -> bool {
    match id {
        ChunkId::U8(n) => 2 <= n,
        ChunkId::U16(n) => 256 <= n,
    }
}

/// The basic header that the encoder writes is read back.
pub proof fn lemma_basic_header_roundtrip(f: MessageFormat, id: ChunkId, b: Seq<u8>, p: int)
    requires
        chunk_id_wf(id),
        0 <= p,
        p + basic_header_bytes(f, id).len() <= b.len(),
        b.subrange(p, p + basic_header_bytes(f, id).len()) == basic_header_bytes(f, id),
    ensures
        parse_basic_header(b, p) == Some(((f, id), p + basic_header_bytes(f, id).len())),
{
    let x = basic_header_bytes(f, id);
    let top = (f.id_spec() * 64) as u8;
    let fid = f.id_spec();
    let n = id.number();
    assert(b[p] == x[0]);
    assert(fid <= 3);
    if n < 64 {
        let first = (top + n) as u8;
        assert(first / 64 == fid && first % 64 == n) by (nonlinear_arith)
            requires
                fid <= 3,
                2 <= n < 64,
                top == fid * 64,
                first == top + n,
        ;
    } else if n <= 319 {
        assert(top / 64 == fid && top % 64 == 0) by (nonlinear_arith)
            requires
                fid <= 3,
                top == fid * 64,
        ;
        assert(b[p + 1] == x[1]);
    } else {
        let first = (top + 1) as u8;
        assert(first / 64 == fid && first % 64 == 1) by (nonlinear_arith)
            requires
                fid <= 3,
                top == fid * 64,
                first == top + 1,
        ;
        lemma_le2_roundtrip((n - 64) as u16);
        assert(b[p + 1] == x[1] && b[p + 2] == x[2]);
        assert(le2(b, p + 1) == le2(le2_bytes(n - 64), 0));
    }
}

/// The bytes that stand at `p` are those of `x`, one by one.
proof fn lemma_bytes_at(b: Seq<u8>, p: int, x: Seq<u8>, i: int)
    requires
        0 <= p,
        p + x.len() <= b.len(),
        b.subrange(p, p + x.len()) == x,
        0 <= i < x.len(),
    ensures
        b[p + i] == x[i],
{
    assert(b.subrange(p, p + x.len())[i] == b[p + i]);
}

/// A 3 byte big-endian value below 2^24 is read back.
proof fn lemma_be3_at(b: Seq<u8>, p: int, x: Seq<u8>, o: int, v: u32)
    requires
        v < 0x1000000,
        0 <= p,
        0 <= o,
        o + 3 <= x.len(),
        p + x.len() <= b.len(),
        b.subrange(p, p + x.len()) == x,
        x.subrange(o, o + 3) == be3_bytes(v as int),
    ensures
        be3(b, p + o) == v,
{
    lemma_be3_roundtrip(v);
    lemma_bytes_at(b, p, x, o);
    lemma_bytes_at(b, p, x, o + 1);
    lemma_bytes_at(b, p, x, o + 2);
    assert(x.subrange(o, o + 3)[0] == x[o]);
    assert(x.subrange(o, o + 3)[1] == x[o + 1]);
    assert(x.subrange(o, o + 3)[2] == x[o + 2]);
}

/// A 4 byte big-endian value is read back.
proof fn lemma_be4_at(b: Seq<u8>, p: int, x: Seq<u8>, o: int, v: u32)
    requires
        0 <= p,
        0 <= o,
        o + 4 <= x.len(),
        p + x.len() <= b.len(),
        b.subrange(p, p + x.len()) == x,
        x.subrange(o, o + 4) == be4_bytes(v as int),
    ensures
        be4(b, p + o) == v,
{
    lemma_be4_roundtrip(v);
    lemma_bytes_at(b, p, x, o);
    lemma_bytes_at(b, p, x, o + 1);
    lemma_bytes_at(b, p, x, o + 2);
    lemma_bytes_at(b, p, x, o + 3);
    assert(x.subrange(o, o + 4)[0] == x[o]);
    assert(x.subrange(o, o + 4)[1] == x[o + 1]);
    assert(x.subrange(o, o + 4)[2] == x[o + 2]);
    assert(x.subrange(o, o + 4)[3] == x[o + 3]);
}

/// A message header of format 0 is read back.
proof fn lemma_new_header_roundtrip(h: MessageHeader, b: Seq<u8>, p: int, len: int)
    requires
        h is New,
        h.timestamp_spec() matches Some(t) ==> t < 0x1000000,
        h.message_len_spec() matches Some(m) ==> m < 0x1000000,
        0 <= p,
        p + 11 <= len <= b.len(),
        b.subrange(p, p + 11) == message_header_bytes(h),
    ensures
        parse_message_header(b, p, len, MessageFormat::New) == Some((h, p + 11)),
{
    let x = message_header_bytes(h);
    if let MessageHeader::New { message_type, message_id, message_len, timestamp } = h {
        let t = be3_bytes(timestamp as int);
        let m = be3_bytes(message_len as int);
        let l = le4_bytes(message_id as int);
        assert(timestamp as int % 16777216 == timestamp);
        assert(message_len as int % 16777216 == message_len);
        assert(x == t + m + seq![message_type.id_spec()] + l);
        assert(x.subrange(0, 3) =~= t);
        assert(x.subrange(3, 6) =~= m);
        lemma_be3_at(b, p, x, 0, timestamp as u32);
        lemma_be3_at(b, p, x, 3, message_len);
        lemma_bytes_at(b, p, x, 6);
        lemma_le4_roundtrip(message_id);
        lemma_bytes_at(b, p, x, 7);
        lemma_bytes_at(b, p, x, 8);
        lemma_bytes_at(b, p, x, 9);
        lemma_bytes_at(b, p, x, 10);
        assert(le4(b, p + 7) == le4(l, 0));
    }
}

/// A message header of format 1 is read back.
proof fn lemma_same_source_header_roundtrip(h: MessageHeader, b: Seq<u8>, p: int, len: int)
    requires
        h is SameSource,
        h.timestamp_spec() matches Some(t) ==> t < 0x1000000,
        h.message_len_spec() matches Some(m) ==> m < 0x1000000,
        0 <= p,
        p + 7 <= len <= b.len(),
        b.subrange(p, p + 7) == message_header_bytes(h),
    ensures
        parse_message_header(b, p, len, MessageFormat::SameSource) == Some((h, p + 7)),
{
    let x = message_header_bytes(h);
    if let MessageHeader::SameSource { message_type, message_len, timestamp } = h {
        let t = be3_bytes(timestamp as int);
        let m = be3_bytes(message_len as int);
        assert(timestamp as int % 16777216 == timestamp);
        assert(message_len as int % 16777216 == message_len);
        assert(x == t + m + seq![message_type.id_spec()]);
        assert(x.subrange(0, 3) =~= t);
        assert(x.subrange(3, 6) =~= m);
        lemma_be3_at(b, p, x, 0, timestamp as u32);
        lemma_be3_at(b, p, x, 3, message_len);
        lemma_bytes_at(b, p, x, 6);
    }
}

/// A message header of format 2 is read back.
proof fn lemma_timer_change_header_roundtrip(h: MessageHeader, b: Seq<u8>, p: int, len: int)
    requires
        h is TimerChange,
        h.timestamp_spec() matches Some(t) ==> t < 0x1000000,
        0 <= p,
        p + 3 <= len <= b.len(),
        b.subrange(p, p + 3) == message_header_bytes(h),
    ensures
        parse_message_header(b, p, len, MessageFormat::TimerChange) == Some((h, p + 3)),
{
    let x = message_header_bytes(h);
    if let MessageHeader::TimerChange { timestamp } = h {
        assert(timestamp as int % 16777216 == timestamp);
        assert(x.subrange(0, 3) =~= be3_bytes(timestamp as int));
        lemma_be3_at(b, p, x, 0, timestamp as u32);
    }
}

/// The format of a message header.
pub open spec fn header_format(h: MessageHeader) -> MessageFormat {
    match h {
        MessageHeader::New { .. } => MessageFormat::New,
        MessageHeader::SameSource { .. } => MessageFormat::SameSource,
        MessageHeader::TimerChange { .. } => MessageFormat::TimerChange,
        MessageHeader::Continue => MessageFormat::Continue,
    }
}

/// A message header whose timestamp and message length fit in 24 bits is read
/// back, read as its format.
pub proof fn lemma_message_header_roundtrip(h: MessageHeader, b: Seq<u8>, p: int, len: int)
    requires
        h.timestamp_spec() matches Some(t) ==> t < 0x1000000,
        h.message_len_spec() matches Some(m) ==> m < 0x1000000,
        0 <= p,
        p + message_header_bytes(h).len() <= len <= b.len(),
        b.subrange(p, p + message_header_bytes(h).len()) == message_header_bytes(h),
    ensures
        parse_message_header(b, p, len, header_format(h)) == Some(
            (h, p + message_header_bytes(h).len()),
        ),
{
    match h {
        MessageHeader::New { .. } => lemma_new_header_roundtrip(h, b, p, len),
        MessageHeader::SameSource { .. } => lemma_same_source_header_roundtrip(h, b, p, len),
        MessageHeader::TimerChange { .. } => lemma_timer_change_header_roundtrip(h, b, p, len),
        MessageHeader::Continue => {},
    }
}

/// The extended timestamp after a header whose timestamp is `0xFFFFFF` is read
/// back, where it fits in 32 bits.
pub proof fn lemma_extended_timestamp_roundtrip(h: MessageHeader, t: u64, b: Seq<u8>, p: int)
    requires
        h.timestamp_spec() == Some(U24_MAX as u64),
        t < 0x100000000,
        0 <= p,
        p + 4 <= b.len(),
        b.subrange(p, p + 4) == extended_timestamp_bytes(Some(t)),
    ensures
        parse_extended_timestamp(b, p, h) == Some((t, p + 4)),
{
    let x = extended_timestamp_bytes(Some(t));
    lemma_be4_roundtrip(t as u32);
    assert(t as int % 4294967296 == t);
    assert(b[p] == x[0] && b[p + 1] == x[1] && b[p + 2] == x[2] && b[p + 3] == x[3]);
}

/// The message type of the chunk data.
pub open spec fn chunk_data_type(d: ChunkDataView) -> MessageType {
    match d {
        ChunkDataView::ChunkSize(_) => MessageType::ChunkSize,
        ChunkDataView::BytesRead(_) => MessageType::BytesRead,
        ChunkDataView::Ping(_) => MessageType::Ping,
        ChunkDataView::ServerBandwidth(_) => MessageType::ServerBandwidth,
        ChunkDataView::ClientBandwidth(..) => MessageType::ClientBandwidth,
        ChunkDataView::Audio(_) => MessageType::Audio,
        ChunkDataView::Video(_) => MessageType::Video,
        ChunkDataView::Notify(_) => MessageType::Notify,
        ChunkDataView::Invoke(_) => MessageType::Invoke,
        ChunkDataView::Unknown(_) => MessageType::Unknown,
    }
}

/// The chunk data that carries no AMF0: a chunk size below 2^31, the bytes
/// read, a ping, the bandwidths, audio, video and bytes of an unknown type.
pub open spec fn plain_chunk_data(d: ChunkDataView) -> bool {
    match d {
        ChunkDataView::ChunkSize(n) => n < 0x80000000,
        ChunkDataView::Notify(_) => false,
        ChunkDataView::Invoke(_) => false,
        _ => true,
    }
}

/// The chunk data that carries no AMF0, written and then read as its message
/// type up to where it ends, is read back.
pub proof fn lemma_plain_chunk_data_roundtrip(d: ChunkDataView, b: Seq<u8>, p: int)
    requires
        plain_chunk_data(d),
        0 <= p,
        p + chunk_data_bytes(d).len() <= b.len(),
        b.subrange(p, p + chunk_data_bytes(d).len()) == chunk_data_bytes(d),
    ensures
        parse_chunk_data(b, p, p + chunk_data_bytes(d).len(), chunk_data_type(d)) == Some(
            (d, p + chunk_data_bytes(d).len()),
        ),
{
    let x = chunk_data_bytes(d);
    match d {
        ChunkDataView::ChunkSize(n) => {
            assert((n & 0x7fffffff) == n) by (bit_vector)
                requires
                    n < 0x80000000u32,
            ;
            assert(x.subrange(0, 4) =~= be4_bytes(n as int));
            lemma_be4_at(b, p, x, 0, n);
        },
        ChunkDataView::BytesRead(n) => {
            assert(x.subrange(0, 4) =~= be4_bytes(n as int));
            lemma_be4_at(b, p, x, 0, n);
        },
        ChunkDataView::Ping(PingData::StreamBegin(id)) => {
            lemma_be2_roundtrip(0);
            let e = be2_bytes(0);
            assert(x == e + be4_bytes(id as int));
            assert(x.subrange(2, 6) =~= be4_bytes(id as int));
            lemma_be4_at(b, p, x, 2, id);
            lemma_bytes_at(b, p, x, 0);
            lemma_bytes_at(b, p, x, 1);
            assert(be2(b, p) == be2(e, 0));
        },
        ChunkDataView::ServerBandwidth(n) => {
            assert(x.subrange(0, 4) =~= be4_bytes(n as int));
            lemma_be4_at(b, p, x, 0, n);
        },
        ChunkDataView::ClientBandwidth(n, l) => {
            assert(x.subrange(0, 4) =~= be4_bytes(n as int));
            lemma_be4_at(b, p, x, 0, n);
            lemma_bytes_at(b, p, x, 4);
        },
        _ => {
            assert(b.subrange(p, p + x.len()) =~= x);
        },
    }
}


// ---------------------------------------------------------------------------
// The invocations
// ---------------------------------------------------------------------------

/// `x`, standing between `pre` and `post`, is the part of their concatenation after `pre`.
proof fn lemma_part(pre: Seq<u8>, x: Seq<u8>, post: Seq<u8>)
    ensures
        (pre + x + post).subrange(pre.len() as int, (pre.len() + x.len()) as int) == x,
{
    assert((pre + x + post).subrange(pre.len() as int, (pre.len() + x.len()) as int) =~= x);
}

/// A string of fewer than 65536 UTF-8 bytes, written after `pre`, is read back there.
proof fn lemma_string_at(s: Seq<char>, pre: Seq<u8>, post: Seq<u8>)
    requires
        encode_utf8(s).len() < 65536,
    ensures
        parse_amf_string_value(pre + amf_string(s) + post, pre.len() as int) == Some(
            (s, (pre.len() + amf_string(s).len()) as int),
        ),
{
    lemma_part(pre, amf_string(s), post);
    lemma_amf_roundtrip(AmfValue::String(s), pre + amf_string(s) + post, pre.len() as int);
}

/// An integer below 2^53, written after `pre` as a number, is read back there
/// as that integer.
proof fn lemma_integer_at(n: u64, pre: Seq<u8>, post: Seq<u8>)
    requires
        n < 9007199254740992,
    ensures
        parse_amf_number_value(pre + amf_integer(n) + post, pre.len() as int) matches Some((bits, q))
            && number_to_u64_spec(bits) == n && q == pre.len() + amf_integer(n).len(),
{
    lemma_part(pre, amf_integer(n), post);
    lemma_amf_roundtrip(
        AmfValue::Number(u64_to_number_spec(n)),
        pre + amf_integer(n) + post,
        pre.len() as int,
    );
    lemma_number_roundtrip(n);
}

/// A name of the protocol fits in an AMF0 string.
proof fn lemma_name_fits(s: Seq<char>)
    requires
        s.len() < 100,
    ensures
        encode_utf8(s).len() < 65536,
{
    crate::handlers::lemma_utf8_len(s);
}

/// The requests that a client sends and that can be written and read back:
/// createStream, releaseStream, FCPublish and publish, with a transaction id
/// below 2^53 (which a double holds exactly) and a play path of fewer than
/// 65536 UTF-8 bytes.
pub open spec fn plain_request(c: InvokeCommandView) -> bool {
    match c {
        InvokeCommandView::NetConnection(NetConnectionCommandView::CreateStream { transaction_id }) =>
            transaction_id < 9007199254740992,
        InvokeCommandView::NetConnection(
            NetConnectionCommandView::ReleaseStream { transaction_id, play_path },
        ) => transaction_id < 9007199254740992 && encode_utf8(play_path).len() < 65536,
        InvokeCommandView::FcPublish(FcPublishCommandView::FcPublish { transaction_id, play_path }) =>
            transaction_id < 9007199254740992 && encode_utf8(play_path).len() < 65536,
        InvokeCommandView::NetStream(NetStreamCommandView::Publish { transaction_id, play_path, .. }) =>
            transaction_id < 9007199254740992 && encode_utf8(play_path).len() < 65536,
        _ => false,
    }
}

/// createStream is read back as written.
#[verifier::spinoff_prover]
#[verifier::rlimit(50)]
proof fn lemma_create_stream_request(transaction_id: u64)
    requires
        transaction_id < 9007199254740992,
    ensures
        ({
            let c = InvokeCommandView::NetConnection(NetConnectionCommandView::CreateStream { transaction_id });
            parse_invoke(invoke_bytes(c), 0, invoke_bytes(c).len() as int) == Some(
                (ChunkDataView::Invoke(c), invoke_bytes(c).len() as int),
            )
        }),
{
    reveal_strlit("connect");
    reveal_strlit("releaseStream");
    reveal_strlit("createStream");
    reveal_strlit("FCPublish");
    reveal_strlit("publish");
    assert("publish"@[0] != "connect"@[0]);
    let e = Seq::<u8>::empty();
    let null = amf_bytes(AmfValue::Null);
    let c = InvokeCommandView::NetConnection(NetConnectionCommandView::CreateStream { transaction_id });

            let x = amf_string("createStream"@);
            let y = amf_integer(transaction_id);
            let b = x + y + null;
            assert(b == invoke_bytes(c));
            lemma_name_fits("createStream"@);
            assert(b =~= e + x + (y + null));
            lemma_string_at("createStream"@, e, y + null);
            lemma_integer_at(transaction_id, x, null);
            assert(skip_byte(b, (x.len() + y.len()) as int) == b.len());
        }

/// releaseStream is read back as written.
#[verifier::spinoff_prover]
#[verifier::rlimit(50)]
proof fn lemma_release_stream_request(transaction_id: u64, play_path: Seq<char>)
    requires
        transaction_id < 9007199254740992,
        encode_utf8(play_path).len() < 65536,
    ensures
        ({
            let c = InvokeCommandView::NetConnection(NetConnectionCommandView::ReleaseStream { transaction_id, play_path });
            parse_invoke(invoke_bytes(c), 0, invoke_bytes(c).len() as int) == Some(
                (ChunkDataView::Invoke(c), invoke_bytes(c).len() as int),
            )
        }),
{
    reveal_strlit("connect");
    reveal_strlit("releaseStream");
    reveal_strlit("createStream");
    reveal_strlit("FCPublish");
    reveal_strlit("publish");
    assert("publish"@[0] != "connect"@[0]);
    let e = Seq::<u8>::empty();
    let null = amf_bytes(AmfValue::Null);
    let c = InvokeCommandView::NetConnection(NetConnectionCommandView::ReleaseStream { transaction_id, play_path });

            let x = amf_string("releaseStream"@);
            let y = amf_integer(transaction_id);
            let z = amf_string(play_path);
            let b = x + y + null + z;
            assert(b == invoke_bytes(c));
            lemma_name_fits("releaseStream"@);
            assert(b =~= e + x + (y + null + z));
            lemma_string_at("releaseStream"@, e, y + null + z);
            assert(b =~= x + y + (null + z));
            lemma_integer_at(transaction_id, x, null + z);
            assert(skip_byte(b, (x.len() + y.len()) as int) == x.len() + y.len() + 1);
            assert(b =~= (x + y + null) + z + e);
            lemma_string_at(play_path, x + y + null, e);
        }

/// FCPublish is read back as written.
#[verifier::spinoff_prover]
#[verifier::rlimit(50)]
proof fn lemma_fc_publish_request(transaction_id: u64, play_path: Seq<char>)
    requires
        transaction_id < 9007199254740992,
        encode_utf8(play_path).len() < 65536,
    ensures
        ({
            let c = InvokeCommandView::FcPublish(FcPublishCommandView::FcPublish { transaction_id, play_path });
            parse_invoke(invoke_bytes(c), 0, invoke_bytes(c).len() as int) == Some(
                (ChunkDataView::Invoke(c), invoke_bytes(c).len() as int),
            )
        }),
{
    reveal_strlit("connect");
    reveal_strlit("releaseStream");
    reveal_strlit("createStream");
    reveal_strlit("FCPublish");
    reveal_strlit("publish");
    assert("publish"@[0] != "connect"@[0]);
    let e = Seq::<u8>::empty();
    let null = amf_bytes(AmfValue::Null);
    let c = InvokeCommandView::FcPublish(FcPublishCommandView::FcPublish { transaction_id, play_path });

            let x = amf_string("FCPublish"@);
            let y = amf_integer(transaction_id);
            let z = amf_string(play_path);
            let b = x + y + null + z;
            assert(b == invoke_bytes(c));
            lemma_name_fits("FCPublish"@);
            assert(b =~= e + x + (y + null + z));
            lemma_string_at("FCPublish"@, e, y + null + z);
            assert(b =~= x + y + (null + z));
            lemma_integer_at(transaction_id, x, null + z);
            assert(skip_byte(b, (x.len() + y.len()) as int) == x.len() + y.len() + 1);
            assert(b =~= (x + y + null) + z + e);
            lemma_string_at(play_path, x + y + null, e);
        }

/// publish is read back as written.
#[verifier::spinoff_prover]
#[verifier::rlimit(50)]
proof fn lemma_publish_request(transaction_id: u64, play_path: Seq<char>, play_type: PlayType)
    requires
        transaction_id < 9007199254740992,
        encode_utf8(play_path).len() < 65536,
    ensures
        ({
            let c = InvokeCommandView::NetStream(NetStreamCommandView::Publish { transaction_id, play_path, play_type });
            parse_invoke(invoke_bytes(c), 0, invoke_bytes(c).len() as int) == Some(
                (ChunkDataView::Invoke(c), invoke_bytes(c).len() as int),
            )
        }),
{
    reveal_strlit("connect");
    reveal_strlit("releaseStream");
    reveal_strlit("createStream");
    reveal_strlit("FCPublish");
    reveal_strlit("publish");
    assert("publish"@[0] != "connect"@[0]);
    let e = Seq::<u8>::empty();
    let null = amf_bytes(AmfValue::Null);
    let c = InvokeCommandView::NetStream(NetStreamCommandView::Publish { transaction_id, play_path, play_type });

            let x = amf_string("publish"@);
            let y = amf_integer(transaction_id);
            let z = amf_string(play_path);
            let w = amf_string(play_type.name_spec());
            let b = x + y + null + z + w;
            assert(b == invoke_bytes(c));
            lemma_name_fits("publish"@);
            lemma_play_type_names(play_type, play_type.name_spec());
            reveal_strlit("live");
            reveal_strlit("record");
            reveal_strlit("append");
            lemma_name_fits(play_type.name_spec());
            assert(b =~= e + x + (y + null + z + w));
            lemma_string_at("publish"@, e, y + null + z + w);
            assert(b =~= x + y + (null + z + w));
            lemma_integer_at(transaction_id, x, null + z + w);
            assert(skip_byte(b, (x.len() + y.len()) as int) == x.len() + y.len() + 1);
            assert(b =~= (x + y + null) + z + w);
            lemma_string_at(play_path, x + y + null, w);
            assert(b =~= (x + y + null + z) + w + e);
            lemma_string_at(play_type.name_spec(), x + y + null + z, e);
        }

/// A request that is written is read back as that request: its name picks
/// the command, its transaction id comes back as the integer it was, and its
/// play path and play type as they were.
pub proof fn lemma_request_roundtrip(c: InvokeCommandView)
    requires
        plain_request(c),
    ensures
        parse_invoke(invoke_bytes(c), 0, invoke_bytes(c).len() as int) == Some(
            (ChunkDataView::Invoke(c), invoke_bytes(c).len() as int),
        ),
{
    match c {
        InvokeCommandView::NetConnection(NetConnectionCommandView::CreateStream { transaction_id }) =>
            lemma_create_stream_request(transaction_id),
        InvokeCommandView::NetConnection(
            NetConnectionCommandView::ReleaseStream { transaction_id, play_path },
        ) => lemma_release_stream_request(transaction_id, play_path),
        InvokeCommandView::FcPublish(FcPublishCommandView::FcPublish { transaction_id, play_path }) =>
            lemma_fc_publish_request(transaction_id, play_path),
        InvokeCommandView::NetStream(
            NetStreamCommandView::Publish { transaction_id, play_path, play_type },
        ) => lemma_publish_request(transaction_id, play_path, play_type),
        _ => {},
    }
}

/// The result of releaseStream that is written is read back as written: its
/// result and its transaction id (below 2^53).
#[verifier::spinoff_prover]
#[verifier::rlimit(50)]
pub proof fn lemma_release_stream_result_roundtrip(result: NetConnectionResult, transaction_id: u64)
    requires
        transaction_id < 9007199254740992,
    ensures
        ({
            let c = NetConnectionCommandView::ReleaseStreamResult { result, transaction_id };
            let b = net_connection_bytes(c);
            parse_invoke_release_stream_result(b, 0) == Some((net_connection_data(c), b.len() as int))
        }),
{
    let e = Seq::<u8>::empty();
    let null = amf_bytes(AmfValue::Null);
    let x = amf_string(result.name_spec());
    let y = amf_integer(transaction_id);
    let b = x + y + null;
    reveal_strlit("_result");
    reveal_strlit("_error");
    lemma_net_connection_result_names(result, result.name_spec());
    lemma_name_fits(result.name_spec());
    assert(b =~= e + x + (y + null));
    lemma_string_at(result.name_spec(), e, y + null);
    lemma_integer_at(transaction_id, x, null);
    assert(skip_byte(b, (x.len() + y.len()) as int) == b.len());
}

/// The result of createStream that is written is read back as written: its
/// result, its transaction id (below 2^53) and, after the null, the message
/// stream id.
#[verifier::spinoff_prover]
#[verifier::rlimit(50)]
pub proof fn lemma_create_stream_result_roundtrip(
    result: NetConnectionResult,
    transaction_id: u64,
    message_id: u32,
)
    requires
        transaction_id < 9007199254740992,
    ensures
        ({
            let c = NetConnectionCommandView::CreateStreamResult { result, message_id, transaction_id };
            let b = net_connection_bytes(c);
            parse_invoke_create_stream_result(b, 0) == Some((net_connection_data(c), b.len() as int))
        }),
{
    let e = Seq::<u8>::empty();
    let null = amf_bytes(AmfValue::Null);
    let x = amf_string(result.name_spec());
    let y = amf_integer(transaction_id);
    let z = amf_integer(message_id as u64);
    let b = x + y + null + z;
    reveal_strlit("_result");
    reveal_strlit("_error");
    lemma_net_connection_result_names(result, result.name_spec());
    lemma_name_fits(result.name_spec());
    assert(b =~= e + x + (y + null + z));
    lemma_string_at(result.name_spec(), e, y + null + z);
    assert(b =~= x + y + (null + z));
    lemma_integer_at(transaction_id, x, null + z);
    assert(skip_byte(b, (x.len() + y.len()) as int) == x.len() + y.len() + 1);
    assert(b =~= (x + y + null) + z + e);
    lemma_integer_at(message_id as u64, x + y + null, e);
}

/// The name that an invocation is written under and its transaction id,
/// where it has one (onFCPublish and an unknown invocation have none).
pub open spec fn invoke_head(c: InvokeCommandView) -> Option<(Seq<char>, u64)> {
    match c {
        InvokeCommandView::NetConnection(n) => match n {
            NetConnectionCommandView::Connect { transaction_id, .. } => Some(("connect"@, transaction_id)),
            NetConnectionCommandView::ConnectResult { result, transaction_id, .. } => Some(
                (result.name_spec(), transaction_id),
            ),
            NetConnectionCommandView::ReleaseStream { transaction_id, .. } => Some(
                ("releaseStream"@, transaction_id),
            ),
            NetConnectionCommandView::ReleaseStreamResult { result, transaction_id } => Some(
                (result.name_spec(), transaction_id),
            ),
            NetConnectionCommandView::CreateStream { transaction_id } => Some(
                ("createStream"@, transaction_id),
            ),
            NetConnectionCommandView::CreateStreamResult { result, transaction_id, .. } => Some(
                (result.name_spec(), transaction_id),
            ),
        },
        InvokeCommandView::NetStream(n) => match n {
            NetStreamCommandView::Publish { transaction_id, .. } => Some(("publish"@, transaction_id)),
            NetStreamCommandView::OnStatus { transaction_id, .. } => Some(("onStatus"@, transaction_id)),
        },
        InvokeCommandView::FcPublish(f) => match f {
            FcPublishCommandView::FcPublish { transaction_id, .. } => Some(("FCPublish"@, transaction_id)),
            FcPublishCommandView::OnFcPublish => None,
        },
        InvokeCommandView::Unknown(_) => None,
    }
}

/// `a` is the start of `a + rest`.
proof fn lemma_prefix(a: Seq<u8>, rest: Seq<u8>)
    ensures
        (a + rest).subrange(0, a.len() as int) == a,
{
    assert((a + rest).subrange(0, a.len() as int) =~= a);
}

/// Every invocation that has a transaction id is written as its name, then
/// its transaction id as a number, then what it holds.
pub proof fn lemma_invoke_bytes_head(c: InvokeCommandView)
    ensures
        invoke_head(c) matches Some((n, t)) ==> invoke_bytes(c).subrange(
            0,
            (amf_string(n) + amf_integer(t)).len() as int,
        ) == amf_string(n) + amf_integer(t),
{
    let null = amf_bytes(AmfValue::Null);
    match invoke_head(c) {
        Some((n, t)) => {
            let h = amf_string(n) + amf_integer(t);
            let rest = match c {
                InvokeCommandView::NetConnection(NetConnectionCommandView::Connect { command_object, .. }) =>
                    amf_bytes(AmfValue::Object(command_object.to_pairs())),
                InvokeCommandView::NetConnection(
                    NetConnectionCommandView::ConnectResult { properties, information, .. },
                ) => amf_bytes(AmfValue::Object(properties)) + amf_bytes(
                    AmfValue::Object(information.to_pairs()),
                ),
                InvokeCommandView::NetConnection(NetConnectionCommandView::ReleaseStream { play_path, .. }) =>
                    null + amf_string(play_path),
                InvokeCommandView::NetConnection(NetConnectionCommandView::CreateStreamResult { message_id, .. }) =>
                    null + amf_integer(message_id as u64),
                InvokeCommandView::NetStream(NetStreamCommandView::Publish { play_path, play_type, .. }) =>
                    null + amf_string(play_path) + amf_string(play_type.name_spec()),
                InvokeCommandView::NetStream(NetStreamCommandView::OnStatus { info_object, .. }) => null
                    + amf_bytes(AmfValue::Object(info_object.to_pairs())),
                InvokeCommandView::FcPublish(FcPublishCommandView::FcPublish { play_path, .. }) => null
                    + amf_string(play_path),
                _ => null,
            };
            assert(invoke_bytes(c) =~= h + rest);
            lemma_prefix(h, rest);
        },
        None => {},
    }
}

/// Bytes that begin with a name and then an integer below 2^53 written as a
/// number are read as an invocation, a response head or onStatus that takes
/// that name and has that integer as its transaction id.
#[verifier::spinoff_prover]
#[verifier::rlimit(50)]
pub proof fn lemma_invoke_head_read(n: Seq<char>, t: u64, rest: Seq<u8>, len: int)
    requires
        t < 9007199254740992,
        encode_utf8(n).len() < 65536,
    ensures
        ({
            let b = amf_string(n) + amf_integer(t) + rest;
            &&& (parse_invoke(b, 0, len) matches Some((ChunkDataView::Invoke(c), _)) ==> (
                invoke_head(c) is Some ==> invoke_head(c) == Some((n, t))))
            &&& (parse_response_head(b, 0) matches Some((res, tid, _)) ==> res.name_spec() == n
                && tid == t)
            &&& (parse_invoke_on_status(b, 0) matches Some((ChunkDataView::Invoke(c), _))
                ==> invoke_head(c) == Some((n, t)))
        }),
{
    let x = amf_string(n);
    let y = amf_integer(t);
    let b = x + y + rest;
    assert(b =~= Seq::<u8>::empty() + x + (y + rest));
    lemma_string_at(n, Seq::<u8>::empty(), y + rest);
    lemma_integer_at(t, x, rest);
    reveal_strlit("onStatus");
    match parse_response_head(b, 0) {
        Some((res, tid, _)) => {
            lemma_net_connection_result_names(res, n);
        },
        None => {},
    }
}

} // verus!
