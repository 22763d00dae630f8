//! # The decoders of the chunk messages
//!
//! A chunk arrives as bytes. The decoders read the bytes of a `ByteBuffer`
//! from its position on, and move the position past what they read.
//!
//! Every decoder returns an `Option`: `None` where the bytes are too few or do
//! not make up what was to be read. A decoder that returns `None` leaves the
//! position where it was.
//!
//! What a decoder reads is stated over the byte sequence and a position, by
//! the spec functions of this module: each gives the value read and the
//! position after it, or `None`.
use vstd::prelude::*;
use vstd::utf8::{valid_utf8, decode_utf8};
use crate::byteorder::{be2, be3, be4, be8, le2, le4, read_be_u16, read_be_u24, read_be_u32, read_be_u64, read_le_u16, read_le_u32, slice_to_vec};
use crate::amf_number::{number_to_u64, number_to_u64_spec};
use crate::messages::{
    AmfData, AmfValue, BasicHeader, ByteBuffer, ByteBufferView, ChunkData, ChunkDataView, ChunkId,
    CommandObject, CommandObjectView, FcPublishCommand, FcPublishCommandView, InfoObject,
    InfoObjectView, InvokeCommand, InvokeCommandView, LimitType, MessageFormat, MessageHeader,
    MessageType, MetaData, MetaDataView, NetConnectionCommand, NetConnectionCommandView,
    NetConnectionResult, NetStreamCommand, NetStreamCommandView, NotifyCommand, NotifyCommandView,
    PingData, PingType, PlayType, U24_MAX, object_of, pairs_insert, pairs_value, object_insert,
};
use crate::text::str_equals;

verus! {

// ---------------------------------------------------------------------------
// The bytes as the contracts read them
// ---------------------------------------------------------------------------

/// The buffer with its position moved to `p`.
pub open spec fn moved_to(v: ByteBufferView, p: int) -> ByteBufferView {
    ByteBufferView { offset: p, ..v }
}

/// `n` bytes can be read at `p`.
pub open spec fn can_read(b: Seq<u8>, p: int, n: int) -> bool {
    0 <= p && p + n <= b.len()
}

/// The AMF0 string body (a 2 byte length, then that many bytes of UTF-8) at
/// `p`: its characters and the position after it.
pub open spec fn parse_string_body(b: Seq<u8>, p: int) -> Option<(Seq<char>, int)> {
    if can_read(b, p, 2) {
        let n = be2(b, p);
        if can_read(b, p + 2, n) && valid_utf8(b.subrange(p + 2, p + 2 + n)) {
            Some((decode_utf8(b.subrange(p + 2, p + 2 + n)), p + 2 + n))
        } else {
            None
        }
    } else {
        None
    }
}

/// The object end marker at `p`.
pub open spec fn is_object_end(b: Seq<u8>, p: int) -> bool {
    can_read(b, p, 3) && b[p] == 0 && b[p + 1] == 0 && b[p + 2] == 9
}

/// The AMF0 value at `p` (its type marker, then its data): the value and the
/// position after it.
///
/// * 0, `Number`: 8 bytes, the bits of a double.
/// * 1, `Boolean`: 1 byte; any but 0 is `true`.
/// * 2, `String`: a string body.
/// * 3, `Object`: name/value pairs, see `parse_pairs`.
/// * 5, `Null`: nothing more.
/// * 8, `MixedArray`: a 4 byte count, which is not used, then name/value pairs.
/// * Any other marker is not read.
pub open spec fn parse_amf(b: Seq<u8>, p: int) -> Option<(AmfValue, int)>
    decreases b.len() - p, 1int,
{
    if can_read(b, p, 1) {
        let t = b[p];
        if t == 0 {
            if can_read(b, p + 1, 8) {
                Some((AmfValue::Number(be8(b, p + 1) as u64), p + 9))
            } else {
                None
            }
        } else if t == 1 {
            if can_read(b, p + 1, 1) {
                Some((AmfValue::Boolean(b[p + 1] != 0), p + 2))
            } else {
                None
            }
        } else if t == 2 {
            match parse_string_body(b, p + 1) {
                Some((s, q)) => Some((AmfValue::String(s), q)),
                None => None,
            }
        } else if t == 3 {
            match parse_pairs(b, p + 1, Seq::empty()) {
                Some((o, q)) => Some((AmfValue::Object(o), q)),
                None => None,
            }
        } else if t == 5 {
            Some((AmfValue::Null, p + 1))
        } else if t == 8 {
            if can_read(b, p + 1, 4) {
                match parse_pairs(b, p + 5, Seq::empty()) {
                    Some((o, q)) => Some((AmfValue::MixedArray(o), q)),
                    None => None,
                }
            } else {
                None
            }
        } else {
            None
        }
    } else {
        None
    }
}

/// The name/value pairs at `p`, inserted one after the other into `acc`: the
/// pairs and the position after them. They end at the object end marker,
/// which is read too, or where fewer than 3 bytes are left (then nothing more
/// is read). A name is a string
/// body, its value an AMF0 value; a name that comes again replaces the value
/// it had.
pub open spec fn parse_pairs(b: Seq<u8>, p: int, acc: Seq<(Seq<char>, AmfValue)>) -> Option<
    (Seq<(Seq<char>, AmfValue)>, int),
>
    decreases b.len() - p, 0int,
{
    if !can_read(b, p, 3) {
        Some((acc, p))
    } else if is_object_end(b, p) {
        Some((acc, p + 3))
    } else {
        match parse_string_body(b, p) {
            Some((k, q)) => if q > p {
                match parse_amf(b, q) {
                    Some((v, q2)) => if q < q2 <= b.len() {
                        parse_pairs(b, q2, pairs_insert(acc, k, v))
                    } else {
                        None
                    },
                    None => None,
                }
            } else {
                None
            },
            None => None,
        }
    }
}

/// `r` is what a decoder returned that reads `spec` from `before`, and
/// `after` the buffer it left: the value read and the position after it, or
/// `None` and the buffer as it was.
pub open spec fn decoded_as(
    r: Option<AmfData>,
    spec: Option<(AmfValue, int)>,
    before: ByteBufferView,
    after: ByteBufferView,
) -> bool {
    match spec {
        Some((v, q)) => (r matches Some(d) && d.value() == v) && after == moved_to(before, q),
        None => r is None && after == before,
    }
}

/// An AMF0 number's body at `p`: 8 bytes, the bits of a double.
pub open spec fn parse_number_body(b: Seq<u8>, p: int) -> Option<(AmfValue, int)> {
    if can_read(b, p, 8) {
        Some((AmfValue::Number(be8(b, p) as u64), p + 8))
    } else {
        None
    }
}

/// An AMF0 boolean's body at `p`: 1 byte, any but 0 being `true`.
pub open spec fn parse_boolean_body(b: Seq<u8>, p: int) -> Option<(AmfValue, int)> {
    if can_read(b, p, 1) {
        Some((AmfValue::Boolean(b[p] != 0), p + 1))
    } else {
        None
    }
}

/// An AMF0 string's body at `p` as an AMF0 value.
pub open spec fn parse_string_value(b: Seq<u8>, p: int) -> Option<(AmfValue, int)> {
    match parse_string_body(b, p) {
        Some((s, q)) => Some((AmfValue::String(s), q)),
        None => None,
    }
}

/// An AMF0 object's body at `p`: its name/value pairs.
pub open spec fn parse_object_body(b: Seq<u8>, p: int) -> Option<(AmfValue, int)> {
    match parse_pairs(b, p, Seq::empty()) {
        Some((o, q)) => Some((AmfValue::Object(o), q)),
        None => None,
    }
}

/// An AMF0 mixed array's body at `p`: a 4 byte count, then its name/value pairs.
pub open spec fn parse_mixed_array_body(b: Seq<u8>, p: int) -> Option<(AmfValue, int)> {
    if can_read(b, p, 4) {
        match parse_pairs(b, p + 4, Seq::empty()) {
            Some((o, q)) => Some((AmfValue::MixedArray(o), q)),
            None => None,
        }
    } else {
        None
    }
}

// ---------------------------------------------------------------------------
// The headers and the chunk data as the contracts read them
// ---------------------------------------------------------------------------

/// The chunk stream id `n`: `U8` up to 255, `U16` up to 65535; `None` above.
pub open spec fn chunk_id_of(n: int) -> Option<ChunkId> {
    if 0 <= n <= 255 {
        Some(ChunkId::U8(n as u8))
    } else if 256 <= n <= 65535 {
        Some(ChunkId::U16(n as u16))
    } else {
        None
    }
}

/// The chunk basic header at `p`: the format of the message header (the top
/// 2 bits of the first byte) and the chunk stream id. The low 6 bits of the
/// first byte are the id, but 0 says that the next byte is the id less 64, and
/// 1 that the next 2 bytes (little endian) are.
pub open spec fn parse_basic_header(b: Seq<u8>, p: int) -> Option<((MessageFormat, ChunkId), int)> {
    if can_read(b, p, 1) {
        match MessageFormat::from_id_spec(b[p] / 64) {
            Some(f) => {
                let t = b[p] % 64;
                if t == 0 {
                    if can_read(b, p + 1, 1) {
                        match chunk_id_of(b[p + 1] + 64) {
                            Some(id) => Some(((f, id), p + 2)),
                            None => None,
                        }
                    } else {
                        None
                    }
                } else if t == 1 {
                    if can_read(b, p + 1, 2) {
                        match chunk_id_of(le2(b, p + 1) + 64) {
                            Some(id) => Some(((f, id), p + 3)),
                            None => None,
                        }
                    } else {
                        None
                    }
                } else {
                    Some(((f, ChunkId::U8(t)), p + 1))
                }
            },
            None => None,
        }
    } else {
        None
    }
}

/// The chunk message header of format `f` at `p`, where its bytes are within
/// the counted length `len`: timestamp (3 bytes), message length (3 bytes),
/// message type (1 byte) and message stream id (4 bytes, little endian), of
/// which each format keeps the first 11, 7, 3 or 0 bytes.
pub open spec fn parse_message_header(b: Seq<u8>, p: int, len: int, f: MessageFormat) -> Option<
    (MessageHeader, int),
> {
    match f {
        MessageFormat::New => if p + 11 <= len && can_read(b, p, 11) {
            Some(
                (
                    MessageHeader::New {
                        timestamp: be3(b, p) as u64,
                        message_len: be3(b, p + 3) as u32,
                        message_type: MessageType::from_id_spec(b[p + 6]),
                        message_id: le4(b, p + 7) as u32,
                    },
                    p + 11,
                ),
            )
        } else {
            None
        },
        MessageFormat::SameSource => if p + 7 <= len && can_read(b, p, 7) {
            Some(
                (
                    MessageHeader::SameSource {
                        timestamp: be3(b, p) as u64,
                        message_len: be3(b, p + 3) as u32,
                        message_type: MessageType::from_id_spec(b[p + 6]),
                    },
                    p + 7,
                ),
            )
        } else {
            None
        },
        MessageFormat::TimerChange => if p + 3 <= len && can_read(b, p, 3) {
            Some((MessageHeader::TimerChange { timestamp: be3(b, p) as u64 }, p + 3))
        } else {
            None
        },
        MessageFormat::Continue => Some((MessageHeader::Continue, p)),
    }
}

/// The extended timestamp at `p` (4 bytes), which follows a message header
/// whose timestamp is `0xFFFFFF` (or more); `None` after any other header.
pub open spec fn parse_extended_timestamp(b: Seq<u8>, p: int, h: MessageHeader) -> Option<(u64, int)> {
    match h.timestamp_spec() {
        Some(t) => if t >= U24_MAX && can_read(b, p, 4) {
            Some((be4(b, p) as u64, p + 4))
        } else {
            None
        },
        None => None,
    }
}

/// The bytes from `p` up to the counted length `len`.
pub open spec fn parse_rest(b: Seq<u8>, p: int, len: int) -> Option<(Seq<u8>, int)> {
    if 0 <= p <= len <= b.len() {
        Some((b.subrange(p, len), len))
    } else {
        None
    }
}

/// The chunk size at `p`: 4 bytes whose top bit is 0.
pub open spec fn parse_chunk_size(b: Seq<u8>, p: int) -> Option<(ChunkDataView, int)> {
    if can_read(b, p, 4) && be4(b, p) < 0x80000000 {
        Some((ChunkDataView::ChunkSize(be4(b, p) as u32), p + 4))
    } else {
        None
    }
}

/// A 4 byte value at `p`, as the chunk data that `make` gives for it.
pub open spec fn parse_u32_data(b: Seq<u8>, p: int, make: spec_fn(u32) -> ChunkDataView) -> Option<
    (ChunkDataView, int),
> {
    if can_read(b, p, 4) {
        Some((make(be4(b, p) as u32), p + 4))
    } else {
        None
    }
}

/// The ping at `p`: its event type (2 bytes), then its event data; for
/// StreamBegin (0), the message stream id (4 bytes).
pub open spec fn parse_ping(b: Seq<u8>, p: int) -> Option<(ChunkDataView, int)> {
    if can_read(b, p, 6) && PingType::from_id_spec(be2(b, p) as u16) == Some(PingType::StreamBegin) {
        Some((ChunkDataView::Ping(PingData::StreamBegin(be4(b, p + 2) as u32)), p + 6))
    } else {
        None
    }
}

/// The client bandwidth at `p`: the bandwidth (4 bytes), then its limit type (1 byte).
pub open spec fn parse_client_bandwidth(b: Seq<u8>, p: int) -> Option<(ChunkDataView, int)> {
    if can_read(b, p, 5) {
        match LimitType::from_id_spec(b[p + 4]) {
            Some(l) => Some((ChunkDataView::ClientBandwidth(be4(b, p) as u32, l), p + 5)),
            None => None,
        }
    } else {
        None
    }
}

/// The AMF0 string at `p`: its characters.
pub open spec fn parse_amf_string_value(b: Seq<u8>, p: int) -> Option<(Seq<char>, int)> {
    match parse_amf(b, p) {
        Some((AmfValue::String(s), q)) => Some((s, q)),
        _ => None,
    }
}

/// The AMF0 number at `p`: its bits.
pub open spec fn parse_amf_number_value(b: Seq<u8>, p: int) -> Option<(u64, int)> {
    match parse_amf(b, p) {
        Some((AmfValue::Number(n), q)) => Some((n, q)),
        _ => None,
    }
}

/// The AMF0 object or mixed array at `p`: its pairs.
pub open spec fn parse_amf_object_value(b: Seq<u8>, p: int) -> Option<(Seq<(Seq<char>, AmfValue)>, int)> {
    match parse_amf(b, p) {
        Some((v, q)) => match object_of(v) {
            Some(o) => Some((o, q)),
            None => None,
        },
        None => None,
    }
}

/// The position after skipping 1 byte at `p`, where there is one.
pub open spec fn skip_byte(b: Seq<u8>, p: int) -> int {
    if can_read(b, p, 1) {
        p + 1
    } else {
        p
    }
}

/// The notify command at `p`: the command's name (a string); for
/// "@setDataFrame", the data frame's name (a string) and the metadata (an
/// object or mixed array); for any other name, the bytes up to `len`.
pub open spec fn parse_notify(b: Seq<u8>, p: int, len: int) -> Option<(ChunkDataView, int)> {
    match parse_amf_string_value(b, p) {
        Some((c, q)) => if c == "@setDataFrame"@ {
            match parse_amf_string_value(b, q) {
                Some((d, q2)) => match parse_amf_object_value(b, q2) {
                    Some((o, q3)) => Some(
                        (
                            ChunkDataView::Notify(
                                NotifyCommandView::SetDataFrame {
                                    data_frame: d,
                                    meta_data: MetaDataView::from_pairs(o),
                                },
                            ),
                            q3,
                        ),
                    ),
                    None => None,
                },
                None => None,
            }
        } else {
            match parse_rest(b, q, len) {
                Some((r, q2)) => Some((ChunkDataView::Notify(NotifyCommandView::Unknown(r)), q2)),
                None => None,
            }
        },
        None => None,
    }
}

/// An invoke chunk data of a NetConnection command.
pub open spec fn net_connection_data(c: NetConnectionCommandView) -> ChunkDataView {
    ChunkDataView::Invoke(InvokeCommandView::NetConnection(c))
}

/// The invoke command at `p`: the command's name (a string) and the
/// transaction id (a number, read as Rust's `as u64` does), then what the
/// command holds:
///
/// * "connect": the command object (an object);
/// * "releaseStream", "FCPublish": a null (1 byte, skipped), the play path (a string);
/// * "createStream": a null;
/// * "publish": a null, the play path and the play type (strings);
/// * any other name: the bytes up to `len`.
pub open spec fn parse_invoke(b: Seq<u8>, p: int, len: int) -> Option<(ChunkDataView, int)> {
    match parse_amf_string_value(b, p) {
        Some((c, q)) => match parse_amf_number_value(b, q) {
            Some((n, q2)) => {
                let tid = number_to_u64_spec(n);
                if c == "connect"@ {
                    match parse_amf_object_value(b, q2) {
                        Some((o, q3)) => Some(
                            (
                                net_connection_data(
                                    NetConnectionCommandView::Connect {
                                        argument: None,
                                        transaction_id: tid,
                                        command_object: CommandObjectView::from_pairs(o),
                                    },
                                ),
                                q3,
                            ),
                        ),
                        None => None,
                    }
                } else if c == "releaseStream"@ {
                    match parse_amf_string_value(b, skip_byte(b, q2)) {
                        Some((s, q3)) => Some(
                            (
                                net_connection_data(
                                    NetConnectionCommandView::ReleaseStream {
                                        transaction_id: tid,
                                        play_path: s,
                                    },
                                ),
                                q3,
                            ),
                        ),
                        None => None,
                    }
                } else if c == "createStream"@ {
                    Some(
                        (
                            net_connection_data(
                                NetConnectionCommandView::CreateStream { transaction_id: tid },
                            ),
                            skip_byte(b, q2),
                        ),
                    )
                } else if c == "FCPublish"@ {
                    match parse_amf_string_value(b, skip_byte(b, q2)) {
                        Some((s, q3)) => Some(
                            (
                                ChunkDataView::Invoke(
                                    InvokeCommandView::FcPublish(
                                        FcPublishCommandView::FcPublish {
                                            transaction_id: tid,
                                            play_path: s,
                                        },
                                    ),
                                ),
                                q3,
                            ),
                        ),
                        None => None,
                    }
                } else if c == "publish"@ {
                    match parse_amf_string_value(b, skip_byte(b, q2)) {
                        Some((s, q3)) => match parse_amf_string_value(b, q3) {
                            Some((t, q4)) => match PlayType::parse_spec(t) {
                                Some(pt) => Some(
                                    (
                                        ChunkDataView::Invoke(
                                            InvokeCommandView::NetStream(
                                                NetStreamCommandView::Publish {
                                                    transaction_id: tid,
                                                    play_path: s,
                                                    play_type: pt,
                                                },
                                            ),
                                        ),
                                        q4,
                                    ),
                                ),
                                None => None,
                            },
                            None => None,
                        },
                        None => None,
                    }
                } else {
                    match parse_rest(b, q2, len) {
                        Some((r, q3)) => Some(
                            (ChunkDataView::Invoke(InvokeCommandView::Unknown(r)), q3),
                        ),
                        None => None,
                    }
                }
            },
            None => None,
        },
        None => None,
    }
}

/// The chunk data of type `t` at `p`, its bytes up to the counted length `len`.
pub open spec fn parse_chunk_data(b: Seq<u8>, p: int, len: int, t: MessageType) -> Option<
    (ChunkDataView, int),
> {
    match t {
        MessageType::ChunkSize => parse_chunk_size(b, p),
        MessageType::BytesRead => parse_u32_data(b, p, |n: u32| ChunkDataView::BytesRead(n)),
        MessageType::Ping => parse_ping(b, p),
        MessageType::ServerBandwidth => parse_u32_data(
            b,
            p,
            |n: u32| ChunkDataView::ServerBandwidth(n),
        ),
        MessageType::ClientBandwidth => parse_client_bandwidth(b, p),
        MessageType::Audio => match parse_rest(b, p, len) {
            Some((r, q)) => Some((ChunkDataView::Audio(r), q)),
            None => None,
        },
        MessageType::Video => match parse_rest(b, p, len) {
            Some((r, q)) => Some((ChunkDataView::Video(r), q)),
            None => None,
        },
        MessageType::Notify => parse_notify(b, p, len),
        MessageType::Invoke => parse_invoke(b, p, len),
        _ => match parse_rest(b, p, len) {
            Some((r, q)) => Some((ChunkDataView::Unknown(r), q)),
            None => None,
        },
    }
}

/// A response to a NetConnection command: the name ("_result" or "_error"),
/// the transaction id, then what `rest` reads from the position after them.
pub open spec fn parse_response_head(b: Seq<u8>, p: int) -> Option<(NetConnectionResult, u64, int)> {
    match parse_amf_string_value(b, p) {
        Some((c, q)) => match parse_amf_number_value(b, q) {
            Some((n, q2)) => match NetConnectionResult::parse_spec(c) {
                Some(res) => Some((res, number_to_u64_spec(n), q2)),
                None => None,
            },
            None => None,
        },
        None => None,
    }
}

/// The pairs of an optional AMF0 value at `p`: those of an object or a mixed
/// array, none for any other value, none and nothing read where none is read.
pub open spec fn parse_optional_pairs(b: Seq<u8>, p: int) -> (Seq<(Seq<char>, AmfValue)>, int) {
    match parse_amf(b, p) {
        Some((v, q)) => match object_of(v) {
            Some(o) => (o, q),
            None => (Seq::empty(), q),
        },
        None => (Seq::empty(), p),
    }
}

/// The response to connect at `p`: the result, the transaction id, the
/// properties and the information object (each an object, read as empty where
/// there is none).
pub open spec fn parse_invoke_connect_result(b: Seq<u8>, p: int) -> Option<(ChunkDataView, int)> {
    match parse_response_head(b, p) {
        Some((res, tid, q)) => {
            let (props, q2) = parse_optional_pairs(b, q);
            let (info, q3) = parse_optional_pairs(b, q2);
            Some(
                (
                    net_connection_data(
                        NetConnectionCommandView::ConnectResult {
                            result: res,
                            transaction_id: tid,
                            properties: props,
                            information: InfoObjectView::from_pairs(info),
                        },
                    ),
                    q3,
                ),
            )
        },
        None => None,
    }
}

/// The response to releaseStream at `p`: the result, the transaction id and a null.
pub open spec fn parse_invoke_release_stream_result(b: Seq<u8>, p: int) -> Option<(ChunkDataView, int)> {
    match parse_response_head(b, p) {
        Some((res, tid, q)) => Some(
            (
                net_connection_data(
                    NetConnectionCommandView::ReleaseStreamResult { result: res, transaction_id: tid },
                ),
                skip_byte(b, q),
            ),
        ),
        None => None,
    }
}

/// The response to createStream at `p`: the result, the transaction id, a
/// null and the message stream id (a number, read as Rust's `as u64 as u32` does).
pub open spec fn parse_invoke_create_stream_result(b: Seq<u8>, p: int) -> Option<(ChunkDataView, int)> {
    match parse_response_head(b, p) {
        Some((res, tid, q)) => match parse_amf_number_value(b, skip_byte(b, q)) {
            Some((m, q2)) => Some(
                (
                    net_connection_data(
                        NetConnectionCommandView::CreateStreamResult {
                            result: res,
                            message_id: number_to_u64_spec(m) as u32,
                            transaction_id: tid,
                        },
                    ),
                    q2,
                ),
            ),
            None => None,
        },
        None => None,
    }
}

/// The response to FCPublish at `p`: the name "onFCPublish".
pub open spec fn parse_invoke_on_fc_publish(b: Seq<u8>, p: int) -> Option<(ChunkDataView, int)> {
    match parse_amf_string_value(b, p) {
        Some((c, q)) => if c == "onFCPublish"@ {
            Some((ChunkDataView::Invoke(InvokeCommandView::FcPublish(FcPublishCommandView::OnFcPublish)), q))
        } else {
            None
        },
        None => None,
    }
}

/// The response to publish at `p`: the name "onStatus", the transaction id, a
/// null and the information object.
pub open spec fn parse_invoke_on_status(b: Seq<u8>, p: int) -> Option<(ChunkDataView, int)> {
    match parse_amf_string_value(b, p) {
        Some((c, q)) => match parse_amf_number_value(b, q) {
            Some((n, q2)) => if c == "onStatus"@ {
                match parse_amf_object_value(b, skip_byte(b, q2)) {
                    Some((o, q3)) => Some(
                        (
                            ChunkDataView::Invoke(
                                InvokeCommandView::NetStream(
                                    NetStreamCommandView::OnStatus {
                                        transaction_id: number_to_u64_spec(n),
                                        info_object: InfoObjectView::from_pairs(o),
                                    },
                                ),
                            ),
                            q3,
                        ),
                    ),
                    None => None,
                }
            } else {
                None
            },
            None => None,
        },
        None => None,
    }
}

/// `r` is what a decoder of chunk data returned that reads `spec` from
/// `before`, and `after` the buffer it left.
pub open spec fn chunk_decoded_as(
    r: Option<ChunkData>,
    spec: Option<(ChunkDataView, int)>,
    before: ByteBufferView,
    after: ByteBufferView,
) -> bool {
    match spec {
        Some((d, q)) => (r matches Some(x) && x@ == d) && after == moved_to(before, q),
        None => r is None && after == before,
    }
}

/// A value that was read ends after where it began.
pub proof fn lemma_parse_amf_advances(b: Seq<u8>, p: int)
    ensures
        parse_amf(b, p) matches Some((v, q)) ==> p < q <= b.len(),
    decreases b.len() - p, 1int,
{
    if can_read(b, p, 1) {
        let t = b[p];
        if t == 3 {
            lemma_parse_pairs_advances(b, p + 1, Seq::empty());
        } else if t == 8 && can_read(b, p + 1, 4) {
            lemma_parse_pairs_advances(b, p + 5, Seq::empty());
        }
    }
}

/// Pairs that were read end no earlier than where they began.
pub proof fn lemma_parse_pairs_advances(b: Seq<u8>, p: int, acc: Seq<(Seq<char>, AmfValue)>)
    ensures
        parse_pairs(b, p, acc) matches Some((o, q)) ==> p <= q && (q <= b.len() || q == p),
    decreases b.len() - p, 0int,
{
    if can_read(b, p, 3) && !is_object_end(b, p) {
        if let Some((k, q)) = parse_string_body(b, p) {
            if q > p {
                lemma_parse_amf_advances(b, q);
                if let Some((v, q2)) = parse_amf(b, q) {
                    if q < q2 <= b.len() {
                        lemma_parse_pairs_advances(b, q2, pairs_insert(acc, k, v));
                    }
                }
            }
        }
    }
}

// ---------------------------------------------------------------------------
// Trusted: the one call into std that vstd does not specify
// ---------------------------------------------------------------------------

/// `String::from_utf8`: the string whose UTF-8 encoding is `bytes`, where they
/// are valid UTF-8; `None` otherwise.
#[verifier::external_body]
fn string_from_utf8(bytes: Vec<u8>) -> (r: Option<String>)
    ensures
        r is Some <==> valid_utf8(bytes@),
        r matches Some(s) ==> s@ == decode_utf8(bytes@),
{
    String::from_utf8(bytes).ok()
}

// ---------------------------------------------------------------------------
// Reading bytes
// ---------------------------------------------------------------------------

impl ByteBuffer {
    /// Whether `n` bytes can be read at the position.
    fn has(&self, n: usize) -> (r: bool)
        ensures
            r == can_read(self@.bytes, self@.offset as int, n as int),
            self@.bytes.len() <= usize::MAX,
    {
        let offset = self.offset();
        let len = self.bytes().len();
        offset <= len && n <= len - offset
    }

    /// Reads 1 byte. `None` where there is none; the position then stays.
    pub fn get_u8(&mut self) -> (r: Option<u8>)
        ensures
            can_read(old(self)@.bytes, old(self)@.offset as int, 1) ==> r == Some(
                old(self)@.bytes[old(self)@.offset as int],
            ) && final(self)@ == moved_to(old(self)@, old(self)@.offset + 1),
            !can_read(old(self)@.bytes, old(self)@.offset as int, 1) ==> r is None && final(self)@
                == old(self)@,
    {
        if self.has(1) {
            let offset = self.offset();
            let n = self.bytes()[offset];
            self.offset_to(1);
            Some(n)
        } else {
            None
        }
    }

    /// Reads 2 bytes as a big-endian `u16`. `None` where there are fewer; the
    /// position then stays.
    pub fn get_u16_be(&mut self) -> (r: Option<u16>)
        ensures
            can_read(old(self)@.bytes, old(self)@.offset as int, 2) ==> r == Some(
                be2(old(self)@.bytes, old(self)@.offset as int) as u16,
            ) && final(self)@ == moved_to(old(self)@, old(self)@.offset + 2),
            !can_read(old(self)@.bytes, old(self)@.offset as int, 2) ==> r is None && final(self)@
                == old(self)@,
    {
        if self.has(2) {
            let offset = self.offset();
            let n = read_be_u16(self.bytes(), offset);
            self.offset_to(2);
            Some(n)
        } else {
            None
        }
    }

    /// Reads 2 bytes as a little-endian `u16`. `None` where there are fewer;
    /// the position then stays.
    pub fn get_u16_le(&mut self) -> (r: Option<u16>)
        ensures
            can_read(old(self)@.bytes, old(self)@.offset as int, 2) ==> r == Some(
                le2(old(self)@.bytes, old(self)@.offset as int) as u16,
            ) && final(self)@ == moved_to(old(self)@, old(self)@.offset + 2),
            !can_read(old(self)@.bytes, old(self)@.offset as int, 2) ==> r is None && final(self)@
                == old(self)@,
    {
        if self.has(2) {
            let offset = self.offset();
            let n = read_le_u16(self.bytes(), offset);
            self.offset_to(2);
            Some(n)
        } else {
            None
        }
    }

    /// Reads 3 bytes as a big-endian number. `None` where there are fewer; the
    /// position then stays.
    pub fn get_u24_be(&mut self) -> (r: Option<u32>)
        ensures
            can_read(old(self)@.bytes, old(self)@.offset as int, 3) ==> r == Some(
                be3(old(self)@.bytes, old(self)@.offset as int) as u32,
            ) && final(self)@ == moved_to(old(self)@, old(self)@.offset + 3),
            !can_read(old(self)@.bytes, old(self)@.offset as int, 3) ==> r is None && final(self)@
                == old(self)@,
    {
        if self.has(3) {
            let offset = self.offset();
            let n = read_be_u24(self.bytes(), offset);
            self.offset_to(3);
            Some(n)
        } else {
            None
        }
    }

    /// Reads 4 bytes as a big-endian `u32`. `None` where there are fewer; the
    /// position then stays.
    pub fn get_u32_be(&mut self) -> (r: Option<u32>)
        ensures
            can_read(old(self)@.bytes, old(self)@.offset as int, 4) ==> r == Some(
                be4(old(self)@.bytes, old(self)@.offset as int) as u32,
            ) && final(self)@ == moved_to(old(self)@, old(self)@.offset + 4),
            !can_read(old(self)@.bytes, old(self)@.offset as int, 4) ==> r is None && final(self)@
                == old(self)@,
    {
        if self.has(4) {
            let offset = self.offset();
            let n = read_be_u32(self.bytes(), offset);
            self.offset_to(4);
            Some(n)
        } else {
            None
        }
    }

    /// Reads 4 bytes as a little-endian `u32`. `None` where there are fewer;
    /// the position then stays.
    pub fn get_u32_le(&mut self) -> (r: Option<u32>)
        ensures
            can_read(old(self)@.bytes, old(self)@.offset as int, 4) ==> r == Some(
                le4(old(self)@.bytes, old(self)@.offset as int) as u32,
            ) && final(self)@ == moved_to(old(self)@, old(self)@.offset + 4),
            !can_read(old(self)@.bytes, old(self)@.offset as int, 4) ==> r is None && final(self)@
                == old(self)@,
    {
        if self.has(4) {
            let offset = self.offset();
            let n = read_le_u32(self.bytes(), offset);
            self.offset_to(4);
            Some(n)
        } else {
            None
        }
    }

    /// Reads 8 bytes: the bits of an IEEE 754 double, big-endian. `None` where
    /// there are fewer; the position then stays.
    pub fn get_f64(&mut self) -> (r: Option<u64>)
        ensures
            can_read(old(self)@.bytes, old(self)@.offset as int, 8) ==> r == Some(
                be8(old(self)@.bytes, old(self)@.offset as int) as u64,
            ) && final(self)@ == moved_to(old(self)@, old(self)@.offset + 8),
            !can_read(old(self)@.bytes, old(self)@.offset as int, 8) ==> r is None && final(self)@
                == old(self)@,
    {
        if self.has(8) {
            let offset = self.offset();
            let n = read_be_u64(self.bytes(), offset);
            self.offset_to(8);
            Some(n)
        } else {
            None
        }
    }

    /// Reads `len` bytes. `None` where there are fewer; the position then stays.
    pub fn get_sliced_bytes(&mut self, len: usize) -> (r: Option<Vec<u8>>)
        ensures
            can_read(old(self)@.bytes, old(self)@.offset as int, len as int) ==> (r matches Some(v)
                && v@ == old(self)@.bytes.subrange(old(self)@.offset as int, old(self)@.offset + len)
                && final(self)@ == moved_to(old(self)@, old(self)@.offset + len)),
            !can_read(old(self)@.bytes, old(self)@.offset as int, len as int) ==> r is None
                && final(self)@ == old(self)@,
    {
        if self.has(len) {
            let offset = self.offset();
            let v = slice_to_vec(self.bytes(), offset, offset + len);
            self.offset_to(len);
            Some(v)
        } else {
            None
        }
    }

    /// Reads an AMF0 string body: its characters. `None` where the bytes are
    /// too few or are not UTF-8; the position then stays.
    fn decode_string_body(&mut self) -> (r: Option<String>)
        ensures
            match parse_string_body(old(self)@.bytes, old(self)@.offset as int) {
                Some((c, q)) => (r matches Some(t) && t@ == c) && final(self)@ == moved_to(
                    old(self)@,
                    q,
                ),
                None => r is None && final(self)@ == old(self)@,
            },
    {
        proof {
            self.lemma_bytes_fit();
        }
        let start = self.offset();
        let n = match self.get_u16_be() {
            Some(n) => n,
            None => return None,
        };
        let bytes = match self.get_sliced_bytes(n as usize) {
            Some(bytes) => bytes,
            None => {
                self.rewind_to(start);
                return None;
            },
        };
        match string_from_utf8(bytes) {
            Some(t) => Some(t),
            None => {
                self.rewind_to(start);
                None
            },
        }
    }

    /// Reads an AMF0 number (after its marker): 8 bytes, the bits of a double.
    pub fn decode_amf_number(&mut self) -> (r: Option<AmfData>)
        ensures
            decoded_as(
                r,
                parse_number_body(old(self)@.bytes, old(self)@.offset as int),
                old(self)@,
                final(self)@,
            ),
    {
        match self.get_f64() {
            Some(n) => Some(AmfData::Number(n)),
            None => None,
        }
    }

    /// Reads an AMF0 boolean (after its marker): 1 byte, any but 0 being `true`.
    pub fn decode_amf_boolean(&mut self) -> (r: Option<AmfData>)
        ensures
            decoded_as(
                r,
                parse_boolean_body(old(self)@.bytes, old(self)@.offset as int),
                old(self)@,
                final(self)@,
            ),
    {
        match self.get_u8() {
            Some(b) => Some(AmfData::Boolean(b != 0)),
            None => None,
        }
    }

    /// Reads an AMF0 string (after its marker): a 2 byte length, then that many
    /// bytes of UTF-8.
    pub fn decode_amf_string(&mut self) -> (r: Option<AmfData>)
        ensures
            decoded_as(
                r,
                parse_string_value(old(self)@.bytes, old(self)@.offset as int),
                old(self)@,
                final(self)@,
            ),
    {
        match self.decode_string_body() {
            Some(t) => Some(AmfData::String(t)),
            None => None,
        }
    }

    /// Reads an AMF0 null (after its marker): there is nothing more to read.
    pub fn decode_amf_null(&mut self) -> (r: Option<AmfData>)
        ensures
            r == Some(AmfData::Null),
            final(self)@ == old(self)@,
    {
        Some(AmfData::Null)
    }

    /// Reads name/value pairs up to the object end marker, or to where fewer
    /// than 3 bytes are left.
    fn decode_pairs(&mut self) -> (r: Option<Vec<(String, AmfData)>>)
        ensures
            match parse_pairs(old(self)@.bytes, old(self)@.offset as int, Seq::empty()) {
                Some((o, q)) => (r matches Some(v) && pairs_value(v@) == o) && final(self)@
                    == moved_to(old(self)@, q),
                None => r is None && final(self)@ == old(self)@,
            },
        decreases old(self)@.bytes.len() - old(self)@.offset, 0int,
    {
        proof {
            self.lemma_bytes_fit();
        }
        let ghost b = self@.bytes;
        let ghost p0 = self@.offset as int;
        let start = self.offset();
        let mut object: Vec<(String, AmfData)> = Vec::new();
        assert(pairs_value(object@) =~= Seq::<(Seq<char>, AmfValue)>::empty());
        loop
            invariant
                self@.bytes == b,
                b.len() <= usize::MAX,
                self@ == moved_to(old(self)@, self@.offset as int),
                old(self)@.offset == start,
                p0 == start,
                p0 <= self@.offset <= b.len() || self@.offset == p0,
                parse_pairs(b, p0, Seq::empty()) == parse_pairs(
                    b,
                    self@.offset as int,
                    pairs_value(object@),
                ),
            decreases b.len() - self@.offset,
        {
            let marker = match self.peek_bytes(3) {
                Some(m) => m,
                None => {
                    return Some(object);
                },
            };
            if marker[0] == 0 && marker[1] == 0 && marker[2] == 9 {
                let _ = self.get_sliced_bytes(3);
                return Some(object);
            }
            let key = match self.decode_string_body() {
                Some(k) => k,
                None => {
                    self.rewind_to(start);
                    return None;
                },
            };
            let ghost q = self@.offset as int;
            proof {
                lemma_parse_amf_advances(b, q);
            }
            let value = match self.decode_amf_data() {
                Some(v) => v,
                None => {
                    self.rewind_to(start);
                    return None;
                },
            };
            object_insert(&mut object, key, value);
        }
    }

    /// Reads an AMF0 object (after its marker): name/value pairs up to the
    /// object end marker, or to where fewer than 3 bytes are left. A name that
    /// comes again replaces the value it had.
    pub fn decode_amf_object(&mut self) -> (r: Option<AmfData>)
        ensures
            decoded_as(
                r,
                parse_object_body(old(self)@.bytes, old(self)@.offset as int),
                old(self)@,
                final(self)@,
            ),
        decreases old(self)@.bytes.len() - old(self)@.offset, 1int,
    {
        match self.decode_pairs() {
            Some(o) => {
                let r = AmfData::Object(o);
                proof {
                    r.lemma_value_pairs();
                }
                Some(r)
            },
            None => None,
        }
    }

    /// Reads an AMF0 mixed array (after its marker): a 4 byte count, which is
    /// not used, then name/value pairs as in an object.
    pub fn decode_amf_mixed_array(&mut self) -> (r: Option<AmfData>)
        ensures
            decoded_as(
                r,
                parse_mixed_array_body(old(self)@.bytes, old(self)@.offset as int),
                old(self)@,
                final(self)@,
            ),
        decreases old(self)@.bytes.len() - old(self)@.offset, 1int,
    {
        proof {
            self.lemma_bytes_fit();
        }
        let start = self.offset();
        if self.get_u32_be().is_none() {
            return None;
        }
        match self.decode_pairs() {
            Some(o) => {
                let r = AmfData::MixedArray(o);
                proof {
                    r.lemma_value_pairs();
                }
                Some(r)
            },
            None => {
                self.rewind_to(start);
                None
            },
        }
    }

    /// Reads an AMF0 value: its type marker, then its data as that type says.
    /// A marker of no type read here (such as the object end) gives `None`.
    pub fn decode_amf_data(&mut self) -> (r: Option<AmfData>)
        ensures
            decoded_as(r, parse_amf(old(self)@.bytes, old(self)@.offset as int), old(self)@, final(self)@),
        decreases old(self)@.bytes.len() - old(self)@.offset, 2int,
    {
        proof {
            self.lemma_bytes_fit();
        }
        let start = self.offset();
        let t = match self.get_u8() {
            Some(t) => t,
            None => return None,
        };
        let r = if t == 0 {
            self.decode_amf_number()
        } else if t == 1 {
            self.decode_amf_boolean()
        } else if t == 2 {
            self.decode_amf_string()
        } else if t == 3 {
            self.decode_amf_object()
        } else if t == 5 {
            self.decode_amf_null()
        } else if t == 8 {
            self.decode_amf_mixed_array()
        } else {
            None
        };
        if r.is_none() {
            self.rewind_to(start);
        }
        r
    }

    /// Reads the bytes from the position up to the counted length.
    fn decode_rest(&mut self) -> (r: Option<Vec<u8>>)
        ensures
            match parse_rest(old(self)@.bytes, old(self)@.offset as int, old(self)@.len as int) {
                Some((x, q)) => (r matches Some(v) && v@ == x) && final(self)@ == moved_to(
                    old(self)@,
                    q,
                ),
                None => r is None && final(self)@ == old(self)@,
            },
    {
        let offset = self.offset();
        let len = self.len();
        if offset <= len && len <= self.bytes().len() {
            self.get_sliced_bytes(len - offset)
        } else {
            None
        }
    }

    /// Reads an AMF0 value that must be a string: its characters.
    fn decode_string_value(&mut self) -> (r: Option<String>)
        ensures
            match parse_amf_string_value(old(self)@.bytes, old(self)@.offset as int) {
                Some((c, q)) => (r matches Some(t) && t@ == c) && final(self)@ == moved_to(
                    old(self)@,
                    q,
                ),
                None => r is None && final(self)@ == old(self)@,
            },
    {
        let start = self.offset();
        match self.decode_amf_data() {
            Some(AmfData::String(t)) => Some(t),
            Some(_) => {
                self.rewind_to(start);
                None
            },
            None => None,
        }
    }

    /// Reads an AMF0 value that must be a number: its bits.
    fn decode_number_value(&mut self) -> (r: Option<u64>)
        ensures
            match parse_amf_number_value(old(self)@.bytes, old(self)@.offset as int) {
                Some((n, q)) => r == Some(n) && final(self)@ == moved_to(old(self)@, q),
                None => r is None && final(self)@ == old(self)@,
            },
    {
        let start = self.offset();
        match self.decode_amf_data() {
            Some(AmfData::Number(n)) => Some(n),
            Some(_) => {
                self.rewind_to(start);
                None
            },
            None => None,
        }
    }

    /// Reads an AMF0 value that must be an object or a mixed array: its pairs.
    fn decode_object_value(&mut self) -> (r: Option<Vec<(String, AmfData)>>)
        ensures
            match parse_amf_object_value(old(self)@.bytes, old(self)@.offset as int) {
                Some((o, q)) => (r matches Some(v) && pairs_value(v@) == o) && final(self)@
                    == moved_to(old(self)@, q),
                None => r is None && final(self)@ == old(self)@,
            },
    {
        let start = self.offset();
        match self.decode_amf_data() {
            Some(d) => match d.object() {
                Some(o) => Some(o),
                None => {
                    self.rewind_to(start);
                    None
                },
            },
            None => None,
        }
    }

    /// Skips 1 byte, where there is one.
    fn skip_byte(&mut self)
        ensures
            final(self)@ == moved_to(old(self)@, skip_byte(old(self)@.bytes, old(self)@.offset as int)),
    {
        let _ = self.get_u8();
    }

    /// Reads the chunk basic header: the format of the message header and the
    /// chunk stream id.
    pub fn decode_basic_header(&mut self) -> (r: Option<BasicHeader>)
        ensures
            match parse_basic_header(old(self)@.bytes, old(self)@.offset as int) {
                Some((h, q)) => (r matches Some(x) && x@ == h) && final(self)@ == moved_to(
                    old(self)@,
                    q,
                ),
                None => r is None && final(self)@ == old(self)@,
            },
    {
        proof {
            self.lemma_bytes_fit();
        }
        let start = self.offset();
        let first = match self.get_u8() {
            Some(x) => x,
            None => return None,
        };
        let format = match MessageFormat::from_id(first / 64) {
            Some(f) => f,
            None => {
                self.rewind_to(start);
                return None;
            },
        };
        let t = first % 64;
        if t == 0 {
            match self.get_u8() {
                Some(n) => {
                    let id = (n as u16) + 64;
                    if id <= 255 {
                        Some(BasicHeader::new(format, ChunkId::U8(id as u8)))
                    } else {
                        Some(BasicHeader::new(format, ChunkId::U16(id)))
                    }
                },
                None => {
                    self.rewind_to(start);
                    None
                },
            }
        } else if t == 1 {
            match self.get_u16_le() {
                Some(n) => {
                    let id = (n as u32) + 64;
                    if id <= 255 {
                        Some(BasicHeader::new(format, ChunkId::U8(id as u8)))
                    } else if id <= 65535 {
                        Some(BasicHeader::new(format, ChunkId::U16(id as u16)))
                    } else {
                        self.rewind_to(start);
                        None
                    }
                },
                None => {
                    self.rewind_to(start);
                    None
                },
            }
        } else {
            Some(BasicHeader::new(format, ChunkId::U8(t)))
        }
    }

    /// Reads the chunk message header of the format `message_format`; `None`
    /// where its bytes go past the counted length.
    pub fn decode_message_header(&mut self, message_format: MessageFormat) -> (r: Option<MessageHeader>)
        ensures
            match parse_message_header(
                old(self)@.bytes,
                old(self)@.offset as int,
                old(self)@.len as int,
                message_format,
            ) {
                Some((h, q)) => r == Some(h) && final(self)@ == moved_to(old(self)@, q),
                None => r is None && final(self)@ == old(self)@,
            },
    {
        proof {
            self.lemma_bytes_fit();
        }
        let offset = self.offset();
        let len = self.len();
        let need: usize = match message_format {
            MessageFormat::New => 11,
            MessageFormat::SameSource => 7,
            MessageFormat::TimerChange => 3,
            MessageFormat::Continue => 0,
        };
        if message_format == MessageFormat::Continue {
            return Some(MessageHeader::Continue);
        }
        if !(offset <= len && need <= len - offset && self.has(need)) {
            return None;
        }
        let bytes = self.bytes();
        let timestamp = read_be_u24(bytes, offset) as u64;
        let r = match message_format {
            MessageFormat::New => MessageHeader::New {
                timestamp,
                message_len: read_be_u24(bytes, offset + 3),
                message_type: MessageType::from_id(bytes[offset + 6]),
                message_id: read_le_u32(bytes, offset + 7),
            },
            MessageFormat::SameSource => MessageHeader::SameSource {
                timestamp,
                message_len: read_be_u24(bytes, offset + 3),
                message_type: MessageType::from_id(bytes[offset + 6]),
            },
            _ => MessageHeader::TimerChange { timestamp },
        };
        self.offset_to(need);
        Some(r)
    }

    /// Reads the extended timestamp (4 bytes), which follows a message header
    /// whose timestamp is `0xFFFFFF`; `None` after any other header.
    pub fn decode_extended_timestamp(&mut self, message_header: MessageHeader) -> (r: Option<u64>)
        ensures
            match parse_extended_timestamp(
                old(self)@.bytes,
                old(self)@.offset as int,
                message_header,
            ) {
                Some((t, q)) => r == Some(t) && final(self)@ == moved_to(old(self)@, q),
                None => r is None && final(self)@ == old(self)@,
            },
    {
        match message_header.get_timestamp() {
            Some(t) => if t >= U24_MAX as u64 {
                match self.get_u32_be() {
                    Some(n) => Some(n as u64),
                    None => None,
                }
            } else {
                None
            },
            None => None,
        }
    }

    /// Reads the chunk size: 4 bytes, whose top bit must be 0.
    pub fn decode_chunk_size(&mut self) -> (r: Option<ChunkData>)
        ensures
            chunk_decoded_as(
                r,
                parse_chunk_size(old(self)@.bytes, old(self)@.offset as int),
                old(self)@,
                final(self)@,
            ),
    {
        let start = self.offset();
        match self.get_u32_be() {
            Some(n) => if n < 0x80000000 {
                Some(ChunkData::ChunkSize(n))
            } else {
                self.rewind_to(start);
                None
            },
            None => None,
        }
    }

    /// Reads the bytes read: 4 bytes.
    pub fn decode_bytes_read(&mut self) -> (r: Option<ChunkData>)
        ensures
            chunk_decoded_as(
                r,
                parse_u32_data(
                    old(self)@.bytes,
                    old(self)@.offset as int,
                    |n: u32| ChunkDataView::BytesRead(n),
                ),
                old(self)@,
                final(self)@,
            ),
    {
        match self.get_u32_be() {
            Some(n) => Some(ChunkData::BytesRead(n)),
            None => None,
        }
    }

    /// Reads a ping: its event type (2 bytes), then its event data.
    pub fn decode_ping(&mut self) -> (r: Option<ChunkData>)
        ensures
            chunk_decoded_as(
                r,
                parse_ping(old(self)@.bytes, old(self)@.offset as int),
                old(self)@,
                final(self)@,
            ),
    {
        proof {
            self.lemma_bytes_fit();
        }
        let start = self.offset();
        let t = match self.get_u16_be() {
            Some(t) => t,
            None => return None,
        };
        match PingType::from_id(t) {
            Some(PingType::StreamBegin) => match self.get_u32_be() {
                Some(id) => Some(ChunkData::Ping(PingData::StreamBegin(id))),
                None => {
                    self.rewind_to(start);
                    None
                },
            },
            None => {
                self.rewind_to(start);
                None
            },
        }
    }

    /// Reads the server bandwidth: 4 bytes.
    pub fn decode_server_bandwidth(&mut self) -> (r: Option<ChunkData>)
        ensures
            chunk_decoded_as(
                r,
                parse_u32_data(
                    old(self)@.bytes,
                    old(self)@.offset as int,
                    |n: u32| ChunkDataView::ServerBandwidth(n),
                ),
                old(self)@,
                final(self)@,
            ),
    {
        match self.get_u32_be() {
            Some(n) => Some(ChunkData::ServerBandwidth(n)),
            None => None,
        }
    }

    /// Reads the client bandwidth: 4 bytes, then its limit type (1 byte).
    pub fn decode_client_bandwidth(&mut self) -> (r: Option<ChunkData>)
        ensures
            chunk_decoded_as(
                r,
                parse_client_bandwidth(old(self)@.bytes, old(self)@.offset as int),
                old(self)@,
                final(self)@,
            ),
    {
        proof {
            self.lemma_bytes_fit();
        }
        let start = self.offset();
        let n = match self.get_u32_be() {
            Some(n) => n,
            None => return None,
        };
        match self.get_u8() {
            Some(l) => match LimitType::from_id(l) {
                Some(limit) => Some(ChunkData::ClientBandwidth(n, limit)),
                None => {
                    self.rewind_to(start);
                    None
                },
            },
            None => {
                self.rewind_to(start);
                None
            },
        }
    }

    /// Reads audio data: the bytes up to the counted length.
    pub fn decode_audio(&mut self) -> (r: Option<ChunkData>)
        ensures
            chunk_decoded_as(
                r,
                parse_chunk_data(
                    old(self)@.bytes,
                    old(self)@.offset as int,
                    old(self)@.len as int,
                    MessageType::Audio,
                ),
                old(self)@,
                final(self)@,
            ),
    {
        match self.decode_rest() {
            Some(b) => Some(ChunkData::Audio(b)),
            None => None,
        }
    }

    /// Reads video data: the bytes up to the counted length.
    pub fn decode_video(&mut self) -> (r: Option<ChunkData>)
        ensures
            chunk_decoded_as(
                r,
                parse_chunk_data(
                    old(self)@.bytes,
                    old(self)@.offset as int,
                    old(self)@.len as int,
                    MessageType::Video,
                ),
                old(self)@,
                final(self)@,
            ),
    {
        match self.decode_rest() {
            Some(b) => Some(ChunkData::Video(b)),
            None => None,
        }
    }

    /// Reads the bytes of a message of an unknown type: those up to the counted length.
    pub fn decode_unknown(&mut self) -> (r: Option<ChunkData>)
        ensures
            chunk_decoded_as(
                r,
                parse_chunk_data(
                    old(self)@.bytes,
                    old(self)@.offset as int,
                    old(self)@.len as int,
                    MessageType::Unknown,
                ),
                old(self)@,
                final(self)@,
            ),
    {
        match self.decode_rest() {
            Some(b) => Some(ChunkData::Unknown(b)),
            None => None,
        }
    }

    /// Reads a notify command: the command's name; for "@setDataFrame", the
    /// data frame's name and the metadata (an object or a mixed array); for
    /// any other name, the bytes up to the counted length.
    pub fn decode_notify(&mut self) -> (r: Option<ChunkData>)
        ensures
            chunk_decoded_as(
                r,
                parse_notify(old(self)@.bytes, old(self)@.offset as int, old(self)@.len as int),
                old(self)@,
                final(self)@,
            ),
    {
        let start = self.offset();
        let command = match self.decode_string_value() {
            Some(c) => c,
            None => return None,
        };
        if str_equals(&command, "@setDataFrame") {
            let data_frame = match self.decode_string_value() {
                Some(d) => d,
                None => {
                    self.rewind_to(start);
                    return None;
                },
            };
            let pairs = match self.decode_object_value() {
                Some(o) => o,
                None => {
                    self.rewind_to(start);
                    return None;
                },
            };
            let meta_data = MetaData::from_amf_object(pairs);
            Some(ChunkData::Notify(NotifyCommand::SetDataFrame { data_frame, meta_data }))
        } else {
            match self.decode_rest() {
                Some(b) => Some(ChunkData::Notify(NotifyCommand::Unknown(b))),
                None => {
                    self.rewind_to(start);
                    None
                },
            }
        }
    }

    /// Reads the name and the transaction id of a response to a NetConnection command.
    fn decode_response_head(&mut self) -> (r: Option<(NetConnectionResult, u64)>)
        ensures
            match parse_response_head(old(self)@.bytes, old(self)@.offset as int) {
                Some((res, tid, q)) => r == Some((res, tid)) && final(self)@ == moved_to(old(self)@, q),
                None => r is None && final(self)@ == old(self)@,
            },
    {
        let start = self.offset();
        let command = match self.decode_string_value() {
            Some(c) => c,
            None => return None,
        };
        let n = match self.decode_number_value() {
            Some(n) => n,
            None => {
                self.rewind_to(start);
                return None;
            },
        };
        match NetConnectionResult::parse(&command) {
            Some(res) => Some((res, number_to_u64(n))),
            None => {
                self.rewind_to(start);
                None
            },
        }
    }

    /// Reads an AMF0 value that may be an object or a mixed array: its pairs,
    /// or none for any other value or where no value is read.
    fn decode_optional_pairs(&mut self) -> (r: Vec<(String, AmfData)>)
        ensures
            pairs_value(r@) == parse_optional_pairs(old(self)@.bytes, old(self)@.offset as int).0,
            final(self)@ == moved_to(
                old(self)@,
                parse_optional_pairs(old(self)@.bytes, old(self)@.offset as int).1,
            ),
    {
        match self.decode_amf_data() {
            Some(d) => match d.object() {
                Some(o) => o,
                None => {
                    let v: Vec<(String, AmfData)> = Vec::new();
                    assert(pairs_value(v@) =~= Seq::empty());
                    v
                },
            },
            None => {
                let v: Vec<(String, AmfData)> = Vec::new();
                assert(pairs_value(v@) =~= Seq::empty());
                v
            },
        }
    }

    /// Reads the response to connect: the result, the transaction id, the
    /// properties and the information object (each read as empty where there
    /// is no object).
    pub fn decode_invoke_connect_result(&mut self) -> (r: Option<ChunkData>)
        ensures
            chunk_decoded_as(
                r,
                parse_invoke_connect_result(old(self)@.bytes, old(self)@.offset as int),
                old(self)@,
                final(self)@,
            ),
    {
        let (result, transaction_id) = match self.decode_response_head() {
            Some(h) => h,
            None => return None,
        };
        let properties = self.decode_optional_pairs();
        let information = InfoObject::from_amf_object(self.decode_optional_pairs());
        Some(
            ChunkData::Invoke(
                InvokeCommand::NetConnection(
                    NetConnectionCommand::ConnectResult {
                        result,
                        transaction_id,
                        properties,
                        information,
                    },
                ),
            ),
        )
    }

    /// Reads the response to releaseStream: the result, the transaction id and a null.
    pub fn decode_invoke_release_stream_result(&mut self) -> (r: Option<ChunkData>)
        ensures
            chunk_decoded_as(
                r,
                parse_invoke_release_stream_result(old(self)@.bytes, old(self)@.offset as int),
                old(self)@,
                final(self)@,
            ),
    {
        let (result, transaction_id) = match self.decode_response_head() {
            Some(h) => h,
            None => return None,
        };
        self.skip_byte();
        Some(
            ChunkData::Invoke(
                InvokeCommand::NetConnection(
                    NetConnectionCommand::ReleaseStreamResult { result, transaction_id },
                ),
            ),
        )
    }

    /// Reads the response to createStream: the result, the transaction id, a
    /// null and the message stream id.
    pub fn decode_invoke_create_stream_result(&mut self) -> (r: Option<ChunkData>)
        ensures
            chunk_decoded_as(
                r,
                parse_invoke_create_stream_result(old(self)@.bytes, old(self)@.offset as int),
                old(self)@,
                final(self)@,
            ),
    {
        let start = self.offset();
        let (result, transaction_id) = match self.decode_response_head() {
            Some(h) => h,
            None => return None,
        };
        self.skip_byte();
        match self.decode_number_value() {
            Some(m) => Some(
                ChunkData::Invoke(
                    InvokeCommand::NetConnection(
                        NetConnectionCommand::CreateStreamResult {
                            result,
                            message_id: number_to_u64(m) as u32,
                            transaction_id,
                        },
                    ),
                ),
            ),
            None => {
                self.rewind_to(start);
                None
            },
        }
    }

    /// Reads the response to FCPublish: the name "onFCPublish".
    pub fn decode_invoke_on_fc_publish(&mut self) -> (r: Option<ChunkData>)
        ensures
            chunk_decoded_as(
                r,
                parse_invoke_on_fc_publish(old(self)@.bytes, old(self)@.offset as int),
                old(self)@,
                final(self)@,
            ),
    {
        let start = self.offset();
        match self.decode_string_value() {
            Some(c) => if str_equals(&c, "onFCPublish") {
                Some(ChunkData::Invoke(InvokeCommand::FcPublish(FcPublishCommand::OnFcPublish)))
            } else {
                self.rewind_to(start);
                None
            },
            None => None,
        }
    }

    /// Reads the response to publish: the name "onStatus", the transaction id,
    /// a null and the information object.
    pub fn decode_invoke_on_status(&mut self) -> (r: Option<ChunkData>)
        ensures
            chunk_decoded_as(
                r,
                parse_invoke_on_status(old(self)@.bytes, old(self)@.offset as int),
                old(self)@,
                final(self)@,
            ),
    {
        let start = self.offset();
        let command = match self.decode_string_value() {
            Some(c) => c,
            None => return None,
        };
        let n = match self.decode_number_value() {
            Some(n) => n,
            None => {
                self.rewind_to(start);
                return None;
            },
        };
        if !str_equals(&command, "onStatus") {
            self.rewind_to(start);
            return None;
        }
        self.skip_byte();
        match self.decode_object_value() {
            Some(o) => Some(
                ChunkData::Invoke(
                    InvokeCommand::NetStream(
                        NetStreamCommand::OnStatus {
                            transaction_id: number_to_u64(n),
                            info_object: InfoObject::from_amf_object(o),
                        },
                    ),
                ),
            ),
            None => {
                self.rewind_to(start);
                None
            },
        }
    }

    /// Reads an invoke command: the command's name and transaction id, then
    /// what that command holds (see `parse_invoke`); for an unknown name, the
    /// bytes up to the counted length.
    pub fn decode_invoke(&mut self) -> (r: Option<ChunkData>)
        ensures
            chunk_decoded_as(
                r,
                parse_invoke(old(self)@.bytes, old(self)@.offset as int, old(self)@.len as int),
                old(self)@,
                final(self)@,
            ),
    {
        let start = self.offset();
        let command = match self.decode_string_value() {
            Some(c) => c,
            None => return None,
        };
        let n = match self.decode_number_value() {
            Some(n) => n,
            None => {
                self.rewind_to(start);
                return None;
            },
        };
        let transaction_id = number_to_u64(n);
        if str_equals(&command, "connect") {
            match self.decode_object_value() {
                Some(o) => Some(
                    ChunkData::Invoke(
                        InvokeCommand::NetConnection(
                            NetConnectionCommand::Connect {
                                argument: None,
                                transaction_id,
                                command_object: CommandObject::from_amf_object(o),
                            },
                        ),
                    ),
                ),
                None => {
                    self.rewind_to(start);
                    None
                },
            }
        } else if str_equals(&command, "releaseStream") {
            self.skip_byte();
            match self.decode_string_value() {
                Some(play_path) => Some(
                    ChunkData::Invoke(
                        InvokeCommand::NetConnection(
                            NetConnectionCommand::ReleaseStream { transaction_id, play_path },
                        ),
                    ),
                ),
                None => {
                    self.rewind_to(start);
                    None
                },
            }
        } else if str_equals(&command, "createStream") {
            self.skip_byte();
            Some(
                ChunkData::Invoke(
                    InvokeCommand::NetConnection(NetConnectionCommand::CreateStream { transaction_id }),
                ),
            )
        } else if str_equals(&command, "FCPublish") {
            self.skip_byte();
            match self.decode_string_value() {
                Some(play_path) => Some(
                    ChunkData::Invoke(
                        InvokeCommand::FcPublish(FcPublishCommand::FcPublish { transaction_id, play_path }),
                    ),
                ),
                None => {
                    self.rewind_to(start);
                    None
                },
            }
        } else if str_equals(&command, "publish") {
            self.skip_byte();
            let play_path = match self.decode_string_value() {
                Some(s) => s,
                None => {
                    self.rewind_to(start);
                    return None;
                },
            };
            let play_type = match self.decode_string_value() {
                Some(t) => match PlayType::parse(&t) {
                    Some(pt) => pt,
                    None => {
                        self.rewind_to(start);
                        return None;
                    },
                },
                None => {
                    self.rewind_to(start);
                    return None;
                },
            };
            Some(
                ChunkData::Invoke(
                    InvokeCommand::NetStream(
                        NetStreamCommand::Publish { transaction_id, play_path, play_type },
                    ),
                ),
            )
        } else {
            match self.decode_rest() {
                Some(b) => Some(ChunkData::Invoke(InvokeCommand::Unknown(b))),
                None => {
                    self.rewind_to(start);
                    None
                },
            }
        }
    }

    /// Reads the chunk data of the message type `message_type`.
    pub fn decode_chunk_data(&mut self, message_type: MessageType) -> (r: Option<ChunkData>)
        ensures
            chunk_decoded_as(
                r,
                parse_chunk_data(
                    old(self)@.bytes,
                    old(self)@.offset as int,
                    old(self)@.len as int,
                    message_type,
                ),
                old(self)@,
                final(self)@,
            ),
    {
        match message_type {
            MessageType::ChunkSize => self.decode_chunk_size(),
            MessageType::BytesRead => self.decode_bytes_read(),
            MessageType::Ping => self.decode_ping(),
            MessageType::ServerBandwidth => self.decode_server_bandwidth(),
            MessageType::ClientBandwidth => self.decode_client_bandwidth(),
            MessageType::Audio => self.decode_audio(),
            MessageType::Video => self.decode_video(),
            MessageType::Notify => self.decode_notify(),
            MessageType::Invoke => self.decode_invoke(),
            _ => self.decode_unknown(),
        }
    }

    /// Returns the byte at the position, without moving it; `None` where there is none.
    pub fn peek_byte(&self) -> (r: Option<u8>)
        ensures
            can_read(self@.bytes, self@.offset as int, 1) ==> r == Some(
                self@.bytes[self@.offset as int],
            ),
            !can_read(self@.bytes, self@.offset as int, 1) ==> r is None,
    {
        if self.has(1) {
            Some(self.bytes()[self.offset()])
        } else {
            None
        }
    }

    /// Returns the `len` bytes at the position, without moving it; `None` where
    /// there are fewer.
    pub fn peek_bytes(&self, len: usize) -> (r: Option<Vec<u8>>)
        ensures
            can_read(self@.bytes, self@.offset as int, len as int) ==> (r matches Some(v) && v@
                == self@.bytes.subrange(self@.offset as int, self@.offset + len)),
            !can_read(self@.bytes, self@.offset as int, len as int) ==> r is None,
    {
        if self.has(len) {
            let offset = self.offset();
            Some(slice_to_vec(self.bytes(), offset, offset + len))
        } else {
            None
        }
    }
}

} // verus!
