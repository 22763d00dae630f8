//! # The handler of a connection
//!
//! A connection exchanges several chunks before audio and video data stream in:
//!
//! 1. The handshake (see the handshake module).
//! 2. The connect invocation: the server answers with the server bandwidth,
//!    the client bandwidth, the ping event (Stream Begin), the chunk size, and
//!    the result of connect, which it sends twice.
//! 3. The releaseStream invocation, answered with its result.
//! 4. The FCPublish invocation, answered with onFCPublish.
//! 5. The createStream invocation, answered with its result, which holds the
//!    message stream id.
//! 6. The publish invocation, answered with the ping event (Stream Begin) and
//!    onStatus.
//! 7. The audio and video data, which go to the FLV store, the metadata first.
//!
//! The handler holds what the connection has agreed so far and decides, for
//! each received chunk, what changes and which bytes go back to the client.
//! Reading from and writing to the connection is the caller's part: the
//! handler takes the bytes that were read and hands back the bytes to write.
use vstd::prelude::*;
use vstd::utf8::encode_utf8;
use crate::amf_number::{u64_to_number, u64_to_number_spec, lemma_number_roundtrip};
use crate::buffer::ByteBuffer;
use crate::byteorder::{push_all, slice_to_vec};
use crate::commands::{
    Chunk, ChunkData, ChunkDataView, FcPublishCommand, FcPublishCommandView, InvokeCommand,
    InvokeCommandView, NetConnectionCommand, NetConnectionCommandView, NetStreamCommand,
    NetStreamCommandView, NotifyCommand, NotifyCommandView, PingData, opt_chunk_data,
};
use crate::decoders::{
    parse_basic_header, parse_message_header, parse_extended_timestamp, parse_chunk_data,
};
use crate::encoders::{
    basic_header_bytes, message_header_bytes, extended_timestamp_bytes, lemma_put3, amf_bytes,
    amf_string, pairs_bytes, chunk_data_bytes,
};
use crate::errors::{ChunkFormatError, RtmpError, RtmpStateError};
use crate::flv::{Flv, meta_data_tag_bytes, audio_appended, video_appended, meta_data_appended};
use crate::handshake::{RtmpHandshake, RtmpHandshakeView, request1_spec, request1_result, c2_accepted};
use crate::info::InfoObjectView;
use crate::messages::{
    AmfData, AmfValue, BasicHeader, ChunkId, CommandObject, CommandObjectView, ConnectStatus,
    InfoLevel, InfoObject, LimitType, MessageFormat, MessageHeader, MessageType,
    NetConnectionResult, NetConnectionStatus, NetStreamStatus, ObjectEncoding, PingType, PlayType,
    PublishStatus, Status, U24_MAX, boolean_pair, number_pair, opt_chars, pairs_value, string_pair,
};
use crate::metadata::{MetaData, MetaDataView};
use crate::roundtrip::{
    chunk_id_wf, lemma_basic_header_roundtrip, lemma_message_header_roundtrip,
    lemma_extended_timestamp_roundtrip,
};
use crate::text::str_equals;

verus! {

/// # The state of a connection
///
/// |Number|RtmpState                |
/// | ---: | :---------------------- |
/// |0     |`TcpConnect`             |
/// |1     |`ReceivedHandshake`      |
/// |2     |`HandshakeDone`          |
/// |3     |`ReceivedConnect`        |
/// |4     |`SentConnectResult`      |
/// |5     |`ReceivedReleaseStream`  |
/// |6     |`SentReleaseStreamResult`|
/// |7     |`ReceivedFcPublish`      |
/// |8     |`SentOnFcPublish`        |
/// |9     |`ReceivedCreateStream`   |
/// |10    |`SentCreateStreamResult` |
/// |11    |`ReceivedPublish`        |
/// |12    |`Connected`              |
/// |13    |`Disconnecting`          |
/// |14    |`Disconnected`           |
/// |255   |`Error`                  |
#[derive(Clone, Copy, Debug, PartialEq, Eq, Structural)]
pub enum RtmpState {
    TcpConnect,
    ReceivedHandshake,
    HandshakeDone,
    ReceivedConnect,
    SentConnectResult,
    ReceivedReleaseStream,
    SentReleaseStreamResult,
    ReceivedFcPublish,
    SentOnFcPublish,
    ReceivedCreateStream,
    SentCreateStreamResult,
    ReceivedPublish,
    Connected,
    Disconnecting,
    Disconnected,
    Error,
}

impl RtmpState {
    /// The number of this state (see the table above).
    pub open spec fn id_spec(self) -> u8 {
        match self {
            RtmpState::TcpConnect => 0,
            RtmpState::ReceivedHandshake => 1,
            RtmpState::HandshakeDone => 2,
            RtmpState::ReceivedConnect => 3,
            RtmpState::SentConnectResult => 4,
            RtmpState::ReceivedReleaseStream => 5,
            RtmpState::SentReleaseStreamResult => 6,
            RtmpState::ReceivedFcPublish => 7,
            RtmpState::SentOnFcPublish => 8,
            RtmpState::ReceivedCreateStream => 9,
            RtmpState::SentCreateStreamResult => 10,
            RtmpState::ReceivedPublish => 11,
            RtmpState::Connected => 12,
            RtmpState::Disconnecting => 13,
            RtmpState::Disconnected => 14,
            RtmpState::Error => 255,
        }
    }

    /// The state of the number `id`: 0 to 14 and 255 name one, no other does.
    pub open spec fn from_id_spec(id: u8) -> Option<RtmpState> {
        if id == 0 {
            Some(RtmpState::TcpConnect)
        } else if id == 1 {
            Some(RtmpState::ReceivedHandshake)
        } else if id == 2 {
            Some(RtmpState::HandshakeDone)
        } else if id == 3 {
            Some(RtmpState::ReceivedConnect)
        } else if id == 4 {
            Some(RtmpState::SentConnectResult)
        } else if id == 5 {
            Some(RtmpState::ReceivedReleaseStream)
        } else if id == 6 {
            Some(RtmpState::SentReleaseStreamResult)
        } else if id == 7 {
            Some(RtmpState::ReceivedFcPublish)
        } else if id == 8 {
            Some(RtmpState::SentOnFcPublish)
        } else if id == 9 {
            Some(RtmpState::ReceivedCreateStream)
        } else if id == 10 {
            Some(RtmpState::SentCreateStreamResult)
        } else if id == 11 {
            Some(RtmpState::ReceivedPublish)
        } else if id == 12 {
            Some(RtmpState::Connected)
        } else if id == 13 {
            Some(RtmpState::Disconnecting)
        } else if id == 14 {
            Some(RtmpState::Disconnected)
        } else if id == 255 {
            Some(RtmpState::Error)
        } else {
            None
        }
    }

    /// Returns the number of this state.
    pub fn id(&self) -> (r: u8)
        ensures
            r == self.id_spec(),
            RtmpState::from_id_spec(r) == Some(*self),
    {
        match self {
            RtmpState::TcpConnect => 0,
            RtmpState::ReceivedHandshake => 1,
            RtmpState::HandshakeDone => 2,
            RtmpState::ReceivedConnect => 3,
            RtmpState::SentConnectResult => 4,
            RtmpState::ReceivedReleaseStream => 5,
            RtmpState::SentReleaseStreamResult => 6,
            RtmpState::ReceivedFcPublish => 7,
            RtmpState::SentOnFcPublish => 8,
            RtmpState::ReceivedCreateStream => 9,
            RtmpState::SentCreateStreamResult => 10,
            RtmpState::ReceivedPublish => 11,
            RtmpState::Connected => 12,
            RtmpState::Disconnecting => 13,
            RtmpState::Disconnected => 14,
            RtmpState::Error => 255,
        }
    }

    /// Returns the state of the number `id`; `None` for a number that names none.
    pub fn from_id(id: u8) -> (r: Option<RtmpState>)
        ensures
            r == RtmpState::from_id_spec(id),
            r matches Some(s) ==> s.id_spec() == id,
    {
        if id == 0 {
            Some(RtmpState::TcpConnect)
        } else if id == 1 {
            Some(RtmpState::ReceivedHandshake)
        } else if id == 2 {
            Some(RtmpState::HandshakeDone)
        } else if id == 3 {
            Some(RtmpState::ReceivedConnect)
        } else if id == 4 {
            Some(RtmpState::SentConnectResult)
        } else if id == 5 {
            Some(RtmpState::ReceivedReleaseStream)
        } else if id == 6 {
            Some(RtmpState::SentReleaseStreamResult)
        } else if id == 7 {
            Some(RtmpState::ReceivedFcPublish)
        } else if id == 8 {
            Some(RtmpState::SentOnFcPublish)
        } else if id == 9 {
            Some(RtmpState::ReceivedCreateStream)
        } else if id == 10 {
            Some(RtmpState::SentCreateStreamResult)
        } else if id == 11 {
            Some(RtmpState::ReceivedPublish)
        } else if id == 12 {
            Some(RtmpState::Connected)
        } else if id == 13 {
            Some(RtmpState::Disconnecting)
        } else if id == 14 {
            Some(RtmpState::Disconnected)
        } else if id == 255 {
            Some(RtmpState::Error)
        } else {
            None
        }
    }
}

impl Default for RtmpState {
    /// A new connection starts at `TcpConnect`.
    fn default() -> (r: Self)
        ensures
            r == RtmpState::TcpConnect,
    {
        RtmpState::TcpConnect
    }
}

// ---------------------------------------------------------------------------
// The last chunk of each chunk stream
// ---------------------------------------------------------------------------

/// # What the contracts keep of the last chunk of a chunk stream
///
/// The message type, message stream id, message length and timestamp (in
/// seconds) that the chunk's message header held or inherited, and the chunk
/// data that came with it.
pub struct LastChunkView {
    pub message_type: Option<MessageType>,
    pub message_id: Option<u32>,
    pub message_len: Option<u32>,
    pub timestamp: Option<u64>,
    pub chunk_data: Option<ChunkDataView>,
}

/// # The last sent or received chunk of a chunk stream
///
/// A chunk whose message header is of format 0 holds all of these fields;
/// the other formats leave some out, and they are then those of the last
/// chunk of the same chunk stream. The chunk data is kept with them.
#[derive(Debug)]
pub struct LastChunk {
    message_type: Option<MessageType>,
    message_id: Option<u32>,
    message_len: Option<u32>,
    timestamp: Option<u64>,
    chunk_data: Option<ChunkData>,
}

impl View for LastChunk {
    type V = LastChunkView;

    closed spec fn view(&self) -> LastChunkView {
        LastChunkView {
            message_type: self.message_type,
            message_id: self.message_id,
            message_len: self.message_len,
            timestamp: self.timestamp,
            chunk_data: opt_chunk_data(self.chunk_data),
        }
    }
}

impl LastChunk {
    /// The chunk data that is kept.
    pub closed spec fn chunk_data_spec(&self) -> Option<ChunkData> {
        self.chunk_data
    }

    /// Constructs a new `LastChunk` of its fields (the timestamp in seconds).
    pub fn new(
        message_type: Option<MessageType>,
        message_id: Option<u32>,
        message_len: Option<u32>,
        timestamp: Option<u64>,
        chunk_data: Option<ChunkData>,
    ) -> (r: Self)
        ensures
            r@ == (LastChunkView {
                message_type,
                message_id,
                message_len,
                timestamp,
                chunk_data: opt_chunk_data(chunk_data),
            }),
            r.chunk_data_spec() == chunk_data,
    {
        LastChunk { message_type, message_id, message_len, timestamp, chunk_data }
    }

    /// Returns the message type.
    pub fn get_message_type(&self) -> (r: Option<MessageType>)
        ensures
            r == self@.message_type,
    {
        self.message_type
    }

    /// Sets the message type.
    pub fn set_message_type(&mut self, message_type: Option<MessageType>)
        ensures
            final(self)@ == (LastChunkView { message_type, ..old(self)@ }),
            final(self).chunk_data_spec() == old(self).chunk_data_spec(),
    {
        self.message_type = message_type;
    }

    /// Returns the message stream id.
    pub fn get_message_id(&self) -> (r: Option<u32>)
        ensures
            r == self@.message_id,
    {
        self.message_id
    }

    /// Sets the message stream id.
    pub fn set_message_id(&mut self, message_id: Option<u32>)
        ensures
            final(self)@ == (LastChunkView { message_id, ..old(self)@ }),
            final(self).chunk_data_spec() == old(self).chunk_data_spec(),
    {
        self.message_id = message_id;
    }

    /// Returns the message length.
    pub fn get_message_len(&self) -> (r: Option<u32>)
        ensures
            r == self@.message_len,
    {
        self.message_len
    }

    /// Sets the message length.
    pub fn set_message_len(&mut self, message_len: Option<u32>)
        ensures
            final(self)@ == (LastChunkView { message_len, ..old(self)@ }),
            final(self).chunk_data_spec() == old(self).chunk_data_spec(),
    {
        self.message_len = message_len;
    }

    /// Returns the timestamp, in seconds.
    pub fn get_timestamp(&self) -> (r: Option<u64>)
        ensures
            r == self@.timestamp,
    {
        self.timestamp
    }

    /// Sets the timestamp, in seconds.
    pub fn set_timestamp(&mut self, timestamp: Option<u64>)
        ensures
            final(self)@ == (LastChunkView { timestamp, ..old(self)@ }),
            final(self).chunk_data_spec() == old(self).chunk_data_spec(),
    {
        self.timestamp = timestamp;
    }

    /// Returns the chunk data.
    pub fn get_chunk_data(&self) -> (r: &Option<ChunkData>)
        ensures
            *r == self.chunk_data_spec(),
    {
        &self.chunk_data
    }

    /// Sets the chunk data.
    pub fn set_chunk_data(&mut self, chunk_data: Option<ChunkData>)
        ensures
            final(self)@ == (LastChunkView { chunk_data: opt_chunk_data(chunk_data), ..old(self)@ }),
            final(self).chunk_data_spec() == chunk_data,
    {
        self.chunk_data = chunk_data;
    }
}

/// The fields of the entries of a table of last chunks, in order.
pub open spec fn table_view(t: Seq<(ChunkId, LastChunk)>) -> Seq<(ChunkId, LastChunkView)> {
    t.map_values(|e: (ChunkId, LastChunk)| (e.0, e.1@))
}

/// The last chunk of each chunk stream that a table holds: where a chunk
/// stream id occurs more than once, its last entry counts.
pub open spec fn table_map(s: Seq<(ChunkId, LastChunkView)>) -> Map<ChunkId, LastChunkView>
    decreases s.len(),
{
    if s.len() == 0 {
        Map::empty()
    } else {
        table_map(s.drop_last()).insert(s.last().0, s.last().1)
    }
}

/// An entry of `k` at `i` that no later entry of `k` follows is what the table holds for `k`.
pub proof fn lemma_table_at(s: Seq<(ChunkId, LastChunkView)>, i: int, k: ChunkId)
    requires
        0 <= i < s.len(),
        s[i].0 == k,
        forall|j: int| i < j < s.len() ==> s[j].0 != k,
    ensures
        table_map(s).contains_key(k),
        table_map(s)[k] == s[i].1,
    decreases s.len(),
{
    if i < s.len() - 1 {
        lemma_table_at(s.drop_last(), i, k);
    }
}

/// A table with no entry of `k` holds nothing for `k`.
pub proof fn lemma_table_absent(s: Seq<(ChunkId, LastChunkView)>, k: ChunkId)
    requires
        forall|j: int| 0 <= j < s.len() ==> s[j].0 != k,
    ensures
        !table_map(s).contains_key(k),
    decreases s.len(),
{
    if s.len() > 0 {
        lemma_table_absent(s.drop_last(), k);
    }
}

/// Overwriting the last entry of `k` is what inserting `k` into the table does.
pub proof fn lemma_table_update(s: Seq<(ChunkId, LastChunkView)>, i: int, k: ChunkId, v: LastChunkView)
    requires
        0 <= i < s.len(),
        s[i].0 == k,
        forall|j: int| i < j < s.len() ==> s[j].0 != k,
    ensures
        table_map(s.update(i, (k, v))) == table_map(s).insert(k, v),
    decreases s.len(),
{
    let u = s.update(i, (k, v));
    if i == s.len() - 1 {
        assert(u.drop_last() =~= s.drop_last());
        assert(table_map(u) =~= table_map(s).insert(k, v));
    } else {
        lemma_table_update(s.drop_last(), i, k, v);
        assert(u.drop_last() =~= s.drop_last().update(i, (k, v)));
        assert(table_map(u) =~= table_map(s).insert(k, v));
    }
}

/// Returns where the last entry of `k` stands in the table, if there is one.
fn find_last(t: &Vec<(ChunkId, LastChunk)>, k: ChunkId) -> (r: Option<usize>)
    ensures
        match r {
            Some(i) => i < t@.len() && t@[i as int].0 == k && forall|j: int|
                i < j < t@.len() ==> t@[j].0 != k,
            None => forall|j: int| 0 <= j < t@.len() ==> t@[j].0 != k,
        },
{
    let mut i: usize = t.len();
    while i > 0
        invariant
            i <= t@.len(),
            forall|j: int| i <= j < t@.len() ==> t@[j].0 != k,
        decreases i,
    {
        if t[i - 1].0 == k {
            return Some(i - 1);
        }
        i = i - 1;
    }
    None
}

/// Returns the last chunk that the table holds for `k`, if it holds one.
fn table_get(t: &Vec<(ChunkId, LastChunk)>, k: ChunkId) -> (r: Option<&LastChunk>)
    ensures
        match r {
            Some(c) => table_map(table_view(t@)).contains_key(k) && c@ == table_map(
                table_view(t@),
            )[k],
            None => !table_map(table_view(t@)).contains_key(k),
        },
{
    let ghost s = table_view(t@);
    match find_last(t, k) {
        Some(i) => {
            proof {
                lemma_table_at(s, i as int, k);
            }
            Some(&t[i].1)
        },
        None => {
            proof {
                lemma_table_absent(s, k);
            }
            None
        },
    }
}

/// Makes `c` the last chunk that the table holds for `k`.
fn table_insert(t: &mut Vec<(ChunkId, LastChunk)>, k: ChunkId, c: LastChunk)
    ensures
        table_map(table_view(final(t)@)) == table_map(table_view(old(t)@)).insert(k, c@),
{
    let ghost s = table_view(t@);
    let ghost v = c@;
    match find_last(t, k) {
        Some(i) => {
            t.set(i, (k, c));
            proof {
                lemma_table_update(s, i as int, k, v);
                assert(table_view(t@) =~= s.update(i as int, (k, v)));
            }
        },
        None => {
            t.push((k, c));
            proof {
                assert(table_view(t@).drop_last() =~= s);
            }
        },
    }
}

// ---------------------------------------------------------------------------
// Sending a message
// ---------------------------------------------------------------------------

/// The format of the message header that a message is sent with, given the
/// last chunk sent on its chunk stream: 0 for a new message stream id (or
/// where nothing was sent yet), 1 where the message type or length changed,
/// 2 where only the timestamp changed, 3 where nothing did.
pub open spec fn sent_format(
    last: Option<LastChunkView>,
    message_type: MessageType,
    message_id: u32,
    message_len: u32,
    timestamp: u64,
) -> MessageFormat {
    match last {
        None => MessageFormat::New,
        Some(l) => if l.message_id == Some(message_id) {
            if l.message_type == Some(message_type) && l.message_len == Some(message_len) {
                if l.timestamp == Some(timestamp) {
                    MessageFormat::Continue
                } else {
                    MessageFormat::TimerChange
                }
            } else {
                MessageFormat::SameSource
            }
        } else {
            MessageFormat::New
        },
    }
}

/// The timestamp that the message header holds: `0xFFFFFF` for a timestamp
/// of `0xFFFFFF` or more, which then goes in the extended timestamp.
pub open spec fn header_timestamp(timestamp: u64) -> u64 {
    if timestamp >= U24_MAX {
        U24_MAX as u64
    } else {
        timestamp
    }
}

/// The extended timestamp that goes with a timestamp: itself where it is
/// `0xFFFFFF` or more, none otherwise.
pub open spec fn extended_of(timestamp: u64) -> Option<u64> {
    if timestamp >= U24_MAX {
        Some(timestamp)
    } else {
        None
    }
}

/// The message header of the format `f` for these fields.
pub open spec fn sent_header(
    f: MessageFormat,
    message_type: MessageType,
    message_id: u32,
    message_len: u32,
    timestamp: u64,
) -> MessageHeader {
    let t = header_timestamp(timestamp);
    match f {
        MessageFormat::New => MessageHeader::New { message_type, message_id, message_len, timestamp: t },
        MessageFormat::SameSource => MessageHeader::SameSource { message_type, message_len, timestamp: t },
        MessageFormat::TimerChange => MessageHeader::TimerChange { timestamp: t },
        MessageFormat::Continue => MessageHeader::Continue,
    }
}

/// The chunk data split into pieces of `size` bytes, `sep` between each two.
pub open spec fn split_payload(data: Seq<u8>, size: nat, sep: Seq<u8>) -> Seq<u8>
    decreases data.len(),
{
    if data.len() <= size || size == 0 {
        data
    } else {
        data.take(size as int) + sep + split_payload(data.skip(size as int), size, sep)
    }
}

/// The bytes that send a message: the basic header, the message header and
/// the extended timestamp, then the first `message_len` bytes of the chunk
/// data split into pieces of the chunk size where they are more than it (each
/// piece after the first behind a basic header of format 3), or all of the
/// chunk data where they are not.
pub open spec fn sent_bytes(
    last: Option<LastChunkView>,
    chunk_size: u32,
    chunk_id: ChunkId,
    message_type: MessageType,
    message_id: u32,
    message_len: u32,
    timestamp: u64,
    payload: Seq<u8>,
) -> Seq<u8> {
    let f = sent_format(last, message_type, message_id, message_len, timestamp);
    basic_header_bytes(f, chunk_id) + message_header_bytes(
        sent_header(f, message_type, message_id, message_len, timestamp),
    ) + extended_timestamp_bytes(extended_of(timestamp)) + if message_len > chunk_size {
        split_payload(
            payload.take(message_len as int),
            chunk_size as nat,
            basic_header_bytes(MessageFormat::Continue, chunk_id),
        )
    } else {
        payload
    }
}

/// What is kept of a message that was sent: its fields, the timestamp as its
/// message header holds it, and its chunk data `d`.
pub open spec fn sent_last(
    message_type: MessageType,
    message_id: u32,
    message_len: u32,
    timestamp: u64,
    d: ChunkDataView,
) -> LastChunkView {
    LastChunkView {
        message_type: Some(message_type),
        message_id: Some(message_id),
        message_len: Some(message_len),
        timestamp: Some(header_timestamp(timestamp)),
        chunk_data: Some(d),
    }
}

/// What follows `pos` bytes of `d` in its split: all of the split at 0,
/// nothing at the end, the separator and the split of the rest otherwise.
spec fn split_rest(d: Seq<u8>, pos: int, size: nat, sep: Seq<u8>) -> Seq<u8> {
    if pos == 0 {
        split_payload(d, size, sep)
    } else if pos >= d.len() {
        Seq::empty()
    } else {
        sep + split_payload(d.skip(pos), size, sep)
    }
}

/// Appends to `out` the first `len` bytes of `data` split into pieces of
/// `size` bytes, `sep` between each two.
fn push_split(out: &mut Vec<u8>, data: &Vec<u8>, len: usize, size: usize, sep: &Vec<u8>)
    requires
        len <= data@.len(),
        size > 0,
    ensures
        final(out)@ == old(out)@ + split_payload(data@.take(len as int), size as nat, sep@),
{
    let ghost d = data@.take(len as int);
    let ghost n = size as nat;
    let mut pos: usize = 0;
    assert(old(out)@ + split_rest(d, 0, n, sep@) == old(out)@ + split_payload(d, n, sep@));
    while pos < len
        invariant
            pos <= len,
            len <= data@.len(),
            size > 0,
            n == size as nat,
            d == data@.take(len as int),
            out@ + split_rest(d, pos as int, n, sep@) == old(out)@ + split_payload(d, n, sep@),
        decreases len - pos,
    {
        let ghost before = out@;
        if pos > 0 {
            push_all(out, sep);
        }
        let end = if len - pos <= size {
            len
        } else {
            pos + size
        };
        let piece = slice_to_vec(data, pos, end);
        push_all(out, &piece);
        proof {
            assert(piece@ =~= d.subrange(pos as int, end as int));
            if pos == 0 {
                if len <= size {
                    assert(d.subrange(0, len as int) =~= d);
                    assert(split_payload(d, n, sep@) == d);
                } else {
                    assert(d.take(size as int) =~= d.subrange(0, size as int));
                    assert(split_payload(d, n, sep@) == d.take(size as int) + sep@ + split_payload(
                        d.skip(size as int),
                        n,
                        sep@,
                    ));
                    assert(out@ + split_rest(d, end as int, n, sep@) =~= before + split_payload(
                        d,
                        n,
                        sep@,
                    ));
                }
            } else {
                let rest = d.skip(pos as int);
                if len - pos <= size {
                    assert(split_payload(rest, n, sep@) == rest);
                    assert(rest =~= d.subrange(pos as int, end as int));
                    assert(out@ + split_rest(d, end as int, n, sep@) =~= before + sep@ + split_payload(
                        rest,
                        n,
                        sep@,
                    ));
                } else {
                    assert(rest.take(size as int) =~= d.subrange(pos as int, end as int));
                    assert(rest.skip(size as int) =~= d.skip(end as int));
                    assert(split_payload(rest, n, sep@) == rest.take(size as int) + sep@
                        + split_payload(rest.skip(size as int), n, sep@));
                    assert(out@ + split_rest(d, end as int, n, sep@) =~= before + sep@ + split_payload(
                        rest,
                        n,
                        sep@,
                    ));
                }
            }
        }
        pos = end;
    }
    assert(out@ + Seq::<u8>::empty() =~= out@);
}

/// Returns the basic header of the format `f` on the chunk stream `chunk_id`,
/// the message header `h` and the extended timestamp `ext`, one after the other.
fn header_bytes(f: MessageFormat, chunk_id: ChunkId, h: MessageHeader, ext: Option<u64>) -> (r: Vec<
    u8,
>)
    ensures
        r@ == basic_header_bytes(f, chunk_id) + message_header_bytes(h) + extended_timestamp_bytes(
            ext,
        ),
{
    let mut buffer = ByteBuffer::new(Vec::new());
    let ghost b0 = buffer@;
    assert(b0.bytes =~= Seq::<u8>::empty());
    buffer.encode_basic_header(BasicHeader::new(f, chunk_id));
    buffer.encode_message_header(h);
    buffer.encode_extended_timestamp(ext);
    proof {
        lemma_put3(
            b0,
            basic_header_bytes(f, chunk_id),
            message_header_bytes(h),
            extended_timestamp_bytes(ext),
        );
        assert(Seq::<u8>::empty() + (basic_header_bytes(f, chunk_id) + message_header_bytes(h)
            + extended_timestamp_bytes(ext)) =~= basic_header_bytes(f, chunk_id)
            + message_header_bytes(h) + extended_timestamp_bytes(ext));
    }
    let bytes = buffer.bytes();
    slice_to_vec(bytes, 0, bytes.len())
}

// ---------------------------------------------------------------------------
// Receiving the chunk data of a message
// ---------------------------------------------------------------------------

/// The chunk data that is gathered from `raw`: `remaining` bytes in pieces of
/// at most `size`, skipping `skip` bytes after each piece that more follow.
pub open spec fn gathered(raw: Seq<u8>, remaining: nat, size: nat, skip: nat) -> Seq<u8>
    decreases remaining,
{
    if remaining == 0 || size == 0 {
        Seq::empty()
    } else if remaining <= size {
        raw.take(remaining as int)
    } else {
        raw.take(size as int) + gathered(
            raw.skip((size + skip) as int),
            (remaining - size) as nat,
            size,
            skip,
        )
    }
}

/// Returns how many bytes of chunk data to read next while `remaining` are
/// left, with a chunk size of `chunk_size`, and whether a basic header follows
/// them (the one of the next piece).
pub fn chunk_data_piece(remaining: u32, chunk_size: u32) -> (r: (u32, bool))
    ensures
        r.0 == if remaining <= chunk_size {
            remaining
        } else {
            chunk_size
        },
        r.1 == (remaining > chunk_size),
{
    if remaining <= chunk_size {
        (remaining, false)
    } else {
        (chunk_size, true)
    }
}

/// Gathering the pieces of a split, skipping the separators, gives back the
/// chunk data that was split: what a receiver reads of a message is what
/// the sender sent.
pub proof fn lemma_split_gathered(data: Seq<u8>, size: nat, sep: Seq<u8>)
    requires
        size > 0,
    ensures
        gathered(split_payload(data, size, sep), data.len(), size, sep.len()) == data,
    decreases data.len(),
{
    let sp = split_payload(data, size, sep);
    if data.len() == 0 {
        assert(data =~= Seq::<u8>::empty());
    } else if data.len() <= size {
        assert(sp.take(data.len() as int) =~= data);
    } else {
        let rest = data.skip(size as int);
        lemma_split_gathered(rest, size, sep);
        assert(sp.take(size as int) =~= data.take(size as int));
        assert(sp.skip((size + sep.len()) as int) =~= split_payload(rest, size, sep));
        assert(data.take(size as int) + rest =~= data);
    }
}

// ---------------------------------------------------------------------------
// Reading a chunk
// ---------------------------------------------------------------------------

/// `a` where it is `Some`, `b` otherwise.
pub open spec fn or_else<T>(a: Option<T>, b: Option<T>) -> Option<T> {
    match a {
        Some(x) => Some(x),
        None => b,
    }
}

/// The fields of a received chunk: each one that its message header holds,
/// and that of the last chunk of its chunk stream for the others (the chunk
/// data too, until the chunk's own is read).
pub open spec fn inherited(h: MessageHeader, last: Option<LastChunkView>) -> LastChunkView {
    let l = match last {
        Some(l) => l,
        None => LastChunkView {
            message_type: None,
            message_id: None,
            message_len: None,
            timestamp: None,
            chunk_data: None,
        },
    };
    LastChunkView {
        message_type: or_else(h.message_type_spec(), l.message_type),
        message_id: or_else(h.message_id_spec(), l.message_id),
        message_len: or_else(h.message_len_spec(), l.message_len),
        timestamp: or_else(h.timestamp_spec(), l.timestamp),
        chunk_data: l.chunk_data,
    }
}

/// The length of the message header of the format `f`: 11, 7, 3 or 0 bytes.
pub open spec fn message_header_len_of(f: MessageFormat) -> int {
    match f {
        MessageFormat::New => 11,
        MessageFormat::SameSource => 7,
        MessageFormat::TimerChange => 3,
        MessageFormat::Continue => 0,
    }
}

/// Returns how many bytes of the basic header follow its first byte: 1 where
/// its low 6 bits are 0, 2 where they are 1, none otherwise.
pub fn basic_header_rest_len(first_byte: u8) -> (r: usize)
    ensures
        r == if first_byte % 64 == 0 {
            1usize
        } else if first_byte % 64 == 1 {
            2usize
        } else {
            0usize
        },
{
    let t = first_byte % 64;
    if t == 0 {
        BasicHeader::LEN_ONE_BYTE
    } else if t == 1 {
        BasicHeader::LEN_TWO_BYTES
    } else {
        0
    }
}

/// The error of a basic header that cannot be read.
fn basic_header_error() -> (r: RtmpError)
    ensures
        r matches RtmpError::ChunkFormat(e) && e@ == "The basic header format is invalid."@,
{
    RtmpError::ChunkFormat(ChunkFormatError::new("The basic header format is invalid.".to_owned()))
}

/// A `ChunkFormatError` of the description `description`.
fn format_error(description: &str) -> (r: RtmpError)
    ensures
        r matches RtmpError::ChunkFormat(e) && e@ == description@,
{
    RtmpError::ChunkFormat(ChunkFormatError::new(description.to_owned()))
}

/// An `RtmpStateError` of the description `description`.
fn state_error(description: &str) -> (r: RtmpError)
    ensures
        r matches RtmpError::RtmpState(e) && e@ == description@,
{
    RtmpError::RtmpState(RtmpStateError::new(description.to_owned()))
}

/// The error of a message header that cannot be read.
fn message_header_error() -> (r: RtmpError)
    ensures
        r matches RtmpError::ChunkFormat(e) && e@ == "The message header format is invalid."@,
{
    RtmpError::ChunkFormat(ChunkFormatError::new("The message header format is invalid.".to_owned()))
}

/// Returns the length of the message header that follows the basic header
/// `basic_header`; a `ChunkFormatError` where that cannot be read.
pub fn message_header_len(basic_header: &Vec<u8>) -> (r: Result<usize, RtmpError>)
    ensures
        match parse_basic_header(basic_header@, 0) {
            None => r matches Err(RtmpError::ChunkFormat(e)) && e@
                == "The basic header format is invalid."@,
            Some(((f, _), _)) => r matches Ok(n) && n == message_header_len_of(f),
        },
{
    let mut buffer = ByteBuffer::new(slice_to_vec(basic_header, 0, basic_header.len()));
    proof {
        assert(basic_header@.subrange(0, basic_header@.len() as int) =~= basic_header@);
    }
    match buffer.decode_basic_header() {
        Some(b) => Ok(
            match b.get_message_format() {
                MessageFormat::New => MessageHeader::LEN_NEW,
                MessageFormat::SameSource => MessageHeader::LEN_SAME_SOURCE,
                MessageFormat::TimerChange => MessageHeader::LEN_TIMER_CHANGE,
                MessageFormat::Continue => 0,
            },
        ),
        None => Err(basic_header_error()),
    }
}

// ---------------------------------------------------------------------------
// Lengths of the messages that are sent
// ---------------------------------------------------------------------------

/// A bound on the length of an AMF0 value's bytes: 4 bytes for each
/// character of its strings and names, and the bytes around them.
pub open spec fn amf_size(v: AmfValue) -> nat
    decreases v,
{
    match v {
        AmfValue::Number(_) => 9,
        AmfValue::Boolean(_) => 2,
        AmfValue::String(s) => 3 + 4 * s.len(),
        AmfValue::Object(o) => 4 + pairs_size(o),
        AmfValue::Null => 1,
        AmfValue::MixedArray(o) => 8 + pairs_size(o),
        AmfValue::ObjectEnd => 0,
    }
}

/// A bound on the length of the bytes of name/value pairs (see `amf_size`).
pub open spec fn pairs_size(o: Seq<(Seq<char>, AmfValue)>) -> nat
    decreases o,
{
    if o.len() == 0 {
        0
    } else {
        pairs_size(o.subrange(0, o.len() - 1)) + 2 + 4 * o[o.len() - 1].0.len() + amf_size(
            o[o.len() - 1].1,
        )
    }
}

/// A character takes 1 to 4 bytes in UTF-8.
pub proof fn lemma_utf8_len(s: Seq<char>)
    ensures
        s.len() <= encode_utf8(s).len() <= 4 * s.len(),
    decreases s.len(),
{
    if s.len() > 0 {
        lemma_utf8_len(s.drop_first());
    }
}

/// The bytes of an AMF0 value are no longer than its `amf_size`.
pub proof fn lemma_amf_size(v: AmfValue)
    ensures
        amf_bytes(v).len() <= amf_size(v),
    decreases v,
{
    match v {
        AmfValue::String(s) => {
            lemma_utf8_len(s);
        },
        AmfValue::Object(o) => {
            lemma_pairs_size(o);
        },
        AmfValue::MixedArray(o) => {
            lemma_pairs_size(o);
        },
        _ => {},
    }
}

/// The bytes of name/value pairs are no longer than their `pairs_size`.
pub proof fn lemma_pairs_size(o: Seq<(Seq<char>, AmfValue)>)
    ensures
        pairs_bytes(o).len() <= pairs_size(o),
    decreases o,
{
    if o.len() > 0 {
        let last = o[o.len() - 1];
        assert(decreases_to!(o => o[o.len() - 1]));
        assert(decreases_to!(last => last.1));
        lemma_pairs_size(o.subrange(0, o.len() - 1));
        lemma_amf_size(last.1);
        lemma_utf8_len(last.0);
    }
}


/// Pairs written one after the other: the bytes of `a + b` are those of `a`,
/// then those of `b`.
proof fn lemma_pairs_bytes_concat(a: Seq<(Seq<char>, AmfValue)>, b: Seq<(Seq<char>, AmfValue)>)
    ensures
        pairs_bytes(a + b) == pairs_bytes(a) + pairs_bytes(b),
    decreases b.len(),
{
    if b.len() == 0 {
        assert(a + b =~= a);
        assert(pairs_bytes(a) + pairs_bytes(b) =~= pairs_bytes(a));
    } else {
        let c = a + b;
        let b0 = b.subrange(0, b.len() - 1);
        lemma_pairs_bytes_concat(a, b0);
        assert(c.subrange(0, c.len() - 1) =~= a + b0);
        assert(c[c.len() - 1] == b[b.len() - 1]);
        assert(pairs_bytes(c) =~= pairs_bytes(a) + pairs_bytes(b));
    }
}

/// The number of bytes of name/value pairs.
#[verifier::opaque]
pub open spec fn pairs_len(o: Seq<(Seq<char>, AmfValue)>) -> nat {
    pairs_bytes(o).len()
}

/// The number of bytes of `a + b` is that of `a` and that of `b`.
proof fn lemma_pairs_len_concat(a: Seq<(Seq<char>, AmfValue)>, b: Seq<(Seq<char>, AmfValue)>)
    ensures
        pairs_len(a + b) == pairs_len(a) + pairs_len(b),
{
    reveal(pairs_len);
    lemma_pairs_bytes_concat(a, b);
}

/// The script data tag of the metadata pairs `o` has 11 bytes besides the
/// name "onMetaData" and the pairs.
proof fn lemma_tag_bytes_len(o: Seq<(Seq<char>, AmfValue)>)
    ensures
        (amf_string("onMetaData"@) + amf_bytes(AmfValue::MixedArray(o))).len() == 11 + encode_utf8(
            "onMetaData"@,
        ).len() + pairs_len(o),
{
    reveal(pairs_len);
}

/// The bytes of a single pair: its name, then its value.
proof fn lemma_pair_bytes_one(k: Seq<char>, v: AmfValue)
    ensures
        pairs_bytes(seq![(k, v)]) == crate::encoders::string_body_bytes(k) + amf_bytes(v),
{
    let o = seq![(k, v)];
    assert(o.subrange(0, 0) =~= Seq::<(Seq<char>, AmfValue)>::empty());
    assert(pairs_bytes(o.subrange(0, 0)) =~= Seq::<u8>::empty());
    assert(o[o.len() - 1] == (k, v));
    assert(Seq::<u8>::empty() + crate::encoders::string_body_bytes(k) + amf_bytes(v) =~= crate::encoders::string_body_bytes(k)
        + amf_bytes(v));
}

/// The number of bytes of the pair of an optional string named `k`.
pub open spec fn string_pair_len(k: Seq<char>, o: Option<Seq<char>>) -> nat {
    match o {
        Some(s) => 5 + encode_utf8(k).len() + encode_utf8(s).len(),
        None => 0,
    }
}

/// The number of bytes of the pair of an optional number named `k`.
pub open spec fn number_pair_len(k: Seq<char>, o: Option<u64>) -> nat {
    match o {
        Some(_) => 11 + encode_utf8(k).len(),
        None => 0,
    }
}

/// The number of bytes of the pair of an optional boolean named `k`.
pub open spec fn boolean_pair_len(k: Seq<char>, o: Option<bool>) -> nat {
    match o {
        Some(_) => 4 + encode_utf8(k).len(),
        None => 0,
    }
}

proof fn lemma_string_pair_len(k: Seq<char>, o: Option<Seq<char>>)
    ensures
        pairs_len(string_pair(k, o)) == string_pair_len(k, o),
{
    reveal(pairs_len);
    match o {
        Some(x) => lemma_pair_bytes_one(k, AmfValue::String(x)),
        None => assert(string_pair(k, o) =~= Seq::<(Seq<char>, AmfValue)>::empty()),
    }
}

proof fn lemma_number_pair_len(k: Seq<char>, o: Option<u64>)
    ensures
        pairs_len(number_pair(k, o)) == number_pair_len(k, o),
{
    reveal(pairs_len);
    match o {
        Some(x) => lemma_pair_bytes_one(k, AmfValue::Number(x)),
        None => assert(number_pair(k, o) =~= Seq::<(Seq<char>, AmfValue)>::empty()),
    }
}

proof fn lemma_boolean_pair_len(k: Seq<char>, o: Option<bool>)
    ensures
        pairs_len(boolean_pair(k, o)) == boolean_pair_len(k, o),
{
    reveal(pairs_len);
    match o {
        Some(x) => lemma_pair_bytes_one(k, AmfValue::Boolean(x)),
        None => assert(boolean_pair(k, o) =~= Seq::<(Seq<char>, AmfValue)>::empty()),
    }
}

/// The number of bytes of the script data tag of metadata (see
/// `meta_data_tag_bytes`): the string "onMetaData", the marker, count and end
/// of the mixed array, and each pair of a field that is set.
pub open spec fn meta_data_tag_len(m: MetaDataView) -> nat {
    3 + encode_utf8("onMetaData"@).len() + 8 + flag_pairs_len(m) + text_pairs_len(m)
}

/// The number of bytes of the pairs of the booleans and numbers of metadata.
pub open spec fn flag_pairs_len(m: MetaDataView) -> nat {
    boolean_pair_len("stereo"@, m.stereo)
        + boolean_pair_len("canSeekToEnd"@, m.can_seek_to_end)
        + number_pair_len("audiocodecid"@, m.audio_codec_id)
        + number_pair_len("audiodatarate"@, m.audio_data_rate)
        + number_pair_len("audiosamplerate"@, m.audio_sample_rate)
        + number_pair_len("audiosamplesize"@, m.audio_sample_size)
        + number_pair_len("audiodelay"@, m.audio_delay)
        + number_pair_len("videocodecid"@, m.video_codec_id)
        + number_pair_len("videodatarate"@, m.video_data_rate)
        + number_pair_len("framerate"@, m.frame_rate)
        + number_pair_len("width"@, m.width)
        + number_pair_len("height"@, m.height)
        + number_pair_len("filesize"@, m.file_size)
        + number_pair_len("duration"@, m.duration)
}

/// The number of bytes of the pairs of the strings of metadata.
pub open spec fn text_pairs_len(m: MetaDataView) -> nat {
    string_pair_len("major-brand"@, m.major_brand)
        + string_pair_len("minor-version"@, m.minor_version)
        + string_pair_len("compatible-brands"@, m.compatible_brands)
        + string_pair_len("encoder"@, m.encoder)
        + string_pair_len("creationdate"@, m.creation_date)
}

/// Metadata whose script data tag fits in an FLV tag, whose sizes are 32 bits
/// (`meta_data_tag_len` is the length of `meta_data_tag_bytes`, see
/// `lemma_meta_data_tag_len`).
pub open spec fn meta_data_tag_fits(m: MetaDataView) -> bool {
    meta_data_tag_len(m) + 11 <= u32::MAX
}

/// The script data tag of metadata has `meta_data_tag_len` bytes.
#[verifier::spinoff_prover]
#[verifier::rlimit(100)]
pub proof fn lemma_meta_data_tag_len(m: MetaDataView)
    ensures
        meta_data_tag_bytes(m).len() == meta_data_tag_len(m),
{
    let p0 = boolean_pair("stereo"@, m.stereo);
    let p1 = boolean_pair("canSeekToEnd"@, m.can_seek_to_end);
    let p2 = number_pair("audiocodecid"@, crate::metadata::opt_number(m.audio_codec_id));
    let p3 = number_pair("audiodatarate"@, crate::metadata::opt_number(m.audio_data_rate));
    let p4 = number_pair("audiosamplerate"@, crate::metadata::opt_number(m.audio_sample_rate));
    let p5 = number_pair("audiosamplesize"@, crate::metadata::opt_number(m.audio_sample_size));
    let p6 = number_pair("audiodelay"@, crate::metadata::opt_number(m.audio_delay));
    let p7 = number_pair("videocodecid"@, crate::metadata::opt_number(m.video_codec_id));
    let p8 = number_pair("videodatarate"@, crate::metadata::opt_number(m.video_data_rate));
    let p9 = number_pair("framerate"@, crate::metadata::opt_number(m.frame_rate));
    let p10 = number_pair("width"@, crate::metadata::opt_number(m.width));
    let p11 = number_pair("height"@, crate::metadata::opt_number(m.height));
    let p12 = number_pair("filesize"@, crate::metadata::opt_number(m.file_size));
    let p13 = number_pair("duration"@, crate::metadata::opt_number(m.duration));
    let p14 = string_pair("major-brand"@, m.major_brand);
    let p15 = string_pair("minor-version"@, m.minor_version);
    let p16 = string_pair("compatible-brands"@, m.compatible_brands);
    let p17 = string_pair("encoder"@, m.encoder);
    let p18 = string_pair("creationdate"@, m.creation_date);
    lemma_boolean_pair_len("stereo"@, m.stereo);
    lemma_boolean_pair_len("canSeekToEnd"@, m.can_seek_to_end);
    lemma_number_pair_len("audiocodecid"@, crate::metadata::opt_number(m.audio_codec_id));
    lemma_number_pair_len("audiodatarate"@, crate::metadata::opt_number(m.audio_data_rate));
    lemma_number_pair_len("audiosamplerate"@, crate::metadata::opt_number(m.audio_sample_rate));
    lemma_number_pair_len("audiosamplesize"@, crate::metadata::opt_number(m.audio_sample_size));
    lemma_number_pair_len("audiodelay"@, crate::metadata::opt_number(m.audio_delay));
    lemma_number_pair_len("videocodecid"@, crate::metadata::opt_number(m.video_codec_id));
    lemma_number_pair_len("videodatarate"@, crate::metadata::opt_number(m.video_data_rate));
    lemma_number_pair_len("framerate"@, crate::metadata::opt_number(m.frame_rate));
    lemma_number_pair_len("width"@, crate::metadata::opt_number(m.width));
    lemma_number_pair_len("height"@, crate::metadata::opt_number(m.height));
    lemma_number_pair_len("filesize"@, crate::metadata::opt_number(m.file_size));
    lemma_number_pair_len("duration"@, crate::metadata::opt_number(m.duration));
    lemma_string_pair_len("major-brand"@, m.major_brand);
    lemma_string_pair_len("minor-version"@, m.minor_version);
    lemma_string_pair_len("compatible-brands"@, m.compatible_brands);
    lemma_string_pair_len("encoder"@, m.encoder);
    lemma_string_pair_len("creationdate"@, m.creation_date);
    let a0 = p0;
    let a1 = a0 + p1;
    lemma_pairs_len_concat(a0, p1);
    let a2 = a1 + p2;
    lemma_pairs_len_concat(a1, p2);
    let a3 = a2 + p3;
    lemma_pairs_len_concat(a2, p3);
    let a4 = a3 + p4;
    lemma_pairs_len_concat(a3, p4);
    let a5 = a4 + p5;
    lemma_pairs_len_concat(a4, p5);
    let a6 = a5 + p6;
    lemma_pairs_len_concat(a5, p6);
    let a7 = a6 + p7;
    lemma_pairs_len_concat(a6, p7);
    let a8 = a7 + p8;
    lemma_pairs_len_concat(a7, p8);
    let a9 = a8 + p9;
    lemma_pairs_len_concat(a8, p9);
    let a10 = a9 + p10;
    lemma_pairs_len_concat(a9, p10);
    let a11 = a10 + p11;
    lemma_pairs_len_concat(a10, p11);
    let a12 = a11 + p12;
    lemma_pairs_len_concat(a11, p12);
    let a13 = a12 + p13;
    lemma_pairs_len_concat(a12, p13);
    let a14 = a13 + p14;
    lemma_pairs_len_concat(a13, p14);
    let a15 = a14 + p15;
    lemma_pairs_len_concat(a14, p15);
    let a16 = a15 + p16;
    lemma_pairs_len_concat(a15, p16);
    let a17 = a16 + p17;
    lemma_pairs_len_concat(a16, p17);
    let a18 = a17 + p18;
    lemma_pairs_len_concat(a17, p18);
    assert(m.to_pairs() == a18);
    lemma_tag_bytes_len(a18);
}

/// Returns the number of bytes of the pair of an optional string named `k`.
fn string_pair_length(k: &str, o: &Option<String>) -> (r: u128)
    ensures
        r == string_pair_len(k@, opt_chars(*o)),
        r <= 0x3_0000_0000_0000_0000,
{
    let kn = k.as_bytes().len();
    match o {
        Some(s) => {
            let sn = s.as_str().as_bytes().len();
            5 + kn as u128 + sn as u128
        },
        None => 0,
    }
}

/// Returns the number of bytes of the pair of an optional number named `k`.
fn number_pair_length(k: &str, o: Option<u64>) -> (r: u128)
    ensures
        r == number_pair_len(k@, o),
        r <= 0x3_0000_0000_0000_0000,
{
    let kn = k.as_bytes().len();
    match o {
        Some(_) => 11 + kn as u128,
        None => 0,
    }
}

/// Returns the number of bytes of the pair of an optional boolean named `k`.
fn boolean_pair_length(k: &str, o: Option<bool>) -> (r: u128)
    ensures
        r == boolean_pair_len(k@, o),
        r <= 0x3_0000_0000_0000_0000,
{
    let kn = k.as_bytes().len();
    match o {
        Some(_) => 4 + kn as u128,
        None => 0,
    }
}

/// Returns the number of bytes of the pairs of the booleans and numbers of
/// the metadata (see `flag_pairs_len`).
#[verifier::spinoff_prover]
fn flag_pairs_length(m: &mut MetaData) -> (r: u128)
    ensures
        final(m)@ == old(m)@,
        r == flag_pairs_len(old(m)@),
        r <= 0x30_0000_0000_0000_0000,
{
    let mut n: u128 = 0;
    n = n + boolean_pair_length("stereo", m.is_stereo());
    n = n + boolean_pair_length("canSeekToEnd", m.can_seek_to_end());
    n = n + number_pair_length("audiocodecid", m.get_audio_codec_id());
    n = n + number_pair_length("audiodatarate", m.get_audio_data_rate());
    n = n + number_pair_length("audiosamplerate", m.get_audio_sample_rate());
    n = n + number_pair_length("audiosamplesize", m.get_audio_sample_size());
    n = n + number_pair_length("audiodelay", m.get_audio_delay());
    n = n + number_pair_length("videocodecid", m.get_video_codec_id());
    n = n + number_pair_length("videodatarate", m.get_video_data_rate());
    n = n + number_pair_length("framerate", m.get_frame_rate());
    n = n + number_pair_length("width", m.get_width());
    n = n + number_pair_length("height", m.get_height());
    n = n + number_pair_length("filesize", m.get_file_size());
    n = n + number_pair_length("duration", m.get_duration());
    n
}

/// Returns the number of bytes of the pairs of the strings of the metadata
/// (see `text_pairs_len`).
#[verifier::spinoff_prover]
fn text_pairs_length(m: &MetaData) -> (r: u128)
    ensures
        r == text_pairs_len(m@),
        r <= 0x10_0000_0000_0000_0000,
{
    let mut n: u128 = 0;
    n = n + string_pair_length("major-brand", m.get_major_brand());
    n = n + string_pair_length("minor-version", m.get_minor_version());
    n = n + string_pair_length("compatible-brands", m.get_compatible_brands());
    n = n + string_pair_length("encoder", m.get_encoder());
    n = n + string_pair_length("creationdate", m.get_creation_date());
    n
}

/// Returns the number of bytes of the script data tag of the metadata (see
/// `meta_data_tag_len`).
fn meta_data_tag_length(m: &mut MetaData) -> (r: u128)
    ensures
        final(m)@ == old(m)@,
        r == meta_data_tag_len(old(m)@),
        r <= 0x50_0000_0000_0000_0000,
{
    let flags = flag_pairs_length(m);
    let texts = text_pairs_length(m);
    11 + "onMetaData".as_bytes().len() as u128 + flags + texts
}

/// Returns whether the script data tag of the metadata fits in an FLV tag
/// (see `meta_data_tag_fits`).
fn meta_data_fits(m: &mut MetaData) -> (r: bool)
    ensures
        final(m)@ == old(m)@,
        r == meta_data_tag_fits(old(m)@),
{
    let n = meta_data_tag_length(m);
    n + 11 <= 4294967295
}



// ---------------------------------------------------------------------------
// Laws of the handler
// ---------------------------------------------------------------------------

/// Sending a message again on a chunk stream with the same fields goes with a
/// message header of format 3, where its timestamp is below `0xFFFFFF`.
pub proof fn lemma_resend_continues(
    message_type: MessageType,
    message_id: u32,
    message_len: u32,
    timestamp: u64,
    d: ChunkDataView,
)
    requires
        timestamp < U24_MAX,
    ensures
        sent_format(
            Some(sent_last(message_type, message_id, message_len, timestamp, d)),
            message_type,
            message_id,
            message_len,
            timestamp,
        ) == MessageFormat::Continue,
{
}


/// The headers of a message that is sent are read back: its basic header, its
/// message header (of the format that was chosen) and, after a message header
/// that holds a timestamp, the extended timestamp of a timestamp of `0xFFFFFF`
/// or more; where the chunk stream id is 2 or more, the message length fits in
/// 24 bits and the timestamp in 32.
pub proof fn lemma_sent_headers_read_back(
    last: Option<LastChunkView>,
    chunk_size: u32,
    chunk_id: ChunkId,
    message_type: MessageType,
    message_id: u32,
    message_len: u32,
    timestamp: u64,
    payload: Seq<u8>,
)
    requires
        chunk_id_wf(chunk_id),
        message_len < 0x1000000,
        timestamp < 0x100000000,
    ensures
        ({
            let b = sent_bytes(
                last,
                chunk_size,
                chunk_id,
                message_type,
                message_id,
                message_len,
                timestamp,
                payload,
            );
            let f = sent_format(last, message_type, message_id, message_len, timestamp);
            let h = sent_header(f, message_type, message_id, message_len, timestamp);
            let n1 = basic_header_bytes(f, chunk_id).len() as int;
            let n2 = n1 + message_header_bytes(h).len();
            &&& parse_basic_header(b, 0) == Some(((f, chunk_id), n1))
            &&& parse_message_header(b, n1, b.len() as int, f) == Some((h, n2))
            &&& (f != MessageFormat::Continue && timestamp >= U24_MAX) ==> parse_extended_timestamp(
                b,
                n2,
                h,
            ) == Some((timestamp, n2 + 4))
        }),
{
    let b = sent_bytes(
        last,
        chunk_size,
        chunk_id,
        message_type,
        message_id,
        message_len,
        timestamp,
        payload,
    );
    let f = sent_format(last, message_type, message_id, message_len, timestamp);
    let h = sent_header(f, message_type, message_id, message_len, timestamp);
    let x1 = basic_header_bytes(f, chunk_id);
    let x2 = message_header_bytes(h);
    let x3 = extended_timestamp_bytes(extended_of(timestamp));
    let x4 = if message_len > chunk_size {
        split_payload(
            payload.take(message_len as int),
            chunk_size as nat,
            basic_header_bytes(MessageFormat::Continue, chunk_id),
        )
    } else {
        payload
    };
    assert(b == x1 + x2 + x3 + x4);
    let n1 = x1.len() as int;
    let n2 = n1 + x2.len();
    assert(b.subrange(0, n1) =~= x1);
    assert(b.subrange(n1, n2) =~= x2);
    lemma_basic_header_roundtrip(f, chunk_id, b, 0);
    assert(crate::roundtrip::header_format(h) == f);
    lemma_message_header_roundtrip(h, b, n1, b.len() as int);
    if f != MessageFormat::Continue && timestamp >= U24_MAX {
        assert(b.subrange(n2, n2 + 4) =~= x3);
        lemma_extended_timestamp_roundtrip(h, timestamp, b, n2);
    }
}

/// A chunk of format 3 takes every field of the chunk received before it on
/// its chunk stream.
pub proof fn lemma_continue_inherits(
    received: Map<ChunkId, LastChunkView>,
    chunk_id: ChunkId,
    last: LastChunkView,
)
    ensures
        inherited(MessageHeader::Continue, lookup(received.insert(chunk_id, last), chunk_id)) == last,
{
}

/// An invocation that the server only sends (the result of connect,
/// releaseStream or createStream, onStatus, onFCPublish).
pub open spec fn is_response(c: InvokeCommandView) -> bool {
    match c {
        InvokeCommandView::NetConnection(n) => !(n is Connect || n is ReleaseStream || n is CreateStream),
        InvokeCommandView::NetStream(n) => n is OnStatus,
        InvokeCommandView::FcPublish(f) => f is OnFcPublish,
        InvokeCommandView::Unknown(_) => false,
    }
}

/// Receiving an invocation fails exactly for a response, and then changes
/// nothing; a request or an unknown invocation is always received.
pub proof fn lemma_received_unless_response(v: RtmpHandlerView, c: InvokeCommandView)
    ensures
        invoke_received(v, c) is Err <==> is_response(c),
{
}

/// Every request that is received is answered, and leaves the state that
/// follows it: connect `SentConnectResult`, releaseStream
/// `SentReleaseStreamResult`, FCPublish `SentOnFcPublish`, createStream
/// `SentCreateStreamResult`, publish `Connected` (for a play path that
/// onStatus can carry within the machine's memory).
pub proof fn lemma_requests_answered(
    v: RtmpHandlerView,
    c: InvokeCommandView,
    r: Result<Vec<u8>, RtmpError>,
    after: RtmpHandlerView,
)
    requires
        chunk_handled(v, ChunkDataView::Invoke(c), r, after),
        invoke_received(v, c) is Ok,
        !(c is Unknown),
        c matches InvokeCommandView::NetStream(NetStreamCommandView::Publish { play_path, .. })
            ==> play_path_sendable(play_path),
    ensures
        r is Ok,
        after.state == match c {
            InvokeCommandView::NetConnection(NetConnectionCommandView::Connect { .. }) =>
                RtmpState::SentConnectResult,
            InvokeCommandView::NetConnection(NetConnectionCommandView::ReleaseStream { .. }) =>
                RtmpState::SentReleaseStreamResult,
            InvokeCommandView::NetConnection(_) => RtmpState::SentCreateStreamResult,
            InvokeCommandView::FcPublish(_) => RtmpState::SentOnFcPublish,
            _ => RtmpState::Connected,
        },
{
}

// ---------------------------------------------------------------------------
// The handler
// ---------------------------------------------------------------------------

/// The chunk streams that the server sends on.
enum Channel {
    /// Chunk size, bandwidths, ping and bytes read.
    Network,
    /// Invocations.
    System,
}

impl Channel {
    /// The chunk stream id of this channel: 2 for the network, 3 for the system.
    fn chunk_id(&self) -> (r: ChunkId)
        ensures
            r == match self {
                Channel::Network => ChunkId::U8(2),
                Channel::System => ChunkId::U8(3),
            },
    {
        match self {
            Channel::Network => ChunkId::U8(2),
            Channel::System => ChunkId::U8(3),
        }
    }
}

/// The last chunk that a table holds for `k`, if it holds one.
pub open spec fn lookup(m: Map<ChunkId, LastChunkView>, k: ChunkId) -> Option<LastChunkView> {
    if m.contains_key(k) {
        Some(m[k])
    } else {
        None
    }
}

// ---------------------------------------------------------------------------
// The answers to the requests
// ---------------------------------------------------------------------------

/// Name/value pairs are bounded by the bounds of their parts.
proof fn lemma_pairs_size_concat(a: Seq<(Seq<char>, AmfValue)>, b: Seq<(Seq<char>, AmfValue)>)
    ensures
        pairs_size(a + b) == pairs_size(a) + pairs_size(b),
    decreases b.len(),
{
    if b.len() == 0 {
        assert(a + b =~= a);
    } else {
        let c = a + b;
        lemma_pairs_size_concat(a, b.subrange(0, b.len() - 1));
        assert(c.subrange(0, c.len() - 1) =~= a + b.subrange(0, b.len() - 1));
    }
}

/// The bound of a single pair.
proof fn lemma_pairs_size_one(k: Seq<char>, v: AmfValue)
    ensures
        pairs_size(seq![(k, v)]) == 2 + 4 * k.len() + amf_size(v),
{
    let o = seq![(k, v)];
    assert(o.subrange(0, 0) =~= Seq::<(Seq<char>, AmfValue)>::empty());
    assert(pairs_size(o.subrange(0, 0)) == 0);
    assert(o[o.len() - 1] == (k, v));
}

/// The properties that the result of connect holds: the server's version and
/// its capabilities (31).
pub open spec fn connect_properties() -> Seq<(Seq<char>, AmfValue)> {
    seq![
        ("fmsVer"@, AmfValue::String("FMS/5.0.15"@)),
        ("capabilities"@, AmfValue::Number(u64_to_number_spec(31))),
    ]
}

/// The information object of the result of connect: status, connect success,
/// "Connection succeeded." and the object encoding AMF0.
pub open spec fn connect_information() -> InfoObjectView {
    InfoObjectView {
        object_encoding: Some(ObjectEncoding::Amf0),
        level: Some(InfoLevel::Status),
        code: Some(Status::NetConnection(NetConnectionStatus::Connect(ConnectStatus::Success))),
        details: None,
        description: Some("Connection succeeded."@),
    }
}

/// The result of connect.
pub open spec fn connect_result_data(transaction_id: u64) -> ChunkDataView {
    ChunkDataView::Invoke(
        InvokeCommandView::NetConnection(
            NetConnectionCommandView::ConnectResult {
                result: NetConnectionResult::Result,
                transaction_id,
                properties: connect_properties(),
                information: connect_information(),
            },
        ),
    )
}

/// The result of releaseStream.
pub open spec fn release_stream_result_data(transaction_id: u64) -> ChunkDataView {
    ChunkDataView::Invoke(
        InvokeCommandView::NetConnection(
            NetConnectionCommandView::ReleaseStreamResult {
                result: NetConnectionResult::Result,
                transaction_id,
            },
        ),
    )
}

/// onFCPublish.
pub open spec fn on_fc_publish_data() -> ChunkDataView {
    ChunkDataView::Invoke(InvokeCommandView::FcPublish(FcPublishCommandView::OnFcPublish))
}

/// The result of createStream, with the message stream id.
pub open spec fn create_stream_result_data(transaction_id: u64, message_id: u32) -> ChunkDataView {
    ChunkDataView::Invoke(
        InvokeCommandView::NetConnection(
            NetConnectionCommandView::CreateStreamResult {
                result: NetConnectionResult::Result,
                message_id,
                transaction_id,
            },
        ),
    )
}

/// The information object of onStatus for `status` and the play path:
/// status, the status, the play path as details, and "{play path} is now
/// published" as description.
pub open spec fn on_status_information(status: Status, play_path: Seq<char>) -> InfoObjectView {
    InfoObjectView {
        object_encoding: None,
        level: Some(InfoLevel::Status),
        code: Some(status),
        details: Some(play_path),
        description: Some(play_path + " is now published"@),
    }
}

/// onStatus, of transaction id 0.
pub open spec fn on_status_data(status: Status, play_path: Seq<char>) -> ChunkDataView {
    ChunkDataView::Invoke(
        InvokeCommandView::NetStream(
            NetStreamCommandView::OnStatus {
                transaction_id: 0,
                info_object: on_status_information(status, play_path),
            },
        ),
    )
}

/// The bound of the pairs of an information object whose level and code are
/// set, from the lengths of its level and code names, details and description.
proof fn lemma_info_pairs_size(v: InfoObjectView)
    requires
        v.level is Some,
        v.code is Some,
    ensures
        pairs_size(v.to_pairs()) <= 200 + 4 * (v.level->0.name_spec().len() + v.code->0.name_spec().len()
            + match v.details {
            Some(d) => d.len(),
            None => 0,
        } + match v.description {
            Some(d) => d.len(),
            None => 0,
        }),
{
    reveal_strlit("objectEncoding");
    reveal_strlit("level");
    reveal_strlit("code");
    reveal_strlit("details");
    reveal_strlit("description");
    let e = crate::messages::number_pair(
        "objectEncoding"@,
        match v.object_encoding {
            Some(e) => Some(u64_to_number_spec(e.id_spec() as u64)),
            None => None,
        },
    );
    let l = crate::messages::string_pair("level"@, Some(v.level->0.name_spec()));
    let c = crate::messages::string_pair("code"@, Some(v.code->0.name_spec()));
    let d = crate::messages::string_pair("details"@, v.details);
    let s = crate::messages::string_pair("description"@, v.description);
    assert(v.to_pairs() == e + l + c + d + s);
    lemma_pairs_size_concat(e + l + c + d, s);
    lemma_pairs_size_concat(e + l + c, d);
    lemma_pairs_size_concat(e + l, c);
    lemma_pairs_size_concat(e, l);
    if e.len() > 0 {
        lemma_pairs_size_one("objectEncoding"@, e[0].1);
        assert(e =~= seq![("objectEncoding"@, e[0].1)]);
    } else {
        assert(e =~= Seq::<(Seq<char>, AmfValue)>::empty());
    }
    lemma_pairs_size_one("level"@, AmfValue::String(v.level->0.name_spec()));
    lemma_pairs_size_one("code"@, AmfValue::String(v.code->0.name_spec()));
    match v.details {
        Some(x) => lemma_pairs_size_one("details"@, AmfValue::String(x)),
        None => assert(d =~= Seq::<(Seq<char>, AmfValue)>::empty()),
    }
    match v.description {
        Some(x) => lemma_pairs_size_one("description"@, AmfValue::String(x)),
        None => assert(s =~= Seq::<(Seq<char>, AmfValue)>::empty()),
    }
}

/// The names of the information levels and statuses are short.
proof fn lemma_name_lengths(l: InfoLevel, s: Status)
    ensures
        l.name_spec().len() <= 10,
        s.name_spec().len() <= 40,
{
    reveal_strlit("status");
    reveal_strlit("warning");
    reveal_strlit("error");
    reveal_strlit(".");
    reveal_strlit("NetConnection");
    reveal_strlit("NetStream");
    reveal_strlit("Connect");
    reveal_strlit("Publish");
    reveal_strlit("Success");
    reveal_strlit("Start");
}

/// The messages that answer connect, releaseStream, FCPublish and
/// createStream fit in 32 bits.
proof fn lemma_answers_fit(transaction_id: u64, message_id: u32)
    ensures
        chunk_data_bytes(connect_result_data(transaction_id)).len() <= u32::MAX,
        chunk_data_bytes(release_stream_result_data(transaction_id)).len() <= u32::MAX,
        chunk_data_bytes(on_fc_publish_data()).len() <= u32::MAX,
        chunk_data_bytes(create_stream_result_data(transaction_id, message_id)).len() <= u32::MAX,
{
    reveal_strlit("_result");
    reveal_strlit("onFCPublish");
    reveal_strlit("fmsVer");
    reveal_strlit("FMS/5.0.15");
    reveal_strlit("capabilities");
    reveal_strlit("Connection succeeded.");
    let n = AmfValue::Number(u64_to_number_spec(transaction_id));
    let z = AmfValue::Number(u64_to_number_spec(0));
    let m = AmfValue::Number(u64_to_number_spec(message_id as u64));
    lemma_amf_size(n);
    lemma_amf_size(z);
    lemma_amf_size(m);
    lemma_amf_size(AmfValue::Null);
    lemma_amf_size(AmfValue::String("_result"@));
    lemma_amf_size(AmfValue::String("onFCPublish"@));
    lemma_amf_size(AmfValue::Object(connect_properties()));
    lemma_pairs_size_concat(
        seq![("fmsVer"@, AmfValue::String("FMS/5.0.15"@))],
        seq![("capabilities"@, AmfValue::Number(u64_to_number_spec(31)))],
    );
    assert(connect_properties() =~= seq![("fmsVer"@, AmfValue::String("FMS/5.0.15"@))] + seq![
        ("capabilities"@, AmfValue::Number(u64_to_number_spec(31))),
    ]);
    lemma_pairs_size_one("fmsVer"@, AmfValue::String("FMS/5.0.15"@));
    lemma_pairs_size_one("capabilities"@, AmfValue::Number(u64_to_number_spec(31)));
    let ci = connect_information();
    lemma_amf_size(AmfValue::Object(ci.to_pairs()));
    lemma_info_pairs_size(ci);
    lemma_name_lengths(ci.level->0, ci.code->0);
}

/// onStatus for a play path of `n` characters takes at most `8 n + 4096`
/// bytes: the play path stands in it twice, at most 4 bytes a character.
proof fn lemma_on_status_fits(status: Status, play_path: Seq<char>)
    ensures
        chunk_data_bytes(on_status_data(status, play_path)).len() <= 8 * play_path.len() + 4096,
{
    reveal_strlit("onStatus");
    reveal_strlit(" is now published");
    let z = AmfValue::Number(u64_to_number_spec(0));
    lemma_amf_size(z);
    lemma_amf_size(AmfValue::Null);
    lemma_amf_size(AmfValue::String("onStatus"@));
    let si = on_status_information(status, play_path);
    lemma_amf_size(AmfValue::Object(si.to_pairs()));
    lemma_info_pairs_size(si);
    lemma_name_lengths(si.level->0, si.code->0);
}

/// A play path that onStatus can carry within the machine's memory: at most
/// `(usize::MAX - 4096) / 8` bytes of UTF-8.
pub open spec fn play_path_sendable(play_path: Seq<char>) -> bool {
    encode_utf8(play_path).len() <= (usize::MAX - 4096) / 8
}

/// A play path that can be sent is short enough for `lemma_on_status_fits`.
proof fn lemma_sendable_chars(play_path: Seq<char>)
    requires
        play_path_sendable(play_path),
    ensures
        8 * play_path.len() + 4096 <= usize::MAX,
{
    lemma_utf8_len(play_path);
}

/// Returns whether the play path can be sent (see `play_path_sendable`).
fn sendable_play_path(play_path: &String) -> (r: bool)
    ensures
        r == play_path_sendable(play_path@),
{
    let n = play_path.as_str().as_bytes().len();
    n <= (usize::MAX - 4096) / 8
}

/// Returns the result of connect (see `connect_result_data`).
fn connect_result(transaction_id: u64) -> (r: ChunkData)
    ensures
        r@ == connect_result_data(transaction_id),
{
    let mut properties: Vec<(String, AmfData)> = Vec::new();
    properties.push(("fmsVer".to_owned(), AmfData::String("FMS/5.0.15".to_owned())));
    properties.push(("capabilities".to_owned(), AmfData::Number(u64_to_number(31))));
    let mut information = InfoObject::new();
    information.set_level(Some(InfoLevel::Status.to_string()));
    information.set_code(
        Some(Status::NetConnection(NetConnectionStatus::Connect(ConnectStatus::Success)).to_string()),
    );
    information.set_description(Some("Connection succeeded.".to_owned()));
    information.set_object_encoding(Some(u64_to_number(0)));
    proof {
        lemma_number_roundtrip(0);
        assert(pairs_value(properties@) =~= connect_properties());
        assert(information@ == connect_information());
    }
    ChunkData::Invoke(
        InvokeCommand::NetConnection(
            NetConnectionCommand::ConnectResult {
                result: NetConnectionResult::Result,
                transaction_id,
                properties,
                information,
            },
        ),
    )
}

/// Returns the result of releaseStream (see `release_stream_result_data`).
fn release_stream_result(transaction_id: u64) -> (r: ChunkData)
    ensures
        r@ == release_stream_result_data(transaction_id),
{
    ChunkData::Invoke(
        InvokeCommand::NetConnection(
            NetConnectionCommand::ReleaseStreamResult { result: NetConnectionResult::Result, transaction_id },
        ),
    )
}

/// Returns the result of createStream (see `create_stream_result_data`).
fn create_stream_result(transaction_id: u64, message_id: u32) -> (r: ChunkData)
    ensures
        r@ == create_stream_result_data(transaction_id, message_id),
{
    ChunkData::Invoke(
        InvokeCommand::NetConnection(
            NetConnectionCommand::CreateStreamResult {
                result: NetConnectionResult::Result,
                message_id,
                transaction_id,
            },
        ),
    )
}

/// Returns onStatus of `status` for the play path (see `on_status_data`).
fn on_status(status: Status, play_path: &String) -> (r: ChunkData)
    ensures
        r@ == on_status_data(status, play_path@),
{
    let mut information = InfoObject::new();
    information.set_level(Some(InfoLevel::Status.to_string()));
    information.set_code(Some(status.to_string()));
    let mut description = play_path.clone();
    description.append(" is now published");
    information.set_description(Some(description));
    information.set_details(Some(play_path.clone()));
    assert(information@ == on_status_information(status, play_path@));
    ChunkData::Invoke(
        InvokeCommand::NetStream(NetStreamCommand::OnStatus { transaction_id: 0, info_object: information }),
    )
}

/// The bytes that send the chunk data `d` on the chunk stream `chunk_id` as a
/// message of type `message_type`, of message stream id 0 and timestamp 0,
/// whose length is that of the bytes of `d`, after the last chunk `last` of
/// that chunk stream with the chunk size `chunk_size`.
#[verifier::opaque]
pub open spec fn data_bytes(
    last: Option<LastChunkView>,
    chunk_size: u32,
    chunk_id: ChunkId,
    message_type: MessageType,
    d: ChunkDataView,
) -> Seq<u8> {
    let payload = chunk_data_bytes(d);
    sent_bytes(last, chunk_size, chunk_id, message_type, 0, payload.len() as u32, 0, payload)
}

/// The message length of the chunk data `d`: the length of its bytes.
#[verifier::opaque]
pub open spec fn data_len(d: ChunkDataView) -> u32 {
    chunk_data_bytes(d).len() as u32
}

/// The bytes that send the chunk data `d` (see `data_bytes`), and the handler
/// after them, where that message is the last one sent on its chunk stream.
pub open spec fn sent_data(
    v: RtmpHandlerView,
    chunk_id: ChunkId,
    message_type: MessageType,
    d: ChunkDataView,
) -> (Seq<u8>, RtmpHandlerView) {
    (
        data_bytes(lookup(v.sent, chunk_id), v.chunk_size, chunk_id, message_type, d),
        RtmpHandlerView {
            last_sent_chunk_id: chunk_id,
            sent: v.sent.insert(chunk_id, sent_last(message_type, 0, data_len(d), 0, d)),
            ..v
        },
    )
}

/// The bytes that answer connect, and the handler after them: the result of
/// connect, the server bandwidth, the client bandwidth (dynamic), the ping
/// event Stream Begin, the chunk size and the result of connect again; the
/// state is then `SentConnectResult`.
pub open spec fn connect_answer(v: RtmpHandlerView) -> (Seq<u8>, RtmpHandlerView) {
    let s1 = sent_data(v, ChunkId::U8(3), MessageType::Invoke, connect_result_data(v.transaction_id));
    let v1 = s1.1;
    let s2 = sent_data(
        v1,
        ChunkId::U8(2),
        MessageType::ServerBandwidth,
        ChunkDataView::ServerBandwidth(v1.server_bandwidth),
    );
    let v2 = s2.1;
    let s3 = sent_data(
        v2,
        ChunkId::U8(2),
        MessageType::ClientBandwidth,
        ChunkDataView::ClientBandwidth(v2.client_bandwidth, LimitType::Dynamic),
    );
    let v3 = s3.1;
    let s4 = sent_data(
        v3,
        ChunkId::U8(2),
        MessageType::Ping,
        ChunkDataView::Ping(PingData::StreamBegin(v3.message_id)),
    );
    let v4 = s4.1;
    let s5 = sent_data(v4, ChunkId::U8(2), MessageType::ChunkSize, ChunkDataView::ChunkSize(v4.chunk_size));
    let v5 = s5.1;
    let s6 = sent_data(v5, ChunkId::U8(3), MessageType::Invoke, connect_result_data(v.transaction_id));
    (
        s1.0 + s2.0 + s3.0 + s4.0 + s5.0 + s6.0,
        RtmpHandlerView { state: RtmpState::SentConnectResult, ..s6.1 },
    )
}

/// The bytes that answer releaseStream (its result), and the handler after
/// them, in the state `SentReleaseStreamResult`.
pub open spec fn release_stream_answer(v: RtmpHandlerView) -> (Seq<u8>, RtmpHandlerView) {
    let s = sent_data(v, ChunkId::U8(3), MessageType::Invoke, release_stream_result_data(v.transaction_id));
    (s.0, RtmpHandlerView { state: RtmpState::SentReleaseStreamResult, ..s.1 })
}

/// The bytes that answer FCPublish (onFCPublish), and the handler after them,
/// in the state `SentOnFcPublish`.
pub open spec fn fc_publish_answer(v: RtmpHandlerView) -> (Seq<u8>, RtmpHandlerView) {
    let s = sent_data(v, ChunkId::U8(3), MessageType::Invoke, on_fc_publish_data());
    (s.0, RtmpHandlerView { state: RtmpState::SentOnFcPublish, ..s.1 })
}

/// The bytes that answer createStream (its result, with the message stream
/// id), and the handler after them, in the state `SentCreateStreamResult`.
pub open spec fn create_stream_answer(v: RtmpHandlerView) -> (Seq<u8>, RtmpHandlerView) {
    let s = sent_data(
        v,
        ChunkId::U8(3),
        MessageType::Invoke,
        create_stream_result_data(v.transaction_id, v.message_id),
    );
    (s.0, RtmpHandlerView { state: RtmpState::SentCreateStreamResult, ..s.1 })
}

/// The bytes that answer publish (the ping event Stream Begin, then onStatus
/// of publish start for the play path), and the handler after them, in the
/// state `Connected`.
pub open spec fn publish_answer(v: RtmpHandlerView) -> (Seq<u8>, RtmpHandlerView) {
    let s1 = sent_data(
        v,
        ChunkId::U8(2),
        MessageType::Ping,
        ChunkDataView::Ping(PingData::StreamBegin(v.message_id)),
    );
    let s2 = sent_data(
        s1.1,
        ChunkId::U8(3),
        MessageType::Invoke,
        on_status_data(
            Status::NetStream(NetStreamStatus::Publish(PublishStatus::Start)),
            v.play_path,
        ),
    );
    (s1.0 + s2.0, RtmpHandlerView { state: RtmpState::Connected, ..s2.1 })
}

/// The answer in the state that receiving an invocation left: to connect,
/// releaseStream, FCPublish, createStream or publish; in another state, or for
/// a play path that onStatus cannot carry within the machine's memory (see
/// `play_path_sendable`), the description of the error.
pub open spec fn invoke_answer(v: RtmpHandlerView) -> Result<(Seq<u8>, RtmpHandlerView), Seq<char>> {
    match v.state {
        RtmpState::ReceivedConnect => Ok(connect_answer(v)),
        RtmpState::ReceivedReleaseStream => Ok(release_stream_answer(v)),
        RtmpState::ReceivedFcPublish => Ok(fc_publish_answer(v)),
        RtmpState::ReceivedCreateStream => Ok(create_stream_answer(v)),
        RtmpState::ReceivedPublish => if play_path_sendable(v.play_path) {
            Ok(publish_answer(v))
        } else {
            Err("The play path is too long to be sent."@)
        },
        _ => Err("not implemented: other commands"@),
    }
}

/// The handler after an invocation was received, or the description of the
/// error it is: a request sets the transaction id (and the command object, the
/// play path and type it holds) and its state; a response is an error; an
/// unknown invocation changes nothing.
pub open spec fn invoke_received(v: RtmpHandlerView, c: InvokeCommandView) -> Result<
    RtmpHandlerView,
    Seq<char>,
> {
    match c {
        InvokeCommandView::NetConnection(n) => match n {
            NetConnectionCommandView::Connect { transaction_id, command_object, .. } => Ok(
                RtmpHandlerView {
                    transaction_id,
                    command_object,
                    state: RtmpState::ReceivedConnect,
                    ..v
                },
            ),
            NetConnectionCommandView::ReleaseStream { transaction_id, play_path } =>
                Ok(
                RtmpHandlerView {
                    transaction_id,
                    play_path,
                    state: RtmpState::ReceivedReleaseStream,
                    ..v
                },
            ),
            NetConnectionCommandView::CreateStream { transaction_id } => Ok(
                RtmpHandlerView { transaction_id, state: RtmpState::ReceivedCreateStream, ..v },
            ),
            _ => Err("_result response has been passed when receiving."@),
        },
        InvokeCommandView::NetStream(n) => match n {
            NetStreamCommandView::Publish { transaction_id, play_path, play_type } =>
                Ok(
                RtmpHandlerView {
                    transaction_id,
                    play_path,
                    play_type,
                    state: RtmpState::ReceivedPublish,
                    ..v
                },
            ),
            NetStreamCommandView::OnStatus { .. } => Err(
                "onStatus response has been passed when receiving."@,
            ),
        },
        InvokeCommandView::FcPublish(f) => match f {
            FcPublishCommandView::FcPublish { transaction_id, play_path } =>
                Ok(
                RtmpHandlerView {
                    transaction_id,
                    play_path,
                    state: RtmpState::ReceivedFcPublish,
                    ..v
                },
            ),
            FcPublishCommandView::OnFcPublish => Err(
                "onFCPublish response has been passed when receiving."@,
            ),
        },
        InvokeCommandView::Unknown(_) => Ok(v),
    }
}

/// Nothing changed but the FLV store, which got the audio tag of `b` at a
/// time after its creation; audio too long for an FLV tag (over 4294967284
/// bytes) leaves the store as it was.
pub open spec fn audio_received(v: RtmpHandlerView, after: RtmpHandlerView, b: Seq<u8>) -> bool {
    &&& after == (RtmpHandlerView { flv: after.flv, ..v })
    &&& if b.len() > 4294967284 {
        after.flv == v.flv
    } else {
        exists|now: u64| v.flv.created <= now && #[trigger] audio_appended(v.flv, after.flv, b, now)
    }
}

/// Nothing changed but the FLV store, which got the video tag of `b` at a
/// time after its creation; video too long for an FLV tag (over 4294967284
/// bytes) leaves the store as it was.
pub open spec fn video_received(v: RtmpHandlerView, after: RtmpHandlerView, b: Seq<u8>) -> bool {
    &&& after == (RtmpHandlerView { flv: after.flv, ..v })
    &&& if b.len() > 4294967284 {
        after.flv == v.flv
    } else {
        exists|now: u64| v.flv.created <= now && #[trigger] video_appended(v.flv, after.flv, b, now)
    }
}

/// Nothing changed but the FLV store, which got the script data tag of the
/// metadata `m` at a time after its creation; metadata whose tag does not fit
/// in an FLV tag (see `meta_data_tag_fits`) leaves the store as it was.
pub open spec fn meta_data_received(v: RtmpHandlerView, after: RtmpHandlerView, m: MetaDataView) -> bool {
    &&& after == (RtmpHandlerView { flv: after.flv, ..v })
    &&& if meta_data_tag_fits(m) {
        exists|now: u64| v.flv.created <= now && #[trigger] meta_data_appended(v.flv, after.flv, m, now)
    } else {
        after.flv == v.flv
    }
}

/// `r` is `Ok` with no bytes to send.
pub open spec fn nothing_sent(r: Result<Vec<u8>, RtmpError>) -> bool {
    r matches Ok(x) && x@.len() == 0
}

/// What handling the received chunk data `d` in the handler `v` gives: the
/// result `r` (the bytes to send back, or the error) and the handler `after`.
///
/// * The chunk size becomes the one received (0 too).
/// * The bytes read grow by those received (modulo 2^32).
/// * A ping is not handled.
/// * The server bandwidth, and the client bandwidth with its limit type,
///   become those received.
/// * Audio and video go to the FLV store, at the time of the clock (where
///   the clock stands after the store's creation).
/// * The metadata of `@setDataFrame` "onMetaData" goes to the FLV store;
///   another notify changes nothing.
/// * An invocation is received, then answered (see `invoke_received` and
///   `invoke_answer`); where the state it leaves has no answer, or the play
///   path cannot be sent, that is an error.
/// * Any other message changes nothing.
pub open spec fn chunk_handled(
    v: RtmpHandlerView,
    d: ChunkDataView,
    r: Result<Vec<u8>, RtmpError>,
    after: RtmpHandlerView,
) -> bool {
    match d {
        ChunkDataView::ChunkSize(n) => nothing_sent(r) && after == (RtmpHandlerView { chunk_size: n, ..v }),
        ChunkDataView::BytesRead(n) => nothing_sent(r) && after == (RtmpHandlerView {
            bytes_read: if v.bytes_read + n > u32::MAX {
                (v.bytes_read + n - 0x1_0000_0000) as u32
            } else {
                (v.bytes_read + n) as u32
            },
            ..v
        }),
        ChunkDataView::Ping(_) => (r matches Err(RtmpError::RtmpState(e)) && e@
            == "not implemented: when received ping"@) && after == v,
        ChunkDataView::ServerBandwidth(n) => nothing_sent(r) && after == (RtmpHandlerView {
            server_bandwidth: n,
            ..v
        }),
        ChunkDataView::ClientBandwidth(n, l) => nothing_sent(r) && after == (RtmpHandlerView {
            client_bandwidth: n,
            limit_type: l,
            ..v
        }),
        ChunkDataView::Audio(b) => nothing_sent(r) && audio_received(v, after, b),
        ChunkDataView::Video(b) => nothing_sent(r) && video_received(v, after, b),
        ChunkDataView::Notify(n) => nothing_sent(r) && match n {
            NotifyCommandView::SetDataFrame { data_frame, meta_data } => if data_frame == "onMetaData"@ {
                meta_data_received(v, after, meta_data)
            } else {
                after == v
            },
            NotifyCommandView::Unknown(_) => after == v,
        },
        ChunkDataView::Invoke(c) => match invoke_received(v, c) {
            Err(e) => (r matches Err(RtmpError::ChunkFormat(x)) && x@ == e) && after == v,
            Ok(v2) => match invoke_answer(v2) {
                Err(e) => (r matches Err(RtmpError::RtmpState(x)) && x@ == e) && after == v2,
                Ok((b, v3)) => (r matches Ok(x) && x@ == b) && after == v3,
            },
        },
        ChunkDataView::Unknown(_) => nothing_sent(r) && after == v,
    }
}

/// Handling the chunk data `d` in the handler `v` sends an answer: `d` is an
/// invocation that is received and leaves a state that has an answer (see
/// `invoke_received` and `invoke_answer`). An answer is sent in pieces of the
/// chunk size, which cannot be 0 then.
pub open spec fn answer_sent(v: RtmpHandlerView, d: Option<ChunkDataView>) -> bool {
    match d {
        Some(ChunkDataView::Invoke(c)) => match invoke_received(v, c) {
            Ok(v2) => invoke_answer(v2) is Ok,
            Err(_) => false,
        },
        _ => false,
    }
}

/// The states in which the handler reads chunks: all but `TcpConnect` (the
/// handshake), `Disconnecting`, `Disconnected` and `Error`.
pub open spec fn reads_chunks(s: RtmpState) -> bool {
    !(s is TcpConnect || s is Disconnecting || s is Disconnected || s is Error)
}

/// What the handler does next.
#[derive(Clone, Copy, Debug, PartialEq, Eq, Structural)]
pub enum Step {
    /// The handshake: read C0 and C1, send S0, S1 and S2, read C2.
    Handshake,
    /// Read a chunk and handle it.
    Chunk,
}

/// # The handler as the contracts see it
pub struct RtmpHandlerView {
    pub limit_type: LimitType,
    pub state: RtmpState,
    pub last_received_chunk_id: ChunkId,
    pub last_sent_chunk_id: ChunkId,
    pub message_id: u32,
    pub chunk_size: u32,
    pub bytes_read: u32,
    pub server_bandwidth: u32,
    pub client_bandwidth: u32,
    pub transaction_id: u64,
    pub play_path: Seq<char>,
    pub play_type: PlayType,
    pub handshake: RtmpHandshakeView,
    pub command_object: CommandObjectView,
    pub info_object: InfoObjectView,
    pub flv: Flv,
    pub received: Map<ChunkId, LastChunkView>,
    pub sent: Map<ChunkId, LastChunkView>,
}

/// # The handler of a connection
///
/// It holds the state of the connection, the limit type and bandwidths, the
/// message stream id, the chunk size, the bytes read, the transaction id, the
/// play path and type, the handshake, the command object of connect, the FLV
/// store, and the last chunk received and sent on each chunk stream.
#[derive(Debug)]
pub struct RtmpHandler {
    limit_type: LimitType,
    state: RtmpState,
    last_received_chunk_id: ChunkId,
    last_sent_chunk_id: ChunkId,
    message_id: u32,
    chunk_size: u32,
    bytes_read: u32,
    server_bandwidth: u32,
    client_bandwidth: u32,
    transaction_id: u64,
    play_path: String,
    play_type: PlayType,
    handshake: RtmpHandshake,
    command_object: CommandObject,
    info_object: InfoObject,
    flv: Flv,
    received_chunks: Vec<(ChunkId, LastChunk)>,
    sent_chunks: Vec<(ChunkId, LastChunk)>,
}

impl View for RtmpHandler {
    type V = RtmpHandlerView;

    closed spec fn view(&self) -> RtmpHandlerView {
        RtmpHandlerView {
            limit_type: self.limit_type,
            state: self.state,
            last_received_chunk_id: self.last_received_chunk_id,
            last_sent_chunk_id: self.last_sent_chunk_id,
            message_id: self.message_id,
            chunk_size: self.chunk_size,
            bytes_read: self.bytes_read,
            server_bandwidth: self.server_bandwidth,
            client_bandwidth: self.client_bandwidth,
            transaction_id: self.transaction_id,
            play_path: self.play_path@,
            play_type: self.play_type,
            handshake: self.handshake@,
            command_object: self.command_object@,
            info_object: self.info_object@,
            flv: self.flv,
            received: table_map(table_view(self.received_chunks@)),
            sent: table_map(table_view(self.sent_chunks@)),
        }
    }
}

/// The handshake can read C2: where it asked for digests, its S1 holds the
/// server's digest and its first 8 bytes.
pub open spec fn handshake_ready(h: RtmpHandshakeView) -> bool {
    h.fp9_handshake ==> h.digest_pos_server + 32 <= h.s1.len() && 8 <= h.s1.len()
}

impl RtmpHandlerView {
    /// A handler keeps a well formed FLV store, created at 0, and, past the
    /// start, a handshake that can read C2.
    pub open spec fn wf(self) -> bool {
        &&& self.flv.wf()
        &&& self.flv.created == 0
        &&& self.state != RtmpState::TcpConnect ==> handshake_ready(self.handshake)
    }
}

impl RtmpHandler {
    /// The chunk size that a connection starts with.
    pub const DEFAULT_CHUNK_SIZE: u32 = 128;
    /// The bandwidth that a connection starts with.
    pub const DEFAULT_BANDWIDTH: u32 = 3000000;

    /// Constructs a new handler for a server started at `start_time`
    /// (milliseconds since the Unix epoch).
    pub fn new(start_time: u64) -> (r: Self)
        ensures
            r@.wf(),
            r@.limit_type == LimitType::Hard,
            r@.state == RtmpState::TcpConnect,
            r@.last_received_chunk_id == ChunkId::U8(0),
            r@.last_sent_chunk_id == ChunkId::U8(0),
            r@.message_id == 0,
            r@.chunk_size == RtmpHandler::DEFAULT_CHUNK_SIZE,
            r@.bytes_read == 0,
            r@.server_bandwidth == RtmpHandler::DEFAULT_BANDWIDTH,
            r@.client_bandwidth == RtmpHandler::DEFAULT_BANDWIDTH,
            r@.transaction_id == 0,
            r@.play_path == Seq::<char>::empty(),
            r@.play_type == PlayType::Live,
            r@.handshake == (RtmpHandshakeView {
                fp9_handshake: true,
                digest_pos_server: 0,
                start_time,
                s1: Seq::empty(),
                s2: Seq::empty(),
            }),
            r@.command_object == CommandObjectView::empty(),
            r@.info_object == InfoObjectView::empty(),
            r@.flv.created == 0,
            r@.flv.body@.len() == 0,
            r@.received == Map::<ChunkId, LastChunkView>::empty(),
            r@.sent == Map::<ChunkId, LastChunkView>::empty(),
    {
        let flv = Flv::default();
        proof {
            crate::flv::lemma_empty_wf(flv);
        }
        let r = RtmpHandler {
            limit_type: LimitType::Hard,
            state: RtmpState::TcpConnect,
            last_received_chunk_id: ChunkId::U8(0),
            last_sent_chunk_id: ChunkId::U8(0),
            message_id: 0,
            chunk_size: RtmpHandler::DEFAULT_CHUNK_SIZE,
            bytes_read: 0,
            server_bandwidth: RtmpHandler::DEFAULT_BANDWIDTH,
            client_bandwidth: RtmpHandler::DEFAULT_BANDWIDTH,
            transaction_id: 0,
            play_path: String::new(),
            play_type: PlayType::Live,
            handshake: RtmpHandshake::new(start_time),
            command_object: CommandObject::new(),
            info_object: InfoObject::new(),
            flv,
            received_chunks: Vec::new(),
            sent_chunks: Vec::new(),
        };
        proof {
            assert(table_view(r.received_chunks@) =~= Seq::empty());
            assert(table_view(r.sent_chunks@) =~= Seq::empty());
            assert(r@.play_path =~= Seq::<char>::empty());
        }
        r
    }

    /// Returns the state of the connection.
    pub fn get_state(&self) -> (r: RtmpState)
        ensures
            r == self@.state,
    {
        self.state
    }

    /// Returns the chunk size that chunks are read and sent with.
    pub fn get_chunk_size(&self) -> (r: u32)
        ensures
            r == self@.chunk_size,
    {
        self.chunk_size
    }

    /// Reads C0 and C1 (see `RtmpHandshake::decode_client_request1`); where
    /// they are accepted, the state becomes `ReceivedHandshake`.
    pub fn receive_c0c1(&mut self, c0c1: Vec<u8>) -> (r: Result<(), RtmpError>)
        requires
            old(self)@.wf(),
            old(self)@.state == RtmpState::TcpConnect,
        ensures
            final(self)@.wf(),
            exists|up: Option<u64>, randoms: Seq<u8>|
                randoms.len() == 1528 && request1_result(
                    r,
                    #[trigger] request1_spec(old(self)@.handshake, c0c1@, up, randoms).0,
                ) && final(self)@.handshake == request1_spec(
                    old(self)@.handshake,
                    c0c1@,
                    up,
                    randoms,
                ).1,
            r is Ok && final(self)@.handshake.fp9_handshake ==> final(self)@.handshake.s2.len()
                == c0c1@.len() - 1,
            final(self)@.state == if r is Ok {
                RtmpState::ReceivedHandshake
            } else {
                RtmpState::TcpConnect
            },
            final(self)@ == (RtmpHandlerView {
                state: final(self)@.state,
                handshake: final(self)@.handshake,
                ..old(self)@
            }),
    {
        let ghost before = self@;
        let r = self.handshake.decode_client_request1(c0c1);
        let ghost (up, randoms) = choose|up: Option<u64>, randoms: Seq<u8>|
            randoms.len() == 1528 && request1_result(
                r,
                #[trigger] request1_spec(before.handshake, c0c1@, up, randoms).0,
            ) && self.handshake@ == request1_spec(before.handshake, c0c1@, up, randoms).1;
        if r.is_ok() {
            self.state = RtmpState::ReceivedHandshake;
            proof {
                if self.handshake@.fp9_handshake {
                    let hb = crate::handshake::server_handshake_bytes(up->0, randoms);
                    assert(hb.len() == 1536);
                }
            }
        }
        assert(randoms.len() == 1528 && request1_result(
            r,
            request1_spec(before.handshake, c0c1@, up, randoms).0,
        ) && self@.handshake == request1_spec(before.handshake, c0c1@, up, randoms).1);
        r
    }

    /// Returns S0, S1 and S2, one after the other.
    pub fn s0s1s2(&mut self) -> (r: Vec<u8>)
        ensures
            r@ == seq![crate::handshake::RTMP_VERSION] + old(self)@.handshake.s1 + old(
                self,
            )@.handshake.s2,
            final(self)@ == old(self)@,
    {
        self.handshake.get_s0s1s2()
    }

    /// Reads C2 (see `RtmpHandshake::decode_client_request2`); where it is
    /// accepted, the state becomes `HandshakeDone`.
    pub fn receive_c2(&mut self, c2: Vec<u8>) -> (r: Result<(), RtmpError>)
        requires
            old(self)@.wf(),
            old(self)@.state == RtmpState::ReceivedHandshake,
        ensures
            final(self)@.wf(),
            r is Ok <==> c2@.len() >= 1536 && c2_accepted(old(self)@.handshake, c2@),
            c2@.len() < 1536 ==> (r matches Err(RtmpError::ChunkLength(e)) && e@
                == "Requested RTMP chunk's size is not 1536 bytes!"@),
            c2@.len() >= 1536 && !c2_accepted(old(self)@.handshake, c2@) ==> (r matches Err(
                RtmpError::SignatureDoesNotMatch(e),
            ) && e@ == "Client signature doesn't match!"@),
            final(self)@ == (RtmpHandlerView {
                state: if r is Ok {
                    RtmpState::HandshakeDone
                } else {
                    RtmpState::ReceivedHandshake
                },
                ..old(self)@
            }),
    {
        let r = self.handshake.decode_client_request2(c2);
        if r.is_ok() {
            self.state = RtmpState::HandshakeDone;
        }
        r
    }

    /// Returns, for the basic and message headers `header` of a chunk being
    /// read, whether an extended timestamp follows (where the timestamp it
    /// holds or inherits is `0xFFFFFF` or more) and the length of its chunk
    /// data (that it holds or inherits, 0 where neither); a `ChunkFormatError`
    /// where a header cannot be read.
    pub fn chunk_body_plan(&self, header: &Vec<u8>) -> (r: Result<(bool, u32), RtmpError>)
        ensures
            match parse_basic_header(header@, 0) {
                None => r matches Err(RtmpError::ChunkFormat(e)) && e@
                    == "The basic header format is invalid."@,
                Some(((f, id), p)) => match parse_message_header(header@, p, header@.len() as int, f) {
                    None => r matches Err(RtmpError::ChunkFormat(e)) && e@
                        == "The message header format is invalid."@,
                    Some((h, _)) => {
                        let fields = inherited(h, lookup(self@.received, id));
                        r matches Ok((ext, len)) && ext == (fields.timestamp matches Some(t) && t
                            >= U24_MAX) && len == match fields.message_len {
                            Some(n) => n,
                            None => 0,
                        }
                    },
                },
            },
    {
        let mut buffer = ByteBuffer::new(slice_to_vec(header, 0, header.len()));
        proof {
            assert(header@.subrange(0, header@.len() as int) =~= header@);
        }
        let basic = match buffer.decode_basic_header() {
            Some(b) => b,
            None => return Err(basic_header_error()),
        };
        let message_header = match buffer.decode_message_header(basic.get_message_format()) {
            Some(h) => h,
            None => return Err(message_header_error()),
        };
        let (timestamp, message_len) = match table_get(&self.received_chunks, basic.get_chunk_id()) {
            Some(last) => (
                match message_header.get_timestamp() {
                    Some(t) => Some(t),
                    None => last.get_timestamp(),
                },
                match message_header.get_message_len() {
                    Some(n) => Some(n),
                    None => last.get_message_len(),
                },
            ),
            None => (message_header.get_timestamp(), message_header.get_message_len()),
        };
        let extended = match timestamp {
            Some(t) => t >= U24_MAX as u64,
            None => false,
        };
        Ok(
            (
                extended,
                match message_len {
                    Some(n) => n,
                    None => 0,
                },
            ),
        )
    }

    /// Reads a chunk from the bytes that were read for it: its basic header,
    /// message header, extended timestamp and chunk data (of the message type
    /// that it holds or inherits; unknown where neither). The chunk is then
    /// the last one received on its chunk stream, with the fields it holds or
    /// inherits and its extended timestamp, where it has one, as timestamp. A
    /// `ChunkFormatError` where a header cannot be read.
    pub fn receive_chunk(&mut self, bytes: Vec<u8>) -> (r: Result<Chunk, RtmpError>)
        requires
            old(self)@.wf(),
        ensures
            final(self)@.wf(),
            match parse_basic_header(bytes@, 0) {
                None => (r matches Err(RtmpError::ChunkFormat(e)) && e@
                    == "The basic header format is invalid."@) && final(self)@ == old(self)@,
                Some(((f, id), p1)) => match parse_message_header(
                    bytes@,
                    p1,
                    bytes@.len() as int,
                    f,
                ) {
                    None => (r matches Err(RtmpError::ChunkFormat(e)) && e@
                        == "The message header format is invalid."@) && final(self)@ == old(self)@,
                    Some((h, p2)) => {
                        let fields = inherited(h, lookup(old(self)@.received, id));
                        let ext = parse_extended_timestamp(bytes@, p2, h);
                        let p3 = match ext {
                            Some((_, q)) => q,
                            None => p2,
                        };
                        let ext_value = match ext {
                            Some((t, _)) => Some(t),
                            None => None,
                        };
                        let message_type = match fields.message_type {
                            Some(t) => t,
                            None => MessageType::Unknown,
                        };
                        let data = parse_chunk_data(bytes@, p3, bytes@.len() as int, message_type);
                        let read = match data {
                            Some((d, _)) => Some(d),
                            None => None,
                        };
                        &&& r matches Ok(c)
                        &&& c.basic_header_spec()@ == (f, id)
                        &&& c.message_header_spec() == h
                        &&& c.extended_timestamp_spec() == ext_value
                        &&& opt_chunk_data(c.chunk_data_spec()) == read
                        &&& final(self)@ == (RtmpHandlerView {
                            last_received_chunk_id: id,
                            received: old(self)@.received.insert(
                                id,
                                LastChunkView {
                                    timestamp: or_else(ext_value, fields.timestamp),
                                    chunk_data: read,
                                    ..fields
                                },
                            ),
                            ..old(self)@
                        })
                    },
                },
            },
    {
        let mut buffer = ByteBuffer::new(bytes);
        let basic = match buffer.decode_basic_header() {
            Some(b) => b,
            None => return Err(basic_header_error()),
        };
        let chunk_id = basic.get_chunk_id();
        let message_header = match buffer.decode_message_header(basic.get_message_format()) {
            Some(h) => h,
            None => return Err(message_header_error()),
        };
        let (timestamp, message_len, message_type, message_id) = match table_get(
            &self.received_chunks,
            chunk_id,
        ) {
            Some(last) => (
                match message_header.get_timestamp() {
                    Some(t) => Some(t),
                    None => last.get_timestamp(),
                },
                match message_header.get_message_len() {
                    Some(n) => Some(n),
                    None => last.get_message_len(),
                },
                match message_header.get_message_type() {
                    Some(t) => Some(t),
                    None => last.get_message_type(),
                },
                match message_header.get_message_id() {
                    Some(n) => Some(n),
                    None => last.get_message_id(),
                },
            ),
            None => (
                message_header.get_timestamp(),
                message_header.get_message_len(),
                message_header.get_message_type(),
                message_header.get_message_id(),
            ),
        };
        let extended_timestamp = buffer.decode_extended_timestamp(message_header);
        let data_type = match message_type {
            Some(t) => t,
            None => MessageType::Unknown,
        };
        // The chunk data is read twice from the same bytes: once for the
        // chunk that is handed out, once for the table of received chunks.
        let data_start = buffer.offset();
        let chunk_data = buffer.decode_chunk_data(data_type);
        buffer.rewind_to(data_start);
        let kept = buffer.decode_chunk_data(data_type);
        let chunk = Chunk::new(basic, extended_timestamp, message_header, chunk_data);
        table_insert(
            &mut self.received_chunks,
            chunk_id,
            LastChunk::new(
                message_type,
                message_id,
                message_len,
                match extended_timestamp {
                    Some(t) => Some(t),
                    None => timestamp,
                },
                kept,
            ),
        );
        self.last_received_chunk_id = chunk_id;
        Ok(chunk)
    }

    /// Sends a message on the chunk stream `chunk_id` (see `sent_bytes`), whose
    /// chunk data is `payload`, the bytes of `chunk_data`; the message, with
    /// its chunk data, is then the last one sent on that chunk stream.
    fn send_chunk(
        &mut self,
        chunk_id: ChunkId,
        message_type: MessageType,
        message_id: u32,
        message_len: u32,
        timestamp: u64,
        payload: Vec<u8>,
        chunk_data: ChunkData,
    ) -> (r: Vec<u8>)
        requires
            old(self)@.wf(),
            old(self)@.chunk_size > 0,
            message_len <= payload@.len(),
        ensures
            final(self)@.wf(),
            r@ == sent_bytes(
                lookup(old(self)@.sent, chunk_id),
                old(self)@.chunk_size,
                chunk_id,
                message_type,
                message_id,
                message_len,
                timestamp,
                payload@,
            ),
            final(self)@ == (RtmpHandlerView {
                last_sent_chunk_id: chunk_id,
                sent: old(self)@.sent.insert(
                    chunk_id,
                    sent_last(message_type, message_id, message_len, timestamp, chunk_data@),
                ),
                ..old(self)@
            }),
    {
        let format = match table_get(&self.sent_chunks, chunk_id) {
            None => MessageFormat::New,
            Some(last) => {
                let same_id = match last.get_message_id() {
                    Some(id) => id == message_id,
                    None => false,
                };
                let same_type = match last.get_message_type() {
                    Some(t) => t == message_type,
                    None => false,
                };
                let same_len = match last.get_message_len() {
                    Some(n) => n == message_len,
                    None => false,
                };
                let same_time = match last.get_timestamp() {
                    Some(t) => t == timestamp,
                    None => false,
                };
                if same_id {
                    if same_type && same_len {
                        if same_time {
                            MessageFormat::Continue
                        } else {
                            MessageFormat::TimerChange
                        }
                    } else {
                        MessageFormat::SameSource
                    }
                } else {
                    MessageFormat::New
                }
            },
        };
        let extended_timestamp = if timestamp >= U24_MAX as u64 {
            Some(timestamp)
        } else {
            None
        };
        let header_time = if timestamp >= U24_MAX as u64 {
            U24_MAX as u64
        } else {
            timestamp
        };
        let message_header = match format {
            MessageFormat::New => MessageHeader::New {
                message_type,
                message_id,
                message_len,
                timestamp: header_time,
            },
            MessageFormat::SameSource => MessageHeader::SameSource {
                message_type,
                message_len,
                timestamp: header_time,
            },
            MessageFormat::TimerChange => MessageHeader::TimerChange { timestamp: header_time },
            MessageFormat::Continue => MessageHeader::Continue,
        };
        let mut out = header_bytes(format, chunk_id, message_header, extended_timestamp);
        if message_len > self.chunk_size {
            let separator = header_bytes(
                MessageFormat::Continue,
                chunk_id,
                MessageHeader::Continue,
                None,
            );
            proof {
                assert(separator@ =~= basic_header_bytes(MessageFormat::Continue, chunk_id));
            }
            push_split(&mut out, &payload, message_len as usize, self.chunk_size as usize, &separator);
        } else {
            push_all(&mut out, &payload);
        }
        self.last_sent_chunk_id = chunk_id;
        table_insert(
            &mut self.sent_chunks,
            chunk_id,
            LastChunk::new(
                Some(message_type),
                Some(message_id),
                Some(message_len),
                Some(header_time),
                Some(chunk_data),
            ),
        );
        out
    }

    /// Sends the chunk data `data` (see `sent_data`); `kept`, the same chunk
    /// data, is kept as that of the last message sent on the chunk stream.
    fn send_data(
        &mut self,
        chunk_id: ChunkId,
        message_type: MessageType,
        data: ChunkData,
        kept: ChunkData,
    ) -> (r: Vec<u8>)
        requires
            old(self)@.wf(),
            old(self)@.chunk_size > 0,
            kept@ == data@,
            chunk_data_bytes(data@).len() <= usize::MAX,
        ensures
            final(self)@.wf(),
            (r@, final(self)@) == sent_data(old(self)@, chunk_id, message_type, data@),
    {
        let ghost d = data@;
        let mut buffer = ByteBuffer::new(Vec::new());
        let ghost b0 = buffer@;
        assert(b0.bytes =~= Seq::<u8>::empty());
        buffer.encode_chunk_data(Some(data));
        assert(buffer@.bytes =~= chunk_data_bytes(d));
        let bytes = buffer.bytes();
        let payload = slice_to_vec(bytes, 0, bytes.len());
        assert(payload@ =~= chunk_data_bytes(d));
        let len = payload.len() as u32;
        let r = self.send_chunk(chunk_id, message_type, 0, len, 0, payload, kept);
        proof {
            reveal(data_bytes);
            reveal(data_len);
        }
        assert(r@ == sent_data(old(self)@, chunk_id, message_type, d).0);
        assert(self@ == sent_data(old(self)@, chunk_id, message_type, d).1);
        r
    }

    /// Sends the server bandwidth on the network chunk stream.
    fn send_server_bandwidth(&mut self) -> (r: Vec<u8>)
        requires
            old(self)@.wf(),
            old(self)@.chunk_size > 0,
        ensures
            final(self)@.wf(),
            (r@, final(self)@) == sent_data(
                old(self)@,
                ChunkId::U8(2),
                MessageType::ServerBandwidth,
                ChunkDataView::ServerBandwidth(old(self)@.server_bandwidth),
            ),
    {
        let data = ChunkData::ServerBandwidth(self.server_bandwidth);
        let kept = ChunkData::ServerBandwidth(self.server_bandwidth);
        self.send_data(Channel::Network.chunk_id(), MessageType::ServerBandwidth, data, kept)
    }

    /// Sends the client bandwidth, with `limit_type`, on the network chunk stream.
    fn send_client_bandwidth(&mut self, limit_type: LimitType) -> (r: Vec<u8>)
        requires
            old(self)@.wf(),
            old(self)@.chunk_size > 0,
        ensures
            final(self)@.wf(),
            (r@, final(self)@) == sent_data(
                old(self)@,
                ChunkId::U8(2),
                MessageType::ClientBandwidth,
                ChunkDataView::ClientBandwidth(old(self)@.client_bandwidth, limit_type),
            ),
    {
        let data = ChunkData::ClientBandwidth(self.client_bandwidth, limit_type);
        let kept = ChunkData::ClientBandwidth(self.client_bandwidth, limit_type);
        self.send_data(Channel::Network.chunk_id(), MessageType::ClientBandwidth, data, kept)
    }

    /// Sends the ping event Stream Begin, of the message stream id, on the
    /// network chunk stream.
    fn send_ping_stream_begin(&mut self) -> (r: Vec<u8>)
        requires
            old(self)@.wf(),
            old(self)@.chunk_size > 0,
        ensures
            final(self)@.wf(),
            (r@, final(self)@) == sent_data(
                old(self)@,
                ChunkId::U8(2),
                MessageType::Ping,
                ChunkDataView::Ping(PingData::StreamBegin(old(self)@.message_id)),
            ),
    {
        let data = ChunkData::Ping(PingData::StreamBegin(self.message_id));
        let kept = ChunkData::Ping(PingData::StreamBegin(self.message_id));
        self.send_data(Channel::Network.chunk_id(), MessageType::Ping, data, kept)
    }

    /// Sends the chunk size on the network chunk stream.
    fn send_chunk_size(&mut self) -> (r: Vec<u8>)
        requires
            old(self)@.wf(),
            old(self)@.chunk_size > 0,
        ensures
            final(self)@.wf(),
            (r@, final(self)@) == sent_data(
                old(self)@,
                ChunkId::U8(2),
                MessageType::ChunkSize,
                ChunkDataView::ChunkSize(old(self)@.chunk_size),
            ),
    {
        let data = ChunkData::ChunkSize(self.chunk_size);
        let kept = ChunkData::ChunkSize(self.chunk_size);
        self.send_data(Channel::Network.chunk_id(), MessageType::ChunkSize, data, kept)
    }
    /// Sends the ping event of `ping_type` on the network chunk stream.
    fn send_ping(&mut self, ping_type: PingType) -> (r: Vec<u8>)
        requires
            old(self)@.wf(),
            old(self)@.chunk_size > 0,
        ensures
            final(self)@.wf(),
            (r@, final(self)@) == sent_data(
                old(self)@,
                ChunkId::U8(2),
                MessageType::Ping,
                ChunkDataView::Ping(PingData::StreamBegin(old(self)@.message_id)),
            ),
    {
        match ping_type {
            PingType::StreamBegin => self.send_ping_stream_begin(),
        }
    }

    /// Sends the result of connect on the system chunk stream.
    fn send_connect_result(&mut self, transaction_id: u64) -> (r: Vec<u8>)
        requires
            old(self)@.wf(),
            old(self)@.chunk_size > 0,
        ensures
            final(self)@.wf(),
            (r@, final(self)@) == sent_data(
                old(self)@,
                ChunkId::U8(3),
                MessageType::Invoke,
                connect_result_data(transaction_id),
            ),
    {
        proof {
            lemma_answers_fit(transaction_id, 0);
        }
        let data = connect_result(transaction_id);
        let kept = connect_result(transaction_id);
        self.send_data(Channel::System.chunk_id(), MessageType::Invoke, data, kept)
    }

    /// Answers connect (see `connect_answer`).
    fn handle_connect(&mut self) -> (r: Vec<u8>)
        requires
            old(self)@.wf(),
            old(self)@.chunk_size > 0,
            old(self)@.state != RtmpState::TcpConnect,
        ensures
            final(self)@.wf(),
            (r@, final(self)@) == connect_answer(old(self)@),
    {
        let transaction_id = self.transaction_id;
        let mut out = self.send_connect_result(transaction_id);
        let bytes = self.send_server_bandwidth();
        push_all(&mut out, &bytes);
        let bytes = self.send_client_bandwidth(LimitType::Dynamic);
        push_all(&mut out, &bytes);
        let bytes = self.send_ping(PingType::StreamBegin);
        push_all(&mut out, &bytes);
        let bytes = self.send_chunk_size();
        push_all(&mut out, &bytes);
        let bytes = self.send_connect_result(transaction_id);
        push_all(&mut out, &bytes);
        self.state = RtmpState::SentConnectResult;
        out
    }

    /// Answers releaseStream (see `release_stream_answer`).
    fn handle_release_stream(&mut self) -> (r: Vec<u8>)
        requires
            old(self)@.wf(),
            old(self)@.chunk_size > 0,
            old(self)@.state != RtmpState::TcpConnect,
        ensures
            final(self)@.wf(),
            (r@, final(self)@) == release_stream_answer(old(self)@),
    {
        let transaction_id = self.transaction_id;
        proof {
            lemma_answers_fit(transaction_id, 0);
        }
        let data = release_stream_result(transaction_id);
        let kept = release_stream_result(transaction_id);
        let out = self.send_data(Channel::System.chunk_id(), MessageType::Invoke, data, kept);
        self.state = RtmpState::SentReleaseStreamResult;
        out
    }

    /// Answers FCPublish (see `fc_publish_answer`).
    fn handle_fc_publish(&mut self) -> (r: Vec<u8>)
        requires
            old(self)@.wf(),
            old(self)@.chunk_size > 0,
            old(self)@.state != RtmpState::TcpConnect,
        ensures
            final(self)@.wf(),
            (r@, final(self)@) == fc_publish_answer(old(self)@),
    {
        proof {
            lemma_answers_fit(0, 0);
        }
        let data = ChunkData::Invoke(InvokeCommand::FcPublish(FcPublishCommand::OnFcPublish));
        let kept = ChunkData::Invoke(InvokeCommand::FcPublish(FcPublishCommand::OnFcPublish));
        let out = self.send_data(Channel::System.chunk_id(), MessageType::Invoke, data, kept);
        self.state = RtmpState::SentOnFcPublish;
        out
    }

    /// Answers createStream (see `create_stream_answer`).
    fn handle_create_stream(&mut self) -> (r: Vec<u8>)
        requires
            old(self)@.wf(),
            old(self)@.chunk_size > 0,
            old(self)@.state != RtmpState::TcpConnect,
        ensures
            final(self)@.wf(),
            (r@, final(self)@) == create_stream_answer(old(self)@),
    {
        let transaction_id = self.transaction_id;
        let message_id = self.message_id;
        proof {
            lemma_answers_fit(transaction_id, message_id);
        }
        let data = create_stream_result(transaction_id, message_id);
        let kept = create_stream_result(transaction_id, message_id);
        let out = self.send_data(Channel::System.chunk_id(), MessageType::Invoke, data, kept);
        self.state = RtmpState::SentCreateStreamResult;
        out
    }

    /// Sends onStatus of `status` for the play path on the system chunk stream.
    fn send_on_status(&mut self, status: Status, play_path: &String) -> (r: Vec<u8>)
        requires
            old(self)@.wf(),
            old(self)@.chunk_size > 0,
            8 * play_path@.len() + 4096 <= usize::MAX,
        ensures
            final(self)@.wf(),
            (r@, final(self)@) == sent_data(
                old(self)@,
                ChunkId::U8(3),
                MessageType::Invoke,
                on_status_data(status, play_path@),
            ),
    {
        proof {
            lemma_on_status_fits(status, play_path@);
        }
        let data = on_status(status, play_path);
        let kept = on_status(status, play_path);
        self.send_data(Channel::System.chunk_id(), MessageType::Invoke, data, kept)
    }

    /// Answers publish (see `publish_answer`), for a play path that can be
    /// sent (see `play_path_sendable`).
    fn handle_publish(&mut self) -> (r: Vec<u8>)
        requires
            old(self)@.wf(),
            old(self)@.chunk_size > 0,
            old(self)@.state != RtmpState::TcpConnect,
            play_path_sendable(old(self)@.play_path),
        ensures
            final(self)@.wf(),
            (r@, final(self)@) == publish_answer(old(self)@),
    {
        let mut out = self.send_ping(PingType::StreamBegin);
        let play_path = self.play_path.clone();
        proof {
            lemma_sendable_chars(play_path@);
        }
        let bytes = self.send_on_status(
            Status::NetStream(NetStreamStatus::Publish(PublishStatus::Start)),
            &play_path,
        );
        push_all(&mut out, &bytes);
        self.state = RtmpState::Connected;
        out
    }

    /// Receives an invocation (see `invoke_received`).
    fn receive_invoke(&mut self, invoke_command: InvokeCommand) -> (r: Result<(), RtmpError>)
        requires
            old(self)@.wf(),
            old(self)@.state != RtmpState::TcpConnect,
        ensures
            final(self)@.wf(),
            match invoke_received(old(self)@, invoke_command@) {
                Err(e) => (r matches Err(RtmpError::ChunkFormat(x)) && x@ == e) && final(self)@
                    == old(self)@,
                Ok(v) => r is Ok && final(self)@ == v,
            },
    {
        match invoke_command {
            InvokeCommand::NetConnection(n) => match n {
                NetConnectionCommand::Connect { transaction_id, command_object, .. } => {
                    self.transaction_id = transaction_id;
                    self.command_object = command_object;
                    self.state = RtmpState::ReceivedConnect;
                },
                NetConnectionCommand::ReleaseStream { transaction_id, play_path } => {
                    self.transaction_id = transaction_id;
                    self.play_path = play_path;
                    self.state = RtmpState::ReceivedReleaseStream;
                },
                NetConnectionCommand::CreateStream { transaction_id } => {
                    self.transaction_id = transaction_id;
                    self.state = RtmpState::ReceivedCreateStream;
                },
                _ => {
                    return Err(format_error("_result response has been passed when receiving."));
                },
            },
            InvokeCommand::NetStream(n) => match n {
                NetStreamCommand::Publish { transaction_id, play_path, play_type } => {
                    self.transaction_id = transaction_id;
                    self.play_path = play_path;
                    self.play_type = play_type;
                    self.state = RtmpState::ReceivedPublish;
                },
                _ => {
                    return Err(format_error("onStatus response has been passed when receiving."));
                },
            },
            InvokeCommand::FcPublish(f) => match f {
                FcPublishCommand::FcPublish { transaction_id, play_path } => {
                    self.transaction_id = transaction_id;
                    self.play_path = play_path;
                    self.state = RtmpState::ReceivedFcPublish;
                },
                _ => {
                    return Err(format_error("onFCPublish response has been passed when receiving."));
                },
            },
            InvokeCommand::Unknown(_) => {},
        }
        Ok(())
    }

    /// Appends audio data to the FLV store, at the time of the clock; data
    /// too long for an FLV tag is left out.
    fn receive_audio(&mut self, bytes: Vec<u8>)
        requires
            old(self)@.wf(),
        ensures
            final(self)@.wf(),
            audio_received(old(self)@, final(self)@, bytes@),
            bytes@.len() > 4294967284 ==> final(self)@ == old(self)@,
    {
        if bytes.len() <= 4294967284 {
            proof {
                crate::flv::lemma_wf_last_fits(self.flv);
            }
            self.flv.append_audio(bytes);
        }
    }

    /// Appends video data to the FLV store, at the time of the clock; data
    /// too long for an FLV tag is left out.
    fn receive_video(&mut self, bytes: Vec<u8>)
        requires
            old(self)@.wf(),
        ensures
            final(self)@.wf(),
            video_received(old(self)@, final(self)@, bytes@),
            bytes@.len() > 4294967284 ==> final(self)@ == old(self)@,
    {
        if bytes.len() <= 4294967284 {
            proof {
                crate::flv::lemma_wf_last_fits(self.flv);
            }
            self.flv.append_video(bytes);
        }
    }

    /// Appends the metadata of `@setDataFrame` "onMetaData" to the FLV store,
    /// at the time of the clock; another notify changes nothing, and neither
    /// does metadata whose script data tag does not fit in an FLV tag (see
    /// `meta_data_tag_fits`).
    fn receive_notify(&mut self, notify_command: NotifyCommand)
        requires
            old(self)@.wf(),
        ensures
            final(self)@.wf(),
            match notify_command@ {
                NotifyCommandView::SetDataFrame { data_frame, meta_data } => if data_frame
                    == "onMetaData"@ {
                    meta_data_received(old(self)@, final(self)@, meta_data)
                } else {
                    final(self)@ == old(self)@
                },
                NotifyCommandView::Unknown(_) => final(self)@ == old(self)@,
            },
    {
        match notify_command {
            NotifyCommand::SetDataFrame { data_frame, mut meta_data } => {
                if str_equals(&data_frame, "onMetaData") && meta_data_fits(&mut meta_data) {
                    proof {
                        crate::flv::lemma_wf_last_fits(self.flv);
                        lemma_meta_data_tag_len(meta_data@);
                    }
                    self.flv.append_meta_data(meta_data);
                }
            },
            NotifyCommand::Unknown(_) => {},
        }
    }

    /// Returns what the handler does next: the handshake at the start, chunks
    /// after it; an error once the connection is closing, closed or failed,
    /// which are not handled.
    pub fn next_step(&self) -> (r: Result<Step, RtmpError>)
        ensures
            self@.state is TcpConnect ==> r == Ok::<Step, RtmpError>(Step::Handshake),
            reads_chunks(self@.state) ==> r == Ok::<Step, RtmpError>(Step::Chunk),
            !(self@.state is TcpConnect) && !reads_chunks(self@.state) ==> (r matches Err(
                RtmpError::RtmpState(e),
            ) && e@ == "not implemented: when disconnection and error"@),
    {
        match self.state {
            RtmpState::TcpConnect => Ok(Step::Handshake),
            RtmpState::Disconnecting | RtmpState::Disconnected | RtmpState::Error => Err(
                state_error("not implemented: when disconnection and error"),
            ),
            _ => Ok(Step::Chunk),
        }
    }

    /// Returns whether handling the chunk sends an answer (see `answer_sent`).
    pub fn sends_answer(&self, chunk: &Chunk) -> (r: bool)
        ensures
            r == answer_sent(self@, opt_chunk_data(chunk.chunk_data_spec())),
    {
        match chunk.get_chunk_data() {
            Some(ChunkData::Invoke(c)) => match c {
                InvokeCommand::NetConnection(n) => match n {
                    NetConnectionCommand::Connect { .. } => true,
                    NetConnectionCommand::ReleaseStream { .. } => true,
                    NetConnectionCommand::CreateStream { .. } => true,
                    _ => false,
                },
                InvokeCommand::NetStream(n) => match n {
                    NetStreamCommand::Publish { play_path, .. } => sendable_play_path(play_path),
                    _ => false,
                },
                InvokeCommand::FcPublish(f) => match f {
                    FcPublishCommand::FcPublish { .. } => true,
                    _ => false,
                },
                InvokeCommand::Unknown(_) => match self.state {
                    RtmpState::ReceivedConnect => true,
                    RtmpState::ReceivedReleaseStream => true,
                    RtmpState::ReceivedFcPublish => true,
                    RtmpState::ReceivedCreateStream => true,
                    RtmpState::ReceivedPublish => sendable_play_path(&self.play_path),
                    _ => false,
                },
            },
            _ => false,
        }
    }

    /// Handles a received chunk: what its chunk data changes, and the bytes
    /// that answer it (see `chunk_handled`); a `ChunkFormatError` where it has
    /// no chunk data.
    pub fn handle_received_chunk(&mut self, chunk: Chunk) -> (r: Result<Vec<u8>, RtmpError>)
        requires
            old(self)@.wf(),
            reads_chunks(old(self)@.state),
            old(self)@.chunk_size == 0 ==> !answer_sent(old(self)@, opt_chunk_data(chunk.chunk_data_spec())),
        ensures
            final(self)@.wf(),
            match opt_chunk_data(chunk.chunk_data_spec()) {
                None => (r matches Err(RtmpError::ChunkFormat(e)) && e@
                    == "Somehow the chunk data is nothing."@) && final(self)@ == old(self)@,
                Some(d) => chunk_handled(old(self)@, d, r, final(self)@),
            },
    {
        let chunk_data = match chunk.into_chunk_data() {
            Some(d) => d,
            None => return Err(format_error("Somehow the chunk data is nothing.")),
        };
        match chunk_data {
            ChunkData::ChunkSize(chunk_size) => {
                self.chunk_size = chunk_size;
                Ok(Vec::new())
            },
            ChunkData::BytesRead(bytes_read) => {
                self.bytes_read = self.bytes_read.wrapping_add(bytes_read);
                Ok(Vec::new())
            },
            ChunkData::Ping(_) => Err(state_error("not implemented: when received ping")),
            ChunkData::ServerBandwidth(bandwidth) => {
                self.server_bandwidth = bandwidth;
                Ok(Vec::new())
            },
            ChunkData::ClientBandwidth(bandwidth, limit_type) => {
                self.client_bandwidth = bandwidth;
                self.limit_type = limit_type;
                Ok(Vec::new())
            },
            ChunkData::Audio(bytes) => {
                self.receive_audio(bytes);
                Ok(Vec::new())
            },
            ChunkData::Video(bytes) => {
                self.receive_video(bytes);
                Ok(Vec::new())
            },
            ChunkData::Notify(notify_command) => {
                self.receive_notify(notify_command);
                Ok(Vec::new())
            },
            ChunkData::Invoke(invoke_command) => {
                match self.receive_invoke(invoke_command) {
                    Ok(()) => {},
                    Err(e) => return Err(e),
                }
                match self.state {
                    RtmpState::ReceivedConnect => Ok(self.handle_connect()),
                    RtmpState::ReceivedReleaseStream => Ok(self.handle_release_stream()),
                    RtmpState::ReceivedFcPublish => Ok(self.handle_fc_publish()),
                    RtmpState::ReceivedCreateStream => Ok(self.handle_create_stream()),
                    RtmpState::ReceivedPublish => if sendable_play_path(&self.play_path) {
                        Ok(self.handle_publish())
                    } else {
                        Err(state_error("The play path is too long to be sent."))
                    },
                    _ => Err(state_error("not implemented: other commands")),
                }
            },
            ChunkData::Unknown(_) => Ok(Vec::new()),
        }
    }
}

} // verus!
