//! # The chunk messages
//!
//! After the handshake, the server and the client send each other chunk messages.
//! A chunk consists of, in order:
//!
//! 1. The chunk basic header: the format of the chunk message header (2 bits) and
//!    the chunk stream id (6 bits, 1 byte or 2 bytes).
//! 2. The chunk message header: timestamp (3 bytes), message length (3 bytes),
//!    message type (1 byte) and message stream id (4 bytes, little endian), of
//!    which the format keeps 11, 7, 3 or 0 bytes.
//! 3. The extended timestamp (4 bytes), present when the timestamp field holds
//!    `0xFFFFFF`.
//! 4. The chunk data.
//!
//! Timestamps are counted in seconds here, as the decoder reads them.
//! An AMF0 `Number` is held as the 64 bits of its IEEE 754 double, exactly as it
//! stands on the wire; see `amf_number` for its conversions to and from integers.
//! An AMF0 object is held as its name/value pairs in the order they were
//! inserted, with no name twice.
use vstd::prelude::*;
use crate::amf_number::{number_to_u64, number_to_u64_spec, u64_to_number, u64_to_number_spec, lemma_number_roundtrip};
pub use crate::info::{InfoObject, InfoObjectView};
pub use crate::metadata::{MetaData, MetaDataView};
pub use crate::buffer::{ByteBuffer, ByteBufferView};
pub use crate::commands::{
    NetConnectionCommand, FcPublishCommand, NetStreamCommand, InvokeCommand, PingData,
    NotifyCommand, ChunkData, Chunk, NetConnectionCommandView, FcPublishCommandView,
    NetStreamCommandView, InvokeCommandView, NotifyCommandView, ChunkDataView, opt_chunk_data,
};
use crate::text::{str_equals, starts_with, starts_with_spec, after_first_dot, after_first_dot_of, first_index_of, lemma_first_index_of_concat};

verus! {

/// # The maximum value of the three-byte fields (message length, timestamp)
pub const U24_MAX: u32 = 0x00ffffff;

/// # The format of the chunk message header
///
/// |Number|MessageFormat |
/// | ---: | :----------- |
/// |0     |`New`         |
/// |1     |`SameSource`  |
/// |2     |`TimerChange` |
/// |3     |`Continue`    |
#[derive(Clone, Copy, Debug, PartialEq, Eq, Structural)]
pub enum MessageFormat {
    New,
    SameSource,
    TimerChange,
    Continue,
}

impl MessageFormat {
    /// The number that stands for this value on the wire.
    pub open spec fn id_spec(self) -> u8 {
        match self {
            MessageFormat::New => 0,
            MessageFormat::SameSource => 1,
            MessageFormat::TimerChange => 2,
            MessageFormat::Continue => 3,
        }
    }

    /// The value that `id` stands for, if any.
    pub open spec fn from_id_spec(id: u8) -> Option<MessageFormat> {
        if id == 0 {
            Some(MessageFormat::New)
        } else if id == 1 {
            Some(MessageFormat::SameSource)
        } else if id == 2 {
            Some(MessageFormat::TimerChange)
        } else if id == 3 {
            Some(MessageFormat::Continue)
        } else {
            None
        }
    }

    /// Returns the number that stands for this value on the wire.
    pub fn id(&self) -> (r: u8)
        ensures
            r == self.id_spec(),
            MessageFormat::from_id_spec(r) == Some(*self),
    {
        match self {
            MessageFormat::New => 0,
            MessageFormat::SameSource => 1,
            MessageFormat::TimerChange => 2,
            MessageFormat::Continue => 3,
        }
    }

    /// Returns the value that `id` stands for, or `None` where `id` names none.
    pub fn from_id(id: u8) -> (r: Option<MessageFormat>)
        ensures
            r == MessageFormat::from_id_spec(id),
            r matches Some(v) ==> v.id_spec() == id,
    {
        if id == 0 {
            Some(MessageFormat::New)
        } else if id == 1 {
            Some(MessageFormat::SameSource)
        } else if id == 2 {
            Some(MessageFormat::TimerChange)
        } else if id == 3 {
            Some(MessageFormat::Continue)
        } else {
            None
        }
    }
}

/// # The message types of the chunk message header
///
/// |Number|MessageType      |
/// | ---: | :-------------- |
/// |1     |`ChunkSize`      |
/// |3     |`BytesRead`      |
/// |4     |`Ping`           |
/// |5     |`ServerBandwidth`|
/// |6     |`ClientBandwidth`|
/// |8     |`Audio`          |
/// |9     |`Video`          |
/// |18    |`Notify` (AMF0)  |
/// |20    |`Invoke` (AMF0)  |
/// |Other |`Unknown`        |
///
/// `Unknown` is written as 21, the number after `Invoke`.
#[derive(Clone, Copy, Debug, PartialEq, Eq, Structural)]
pub enum MessageType {
    ChunkSize,
    BytesRead,
    Ping,
    ServerBandwidth,
    ClientBandwidth,
    Audio,
    Video,
    Notify,
    Invoke,
    Unknown,
}

impl MessageType {
    /// The number that stands for this value on the wire.
    pub open spec fn id_spec(self) -> u8 {
        match self {
            MessageType::ChunkSize => 1,
            MessageType::BytesRead => 3,
            MessageType::Ping => 4,
            MessageType::ServerBandwidth => 5,
            MessageType::ClientBandwidth => 6,
            MessageType::Audio => 8,
            MessageType::Video => 9,
            MessageType::Notify => 18,
            MessageType::Invoke => 20,
            MessageType::Unknown => 21,
        }
    }

    /// The value that `id` stands for; `Unknown` for every number it does not name.
    pub open spec fn from_id_spec(id: u8) -> MessageType {
        if id == 1 {
            MessageType::ChunkSize
        } else if id == 3 {
            MessageType::BytesRead
        } else if id == 4 {
            MessageType::Ping
        } else if id == 5 {
            MessageType::ServerBandwidth
        } else if id == 6 {
            MessageType::ClientBandwidth
        } else if id == 8 {
            MessageType::Audio
        } else if id == 9 {
            MessageType::Video
        } else if id == 18 {
            MessageType::Notify
        } else if id == 20 {
            MessageType::Invoke
        } else {
            MessageType::Unknown
        }
    }

    /// Returns the number that stands for this value on the wire.
    pub fn id(&self) -> (r: u8)
        ensures
            r == self.id_spec(),
            MessageType::from_id_spec(r) == *self,
    {
        match self {
            MessageType::ChunkSize => 1,
            MessageType::BytesRead => 3,
            MessageType::Ping => 4,
            MessageType::ServerBandwidth => 5,
            MessageType::ClientBandwidth => 6,
            MessageType::Audio => 8,
            MessageType::Video => 9,
            MessageType::Notify => 18,
            MessageType::Invoke => 20,
            MessageType::Unknown => 21,
        }
    }

    /// Returns the value that `id` stands for; `Unknown` for every number it does not name.
    pub fn from_id(id: u8) -> (r: MessageType)
        ensures
            r == MessageType::from_id_spec(id),
            r != MessageType::Unknown ==> r.id_spec() == id,
    {
        if id == 1 {
            MessageType::ChunkSize
        } else if id == 3 {
            MessageType::BytesRead
        } else if id == 4 {
            MessageType::Ping
        } else if id == 5 {
            MessageType::ServerBandwidth
        } else if id == 6 {
            MessageType::ClientBandwidth
        } else if id == 8 {
            MessageType::Audio
        } else if id == 9 {
            MessageType::Video
        } else if id == 18 {
            MessageType::Notify
        } else if id == 20 {
            MessageType::Invoke
        } else {
            MessageType::Unknown
        }
    }
}

/// # The chunk stream id
///
/// An id from 0 to 255 is held as `ChunkId::U8(n)`, one above 255 as `ChunkId::U16(n)`.
#[derive(Clone, Copy, Debug, PartialEq, Eq, Hash, Structural)]
pub enum ChunkId {
    U8(u8),
    U16(u16),
}

impl ChunkId {
    /// The number of the chunk stream.
    pub open spec fn number(self) -> int {
        match self {
            ChunkId::U8(n) => n as int,
            ChunkId::U16(n) => n as int,
        }
    }
}

impl Default for ChunkId {
    /// The chunk stream id 0, held as `U8`.
    fn default() -> (r: Self)
        ensures
            r == ChunkId::U8(0),
    {
        ChunkId::U8(0)
    }
}

/// # The chunk basic header
///
/// The format of the chunk message header and the chunk stream id.
#[derive(Clone, Copy, Debug, PartialEq, Eq, Structural)]
pub struct BasicHeader {
    message_format: MessageFormat,
    chunk_id: ChunkId,
}

impl View for BasicHeader {
    type V = (MessageFormat, ChunkId);

    closed spec fn view(&self) -> (MessageFormat, ChunkId) {
        (self.message_format, self.chunk_id)
    }
}

impl BasicHeader {
    /// The bits of the first byte that hold the format of the chunk message header.
    pub const MESSAGE_HEADER_FORMAT: u8 = 0xc0;
    /// The bits of the first byte that hold the chunk stream id (or the marker of its longer forms).
    pub const BASIC_HEADER_TYPE: u8 = 0x3f;
    /// The length of the first byte, and of the rest of the header for ids 64 to 319.
    pub const LEN_ONE_BYTE: usize = 1;
    /// The length of the rest of the header for ids 320 to 65599.
    pub const LEN_TWO_BYTES: usize = 2;

    /// Constructs a new `BasicHeader`.
    pub fn new(message_format: MessageFormat, chunk_id: ChunkId) -> (r: Self)
        ensures
            r@ == (message_format, chunk_id),
    {
        BasicHeader { message_format, chunk_id }
    }

    /// Returns the format of the chunk message header.
    pub fn get_message_format(&self) -> (r: MessageFormat)
        ensures
            r == self@.0,
    {
        self.message_format
    }

    /// Returns the chunk stream id.
    pub fn get_chunk_id(&self) -> (r: ChunkId)
        ensures
            r == self@.1,
    {
        self.chunk_id
    }
}

/// # The chunk message header
///
/// |Field            |Format 0|Format 1|Format 2|Format 3|
/// | :-------------- | :----: | :----: | :----: | :----: |
/// |Timestamp        |✔       |✔       |✔       |-       |
/// |Message length   |✔       |✔       |-       |-       |
/// |Message type     |✔       |✔       |-       |-       |
/// |Message stream id|✔       |-       |-       |-       |
///
/// The timestamp is counted in seconds.
#[derive(Clone, Copy, Debug, PartialEq, Eq, Structural)]
pub enum MessageHeader {
    New { message_type: MessageType, message_id: u32, message_len: u32, timestamp: u64 },
    SameSource { message_type: MessageType, message_len: u32, timestamp: u64 },
    TimerChange { timestamp: u64 },
    Continue,
}

impl MessageHeader {
    /// The length of the format 0.
    pub const LEN_NEW: usize = 11;
    /// The length of the format 1.
    pub const LEN_SAME_SOURCE: usize = 7;
    /// The length of the format 2.
    pub const LEN_TIMER_CHANGE: usize = 3;

    /// The message type that this header holds, if its format holds one.
    pub open spec fn message_type_spec(self) -> Option<MessageType> {
        match self {
            MessageHeader::New { message_type, .. } => Some(message_type),
            MessageHeader::SameSource { message_type, .. } => Some(message_type),
            _ => None,
        }
    }

    /// The message length that this header holds, if its format holds one.
    pub open spec fn message_len_spec(self) -> Option<u32> {
        match self {
            MessageHeader::New { message_len, .. } => Some(message_len),
            MessageHeader::SameSource { message_len, .. } => Some(message_len),
            _ => None,
        }
    }

    /// The timestamp that this header holds, if its format holds one.
    pub open spec fn timestamp_spec(self) -> Option<u64> {
        match self {
            MessageHeader::New { timestamp, .. } => Some(timestamp),
            MessageHeader::SameSource { timestamp, .. } => Some(timestamp),
            MessageHeader::TimerChange { timestamp } => Some(timestamp),
            MessageHeader::Continue => None,
        }
    }

    /// The message stream id that this header holds, if its format holds one.
    pub open spec fn message_id_spec(self) -> Option<u32> {
        match self {
            MessageHeader::New { message_id, .. } => Some(message_id),
            _ => None,
        }
    }

    /// Returns the message type: `Some` for `New` and `SameSource`, `None` otherwise.
    pub fn get_message_type(&self) -> (r: Option<MessageType>)
        ensures
            r == self.message_type_spec(),
    {
        match self {
            MessageHeader::New { message_type, .. } => Some(*message_type),
            MessageHeader::SameSource { message_type, .. } => Some(*message_type),
            _ => None,
        }
    }

    /// Returns the message length: `Some` for `New` and `SameSource`, `None` otherwise.
    pub fn get_message_len(&self) -> (r: Option<u32>)
        ensures
            r == self.message_len_spec(),
    {
        match self {
            MessageHeader::New { message_len, .. } => Some(*message_len),
            MessageHeader::SameSource { message_len, .. } => Some(*message_len),
            _ => None,
        }
    }

    /// Returns the timestamp: `Some` for every format but `Continue`.
    pub fn get_timestamp(&self) -> (r: Option<u64>)
        ensures
            r == self.timestamp_spec(),
    {
        match self {
            MessageHeader::New { timestamp, .. } => Some(*timestamp),
            MessageHeader::SameSource { timestamp, .. } => Some(*timestamp),
            MessageHeader::TimerChange { timestamp } => Some(*timestamp),
            MessageHeader::Continue => None,
        }
    }

    /// Returns the message stream id: `Some` for `New` only.
    pub fn get_message_id(&self) -> (r: Option<u32>)
        ensures
            r == self.message_id_spec(),
    {
        match self {
            MessageHeader::New { message_id, .. } => Some(*message_id),
            _ => None,
        }
    }
}

/// # An AMF0 value as the contracts see it
///
/// A `Number` holds the bits of its double, a `String` its characters, and an
/// object its name/value pairs in order.
pub enum AmfValue {
    Number(u64),
    Boolean(bool),
    String(Seq<char>),
    Object(Seq<(Seq<char>, AmfValue)>),
    Null,
    MixedArray(Seq<(Seq<char>, AmfValue)>),
    ObjectEnd,
}

/// # The AMF0 data
///
/// * `Number`: an 8 byte IEEE 754 double, held as its bits.
/// * `Boolean`: 1 byte; 1 is `true`.
/// * `String`: a 2 byte length, then the UTF-8 bytes.
/// * `Object`: name/value pairs, ended by the object end marker.
/// * `Null`: no value.
/// * `MixedArray`: a 4 byte count, then the same as `Object`.
/// * `ObjectEnd`: the marker `0x00 0x00 0x09` that ends an object.
///
/// An object is held as its name/value pairs; a name that comes again replaces
/// the value it had.
#[derive(Debug)]
pub enum AmfData {
    Number(u64),
    Boolean(bool),
    String(String),
    Object(Vec<(String, AmfData)>),
    Null,
    MixedArray(Vec<(String, AmfData)>),
    ObjectEnd,
}

/// The name/value pairs of an object as the contracts see them.
pub open spec fn pairs_value(o: Seq<(String, AmfData)>) -> Seq<(Seq<char>, AmfValue)> {
    Seq::new(o.len(), |i: int| (o[i].0@, o[i].1.value()))
}

/// The index of the first pair named `k`, or -1 where there is none.
pub open spec fn key_index(s: Seq<(Seq<char>, AmfValue)>, k: Seq<char>) -> int
    decreases s.len(),
{
    if s.len() == 0 {
        -1
    } else if key_index(s.drop_last(), k) >= 0 {
        key_index(s.drop_last(), k)
    } else if s.last().0 == k {
        s.len() - 1
    } else {
        -1
    }
}

/// The pairs after inserting `(k, v)`: the value of a pair named `k` is
/// replaced, and a new pair goes last.
pub open spec fn pairs_insert(s: Seq<(Seq<char>, AmfValue)>, k: Seq<char>, v: AmfValue) -> Seq<
    (Seq<char>, AmfValue),
> {
    let i = key_index(s, k);
    if i >= 0 {
        s.update(i, (k, v))
    } else {
        s.push((k, v))
    }
}

/// No name stands twice among the pairs.
pub open spec fn distinct_keys(s: Seq<(Seq<char>, AmfValue)>) -> bool {
    forall|i: int, j: int| 0 <= i < j < s.len() ==> s[i].0 != s[j].0
}

/// `key_index` finds a pair of the name `k`, or gives -1 where no pair has it.
pub proof fn lemma_key_index(s: Seq<(Seq<char>, AmfValue)>, k: Seq<char>)
    ensures
        -1 <= key_index(s, k) < s.len(),
        key_index(s, k) >= 0 ==> s[key_index(s, k)].0 == k,
        key_index(s, k) < 0 ==> forall|j: int| 0 <= j < s.len() ==> s[j].0 != k,
    decreases s.len(),
{
    if s.len() > 0 {
        lemma_key_index(s.drop_last(), k);
        if key_index(s, k) < 0 {
            assert forall|j: int| 0 <= j < s.len() implies s[j].0 != k by {
                if j < s.len() - 1 {
                    assert(s[j] == s.drop_last()[j]);
                }
            }
        }
    }
}

/// Inserting keeps the names distinct.
pub proof fn lemma_pairs_insert_distinct(s: Seq<(Seq<char>, AmfValue)>, k: Seq<char>, v: AmfValue)
    requires
        distinct_keys(s),
    ensures
        distinct_keys(pairs_insert(s, k, v)),
{
    lemma_key_index(s, k);
}

impl AmfData {
    /// Actual object end marker: an empty name, then the `ObjectEnd` type marker.
    pub open spec fn object_end_sequence() -> Seq<u8> {
        seq![0u8, 0u8, 9u8]
    }

    /// This data as the contracts see it.
    pub open spec fn value(&self) -> AmfValue
        decreases self,
    {
        match self {
            AmfData::Number(n) => AmfValue::Number(*n),
            AmfData::Boolean(b) => AmfValue::Boolean(*b),
            AmfData::String(s) => AmfValue::String(s@),
            AmfData::Object(o) => {
                proof {
                    assert forall|i: int| 0 <= i < o@.len() implies decreases_to!(self => o@[i].1) by {
                        assert(decreases_to!(self => o));
                        assert(decreases_to!(o => o@));
                        assert(decreases_to!(o@ => o@[i]));
                        assert(decreases_to!(o@[i] => o@[i].1));
                    }
                }
                AmfValue::Object(
                    Seq::new(
                        o@.len(),
                        |i: int|
                            if 0 <= i < o@.len() {
                                (o@[i].0@, o@[i].1.value())
                            } else {
                                (Seq::empty(), AmfValue::Null)
                            },
                    ),
                )
            },
            AmfData::Null => AmfValue::Null,
            AmfData::MixedArray(o) => {
                proof {
                    assert forall|i: int| 0 <= i < o@.len() implies decreases_to!(self => o@[i].1) by {
                        assert(decreases_to!(self => o));
                        assert(decreases_to!(o => o@));
                        assert(decreases_to!(o@ => o@[i]));
                        assert(decreases_to!(o@[i] => o@[i].1));
                    }
                }
                AmfValue::MixedArray(
                    Seq::new(
                        o@.len(),
                        |i: int|
                            if 0 <= i < o@.len() {
                                (o@[i].0@, o@[i].1.value())
                            } else {
                                (Seq::empty(), AmfValue::Null)
                            },
                    ),
                )
            },
            AmfData::ObjectEnd => AmfValue::ObjectEnd,
        }
    }

    /// The pairs of an `Object` or a `MixedArray` are seen as `pairs_value`.
    pub proof fn lemma_value_pairs(&self)
        ensures
            self matches AmfData::Object(o) ==> self.value() == AmfValue::Object(pairs_value(o@)),
            self matches AmfData::MixedArray(o) ==> self.value() == AmfValue::MixedArray(
                pairs_value(o@),
            ),
    {
        match self {
            AmfData::Object(o) => {
                assert(AmfValue::Object(pairs_value(o@)) == self.value()) by {
                    if let AmfValue::Object(p) = self.value() {
                        assert(p =~= pairs_value(o@));
                    }
                }
            },
            AmfData::MixedArray(o) => {
                assert(AmfValue::MixedArray(pairs_value(o@)) == self.value()) by {
                    if let AmfValue::MixedArray(p) = self.value() {
                        assert(p =~= pairs_value(o@));
                    }
                }
            },
            _ => {},
        }
    }

    /// Returns the bits of the number if this is a `Number`, `None` otherwise.
    pub fn number(self) -> (r: Option<u64>)
        ensures
            r == (match self.value() {
                AmfValue::Number(n) => Some(n),
                _ => None,
            }),
    {
        match self {
            AmfData::Number(n) => Some(n),
            _ => None,
        }
    }

    /// Returns the boolean if this is a `Boolean`, `None` otherwise.
    pub fn boolean(self) -> (r: Option<bool>)
        ensures
            r == (match self.value() {
                AmfValue::Boolean(b) => Some(b),
                _ => None,
            }),
    {
        match self {
            AmfData::Boolean(b) => Some(b),
            _ => None,
        }
    }

    /// Returns the string if this is a `String`, `None` otherwise.
    pub fn string(self) -> (r: Option<String>)
        ensures
            r is Some <==> self.value() is String,
            r matches Some(s) ==> self.value() == AmfValue::String(s@),
    {
        match self {
            AmfData::String(s) => Some(s),
            _ => None,
        }
    }

    /// Returns the pairs if this is an `Object` or a `MixedArray`, `None` otherwise.
    pub fn object(self) -> (r: Option<Vec<(String, AmfData)>>)
        ensures
            r is Some <==> (self.value() is Object || self.value() is MixedArray),
            r matches Some(o) ==> (self.value() == AmfValue::Object(pairs_value(o@))
                || self.value() == AmfValue::MixedArray(pairs_value(o@))),
    {
        proof {
            self.lemma_value_pairs();
        }
        match self {
            AmfData::Object(o) => Some(o),
            AmfData::MixedArray(o) => Some(o),
            _ => None,
        }
    }
}

/// A copy of an AMF0 value.
pub fn clone_data(d: &AmfData) -> (r: AmfData)
    ensures
        r.value() == d.value(),
    decreases d,
{
    proof {
        d.lemma_value_pairs();
    }
    match d {
        AmfData::Number(n) => AmfData::Number(*n),
        AmfData::Boolean(b) => AmfData::Boolean(*b),
        AmfData::String(s) => AmfData::String(s.clone()),
        AmfData::Object(o) => {
            let c = clone_pairs(o);
            let r = AmfData::Object(c);
            proof {
                r.lemma_value_pairs();
            }
            r
        },
        AmfData::Null => AmfData::Null,
        AmfData::MixedArray(o) => {
            let c = clone_pairs(o);
            let r = AmfData::MixedArray(c);
            proof {
                r.lemma_value_pairs();
            }
            r
        },
        AmfData::ObjectEnd => AmfData::ObjectEnd,
    }
}

/// A copy of the pairs of an AMF0 object.
pub fn clone_pairs(o: &Vec<(String, AmfData)>) -> (r: Vec<(String, AmfData)>)
    ensures
        pairs_value(r@) == pairs_value(o@),
    decreases o,
{
    let mut r: Vec<(String, AmfData)> = Vec::new();
    let mut i: usize = 0;
    while i < o.len()
        invariant
            i <= o@.len(),
            pairs_value(r@) == pairs_value(o@).subrange(0, i as int),
        decreases o@.len() - i,
    {
        proof {
            assert(decreases_to!(o => o@));
            assert(decreases_to!(o@ => o@[i as int]));
            assert(decreases_to!(o@[i as int] => o@[i as int].1));
        }
        let k = o[i].0.clone();
        let v = clone_data(&o[i].1);
        let ghost before = r@;
        proof {
            lemma_pairs_value_push(before, k, v);
        }
        r.push((k, v));
        i = i + 1;
        assert(pairs_value(r@) =~= pairs_value(o@).subrange(0, i as int));
    }
    assert(pairs_value(o@).subrange(0, o@.len() as int) =~= pairs_value(o@));
    r
}

impl Clone for AmfData {
    fn clone(&self) -> (r: Self)
        ensures
            r.value() == self.value(),
    {
        clone_data(self)
    }
}

/// Inserts `(key, value)` into the pairs of an object: the value of a pair named
/// `key` is replaced, and otherwise the pair goes last.
pub fn object_insert(o: &mut Vec<(String, AmfData)>, key: String, value: AmfData)
    ensures
        pairs_value(final(o)@) == pairs_insert(pairs_value(old(o)@), key@, value.value()),
{
    let ghost s = pairs_value(old(o)@);
    proof {
        lemma_key_index(s, key@);
    }
    let mut i: usize = 0;
    while i < o.len()
        invariant
            o@ == old(o)@,
            s == pairs_value(o@),
            i <= o@.len(),
            forall|j: int| 0 <= j < i ==> s[j].0 != key@,
            -1 <= key_index(s, key@) < s.len(),
            key_index(s, key@) >= 0 ==> s[key_index(s, key@)].0 == key@,
            key_index(s, key@) < 0 ==> forall|j: int| 0 <= j < s.len() ==> s[j].0 != key@,
        decreases o@.len() - i,
    {
        if str_equals(&o[i].0, key.as_str()) {
            proof {
                lemma_first_key_is_index(s, key@, i as int);
            }
            let ghost before = o@;
            o.set(i, (key, value));
            proof {
                assert(pairs_value(o@) =~= pairs_insert(s, key@, value.value())) by {
                    assert(key_index(s, key@) == i);
                }
            }
            return;
        }
        assert(s[i as int].0 == o@[i as int].0@);
        i = i + 1;
    }
    assert(key_index(s, key@) < 0);
    let ghost k = key@;
    let ghost v = value.value();
    o.push((key, value));
    assert(pairs_value(o@) =~= s.push((k, v)));
}

/// A pair named `k` at `i`, with no such pair before it, is the one `key_index` finds.
pub proof fn lemma_first_key_is_index(s: Seq<(Seq<char>, AmfValue)>, k: Seq<char>, i: int)
    requires
        0 <= i < s.len(),
        s[i].0 == k,
        forall|j: int| 0 <= j < i ==> s[j].0 != k,
    ensures
        key_index(s, k) == i,
    decreases s.len(),
{
    if i < s.len() - 1 {
        lemma_first_key_is_index(s.drop_last(), k, i);
    } else {
        lemma_key_index(s.drop_last(), k);
    }
}

/// This is the optional argument of the connect command. Its presence is not checked yet.
#[derive(Clone, Copy, Debug, PartialEq, Eq, Structural)]
pub struct Argument;
/// # The AMF0 type markers
///
/// |Number|AmfDataType  |
/// | ---: | :---------- |
/// |0     |`Number`     |
/// |1     |`Boolean`    |
/// |2     |`String`     |
/// |3     |`Object`     |
/// |5     |`Null`       |
/// |8     |`MixedArray` |
/// |9     |`ObjectEnd`  |
#[derive(Clone, Copy, Debug, PartialEq, Eq, Structural)]
pub enum AmfDataType {
    Number,
    Boolean,
    String,
    Object,
    Null,
    MixedArray,
    ObjectEnd,
}

impl AmfDataType {
    /// The number that stands for this value on the wire.
    pub open spec fn id_spec(self) -> u8 {
        match self {
            AmfDataType::Number => 0,
            AmfDataType::Boolean => 1,
            AmfDataType::String => 2,
            AmfDataType::Object => 3,
            AmfDataType::Null => 5,
            AmfDataType::MixedArray => 8,
            AmfDataType::ObjectEnd => 9,
        }
    }

    /// The value that `id` stands for, if any.
    pub open spec fn from_id_spec(id: u8) -> Option<AmfDataType> {
        if id == 0 {
            Some(AmfDataType::Number)
        } else if id == 1 {
            Some(AmfDataType::Boolean)
        } else if id == 2 {
            Some(AmfDataType::String)
        } else if id == 3 {
            Some(AmfDataType::Object)
        } else if id == 5 {
            Some(AmfDataType::Null)
        } else if id == 8 {
            Some(AmfDataType::MixedArray)
        } else if id == 9 {
            Some(AmfDataType::ObjectEnd)
        } else {
            None
        }
    }

    /// Returns the number that stands for this value on the wire.
    pub fn id(&self) -> (r: u8)
        ensures
            r == self.id_spec(),
            AmfDataType::from_id_spec(r) == Some(*self),
    {
        match self {
            AmfDataType::Number => 0,
            AmfDataType::Boolean => 1,
            AmfDataType::String => 2,
            AmfDataType::Object => 3,
            AmfDataType::Null => 5,
            AmfDataType::MixedArray => 8,
            AmfDataType::ObjectEnd => 9,
        }
    }

    /// Returns the value that `id` stands for, or `None` where `id` names none.
    pub fn from_id(id: u8) -> (r: Option<AmfDataType>)
        ensures
            r == AmfDataType::from_id_spec(id),
            r matches Some(v) ==> v.id_spec() == id,
    {
        if id == 0 {
            Some(AmfDataType::Number)
        } else if id == 1 {
            Some(AmfDataType::Boolean)
        } else if id == 2 {
            Some(AmfDataType::String)
        } else if id == 3 {
            Some(AmfDataType::Object)
        } else if id == 5 {
            Some(AmfDataType::Null)
        } else if id == 8 {
            Some(AmfDataType::MixedArray)
        } else if id == 9 {
            Some(AmfDataType::ObjectEnd)
        } else {
            None
        }
    }
}

/// # The audio codec flags of the command object
///
/// |Number|AudioCodec|
/// | ---: | :------- |
/// |0x0001|`AudioNone`|
/// |0x0002|`Adpcm`   |
/// |0x0004|`Mp3`     |
/// |0x0008|`Intel`   |
/// |0x0010|`Unused`  |
/// |0x0020|`Nerry8`  |
/// |0x0040|`Nerry`   |
/// |0x0080|`G711a`   |
/// |0x0100|`G711u`   |
/// |0x0200|`Nerry16` |
/// |0x0400|`Aac`     |
/// |0x0800|`Speex`   |
/// |0x0fff|`All`     |
#[derive(Clone, Copy, Debug, PartialEq, Eq, Structural)]
pub enum AudioCodec {
    AudioNone,
    Adpcm,
    Mp3,
    Intel,
    Unused,
    Nerry8,
    Nerry,
    G711a,
    G711u,
    Nerry16,
    Aac,
    Speex,
    All,
}

impl AudioCodec {
    /// The number that stands for this value on the wire.
    pub open spec fn id_spec(self) -> u16 {
        match self {
            AudioCodec::AudioNone => 1,
            AudioCodec::Adpcm => 2,
            AudioCodec::Mp3 => 4,
            AudioCodec::Intel => 8,
            AudioCodec::Unused => 16,
            AudioCodec::Nerry8 => 32,
            AudioCodec::Nerry => 64,
            AudioCodec::G711a => 128,
            AudioCodec::G711u => 256,
            AudioCodec::Nerry16 => 512,
            AudioCodec::Aac => 1024,
            AudioCodec::Speex => 2048,
            AudioCodec::All => 4095,
        }
    }

    /// The value that `id` stands for, if any.
    pub open spec fn from_id_spec(id: u16) -> Option<AudioCodec> {
        if id == 1 {
            Some(AudioCodec::AudioNone)
        } else if id == 2 {
            Some(AudioCodec::Adpcm)
        } else if id == 4 {
            Some(AudioCodec::Mp3)
        } else if id == 8 {
            Some(AudioCodec::Intel)
        } else if id == 16 {
            Some(AudioCodec::Unused)
        } else if id == 32 {
            Some(AudioCodec::Nerry8)
        } else if id == 64 {
            Some(AudioCodec::Nerry)
        } else if id == 128 {
            Some(AudioCodec::G711a)
        } else if id == 256 {
            Some(AudioCodec::G711u)
        } else if id == 512 {
            Some(AudioCodec::Nerry16)
        } else if id == 1024 {
            Some(AudioCodec::Aac)
        } else if id == 2048 {
            Some(AudioCodec::Speex)
        } else if id == 4095 {
            Some(AudioCodec::All)
        } else {
            None
        }
    }

    /// Returns the number that stands for this value on the wire.
    pub fn id(&self) -> (r: u16)
        ensures
            r == self.id_spec(),
            AudioCodec::from_id_spec(r) == Some(*self),
    {
        match self {
            AudioCodec::AudioNone => 1,
            AudioCodec::Adpcm => 2,
            AudioCodec::Mp3 => 4,
            AudioCodec::Intel => 8,
            AudioCodec::Unused => 16,
            AudioCodec::Nerry8 => 32,
            AudioCodec::Nerry => 64,
            AudioCodec::G711a => 128,
            AudioCodec::G711u => 256,
            AudioCodec::Nerry16 => 512,
            AudioCodec::Aac => 1024,
            AudioCodec::Speex => 2048,
            AudioCodec::All => 4095,
        }
    }

    /// Returns the value that `id` stands for, or `None` where `id` names none.
    pub fn from_id(id: u16) -> (r: Option<AudioCodec>)
        ensures
            r == AudioCodec::from_id_spec(id),
            r matches Some(v) ==> v.id_spec() == id,
    {
        if id == 1 {
            Some(AudioCodec::AudioNone)
        } else if id == 2 {
            Some(AudioCodec::Adpcm)
        } else if id == 4 {
            Some(AudioCodec::Mp3)
        } else if id == 8 {
            Some(AudioCodec::Intel)
        } else if id == 16 {
            Some(AudioCodec::Unused)
        } else if id == 32 {
            Some(AudioCodec::Nerry8)
        } else if id == 64 {
            Some(AudioCodec::Nerry)
        } else if id == 128 {
            Some(AudioCodec::G711a)
        } else if id == 256 {
            Some(AudioCodec::G711u)
        } else if id == 512 {
            Some(AudioCodec::Nerry16)
        } else if id == 1024 {
            Some(AudioCodec::Aac)
        } else if id == 2048 {
            Some(AudioCodec::Speex)
        } else if id == 4095 {
            Some(AudioCodec::All)
        } else {
            None
        }
    }
}

/// # The video codec flags of the command object
///
/// |Number|VideoCodec  |
/// | ---: | :--------- |
/// |0x01  |`Unused`    |
/// |0x02  |`Jpeg`      |
/// |0x04  |`Sorenson`  |
/// |0x08  |`Homebrew`  |
/// |0x10  |`Vp6`       |
/// |0x20  |`Vp6a`      |
/// |0x40  |`Homebrewv2`|
/// |0x80  |`H264`      |
/// |0xff  |`All`       |
#[derive(Clone, Copy, Debug, PartialEq, Eq, Structural)]
pub enum VideoCodec {
    Unused,
    Jpeg,
    Sorenson,
    Homebrew,
    Vp6,
    Vp6a,
    Homebrewv2,
    H264,
    All,
}

impl VideoCodec {
    /// The number that stands for this value on the wire.
    pub open spec fn id_spec(self) -> u8 {
        match self {
            VideoCodec::Unused => 1,
            VideoCodec::Jpeg => 2,
            VideoCodec::Sorenson => 4,
            VideoCodec::Homebrew => 8,
            VideoCodec::Vp6 => 16,
            VideoCodec::Vp6a => 32,
            VideoCodec::Homebrewv2 => 64,
            VideoCodec::H264 => 128,
            VideoCodec::All => 255,
        }
    }

    /// The value that `id` stands for, if any.
    pub open spec fn from_id_spec(id: u8) -> Option<VideoCodec> {
        if id == 1 {
            Some(VideoCodec::Unused)
        } else if id == 2 {
            Some(VideoCodec::Jpeg)
        } else if id == 4 {
            Some(VideoCodec::Sorenson)
        } else if id == 8 {
            Some(VideoCodec::Homebrew)
        } else if id == 16 {
            Some(VideoCodec::Vp6)
        } else if id == 32 {
            Some(VideoCodec::Vp6a)
        } else if id == 64 {
            Some(VideoCodec::Homebrewv2)
        } else if id == 128 {
            Some(VideoCodec::H264)
        } else if id == 255 {
            Some(VideoCodec::All)
        } else {
            None
        }
    }

    /// Returns the number that stands for this value on the wire.
    pub fn id(&self) -> (r: u8)
        ensures
            r == self.id_spec(),
            VideoCodec::from_id_spec(r) == Some(*self),
    {
        match self {
            VideoCodec::Unused => 1,
            VideoCodec::Jpeg => 2,
            VideoCodec::Sorenson => 4,
            VideoCodec::Homebrew => 8,
            VideoCodec::Vp6 => 16,
            VideoCodec::Vp6a => 32,
            VideoCodec::Homebrewv2 => 64,
            VideoCodec::H264 => 128,
            VideoCodec::All => 255,
        }
    }

    /// Returns the value that `id` stands for, or `None` where `id` names none.
    pub fn from_id(id: u8) -> (r: Option<VideoCodec>)
        ensures
            r == VideoCodec::from_id_spec(id),
            r matches Some(v) ==> v.id_spec() == id,
    {
        if id == 1 {
            Some(VideoCodec::Unused)
        } else if id == 2 {
            Some(VideoCodec::Jpeg)
        } else if id == 4 {
            Some(VideoCodec::Sorenson)
        } else if id == 8 {
            Some(VideoCodec::Homebrew)
        } else if id == 16 {
            Some(VideoCodec::Vp6)
        } else if id == 32 {
            Some(VideoCodec::Vp6a)
        } else if id == 64 {
            Some(VideoCodec::Homebrewv2)
        } else if id == 128 {
            Some(VideoCodec::H264)
        } else if id == 255 {
            Some(VideoCodec::All)
        } else {
            None
        }
    }
}

/// The audio codec whose flag is bit `i` (for `i` below 12).
pub open spec fn audio_codec_at(i: nat) -> AudioCodec {
    if i == 0 {
        AudioCodec::AudioNone
    } else if i == 1 {
        AudioCodec::Adpcm
    } else if i == 2 {
        AudioCodec::Mp3
    } else if i == 3 {
        AudioCodec::Intel
    } else if i == 4 {
        AudioCodec::Unused
    } else if i == 5 {
        AudioCodec::Nerry8
    } else if i == 6 {
        AudioCodec::Nerry
    } else if i == 7 {
        AudioCodec::G711a
    } else if i == 8 {
        AudioCodec::G711u
    } else if i == 9 {
        AudioCodec::Nerry16
    } else if i == 10 {
        AudioCodec::Aac
    } else {
        AudioCodec::Speex
    }
}

/// The codecs of the set bits of `flags` from bit `i` up to bit 11, lowest first.
pub open spec fn audio_codecs_from_bit(flags: u16, i: nat) -> Seq<AudioCodec>
    decreases 12 - i,
{
    if i >= 12 {
        Seq::empty()
    } else if flags & (1u16 << (i as u16)) != 0 {
        seq![audio_codec_at(i)] + audio_codecs_from_bit(flags, i + 1)
    } else {
        audio_codecs_from_bit(flags, i + 1)
    }
}

/// The codecs that the flags stand for: `All` for `0x0fff`, otherwise the codec
/// of each set bit, lowest first.
pub open spec fn detect_audio_codecs_spec(flags: u16) -> Seq<AudioCodec> {
    if flags == 0x0fff {
        seq![AudioCodec::All]
    } else {
        audio_codecs_from_bit(flags, 0)
    }
}

/// The flags of the codecs: the bitwise or of their numbers.
pub open spec fn audio_codec_flags(codecs: Seq<AudioCodec>) -> u16
    decreases codecs.len(),
{
    if codecs.len() == 0 {
        0
    } else {
        audio_codec_flags(codecs.drop_last()) | codecs.last().id_spec()
    }
}

/// The video codec whose flag is bit `i` (for `i` below 8).
pub open spec fn video_codec_at(i: nat) -> VideoCodec {
    if i == 0 {
        VideoCodec::Unused
    } else if i == 1 {
        VideoCodec::Jpeg
    } else if i == 2 {
        VideoCodec::Sorenson
    } else if i == 3 {
        VideoCodec::Homebrew
    } else if i == 4 {
        VideoCodec::Vp6
    } else if i == 5 {
        VideoCodec::Vp6a
    } else if i == 6 {
        VideoCodec::Homebrewv2
    } else {
        VideoCodec::H264
    }
}

/// The codecs of the set bits of `flags` from bit `i` up to bit 7, lowest first.
pub open spec fn video_codecs_from_bit(flags: u8, i: nat) -> Seq<VideoCodec>
    decreases 8 - i,
{
    if i >= 8 {
        Seq::empty()
    } else if flags & (1u8 << (i as u8)) != 0 {
        seq![video_codec_at(i)] + video_codecs_from_bit(flags, i + 1)
    } else {
        video_codecs_from_bit(flags, i + 1)
    }
}

/// The codecs that the flags stand for: `All` for `0xff`, otherwise the codec
/// of each set bit, lowest first.
pub open spec fn detect_video_codecs_spec(flags: u8) -> Seq<VideoCodec> {
    if flags == 0xff {
        seq![VideoCodec::All]
    } else {
        video_codecs_from_bit(flags, 0)
    }
}

/// The flags of the codecs: the bitwise or of their numbers.
pub open spec fn video_codec_flags(codecs: Seq<VideoCodec>) -> u8
    decreases codecs.len(),
{
    if codecs.len() == 0 {
        0
    } else {
        video_codec_flags(codecs.drop_last()) | codecs.last().id_spec()
    }
}

fn audio_codec_at_exec(i: u16) -> (r: AudioCodec)
    requires
        i < 12,
    ensures
        r == audio_codec_at(i as nat),
{
    if i == 0 {
        AudioCodec::AudioNone
    } else if i == 1 {
        AudioCodec::Adpcm
    } else if i == 2 {
        AudioCodec::Mp3
    } else if i == 3 {
        AudioCodec::Intel
    } else if i == 4 {
        AudioCodec::Unused
    } else if i == 5 {
        AudioCodec::Nerry8
    } else if i == 6 {
        AudioCodec::Nerry
    } else if i == 7 {
        AudioCodec::G711a
    } else if i == 8 {
        AudioCodec::G711u
    } else if i == 9 {
        AudioCodec::Nerry16
    } else if i == 10 {
        AudioCodec::Aac
    } else {
        AudioCodec::Speex
    }
}

fn video_codec_at_exec(i: u8) -> (r: VideoCodec)
    requires
        i < 8,
    ensures
        r == video_codec_at(i as nat),
{
    if i == 0 {
        VideoCodec::Unused
    } else if i == 1 {
        VideoCodec::Jpeg
    } else if i == 2 {
        VideoCodec::Sorenson
    } else if i == 3 {
        VideoCodec::Homebrew
    } else if i == 4 {
        VideoCodec::Vp6
    } else if i == 5 {
        VideoCodec::Vp6a
    } else if i == 6 {
        VideoCodec::Homebrewv2
    } else {
        VideoCodec::H264
    }
}

/// Converts the 16 bit flags of the audio codecs into the codecs.
///
/// `0x0fff` gives `[All]`; other flags give the codec of each set bit, lowest
/// bit first. Flags above `0x0fff` name no codec and are not accepted.
pub fn detect_audio_codecs(codec_flags: u16) -> (r: Vec<AudioCodec>)
    requires
        codec_flags <= 0x0fff,
    ensures
        r@ == detect_audio_codecs_spec(codec_flags),
{
    let mut v: Vec<AudioCodec> = Vec::new();
    if codec_flags == 0x0fff {
        v.push(AudioCodec::All);
        return v;
    }
    let mut flag: u16 = 1;
    let mut i: u16 = 0;
    assert(1u16 == 1u16 << 0u16) by (bit_vector);
    while i < 12
        invariant
            i <= 12,
            flag == 1u16 << i,
            v@ + audio_codecs_from_bit(codec_flags, i as nat) == audio_codecs_from_bit(codec_flags, 0),
        decreases 12 - i,
    {
        let detected = codec_flags & flag;
        if detected != 0 {
            v.push(audio_codec_at_exec(i));
            assert(v@ + audio_codecs_from_bit(codec_flags, (i + 1) as nat) =~= v@.drop_last() + (seq![
                audio_codec_at(i as nat)] + audio_codecs_from_bit(codec_flags, (i + 1) as nat)));
        }
        assert((flag << 1u16) == 1u16 << ((i + 1) as u16)) by (bit_vector)
            requires
                flag == 1u16 << i,
                i < 12,
        ;
        flag = flag << 1;
        i = i + 1;
    }
    assert(v@ =~= v@ + audio_codecs_from_bit(codec_flags, 12));
    v
}

/// Converts the audio codecs into their 16 bit flags: the bitwise or of their numbers.
pub fn convert_audio_codecs_into_flags(audio_codecs: Vec<AudioCodec>) -> (r: u16)
    ensures
        r == audio_codec_flags(audio_codecs@),
{
    let mut flags: u16 = 0;
    let mut i: usize = 0;
    while i < audio_codecs.len()
        invariant
            i <= audio_codecs@.len(),
            flags == audio_codec_flags(audio_codecs@.subrange(0, i as int)),
        decreases audio_codecs@.len() - i,
    {
        assert(audio_codecs@.subrange(0, i + 1).drop_last() =~= audio_codecs@.subrange(0, i as int));
        flags = flags | audio_codecs[i].id();
        i = i + 1;
    }
    assert(audio_codecs@.subrange(0, i as int) =~= audio_codecs@);
    flags
}

/// Converts the 8 bit flags of the video codecs into the codecs.
///
/// `0xff` gives `[All]`; other flags give the codec of each set bit, lowest bit first.
pub fn detect_video_codecs(codec_flags: u8) -> (r: Vec<VideoCodec>)
    ensures
        r@ == detect_video_codecs_spec(codec_flags),
{
    let mut v: Vec<VideoCodec> = Vec::new();
    if codec_flags == 0xff {
        v.push(VideoCodec::All);
        return v;
    }
    let mut flag: u8 = 1;
    let mut i: u8 = 0;
    assert(1u8 == 1u8 << 0u8) by (bit_vector);
    while i < 8
        invariant
            i <= 8,
            i < 8 ==> flag == 1u8 << i,
            v@ + video_codecs_from_bit(codec_flags, i as nat) == video_codecs_from_bit(codec_flags, 0),
        decreases 8 - i,
    {
        let detected = codec_flags & flag;
        if detected != 0 {
            v.push(video_codec_at_exec(i));
            assert(v@ + video_codecs_from_bit(codec_flags, (i + 1) as nat) =~= v@.drop_last() + (seq![
                video_codec_at(i as nat)] + video_codecs_from_bit(codec_flags, (i + 1) as nat)));
        }
        if i < 7 {
            assert((flag << 1u8) == 1u8 << ((i + 1) as u8)) by (bit_vector)
                requires
                    flag == 1u8 << i,
                    i < 7,
            ;
            flag = flag << 1;
        }
        i = i + 1;
    }
    assert(v@ =~= v@ + video_codecs_from_bit(codec_flags, 8));
    v
}

/// Converts the video codecs into their 8 bit flags: the bitwise or of their numbers.
pub fn convert_video_codecs_into_flags(video_codecs: Vec<VideoCodec>) -> (r: u8)
    ensures
        r == video_codec_flags(video_codecs@),
{
    let mut flags: u8 = 0;
    let mut i: usize = 0;
    while i < video_codecs.len()
        invariant
            i <= video_codecs@.len(),
            flags == video_codec_flags(video_codecs@.subrange(0, i as int)),
        decreases video_codecs@.len() - i,
    {
        assert(video_codecs@.subrange(0, i + 1).drop_last() =~= video_codecs@.subrange(0, i as int));
        flags = flags | video_codecs[i].id();
        i = i + 1;
    }
    assert(video_codecs@.subrange(0, i as int) =~= video_codecs@);
    flags
}
/// # The video function flag
///
/// |Number|VideoFunction|
/// | ---: | :---------- |
/// |0x01  |`ClientSeek` |
#[derive(Clone, Copy, Debug, PartialEq, Eq, Structural)]
pub enum VideoFunction {
    ClientSeek,
}

impl VideoFunction {
    /// The number that stands for this value on the wire.
    pub open spec fn id_spec(self) -> u8 {
        match self {
            VideoFunction::ClientSeek => 1,
        }
    }

    /// The value that `id` stands for, if any.
    pub open spec fn from_id_spec(id: u8) -> Option<VideoFunction> {
        if id == 1 {
            Some(VideoFunction::ClientSeek)
        } else {
            None
        }
    }

    /// Returns the number that stands for this value on the wire.
    pub fn id(&self) -> (r: u8)
        ensures
            r == self.id_spec(),
            VideoFunction::from_id_spec(r) == Some(*self),
    {
        match self {
            VideoFunction::ClientSeek => 1,
        }
    }

    /// Returns the value that `id` stands for, or `None` where `id` names none.
    pub fn from_id(id: u8) -> (r: Option<VideoFunction>)
        ensures
            r == VideoFunction::from_id_spec(id),
            r matches Some(v) ==> v.id_spec() == id,
    {
        if id == 1 {
            Some(VideoFunction::ClientSeek)
        } else {
            None
        }
    }
}

/// # The object encoding (the AMF version that the peer uses)
///
/// |Number|ObjectEncoding|
/// | ---: | :----------- |
/// |0x00  |`Amf0`        |
/// |0x03  |`Amf3`        |
#[derive(Clone, Copy, Debug, PartialEq, Eq, Structural)]
pub enum ObjectEncoding {
    Amf0,
    Amf3,
}

impl ObjectEncoding {
    /// The number that stands for this value on the wire.
    pub open spec fn id_spec(self) -> u8 {
        match self {
            ObjectEncoding::Amf0 => 0,
            ObjectEncoding::Amf3 => 3,
        }
    }

    /// The value that `id` stands for, if any.
    pub open spec fn from_id_spec(id: u8) -> Option<ObjectEncoding> {
        if id == 0 {
            Some(ObjectEncoding::Amf0)
        } else if id == 3 {
            Some(ObjectEncoding::Amf3)
        } else {
            None
        }
    }

    /// Returns the number that stands for this value on the wire.
    pub fn id(&self) -> (r: u8)
        ensures
            r == self.id_spec(),
            ObjectEncoding::from_id_spec(r) == Some(*self),
    {
        match self {
            ObjectEncoding::Amf0 => 0,
            ObjectEncoding::Amf3 => 3,
        }
    }

    /// Returns the value that `id` stands for, or `None` where `id` names none.
    pub fn from_id(id: u8) -> (r: Option<ObjectEncoding>)
        ensures
            r == ObjectEncoding::from_id_spec(id),
            r matches Some(v) ==> v.id_spec() == id,
    {
        if id == 0 {
            Some(ObjectEncoding::Amf0)
        } else if id == 3 {
            Some(ObjectEncoding::Amf3)
        } else {
            None
        }
    }
}


/// The characters of an optional string.
pub open spec fn opt_chars(o: Option<String>) -> Option<Seq<char>> {
    match o {
        Some(s) => Some(s@),
        None => None,
    }
}

/// The number that an AMF0 value holds, if it is a `Number`.
pub open spec fn number_of(v: AmfValue) -> Option<u64> {
    match v {
        AmfValue::Number(n) => Some(n),
        _ => None,
    }
}

/// The boolean that an AMF0 value holds, if it is a `Boolean`.
pub open spec fn boolean_of(v: AmfValue) -> Option<bool> {
    match v {
        AmfValue::Boolean(b) => Some(b),
        _ => None,
    }
}

/// The characters that an AMF0 value holds, if it is a `String`.
pub open spec fn string_of(v: AmfValue) -> Option<Seq<char>> {
    match v {
        AmfValue::String(s) => Some(s),
        _ => None,
    }
}

/// The pairs that an AMF0 value holds, if it is an `Object` or a `MixedArray`.
pub open spec fn object_of(v: AmfValue) -> Option<Seq<(Seq<char>, AmfValue)>> {
    match v {
        AmfValue::Object(o) => Some(o),
        AmfValue::MixedArray(o) => Some(o),
        _ => None,
    }
}

/// The object encoding that an AMF0 number stands for, read as Rust reads
/// `number as u64 as u8`; `None` where that names no encoding.
pub open spec fn object_encoding_of_number(bits: u64) -> Option<ObjectEncoding> {
    ObjectEncoding::from_id_spec(number_to_u64_spec(bits) as u8)
}

/// The video function that an AMF0 number stands for; `None` where it names none.
pub open spec fn video_function_of_number(bits: u64) -> Option<VideoFunction> {
    VideoFunction::from_id_spec(number_to_u64_spec(bits) as u8)
}

/// The video codecs that an AMF0 number stands for, as flags of its lowest byte.
pub open spec fn video_codecs_of_number(bits: u64) -> Seq<VideoCodec> {
    detect_video_codecs_spec(number_to_u64_spec(bits) as u8)
}

/// The audio codecs that an AMF0 number stands for, as flags of its lowest two
/// bytes; `None` where those are above `0x0fff`.
pub open spec fn audio_codecs_of_number(bits: u64) -> Option<Seq<AudioCodec>> {
    let f = number_to_u64_spec(bits) as u16;
    if f <= 0x0fff {
        Some(detect_audio_codecs_spec(f))
    } else {
        None
    }
}

/// # The command object as the contracts see it
pub struct CommandObjectView {
    pub fpad: Option<bool>,
    pub object_encoding: Option<ObjectEncoding>,
    pub video_function: Option<VideoFunction>,
    pub video_codecs: Option<Seq<VideoCodec>>,
    pub audio_codecs: Option<Seq<AudioCodec>>,
    pub app: Option<Seq<char>>,
    pub command_type: Option<Seq<char>>,
    pub flash_ver: Option<Seq<char>>,
    pub swf_url: Option<Seq<char>>,
    pub tc_url: Option<Seq<char>>,
    pub page_url: Option<Seq<char>>,
}

impl CommandObjectView {
    /// The command object with no field set.
    pub open spec fn empty() -> Self {
        CommandObjectView {
            fpad: None,
            object_encoding: None,
            video_function: None,
            video_codecs: None,
            audio_codecs: None,
            app: None,
            command_type: None,
            flash_ver: None,
            swf_url: None,
            tc_url: None,
            page_url: None,
        }
    }

    /// The command object after the pair `(k, v)` of an AMF0 object was read into it.
    pub open spec fn apply(self, k: Seq<char>, v: AmfValue) -> Self {
        if k == "fpad"@ {
            CommandObjectView { fpad: boolean_of(v), ..self }
        } else if k == "objectEncoding"@ {
            CommandObjectView {
                object_encoding: match number_of(v) {
                    Some(n) => object_encoding_of_number(n),
                    None => None,
                },
                ..self
            }
        } else if k == "videoFunction"@ {
            CommandObjectView {
                video_function: match number_of(v) {
                    Some(n) => video_function_of_number(n),
                    None => None,
                },
                ..self
            }
        } else if k == "videoCodecs"@ {
            CommandObjectView {
                video_codecs: match number_of(v) {
                    Some(n) => Some(video_codecs_of_number(n)),
                    None => None,
                },
                ..self
            }
        } else if k == "audioCodecs"@ {
            CommandObjectView {
                audio_codecs: match number_of(v) {
                    Some(n) => audio_codecs_of_number(n),
                    None => None,
                },
                ..self
            }
        } else if k == "app"@ {
            CommandObjectView { app: string_of(v), ..self }
        } else if k == "type"@ {
            CommandObjectView { command_type: string_of(v), ..self }
        } else if k == "flashVer"@ {
            CommandObjectView { flash_ver: string_of(v), ..self }
        } else if k == "swfUrl"@ {
            CommandObjectView { swf_url: string_of(v), ..self }
        } else if k == "tcUrl"@ {
            CommandObjectView { tc_url: string_of(v), ..self }
        } else if k == "pageUrl"@ {
            CommandObjectView { page_url: string_of(v), ..self }
        } else {
            self
        }
    }

    /// The command object that the pairs of an AMF0 object are read into, in order.
    pub open spec fn from_pairs(s: Seq<(Seq<char>, AmfValue)>) -> Self
        decreases s.len(),
    {
        if s.len() == 0 {
            CommandObjectView::empty()
        } else {
            CommandObjectView::from_pairs(s.drop_last()).apply(s.last().0, s.last().1)
        }
    }

    /// The codecs are as flags give them: each list of codecs is the one that
    /// its own flags stand for (audio flags up to `0x0fff`).
    pub open spec fn canonical(self) -> bool {
        &&& (self.video_codecs matches Some(c) ==> c == detect_video_codecs_spec(video_codec_flags(c)))
        &&& (self.audio_codecs matches Some(c) ==> audio_codec_flags(c) <= 0x0fff && c
            == detect_audio_codecs_spec(audio_codec_flags(c)))
    }
}

/// The codecs of an optional vector.
pub open spec fn opt_seq<T>(o: Option<Vec<T>>) -> Option<Seq<T>> {
    match o {
        Some(v) => Some(v@),
        None => None,
    }
}

/// # The command object
///
/// The fields that the client sends with the connect command. None of them is
/// sent necessarily, so each is optional. It converts to and from the pairs of
/// an AMF0 object.
#[derive(Debug)]
pub struct CommandObject {
    fpad: Option<bool>,
    object_encoding: Option<ObjectEncoding>,
    video_function: Option<VideoFunction>,
    video_codecs: Option<Vec<VideoCodec>>,
    audio_codecs: Option<Vec<AudioCodec>>,
    app: Option<String>,
    command_type: Option<String>,
    flash_ver: Option<String>,
    swf_url: Option<String>,
    tc_url: Option<String>,
    page_url: Option<String>,
}

impl View for CommandObject {
    type V = CommandObjectView;

    closed spec fn view(&self) -> CommandObjectView {
        CommandObjectView {
            fpad: self.fpad,
            object_encoding: self.object_encoding,
            video_function: self.video_function,
            video_codecs: opt_seq(self.video_codecs),
            audio_codecs: opt_seq(self.audio_codecs),
            app: opt_chars(self.app),
            command_type: opt_chars(self.command_type),
            flash_ver: opt_chars(self.flash_ver),
            swf_url: opt_chars(self.swf_url),
            tc_url: opt_chars(self.tc_url),
            page_url: opt_chars(self.page_url),
        }
    }
}

impl CommandObject {
    /// Every command object holds its codecs as flags give them.
    #[verifier::type_invariant]
    spec fn codecs_canonical(self) -> bool {
        self@.canonical()
    }
}

/// A copy of an optional string.
pub fn clone_opt_string(o: &Option<String>) -> (r: Option<String>)
    ensures
        opt_chars(r) == opt_chars(*o),
{
    match o {
        Some(s) => Some(s.clone()),
        None => None,
    }
}

/// A copy of a vector of `Copy` values.
pub fn copy_vec<T: Copy>(v: &Vec<T>) -> (r: Vec<T>)
    ensures
        r@ == v@,
{
    let mut r: Vec<T> = Vec::new();
    let mut i: usize = 0;
    while i < v.len()
        invariant
            i <= v@.len(),
            r@ == v@.subrange(0, i as int),
        decreases v@.len() - i,
    {
        r.push(v[i]);
        i = i + 1;
        assert(v@.subrange(0, i as int) =~= v@.subrange(0, i - 1) + seq![v@[i - 1]]);
    }
    assert(v@.subrange(0, v@.len() as int) =~= v@);
    r
}

/// A copy of an optional vector of `Copy` values.
pub fn copy_opt_vec<T: Copy>(o: &Option<Vec<T>>) -> (r: Option<Vec<T>>)
    ensures
        opt_seq(r) == opt_seq(*o),
{
    match o {
        Some(v) => Some(copy_vec(v)),
        None => None,
    }
}

impl Clone for CommandObject {
    fn clone(&self) -> (r: Self)
        ensures
            r@ == self@,
    {
        proof {
            use_type_invariant(self);
        }
        CommandObject {
            fpad: self.fpad,
            object_encoding: self.object_encoding,
            video_function: self.video_function,
            video_codecs: copy_opt_vec(&self.video_codecs),
            audio_codecs: copy_opt_vec(&self.audio_codecs),
            app: clone_opt_string(&self.app),
            command_type: clone_opt_string(&self.command_type),
            flash_ver: clone_opt_string(&self.flash_ver),
            swf_url: clone_opt_string(&self.swf_url),
            tc_url: clone_opt_string(&self.tc_url),
            page_url: clone_opt_string(&self.page_url),
        }
    }
}

impl Default for CommandObject {
    fn default() -> (r: Self)
        ensures
            r@ == CommandObjectView::empty(),
    {
        CommandObject::new()
    }
}

impl CommandObject {
    /// Constructs a new `CommandObject` with no field set.
    pub fn new() -> (r: Self)
        ensures
            r@ == CommandObjectView::empty(),
    {
        CommandObject {
            fpad: None,
            object_encoding: None,
            video_function: None,
            video_codecs: None,
            audio_codecs: None,
            app: None,
            command_type: None,
            flash_ver: None,
            swf_url: None,
            tc_url: None,
            page_url: None,
        }
    }

    /// Sets the fpad.
    pub fn set_fpad(&mut self, fpad: Option<bool>)
        ensures
            final(self)@ == (CommandObjectView { fpad, ..old(self)@ }),
    {
        proof {
            use_type_invariant(&*self);
        }
        self.fpad = fpad;
    }

    /// Sets the object encoding from an AMF0 number (its bits). A number that
    /// names no encoding leaves the field unset.
    pub fn set_object_encoding(&mut self, object_encoding: Option<u64>)
        ensures
            final(self)@ == (CommandObjectView {
                object_encoding: match object_encoding {
                    Some(n) => object_encoding_of_number(n),
                    None => None,
                },
                ..old(self)@
            }),
    {
        proof {
            use_type_invariant(&*self);
        }
        self.object_encoding = match object_encoding {
            Some(n) => ObjectEncoding::from_id(number_to_u64(n) as u8),
            None => None,
        };
    }

    /// Sets the video function from an AMF0 number (its bits). A number that
    /// names no function leaves the field unset.
    pub fn set_video_function(&mut self, video_function: Option<u64>)
        ensures
            final(self)@ == (CommandObjectView {
                video_function: match video_function {
                    Some(n) => video_function_of_number(n),
                    None => None,
                },
                ..old(self)@
            }),
    {
        proof {
            use_type_invariant(&*self);
        }
        self.video_function = match video_function {
            Some(n) => VideoFunction::from_id(number_to_u64(n) as u8),
            None => None,
        };
    }

    /// Sets the video codecs from an AMF0 number (its bits): the flags of its lowest byte.
    pub fn set_video_codecs(&mut self, video_codecs: Option<u64>)
        ensures
            final(self)@ == (CommandObjectView {
                video_codecs: match video_codecs {
                    Some(n) => Some(video_codecs_of_number(n)),
                    None => None,
                },
                ..old(self)@
            }),
    {
        proof {
            use_type_invariant(&*self);
        }
        self.video_codecs = match video_codecs {
            Some(n) => {
                let f = number_to_u64(n) as u8;
                proof {
                    lemma_video_codecs_roundtrip(f);
                }
                Some(detect_video_codecs(f))
            },
            None => None,
        };
    }

    /// Sets the audio codecs from an AMF0 number (its bits): the flags of its
    /// lowest two bytes. Flags above `0x0fff` leave the field unset.
    pub fn set_audio_codecs(&mut self, audio_codecs: Option<u64>)
        ensures
            final(self)@ == (CommandObjectView {
                audio_codecs: match audio_codecs {
                    Some(n) => audio_codecs_of_number(n),
                    None => None,
                },
                ..old(self)@
            }),
    {
        proof {
            use_type_invariant(&*self);
        }
        self.audio_codecs = match audio_codecs {
            Some(n) => {
                let f = number_to_u64(n) as u16;
                if f <= 0x0fff {
                    proof {
                        lemma_audio_codecs_roundtrip(f);
                    }
                    Some(detect_audio_codecs(f))
                } else {
                    None
                }
            },
            None => None,
        };
    }

    /// Sets the application name.
    pub fn set_app(&mut self, app: Option<String>)
        ensures
            final(self)@ == (CommandObjectView { app: opt_chars(app), ..old(self)@ }),
    {
        proof {
            use_type_invariant(&*self);
        }
        self.app = app;
    }

    /// Sets the command type.
    pub fn set_command_type(&mut self, command_type: Option<String>)
        ensures
            final(self)@ == (CommandObjectView { command_type: opt_chars(command_type), ..old(self)@ }),
    {
        proof {
            use_type_invariant(&*self);
        }
        self.command_type = command_type;
    }

    /// Sets the Flash Player version.
    pub fn set_flash_ver(&mut self, flash_ver: Option<String>)
        ensures
            final(self)@ == (CommandObjectView { flash_ver: opt_chars(flash_ver), ..old(self)@ }),
    {
        proof {
            use_type_invariant(&*self);
        }
        self.flash_ver = flash_ver;
    }

    /// Sets the URL of the video player application.
    pub fn set_swf_url(&mut self, swf_url: Option<String>)
        ensures
            final(self)@ == (CommandObjectView { swf_url: opt_chars(swf_url), ..old(self)@ }),
    {
        proof {
            use_type_invariant(&*self);
        }
        self.swf_url = swf_url;
    }

    /// Sets the URL of the server.
    pub fn set_tc_url(&mut self, tc_url: Option<String>)
        ensures
            final(self)@ == (CommandObjectView { tc_url: opt_chars(tc_url), ..old(self)@ }),
    {
        proof {
            use_type_invariant(&*self);
        }
        self.tc_url = tc_url;
    }

    /// Sets the URL of the web page where the player was loaded.
    pub fn set_page_url(&mut self, page_url: Option<String>)
        ensures
            final(self)@ == (CommandObjectView { page_url: opt_chars(page_url), ..old(self)@ }),
    {
        proof {
            use_type_invariant(&*self);
        }
        self.page_url = page_url;
    }
}

/// The pair `(k, String(s))` where a string `s` is given; nothing otherwise.
pub open spec fn string_pair(k: Seq<char>, o: Option<Seq<char>>) -> Seq<(Seq<char>, AmfValue)> {
    match o {
        Some(s) => seq![(k, AmfValue::String(s))],
        None => Seq::empty(),
    }
}

/// The pair `(k, Boolean(b))` where a boolean `b` is given; nothing otherwise.
pub open spec fn boolean_pair(k: Seq<char>, o: Option<bool>) -> Seq<(Seq<char>, AmfValue)> {
    match o {
        Some(b) => seq![(k, AmfValue::Boolean(b))],
        None => Seq::empty(),
    }
}

/// The pair `(k, Number(n))` where the bits `n` of a number are given; nothing otherwise.
pub open spec fn number_pair(k: Seq<char>, o: Option<u64>) -> Seq<(Seq<char>, AmfValue)> {
    match o {
        Some(n) => seq![(k, AmfValue::Number(n))],
        None => Seq::empty(),
    }
}

/// Pushing a pair adds that pair, as the contracts see it, to the end.
pub proof fn lemma_pairs_value_push(s: Seq<(String, AmfData)>, k: String, v: AmfData)
    ensures
        pairs_value(s.push((k, v))) == pairs_value(s).push((k@, v.value())),
{
    assert(pairs_value(s.push((k, v))) =~= pairs_value(s).push((k@, v.value())));
}

/// Taking the first pair off leaves the rest, as the contracts see it.
pub proof fn lemma_pairs_value_remove_first(s: Seq<(String, AmfData)>)
    requires
        s.len() > 0,
    ensures
        pairs_value(s.subrange(1, s.len() as int)) == pairs_value(s).subrange(1, s.len() as int),
        pairs_value(s)[0] == (s[0].0@, s[0].1.value()),
{
    assert(pairs_value(s.subrange(1, s.len() as int)) =~= pairs_value(s).subrange(1, s.len() as int));
}

/// Appends `(key, String(s))` where a string is given.
pub(crate) fn push_string(m: &mut Vec<(String, AmfData)>, key: &str, o: Option<String>)
    ensures
        pairs_value(final(m)@) == pairs_value(old(m)@) + string_pair(key@, opt_chars(o)),
{
    match o {
        Some(s) => {
            let ghost before = m@;
            let k = key.to_owned();
            let v = AmfData::String(s);
            proof {
                lemma_pairs_value_push(before, k, v);
            }
            m.push((k, v));
        },
        None => {
            assert(pairs_value(m@) + Seq::empty() =~= pairs_value(m@));
        },
    }
}

/// Appends `(key, Boolean(b))` where a boolean is given.
pub(crate) fn push_boolean(m: &mut Vec<(String, AmfData)>, key: &str, o: Option<bool>)
    ensures
        pairs_value(final(m)@) == pairs_value(old(m)@) + boolean_pair(key@, o),
{
    match o {
        Some(b) => {
            let ghost before = m@;
            let k = key.to_owned();
            let v = AmfData::Boolean(b);
            proof {
                lemma_pairs_value_push(before, k, v);
            }
            m.push((k, v));
        },
        None => {
            assert(pairs_value(m@) + Seq::empty() =~= pairs_value(m@));
        },
    }
}

/// Appends `(key, Number(n))` where the bits of a number are given.
pub(crate) fn push_number(m: &mut Vec<(String, AmfData)>, key: &str, o: Option<u64>)
    ensures
        pairs_value(final(m)@) == pairs_value(old(m)@) + number_pair(key@, o),
{
    match o {
        Some(n) => {
            let ghost before = m@;
            let k = key.to_owned();
            let v = AmfData::Number(n);
            proof {
                lemma_pairs_value_push(before, k, v);
            }
            m.push((k, v));
        },
        None => {
            assert(pairs_value(m@) + Seq::empty() =~= pairs_value(m@));
        },
    }
}

impl CommandObjectView {
    /// The pairs of the AMF0 object that this command object becomes: each
    /// field that is set, in the order app, type, flashVer, swfUrl, tcUrl, fpad,
    /// audioCodecs, videoCodecs, videoFunction, pageUrl, objectEncoding. A
    /// numeric field becomes the number whose value is its flags or its id.
    pub open spec fn to_pairs(self) -> Seq<(Seq<char>, AmfValue)> {
        string_pair("app"@, self.app) + string_pair("type"@, self.command_type) + string_pair(
            "flashVer"@,
            self.flash_ver,
        ) + string_pair("swfUrl"@, self.swf_url) + string_pair("tcUrl"@, self.tc_url)
            + boolean_pair("fpad"@, self.fpad) + number_pair(
            "audioCodecs"@,
            match self.audio_codecs {
                Some(c) => Some(u64_to_number_spec(audio_codec_flags(c) as u64)),
                None => None,
            },
        ) + number_pair(
            "videoCodecs"@,
            match self.video_codecs {
                Some(c) => Some(u64_to_number_spec(video_codec_flags(c) as u64)),
                None => None,
            },
        ) + number_pair(
            "videoFunction"@,
            match self.video_function {
                Some(f) => Some(u64_to_number_spec(f.id_spec() as u64)),
                None => None,
            },
        ) + string_pair("pageUrl"@, self.page_url) + number_pair(
            "objectEncoding"@,
            match self.object_encoding {
                Some(e) => Some(u64_to_number_spec(e.id_spec() as u64)),
                None => None,
            },
        )
    }
}

impl CommandObject {
    /// Reads the pair `(key, value)` of an AMF0 object into this command object:
    /// a known name sets its field from the value, an unknown name is ignored.
    pub fn read_pair(&mut self, key: &String, value: AmfData)
        ensures
            final(self)@ == old(self)@.apply(key@, value.value()),
    {
        if str_equals(key, "fpad") {
            self.set_fpad(value.boolean());
        } else if str_equals(key, "objectEncoding") {
            self.set_object_encoding(value.number());
        } else if str_equals(key, "videoFunction") {
            self.set_video_function(value.number());
        } else if str_equals(key, "videoCodecs") {
            self.set_video_codecs(value.number());
        } else if str_equals(key, "audioCodecs") {
            self.set_audio_codecs(value.number());
        } else if str_equals(key, "app") {
            self.set_app(value.string());
        } else if str_equals(key, "type") {
            self.set_command_type(value.string());
        } else if str_equals(key, "flashVer") {
            self.set_flash_ver(value.string());
        } else if str_equals(key, "swfUrl") {
            self.set_swf_url(value.string());
        } else if str_equals(key, "tcUrl") {
            self.set_tc_url(value.string());
        } else if str_equals(key, "pageUrl") {
            self.set_page_url(value.string());
        }
    }

    /// Converts the pairs of an AMF0 object into a command object, reading the
    /// pairs in order.
    pub fn from_amf_object(o: Vec<(String, AmfData)>) -> (r: CommandObject)
        ensures
            r@ == CommandObjectView::from_pairs(pairs_value(o@)),
    {
        let ghost all = pairs_value(o@);
        let ghost n = o@.len();
        let mut rest = o;
        let mut r = CommandObject::new();
        while rest.len() > 0
            invariant
                rest@.len() <= n,
                all.len() == n,
                pairs_value(rest@) == all.subrange(n - rest@.len(), n as int),
                r@ == CommandObjectView::from_pairs(all.subrange(0, n - rest@.len())),
            decreases rest@.len(),
        {
            let ghost before = rest@;
            let ghost k = n - rest@.len();
            proof {
                lemma_pairs_value_remove_first(before);
            }
            let (key, value) = rest.remove(0);
            r.read_pair(&key, value);
            proof {
                assert(rest@ =~= before.subrange(1, before.len() as int));
                assert(all.subrange(0, k + 1).drop_last() =~= all.subrange(0, k));
                assert(all[k] == pairs_value(before)[0]);
                assert(pairs_value(rest@) =~= all.subrange(n - rest@.len(), n as int));
            }
        }
        assert(all.subrange(0, n as int) =~= all);
        r
    }

    /// Converts this command object into the pairs of an AMF0 object: each
    /// field that is set, in the order of `CommandObjectView::to_pairs`.
    pub fn into_amf_object(self) -> (r: Vec<(String, AmfData)>)
        ensures
            pairs_value(r@) == self@.to_pairs(),
            CommandObjectView::from_pairs(pairs_value(r@)) == self@,
    {
        proof {
            use_type_invariant(&self);
            lemma_command_object_roundtrip(self@);
        }
        let ghost v = self@;
        let CommandObject {
            fpad,
            object_encoding,
            video_function,
            video_codecs,
            audio_codecs,
            app,
            command_type,
            flash_ver,
            swf_url,
            tc_url,
            page_url,
        } = self;
        let mut m: Vec<(String, AmfData)> = Vec::new();
        push_string(&mut m, "app", app);
        push_string(&mut m, "type", command_type);
        push_string(&mut m, "flashVer", flash_ver);
        push_string(&mut m, "swfUrl", swf_url);
        push_string(&mut m, "tcUrl", tc_url);
        push_boolean(&mut m, "fpad", fpad);
        let audio = match audio_codecs {
            Some(c) => Some(u64_to_number(convert_audio_codecs_into_flags(c) as u64)),
            None => None,
        };
        push_number(&mut m, "audioCodecs", audio);
        let video = match video_codecs {
            Some(c) => Some(u64_to_number(convert_video_codecs_into_flags(c) as u64)),
            None => None,
        };
        push_number(&mut m, "videoCodecs", video);
        let function = match video_function {
            Some(f) => Some(u64_to_number(f.id() as u64)),
            None => None,
        };
        push_number(&mut m, "videoFunction", function);
        push_string(&mut m, "pageUrl", page_url);
        let encoding = match object_encoding {
            Some(e) => Some(u64_to_number(e.id() as u64)),
            None => None,
        };
        push_number(&mut m, "objectEncoding", encoding);
        assert(Seq::<(Seq<char>, AmfValue)>::empty() + string_pair("app"@, v.app) =~= string_pair(
            "app"@,
            v.app,
        ));
        m
    }
}

/// Reading one more pair, or none, into a command object.
proof fn lemma_command_from_pairs_append(s: Seq<(Seq<char>, AmfValue)>, t: Seq<(Seq<char>, AmfValue)>)
    requires
        t.len() <= 1,
    ensures
        CommandObjectView::from_pairs(s + t) == if t.len() == 0 {
            CommandObjectView::from_pairs(s)
        } else {
            CommandObjectView::from_pairs(s).apply(t[0].0, t[0].1)
        },
{
    if t.len() == 0 {
        assert(s + t =~= s);
    } else {
        assert((s + t).drop_last() =~= s);
    }
}

/// Converting a command object into the pairs of an AMF0 object and back gives
/// the same command object.
#[verifier::spinoff_prover]
#[verifier::rlimit(50)]
pub proof fn lemma_command_object_roundtrip(v: CommandObjectView)
    requires
        v.canonical(),
    ensures
        CommandObjectView::from_pairs(v.to_pairs()) == v,
{
    reveal_strlit("fpad");
    reveal_strlit("objectEncoding");
    reveal_strlit("videoFunction");
    reveal_strlit("videoCodecs");
    reveal_strlit("audioCodecs");
    reveal_strlit("app");
    reveal_strlit("type");
    reveal_strlit("flashVer");
    reveal_strlit("swfUrl");
    reveal_strlit("tcUrl");
    reveal_strlit("pageUrl");
    assert("fpad"@.len() == 4 && "objectEncoding"@.len() == 14 && "videoFunction"@.len() == 13);
    assert("videoCodecs"@.len() == 11 && "audioCodecs"@.len() == 11 && "app"@.len() == 3);
    assert("type"@.len() == 4 && "flashVer"@.len() == 8 && "swfUrl"@.len() == 6);
    assert("tcUrl"@.len() == 5 && "pageUrl"@.len() == 7);
    assert("type"@[0] != "fpad"@[0]);
    assert("videoCodecs"@[0] != "audioCodecs"@[0]);
    let e = Seq::<(Seq<char>, AmfValue)>::empty();
    let p1 = string_pair("app"@, v.app);
    let p2 = string_pair("type"@, v.command_type);
    let p3 = string_pair("flashVer"@, v.flash_ver);
    let p4 = string_pair("swfUrl"@, v.swf_url);
    let p5 = string_pair("tcUrl"@, v.tc_url);
    let p6 = boolean_pair("fpad"@, v.fpad);
    let p7 = number_pair(
        "audioCodecs"@,
        match v.audio_codecs {
            Some(c) => Some(u64_to_number_spec(audio_codec_flags(c) as u64)),
            None => None,
        },
    );
    let p8 = number_pair(
        "videoCodecs"@,
        match v.video_codecs {
            Some(c) => Some(u64_to_number_spec(video_codec_flags(c) as u64)),
            None => None,
        },
    );
    let p9 = number_pair(
        "videoFunction"@,
        match v.video_function {
            Some(f) => Some(u64_to_number_spec(f.id_spec() as u64)),
            None => None,
        },
    );
    let p10 = string_pair("pageUrl"@, v.page_url);
    let p11 = number_pair(
        "objectEncoding"@,
        match v.object_encoding {
            Some(e) => Some(u64_to_number_spec(e.id_spec() as u64)),
            None => None,
        },
    );
    assert(e + p1 =~= p1);
    lemma_command_from_pairs_append(e, p1);
    lemma_command_from_pairs_append(p1, p2);
    lemma_command_from_pairs_append(p1 + p2, p3);
    lemma_command_from_pairs_append(p1 + p2 + p3, p4);
    lemma_command_from_pairs_append(p1 + p2 + p3 + p4, p5);
    lemma_command_from_pairs_append(p1 + p2 + p3 + p4 + p5, p6);
    lemma_command_from_pairs_append(p1 + p2 + p3 + p4 + p5 + p6, p7);
    lemma_command_from_pairs_append(p1 + p2 + p3 + p4 + p5 + p6 + p7, p8);
    lemma_command_from_pairs_append(p1 + p2 + p3 + p4 + p5 + p6 + p7 + p8, p9);
    lemma_command_from_pairs_append(p1 + p2 + p3 + p4 + p5 + p6 + p7 + p8 + p9, p10);
    lemma_command_from_pairs_append(p1 + p2 + p3 + p4 + p5 + p6 + p7 + p8 + p9 + p10, p11);
    match v.audio_codecs {
        Some(c) => lemma_number_roundtrip(audio_codec_flags(c) as u64),
        None => {},
    }
    match v.video_codecs {
        Some(c) => lemma_number_roundtrip(video_codec_flags(c) as u64),
        None => {},
    }
    match v.video_function {
        Some(f) => lemma_number_roundtrip(f.id_spec() as u64),
        None => {},
    }
    match v.object_encoding {
        Some(e) => lemma_number_roundtrip(e.id_spec() as u64),
        None => {},
    }
}

/// # The limit type of the client bandwidth
///
/// |Number|Limit type|
/// | ---: | :------- |
/// |0     |`Hard`    |
/// |1     |`Soft`    |
/// |2     |`Dynamic` |
#[derive(Clone, Copy, Debug, PartialEq, Eq, Structural)]
pub enum LimitType {
    Hard,
    Soft,
    Dynamic,
}

impl LimitType {
    /// The number that stands for this value on the wire.
    pub open spec fn id_spec(self) -> u8 {
        match self {
            LimitType::Hard => 0,
            LimitType::Soft => 1,
            LimitType::Dynamic => 2,
        }
    }

    /// The value that `id` stands for, if any.
    pub open spec fn from_id_spec(id: u8) -> Option<LimitType> {
        if id == 0 {
            Some(LimitType::Hard)
        } else if id == 1 {
            Some(LimitType::Soft)
        } else if id == 2 {
            Some(LimitType::Dynamic)
        } else {
            None
        }
    }

    /// Returns the number that stands for this value on the wire.
    pub fn id(&self) -> (r: u8)
        ensures
            r == self.id_spec(),
            LimitType::from_id_spec(r) == Some(*self),
    {
        match self {
            LimitType::Hard => 0,
            LimitType::Soft => 1,
            LimitType::Dynamic => 2,
        }
    }

    /// Returns the value that `id` stands for, or `None` where `id` names none.
    pub fn from_id(id: u8) -> (r: Option<LimitType>)
        ensures
            r == LimitType::from_id_spec(id),
            r matches Some(v) ==> v.id_spec() == id,
    {
        if id == 0 {
            Some(LimitType::Hard)
        } else if id == 1 {
            Some(LimitType::Soft)
        } else if id == 2 {
            Some(LimitType::Dynamic)
        } else {
            None
        }
    }
}

/// # The event types of the ping message
///
/// |Number|PingType     |
/// | ---: | :---------- |
/// |0     |`StreamBegin`|
#[derive(Clone, Copy, Debug, PartialEq, Eq, Structural)]
pub enum PingType {
    StreamBegin,
}

impl PingType {
    /// The number that stands for this value on the wire.
    pub open spec fn id_spec(self) -> u16 {
        match self {
            PingType::StreamBegin => 0,
        }
    }

    /// The value that `id` stands for, if any.
    pub open spec fn from_id_spec(id: u16) -> Option<PingType> {
        if id == 0 {
            Some(PingType::StreamBegin)
        } else {
            None
        }
    }

    /// Returns the number that stands for this value on the wire.
    pub fn id(&self) -> (r: u16)
        ensures
            r == self.id_spec(),
            PingType::from_id_spec(r) == Some(*self),
    {
        match self {
            PingType::StreamBegin => 0,
        }
    }

    /// Returns the value that `id` stands for, or `None` where `id` names none.
    pub fn from_id(id: u16) -> (r: Option<PingType>)
        ensures
            r == PingType::from_id_spec(id),
            r matches Some(v) ==> v.id_spec() == id,
    {
        if id == 0 {
            Some(PingType::StreamBegin)
        } else {
            None
        }
    }
}

/// # The result of the NetConnection command
///
/// |NetConnectionResult|Actual string|
/// | :---------------- | :---------- |
/// |`Result`           |\_result     |
/// |`Error`            |\_error      |
#[derive(Clone, Copy, Debug, PartialEq, Eq, Structural)]
pub enum NetConnectionResult {
    Result,
    Error,
}

impl NetConnectionResult {
    /// The string that stands for this result.
    pub open spec fn name_spec(self) -> Seq<char> {
        match self {
            NetConnectionResult::Result => "_result"@,
            NetConnectionResult::Error => "_error"@,
        }
    }

    /// The result that a string stands for, if any.
    pub open spec fn parse_spec(s: Seq<char>) -> Option<Self> {
        if s == "_result"@ {
            Some(NetConnectionResult::Result)
        } else if s == "_error"@ {
            Some(NetConnectionResult::Error)
        } else {
            None
        }
    }

    /// Returns the string that stands for this result.
    pub fn to_string(&self) -> (r: String)
        ensures
            r@ == self.name_spec(),
            Self::parse_spec(r@) == Some(*self),
    {
        proof {
            reveal_strlit("_result");
            reveal_strlit("_error");
        }
        match self {
            NetConnectionResult::Result => "_result".to_owned(),
            NetConnectionResult::Error => "_error".to_owned(),
        }
    }

    /// Returns the result that `s` stands for: `_result` or `_error`; `None` otherwise.
    pub fn parse(s: &String) -> (r: Option<Self>)
        ensures
            r == Self::parse_spec(s@),
    {
        if str_equals(s, "_result") {
            Some(NetConnectionResult::Result)
        } else if str_equals(s, "_error") {
            Some(NetConnectionResult::Error)
        } else {
            None
        }
    }
}

/// The results travel under the protocol's names "_result" and "_error":
/// each name reads back as its result, and a string that reads as a result is
/// that result's name.
pub proof fn lemma_net_connection_result_names(r: NetConnectionResult, s: Seq<char>)
    ensures
        NetConnectionResult::Result.name_spec() == "_result"@,
        NetConnectionResult::Error.name_spec() == "_error"@,
        NetConnectionResult::parse_spec(r.name_spec()) == Some(r),
        NetConnectionResult::parse_spec(s) == Some(r) ==> s == r.name_spec(),
{
    reveal_strlit("_result");
    reveal_strlit("_error");
    assert("_result"@[1] != "_error"@[1]);
}

/// # The information level of an `InfoObject`
///
/// "status" (completed), "warning" (completed with a notice) or "error" (did not succeed).
#[derive(Clone, Copy, Debug, PartialEq, Eq, Structural)]
pub enum InfoLevel {
    Status,
    Warning,
    Error,
}

impl InfoLevel {
    /// The string that stands for this level.
    pub open spec fn name_spec(self) -> Seq<char> {
        match self {
            InfoLevel::Status => "status"@,
            InfoLevel::Warning => "warning"@,
            InfoLevel::Error => "error"@,
        }
    }

    /// The level that a string stands for, if any.
    pub open spec fn parse_spec(s: Seq<char>) -> Option<Self> {
        if s == "status"@ {
            Some(InfoLevel::Status)
        } else if s == "warning"@ {
            Some(InfoLevel::Warning)
        } else if s == "error"@ {
            Some(InfoLevel::Error)
        } else {
            None
        }
    }

    /// Returns the string that stands for this level.
    pub fn to_string(&self) -> (r: String)
        ensures
            r@ == self.name_spec(),
            Self::parse_spec(r@) == Some(*self),
    {
        proof {
            reveal_strlit("status");
            reveal_strlit("warning");
            reveal_strlit("error");
        }
        match self {
            InfoLevel::Status => "status".to_owned(),
            InfoLevel::Warning => {
                assert("warning"@.len() != "status"@.len());
                "warning".to_owned()
            },
            InfoLevel::Error => {
                assert("error"@.len() != "status"@.len() && "error"@.len() != "warning"@.len());
                "error".to_owned()
            },
        }
    }

    /// Returns the level that `s` stands for; `None` where it names none.
    pub fn parse(s: &String) -> (r: Option<Self>)
        ensures
            r == Self::parse_spec(s@),
    {
        if str_equals(s, "status") {
            Some(InfoLevel::Status)
        } else if str_equals(s, "warning") {
            Some(InfoLevel::Warning)
        } else if str_equals(s, "error") {
            Some(InfoLevel::Error)
        } else {
            None
        }
    }
}

/// # The status of the connect command: "Success"
#[derive(Clone, Copy, Debug, PartialEq, Eq, Structural)]
pub enum ConnectStatus {
    Success,
}

impl ConnectStatus {
    /// The string that stands for this status.
    pub open spec fn name_spec(self) -> Seq<char> {
        "Success"@
    }

    /// The status that a string stands for: one that starts with "Success".
    pub open spec fn parse_spec(s: Seq<char>) -> Option<Self> {
        if starts_with_spec(s, "Success"@) {
            Some(ConnectStatus::Success)
        } else {
            None
        }
    }

    /// Returns the string that stands for this status.
    pub fn to_string(&self) -> (r: String)
        ensures
            r@ == self.name_spec(),
            Self::parse_spec(r@) == Some(*self),
    {
        let r = "Success".to_owned();
        assert(r@.subrange(0, r@.len() as int) =~= r@);
        r
    }

    /// Returns the status that `s` stands for: one that starts with "Success"; `None` otherwise.
    pub fn parse(s: &String) -> (r: Option<Self>)
        ensures
            r == Self::parse_spec(s@),
    {
        if starts_with(s.as_str(), "Success") {
            Some(ConnectStatus::Success)
        } else {
            None
        }
    }
}

/// # The status of the NetConnection command: "Connect.*"
#[derive(Clone, Copy, Debug, PartialEq, Eq, Structural)]
pub enum NetConnectionStatus {
    Connect(ConnectStatus),
}

impl NetConnectionStatus {
    /// The string that stands for this status.
    pub open spec fn name_spec(self) -> Seq<char> {
        match self {
            NetConnectionStatus::Connect(c) => "Connect"@ + "."@ + c.name_spec(),
        }
    }

    /// The status that a string stands for: one that starts with "Connect",
    /// whose part after its first `.` names a connect status.
    pub open spec fn parse_spec(s: Seq<char>) -> Option<Self> {
        if starts_with_spec(s, "Connect"@) {
            match after_first_dot(s) {
                Some(rest) => match ConnectStatus::parse_spec(rest) {
                    Some(c) => Some(NetConnectionStatus::Connect(c)),
                    None => None,
                },
                None => None,
            }
        } else {
            None
        }
    }

    /// Returns the string that stands for this status.
    pub fn to_string(&self) -> (r: String)
        ensures
            r@ == self.name_spec(),
            Self::parse_spec(r@) == Some(*self),
    {
        match self {
            NetConnectionStatus::Connect(c) => {
                let inner = c.to_string();
                let mut r = "Connect.".to_owned();
                r.append(inner.as_str());
                proof {
                    reveal_strlit("Connect.");
                    reveal_strlit("Connect");
                    reveal_strlit(".");
                    assert("Connect."@ =~= "Connect"@ + seq!['.']);
                    assert("."@ =~= seq!['.']);
                    lemma_prefixed_name("Connect"@, inner@);
                    assert(r@ =~= "Connect"@ + seq!['.'] + inner@);
                }
                r
            },
        }
    }

    /// Returns the status that `s` stands for; `None` where it names none.
    pub fn parse(s: &String) -> (r: Option<Self>)
        ensures
            r == Self::parse_spec(s@),
    {
        if starts_with(s.as_str(), "Connect") {
            match after_first_dot_of(s) {
                Some(rest) => match ConnectStatus::parse(&rest) {
                    Some(c) => Some(NetConnectionStatus::Connect(c)),
                    None => None,
                },
                None => None,
            }
        } else {
            None
        }
    }
}

/// # The status of the publish command: "Start"
#[derive(Clone, Copy, Debug, PartialEq, Eq, Structural)]
pub enum PublishStatus {
    Start,
}

impl PublishStatus {
    /// The string that stands for this status.
    pub open spec fn name_spec(self) -> Seq<char> {
        "Start"@
    }

    /// The status that a string stands for: one that starts with "Start".
    pub open spec fn parse_spec(s: Seq<char>) -> Option<Self> {
        if starts_with_spec(s, "Start"@) {
            Some(PublishStatus::Start)
        } else {
            None
        }
    }

    /// Returns the string that stands for this status.
    pub fn to_string(&self) -> (r: String)
        ensures
            r@ == self.name_spec(),
            Self::parse_spec(r@) == Some(*self),
    {
        let r = "Start".to_owned();
        assert(r@.subrange(0, r@.len() as int) =~= r@);
        r
    }

    /// Returns the status that `s` stands for: one that starts with "Start"; `None` otherwise.
    pub fn parse(s: &String) -> (r: Option<Self>)
        ensures
            r == Self::parse_spec(s@),
    {
        if starts_with(s.as_str(), "Start") {
            Some(PublishStatus::Start)
        } else {
            None
        }
    }
}

/// # The status of the NetStream command: "Publish.*"
#[derive(Clone, Copy, Debug, PartialEq, Eq, Structural)]
pub enum NetStreamStatus {
    Publish(PublishStatus),
}

impl NetStreamStatus {
    /// The string that stands for this status.
    pub open spec fn name_spec(self) -> Seq<char> {
        match self {
            NetStreamStatus::Publish(p) => "Publish"@ + "."@ + p.name_spec(),
        }
    }

    /// The status that a string stands for: one that starts with "Publish",
    /// whose part after its first `.` names a publish status.
    pub open spec fn parse_spec(s: Seq<char>) -> Option<Self> {
        if starts_with_spec(s, "Publish"@) {
            match after_first_dot(s) {
                Some(rest) => match PublishStatus::parse_spec(rest) {
                    Some(p) => Some(NetStreamStatus::Publish(p)),
                    None => None,
                },
                None => None,
            }
        } else {
            None
        }
    }

    /// Returns the string that stands for this status.
    pub fn to_string(&self) -> (r: String)
        ensures
            r@ == self.name_spec(),
            Self::parse_spec(r@) == Some(*self),
    {
        match self {
            NetStreamStatus::Publish(p) => {
                let inner = p.to_string();
                let mut r = "Publish.".to_owned();
                r.append(inner.as_str());
                proof {
                    reveal_strlit("Publish.");
                    reveal_strlit("Publish");
                    reveal_strlit(".");
                    assert("Publish."@ =~= "Publish"@ + seq!['.']);
                    assert("."@ =~= seq!['.']);
                    lemma_prefixed_name("Publish"@, inner@);
                    assert(r@ =~= "Publish"@ + seq!['.'] + inner@);
                }
                r
            },
        }
    }

    /// Returns the status that `s` stands for; `None` where it names none.
    pub fn parse(s: &String) -> (r: Option<Self>)
        ensures
            r == Self::parse_spec(s@),
    {
        if starts_with(s.as_str(), "Publish") {
            match after_first_dot_of(s) {
                Some(rest) => match PublishStatus::parse(&rest) {
                    Some(p) => Some(NetStreamStatus::Publish(p)),
                    None => None,
                },
                None => None,
            }
        } else {
            None
        }
    }
}

/// # The status code of an `InfoObject`: "NetConnection.*" or "NetStream.*"
#[derive(Clone, Copy, Debug, PartialEq, Eq, Structural)]
pub enum Status {
    NetConnection(NetConnectionStatus),
    NetStream(NetStreamStatus),
}

impl Status {
    /// The string that stands for this status.
    pub open spec fn name_spec(self) -> Seq<char> {
        match self {
            Status::NetConnection(n) => "NetConnection"@ + "."@ + n.name_spec(),
            Status::NetStream(n) => "NetStream"@ + "."@ + n.name_spec(),
        }
    }

    /// The status that a string stands for: by its start, "NetConnection" or
    /// "NetStream", and the part after its first `.`.
    pub open spec fn parse_spec(s: Seq<char>) -> Option<Self> {
        if starts_with_spec(s, "NetConnection"@) {
            match after_first_dot(s) {
                Some(rest) => match NetConnectionStatus::parse_spec(rest) {
                    Some(n) => Some(Status::NetConnection(n)),
                    None => None,
                },
                None => None,
            }
        } else if starts_with_spec(s, "NetStream"@) {
            match after_first_dot(s) {
                Some(rest) => match NetStreamStatus::parse_spec(rest) {
                    Some(n) => Some(Status::NetStream(n)),
                    None => None,
                },
                None => None,
            }
        } else {
            None
        }
    }

    /// Returns the string that stands for this status.
    pub fn to_string(&self) -> (r: String)
        ensures
            r@ == self.name_spec(),
            Self::parse_spec(r@) == Some(*self),
    {
        match self {
            Status::NetConnection(n) => {
                let inner = n.to_string();
                let mut r = "NetConnection.".to_owned();
                r.append(inner.as_str());
                proof {
                    reveal_strlit("NetConnection.");
                    reveal_strlit("NetConnection");
                    reveal_strlit(".");
                    assert("NetConnection."@ =~= "NetConnection"@ + seq!['.']);
                    assert("."@ =~= seq!['.']);
                    lemma_prefixed_name("NetConnection"@, inner@);
                    assert(r@ =~= "NetConnection"@ + seq!['.'] + inner@);
                }
                r
            },
            Status::NetStream(n) => {
                let inner = n.to_string();
                let mut r = "NetStream.".to_owned();
                r.append(inner.as_str());
                proof {
                    reveal_strlit("NetStream.");
                    reveal_strlit("NetStream");
                    reveal_strlit("NetConnection");
                    reveal_strlit(".");
                    assert("NetStream."@ =~= "NetStream"@ + seq!['.']);
                    assert("."@ =~= seq!['.']);
                    lemma_prefixed_name("NetStream"@, inner@);
                    assert(r@ =~= "NetStream"@ + seq!['.'] + inner@);
                    let s = r@;
                    assert(s[3] == 'S');
                    assert("NetConnection"@[3] == 'C');
                }
                r
            },
        }
    }

    /// Returns the status that `s` stands for; `None` where it names none.
    pub fn parse(s: &String) -> (r: Option<Self>)
        ensures
            r == Self::parse_spec(s@),
    {
        if starts_with(s.as_str(), "NetConnection") {
            match after_first_dot_of(s) {
                Some(rest) => match NetConnectionStatus::parse(&rest) {
                    Some(n) => Some(Status::NetConnection(n)),
                    None => None,
                },
                None => None,
            }
        } else if starts_with(s.as_str(), "NetStream") {
            match after_first_dot_of(s) {
                Some(rest) => match NetStreamStatus::parse(&rest) {
                    Some(n) => Some(Status::NetStream(n)),
                    None => None,
                },
                None => None,
            }
        } else {
            None
        }
    }
}

/// The name of a connect status is read back as that status.
pub proof fn lemma_connect_status_name(c: ConnectStatus)
    ensures
        ConnectStatus::parse_spec(c.name_spec()) == Some(c),
{
    assert(c.name_spec().subrange(0, c.name_spec().len() as int) =~= c.name_spec());
}

/// The name of a NetConnection status is read back as that status.
pub proof fn lemma_net_connection_status_name(n: NetConnectionStatus)
    ensures
        NetConnectionStatus::parse_spec(n.name_spec()) == Some(n),
{
    match n {
        NetConnectionStatus::Connect(c) => {
            reveal_strlit("Connect");
            reveal_strlit(".");
            assert("."@ =~= seq!['.']);
            lemma_prefixed_name("Connect"@, c.name_spec());
            lemma_connect_status_name(c);
        },
    }
}

/// The name of a publish status is read back as that status.
pub proof fn lemma_publish_status_name(p: PublishStatus)
    ensures
        PublishStatus::parse_spec(p.name_spec()) == Some(p),
{
    assert(p.name_spec().subrange(0, p.name_spec().len() as int) =~= p.name_spec());
}

/// The name of a NetStream status is read back as that status.
pub proof fn lemma_net_stream_status_name(n: NetStreamStatus)
    ensures
        NetStreamStatus::parse_spec(n.name_spec()) == Some(n),
{
    match n {
        NetStreamStatus::Publish(p) => {
            reveal_strlit("Publish");
            reveal_strlit(".");
            assert("."@ =~= seq!['.']);
            lemma_prefixed_name("Publish"@, p.name_spec());
            lemma_publish_status_name(p);
        },
    }
}

/// The name of a status is read back as that status.
pub proof fn lemma_status_name(s: Status)
    ensures
        Status::parse_spec(s.name_spec()) == Some(s),
{
    reveal_strlit(".");
    assert("."@ =~= seq!['.']);
    match s {
        Status::NetConnection(n) => {
            reveal_strlit("NetConnection");
            lemma_prefixed_name("NetConnection"@, n.name_spec());
            lemma_net_connection_status_name(n);
        },
        Status::NetStream(n) => {
            reveal_strlit("NetStream");
            reveal_strlit("NetConnection");
            lemma_prefixed_name("NetStream"@, n.name_spec());
            lemma_net_stream_status_name(n);
            let t = s.name_spec();
            assert(t[3] == 'S');
            assert("NetConnection"@[3] == 'C');
        },
    }
}

/// The name of an information level is read back as that level.
pub proof fn lemma_info_level_name(l: InfoLevel)
    ensures
        InfoLevel::parse_spec(l.name_spec()) == Some(l),
{
    reveal_strlit("status");
    reveal_strlit("warning");
    reveal_strlit("error");
    assert("status"@.len() == 6 && "warning"@.len() == 7 && "error"@.len() == 5);
}

/// A name made of a prefix without `.`, a `.` and the rest starts with the
/// prefix, and what follows its first `.` is the rest.
pub proof fn lemma_prefixed_name(prefix: Seq<char>, rest: Seq<char>)
    requires
        forall|j: int| 0 <= j < prefix.len() ==> prefix[j] != '.',
    ensures
        starts_with_spec(prefix + seq!['.'] + rest, prefix),
        after_first_dot(prefix + seq!['.'] + rest) == Some(rest),
{
    let s = prefix + seq!['.'] + rest;
    assert(s.subrange(0, prefix.len() as int) =~= prefix);
    assert(prefix + seq!['.'] + rest =~= prefix + (seq!['.'] + rest));
    lemma_first_index_of_concat(prefix, seq!['.'] + rest, '.');
    assert(first_index_of(seq!['.'] + rest, '.') == 0);
    assert(s.subrange(prefix.len() as int + 1, s.len() as int) =~= rest);
}

/// # The publishing type: "live", "record" or "append"
#[derive(Clone, Copy, Debug, PartialEq, Eq, Structural)]
pub enum PlayType {
    Live,
    Record,
    Append,
}

impl PlayType {
    /// The string that stands for this type.
    pub open spec fn name_spec(self) -> Seq<char> {
        match self {
            PlayType::Live => "live"@,
            PlayType::Record => "record"@,
            PlayType::Append => "append"@,
        }
    }

    /// The type that a string stands for, if any.
    pub open spec fn parse_spec(s: Seq<char>) -> Option<Self> {
        if s == "live"@ {
            Some(PlayType::Live)
        } else if s == "record"@ {
            Some(PlayType::Record)
        } else if s == "append"@ {
            Some(PlayType::Append)
        } else {
            None
        }
    }

    /// Returns the string that stands for this type.
    pub fn to_string(&self) -> (r: String)
        ensures
            r@ == self.name_spec(),
            Self::parse_spec(r@) == Some(*self),
    {
        proof {
            reveal_strlit("live");
            reveal_strlit("record");
            reveal_strlit("append");
        }
        match self {
            PlayType::Live => "live".to_owned(),
            PlayType::Record => "record".to_owned(),
            PlayType::Append => {
                assert("append"@[0] != "record"@[0]);
                "append".to_owned()
            },
        }
    }

    /// Returns the type that `s` stands for; `None` where it names none.
    pub fn parse(s: &String) -> (r: Option<Self>)
        ensures
            r == Self::parse_spec(s@),
    {
        if str_equals(s, "live") {
            Some(PlayType::Live)
        } else if str_equals(s, "record") {
            Some(PlayType::Record)
        } else if str_equals(s, "append") {
            Some(PlayType::Append)
        } else {
            None
        }
    }
}

/// The play types travel under the protocol's names "live", "record" and
/// "append": each name reads back as its type, and a string that reads as a
/// type is that type's name.
pub proof fn lemma_play_type_names(p: PlayType, s: Seq<char>)
    ensures
        PlayType::Live.name_spec() == "live"@,
        PlayType::Record.name_spec() == "record"@,
        PlayType::Append.name_spec() == "append"@,
        PlayType::parse_spec(p.name_spec()) == Some(p),
        PlayType::parse_spec(s) == Some(p) ==> s == p.name_spec(),
{
    reveal_strlit("live");
    reveal_strlit("record");
    reveal_strlit("append");
    assert("append"@[0] != "record"@[0]);
}

/// The message types travel under the protocol's type ids: chunk size 1,
/// bytes read 3, ping 4, server bandwidth 5, client bandwidth 6, audio 8,
/// video 9, notify 18, invoke 20. Each id reads back as its type, and an id
/// that reads as a known type is that type's id.
pub proof fn lemma_message_type_ids(t: MessageType, n: u8)
    ensures
        MessageType::ChunkSize.id_spec() == 1,
        MessageType::BytesRead.id_spec() == 3,
        MessageType::Ping.id_spec() == 4,
        MessageType::ServerBandwidth.id_spec() == 5,
        MessageType::ClientBandwidth.id_spec() == 6,
        MessageType::Audio.id_spec() == 8,
        MessageType::Video.id_spec() == 9,
        MessageType::Notify.id_spec() == 18,
        MessageType::Invoke.id_spec() == 20,
        t != MessageType::Unknown ==> MessageType::from_id_spec(t.id_spec()) == t,
        t != MessageType::Unknown && MessageType::from_id_spec(n) == t ==> n == t.id_spec(),
{
}

/// The message header formats are the chunk formats 0 to 3 of the protocol:
/// a full header, the same source, a timer change, a continuation.
pub proof fn lemma_message_format_ids(f: MessageFormat, n: u8)
    ensures
        MessageFormat::New.id_spec() == 0,
        MessageFormat::SameSource.id_spec() == 1,
        MessageFormat::TimerChange.id_spec() == 2,
        MessageFormat::Continue.id_spec() == 3,
        MessageFormat::from_id_spec(f.id_spec()) == Some(f),
        MessageFormat::from_id_spec(n) == Some(f) ==> n == f.id_spec(),
{
}

/// The AMF0 type markers: number 0, boolean 1, string 2, object 3, null 5,
/// mixed array 8, object end 9.
pub proof fn lemma_amf_data_type_ids(t: AmfDataType, n: u8)
    ensures
        AmfDataType::Number.id_spec() == 0,
        AmfDataType::Boolean.id_spec() == 1,
        AmfDataType::String.id_spec() == 2,
        AmfDataType::Object.id_spec() == 3,
        AmfDataType::Null.id_spec() == 5,
        AmfDataType::MixedArray.id_spec() == 8,
        AmfDataType::ObjectEnd.id_spec() == 9,
        AmfDataType::from_id_spec(t.id_spec()) == Some(t),
        AmfDataType::from_id_spec(n) == Some(t) ==> n == t.id_spec(),
{
}

/// The limit types of the client bandwidth: hard 0, soft 1, dynamic 2.
pub proof fn lemma_limit_type_ids(l: LimitType, n: u8)
    ensures
        LimitType::Hard.id_spec() == 0,
        LimitType::Soft.id_spec() == 1,
        LimitType::Dynamic.id_spec() == 2,
        LimitType::from_id_spec(l.id_spec()) == Some(l),
        LimitType::from_id_spec(n) == Some(l) ==> n == l.id_spec(),
{
}

/// The object encodings: AMF0 0, AMF3 3.
pub proof fn lemma_object_encoding_ids(e: ObjectEncoding, n: u8)
    ensures
        ObjectEncoding::Amf0.id_spec() == 0,
        ObjectEncoding::Amf3.id_spec() == 3,
        ObjectEncoding::from_id_spec(e.id_spec()) == Some(e),
        ObjectEncoding::from_id_spec(n) == Some(e) ==> n == e.id_spec(),
{
}

/// The levels of an information object travel under the names "status",
/// "warning" and "error": each name reads back as its level, and a string
/// that reads as a level is that level's name.
pub proof fn lemma_info_level_names(l: InfoLevel, s: Seq<char>)
    ensures
        InfoLevel::Status.name_spec() == "status"@,
        InfoLevel::Warning.name_spec() == "warning"@,
        InfoLevel::Error.name_spec() == "error"@,
        InfoLevel::parse_spec(l.name_spec()) == Some(l),
        InfoLevel::parse_spec(s) == Some(l) ==> s == l.name_spec(),
{
    reveal_strlit("status");
    reveal_strlit("warning");
    reveal_strlit("error");
    assert("status"@[0] != "error"@[0]);
}

/// The statuses travel under their dotted names:
/// "NetConnection.Connect.Success" and "NetStream.Publish.Start".
pub proof fn lemma_status_names()
    ensures
        Status::NetConnection(NetConnectionStatus::Connect(ConnectStatus::Success)).name_spec()
            == "NetConnection.Connect.Success"@,
        Status::NetStream(NetStreamStatus::Publish(PublishStatus::Start)).name_spec()
            == "NetStream.Publish.Start"@,
{
    reveal_strlit("NetConnection");
    reveal_strlit("NetStream");
    reveal_strlit("Connect");
    reveal_strlit("Publish");
    reveal_strlit("Success");
    reveal_strlit("Start");
    reveal_strlit(".");
    reveal_strlit("NetConnection.Connect.Success");
    reveal_strlit("NetStream.Publish.Start");
    assert("NetConnection"@ + "."@ + ("Connect"@ + "."@ + "Success"@) =~= "NetConnection.Connect.Success"@);
    assert("NetStream"@ + "."@ + ("Publish"@ + "."@ + "Start"@) =~= "NetStream.Publish.Start"@);
}

impl Default for PlayType {
    /// `Live`, the type a new connection starts with.
    fn default() -> (r: Self)
        ensures
            r == PlayType::Live,
    {
        PlayType::Live
    }
}

impl Default for LimitType {
    /// `Hard`, the type a new connection starts with.
    fn default() -> (r: Self)
        ensures
            r == LimitType::Hard,
    {
        LimitType::Hard
    }
}

/// The flags of two runs of codecs put together are the or of their flags.
proof fn lemma_audio_codec_flags_concat(a: Seq<AudioCodec>, b: Seq<AudioCodec>)
    ensures
        audio_codec_flags(a + b) == audio_codec_flags(a) | audio_codec_flags(b),
    decreases b.len(),
{
    let fa = audio_codec_flags(a);
    if b.len() == 0 {
        assert(a + b =~= a);
        assert(fa | 0u16 == fa) by (bit_vector);
    } else {
        assert((a + b).drop_last() =~= a + b.drop_last());
        lemma_audio_codec_flags_concat(a, b.drop_last());
        let fb = audio_codec_flags(b.drop_last());
        let l = b.last().id_spec();
        assert((fa | fb) | l == fa | (fb | l)) by (bit_vector);
    }
}

proof fn lemma_audio_codec_at_id(i: nat)
    requires
        i < 12,
    ensures
        audio_codec_at(i).id_spec() == 1u16 << (i as u16),
{
    if i == 0 {
        assert(1u16 << 0u16 == 1) by (bit_vector);
    } else if i == 1 {
        assert(1u16 << 1u16 == 2) by (bit_vector);
    } else if i == 2 {
        assert(1u16 << 2u16 == 4) by (bit_vector);
    } else if i == 3 {
        assert(1u16 << 3u16 == 8) by (bit_vector);
    } else if i == 4 {
        assert(1u16 << 4u16 == 0x10) by (bit_vector);
    } else if i == 5 {
        assert(1u16 << 5u16 == 0x20) by (bit_vector);
    } else if i == 6 {
        assert(1u16 << 6u16 == 0x40) by (bit_vector);
    } else if i == 7 {
        assert(1u16 << 7u16 == 0x80) by (bit_vector);
    } else if i == 8 {
        assert(1u16 << 8u16 == 0x100) by (bit_vector);
    } else if i == 9 {
        assert(1u16 << 9u16 == 0x200) by (bit_vector);
    } else if i == 10 {
        assert(1u16 << 10u16 == 0x400) by (bit_vector);
    } else {
        assert(1u16 << 11u16 == 0x800) by (bit_vector);
    }
}

proof fn lemma_audio_codecs_from_bit_flags(flags: u16, i: nat)
    requires
        flags <= 0x0fff,
        i <= 12,
    ensures
        audio_codec_flags(audio_codecs_from_bit(flags, i)) == flags & ((0x0fffu16 >> (i as u16)) << (
        i as u16)),
    decreases 12 - i,
{
    let k = i as u16;
    if i == 12 {
        assert(audio_codecs_from_bit(flags, i) =~= Seq::<AudioCodec>::empty());
        assert(audio_codec_flags(Seq::<AudioCodec>::empty()) == 0);
        assert(k == 12);
        assert(flags & ((0x0fffu16 >> 12u16) << 12u16) == 0) by (bit_vector);
    } else {
        lemma_audio_codecs_from_bit_flags(flags, i + 1);
        let rest = audio_codecs_from_bit(flags, i + 1);
        let k1 = (i + 1) as u16;
        assert(k1 == k + 1);
        if flags & (1u16 << k) != 0 {
            let c = audio_codec_at(i);
            assert(audio_codecs_from_bit(flags, i) == seq![c] + rest);
            lemma_audio_codec_flags_concat(seq![c], rest);
            lemma_audio_codec_at_id(i);
            assert(seq![c].drop_last() =~= Seq::<AudioCodec>::empty());
            assert(audio_codec_flags(Seq::<AudioCodec>::empty()) == 0);
            assert(seq![c].last() == c);
            assert(audio_codec_flags(seq![c]) == 0u16 | (1u16 << k));
            let fr = flags & ((0x0fffu16 >> k1) << k1);
            assert(((0u16 | (1u16 << k)) | fr) == flags & ((0x0fffu16 >> k) << k)) by (bit_vector)
                requires
                    flags <= 0x0fff,
                    k < 12,
                    k1 == k + 1,
                    fr == flags & ((0x0fffu16 >> k1) << k1),
                    flags & (1u16 << k) != 0,
            ;
        } else {
            assert(audio_codecs_from_bit(flags, i) == rest);
            assert(flags & ((0x0fffu16 >> k1) << k1) == flags & ((0x0fffu16 >> k) << k)) by (bit_vector)
                requires
                    flags <= 0x0fff,
                    k < 12,
                    k1 == k + 1,
                    flags & (1u16 << k) == 0,
            ;
        }
    }
}

/// Converting the codecs that flags up to `0x0fff` stand for gives the flags back.
pub proof fn lemma_audio_codecs_roundtrip(flags: u16)
    requires
        flags <= 0x0fff,
    ensures
        audio_codec_flags(detect_audio_codecs_spec(flags)) == flags,
{
    if flags == 0x0fff {
        assert(seq![AudioCodec::All].drop_last() =~= Seq::<AudioCodec>::empty());
        assert(audio_codec_flags(Seq::<AudioCodec>::empty()) == 0);
        assert(audio_codec_flags(seq![AudioCodec::All]) == 0u16 | 0x0fffu16);
        assert(0u16 | 0x0fffu16 == 0x0fff) by (bit_vector);
    } else {
        lemma_audio_codecs_from_bit_flags(flags, 0);
        assert((0nat as u16) == 0u16);
        assert(flags & ((0x0fffu16 >> 0u16) << 0u16) == flags) by (bit_vector)
            requires
                flags <= 0x0fff,
        ;
    }
}

/// The flags of two runs of codecs put together are the or of their flags.
proof fn lemma_video_codec_flags_concat(a: Seq<VideoCodec>, b: Seq<VideoCodec>)
    ensures
        video_codec_flags(a + b) == video_codec_flags(a) | video_codec_flags(b),
    decreases b.len(),
{
    let fa = video_codec_flags(a);
    if b.len() == 0 {
        assert(a + b =~= a);
        assert(fa | 0u8 == fa) by (bit_vector);
    } else {
        assert((a + b).drop_last() =~= a + b.drop_last());
        lemma_video_codec_flags_concat(a, b.drop_last());
        let fb = video_codec_flags(b.drop_last());
        let l = b.last().id_spec();
        assert((fa | fb) | l == fa | (fb | l)) by (bit_vector);
    }
}

proof fn lemma_video_codec_at_id(i: nat)
    requires
        i < 8,
    ensures
        video_codec_at(i).id_spec() == 1u8 << (i as u8),
{
    if i == 0 {
        assert(1u8 << 0u8 == 1) by (bit_vector);
    } else if i == 1 {
        assert(1u8 << 1u8 == 2) by (bit_vector);
    } else if i == 2 {
        assert(1u8 << 2u8 == 4) by (bit_vector);
    } else if i == 3 {
        assert(1u8 << 3u8 == 8) by (bit_vector);
    } else if i == 4 {
        assert(1u8 << 4u8 == 0x10) by (bit_vector);
    } else if i == 5 {
        assert(1u8 << 5u8 == 0x20) by (bit_vector);
    } else if i == 6 {
        assert(1u8 << 6u8 == 0x40) by (bit_vector);
    } else {
        assert(1u8 << 7u8 == 0x80) by (bit_vector);
    }
}

proof fn lemma_video_codecs_from_bit_flags(flags: u8, i: nat)
    requires
        i <= 8,
    ensures
        i < 8 ==> video_codec_flags(video_codecs_from_bit(flags, i)) == flags & ((0xffu8 >> (i as u8)) << (
        i as u8)),
        i == 8 ==> video_codec_flags(video_codecs_from_bit(flags, i)) == 0,
    decreases 8 - i,
{
    let k = i as u8;
    if i == 8 {
        assert(video_codecs_from_bit(flags, i) =~= Seq::<VideoCodec>::empty());
    } else {
        lemma_video_codecs_from_bit_flags(flags, i + 1);
        let rest = video_codecs_from_bit(flags, i + 1);
        let k1 = (i + 1) as u8;
        let fr = video_codec_flags(rest);
        if i == 7 {
            assert(rest =~= Seq::<VideoCodec>::empty());
        }
        if flags & (1u8 << k) != 0 {
            let c = video_codec_at(i);
            assert(video_codecs_from_bit(flags, i) == seq![c] + rest);
            lemma_video_codec_flags_concat(seq![c], rest);
            lemma_video_codec_at_id(i);
            assert(seq![c].drop_last() =~= Seq::<VideoCodec>::empty());
            assert(video_codec_flags(Seq::<VideoCodec>::empty()) == 0);
            assert(seq![c].last() == c);
            assert(video_codec_flags(seq![c]) == 0u8 | (1u8 << k));
            if i == 7 {
                assert(((0u8 | (1u8 << 7u8)) | 0u8) == flags & ((0xffu8 >> 7u8) << 7u8)) by (bit_vector)
                    requires
                        flags & (1u8 << 7u8) != 0,
                ;
            } else {
                assert(((0u8 | (1u8 << k)) | fr) == flags & ((0xffu8 >> k) << k)) by (bit_vector)
                    requires
                        k < 7,
                        k1 == k + 1,
                        fr == flags & ((0xffu8 >> k1) << k1),
                        flags & (1u8 << k) != 0,
                ;
            }
        } else {
            assert(video_codecs_from_bit(flags, i) == rest);
            if i == 7 {
                assert(0u8 == flags & ((0xffu8 >> 7u8) << 7u8)) by (bit_vector)
                    requires
                        flags & (1u8 << 7u8) == 0,
                ;
            } else {
                assert(fr == flags & ((0xffu8 >> k) << k)) by (bit_vector)
                    requires
                        k < 7,
                        k1 == k + 1,
                        fr == flags & ((0xffu8 >> k1) << k1),
                        flags & (1u8 << k) == 0,
                ;
            }
        }
    }
}

/// Converting the codecs that any flags stand for gives the flags back.
pub proof fn lemma_video_codecs_roundtrip(flags: u8)
    ensures
        video_codec_flags(detect_video_codecs_spec(flags)) == flags,
{
    if flags == 0xff {
        assert(seq![VideoCodec::All].drop_last() =~= Seq::<VideoCodec>::empty());
        assert(video_codec_flags(Seq::<VideoCodec>::empty()) == 0);
        assert(video_codec_flags(seq![VideoCodec::All]) == 0u8 | 0xffu8);
        assert(0u8 | 0xffu8 == 0xff) by (bit_vector);
    } else {
        lemma_video_codecs_from_bit_flags(flags, 0);
        assert((0nat as u8) == 0u8);
        assert(flags & ((0xffu8 >> 0u8) << 0u8) == flags) by (bit_vector);
    }
}

} // verus!
