//! # The encoders of the chunk messages
//!
//! A chunk leaves as bytes. The encoders append the bytes of each field to a
//! `ByteBuffer` and count them in its length.
//!
//! What an encoder writes is stated by the spec functions of this module,
//! from the value as the contracts see it to the bytes.
use vstd::prelude::*;
use vstd::utf8::encode_utf8;
use vstd::string::StringSliceAdditionalSpecFns;
use crate::amf_number::{u64_to_number, u64_to_number_spec};
use crate::byteorder::{be2_bytes, be3_bytes, be4_bytes, be8_bytes, le2_bytes, le4_bytes};
use crate::messages::{
    AmfData, AmfValue, BasicHeader, ByteBuffer, ByteBufferView, Chunk, ChunkData, ChunkDataView,
    ChunkId, FcPublishCommand, FcPublishCommandView, InvokeCommand, InvokeCommandView, LimitType,
    MessageFormat, MessageHeader, NetConnectionCommand, NetConnectionCommandView,
    NetConnectionResult, NetStreamCommand, NetStreamCommandView, NotifyCommand, NotifyCommandView,
    PingData, PingType, PlayType, pairs_value, opt_chunk_data,
};

verus! {

// ---------------------------------------------------------------------------
// The bytes as the contracts write them
// ---------------------------------------------------------------------------

/// The buffer after `x` was appended to its bytes and counted in its length.
pub open spec fn put(v: ByteBufferView, x: Seq<u8>) -> ByteBufferView {
    ByteBufferView { len: v.len + x.len(), bytes: v.bytes + x, ..v }
}

/// `n` more bytes can be counted in the length of `v`.
pub open spec fn room(v: ByteBufferView, n: int) -> bool {
    v.len + n <= usize::MAX
}

/// An AMF0 string body: the length of its UTF-8 bytes (2 bytes, big endian,
/// cut to 16 bits), then those bytes.
pub open spec fn string_body_bytes(s: Seq<char>) -> Seq<u8> {
    be2_bytes(encode_utf8(s).len() as int % 65536) + encode_utf8(s)
}

/// An AMF0 value: its type marker, then its data. An object and a mixed array
/// end with the object end marker; the count of a mixed array is cut to 32
/// bits. The object end itself is written as nothing.
pub open spec fn amf_bytes(v: AmfValue) -> Seq<u8>
    decreases v,
{
    match v {
        AmfValue::Number(n) => seq![0u8] + be8_bytes(n as int),
        AmfValue::Boolean(b) => seq![1u8, if b { 1u8 } else { 0u8 }],
        AmfValue::String(s) => seq![2u8] + string_body_bytes(s),
        AmfValue::Object(o) => seq![3u8] + pairs_bytes(o) + seq![0u8, 0u8, 9u8],
        AmfValue::Null => seq![5u8],
        AmfValue::MixedArray(o) => seq![8u8] + be4_bytes(o.len() as int % 4294967296) + pairs_bytes(o) + seq![
            0u8,
            0u8,
            9u8,
        ],
        AmfValue::ObjectEnd => Seq::empty(),
    }
}

/// Name/value pairs: each name as a string body, then its value.
pub open spec fn pairs_bytes(o: Seq<(Seq<char>, AmfValue)>) -> Seq<u8>
    decreases o,
{
    if o.len() == 0 {
        Seq::empty()
    } else {
        pairs_bytes(o.subrange(0, o.len() - 1)) + string_body_bytes(o[o.len() - 1].0) + amf_bytes(
            o[o.len() - 1].1,
        )
    }
}

/// The chunk basic header: the format in the top 2 bits of the first byte;
/// an id below 64 in its low 6 bits; an id up to 319 as 0 there and the id
/// less 64 in the next byte; a greater id as 1 there and the id less 64 in the
/// next 2 bytes, little endian.
pub open spec fn basic_header_bytes(f: MessageFormat, id: ChunkId) -> Seq<u8> {
    let top = (f.id_spec() * 64) as u8;
    let n = id.number();
    if n < 64 {
        seq![(top + n) as u8]
    } else if n <= 319 {
        seq![top, (n - 64) as u8]
    } else {
        seq![(top + 1) as u8] + le2_bytes(n - 64)
    }
}

/// The chunk message header: each field its format holds, the timestamp and
/// the message length cut to 24 bits.
pub open spec fn message_header_bytes(h: MessageHeader) -> Seq<u8> {
    match h {
        MessageHeader::New { message_type, message_id, message_len, timestamp } => be3_bytes(
            timestamp as int % 16777216,
        ) + be3_bytes(message_len as int % 16777216) + seq![message_type.id_spec()] + le4_bytes(
            message_id as int,
        ),
        MessageHeader::SameSource { message_type, message_len, timestamp } => be3_bytes(
            timestamp as int % 16777216,
        ) + be3_bytes(message_len as int % 16777216) + seq![message_type.id_spec()],
        MessageHeader::TimerChange { timestamp } => be3_bytes(timestamp as int % 16777216),
        MessageHeader::Continue => Seq::empty(),
    }
}

/// The extended timestamp: 4 bytes, cut to 32 bits, where there is one.
pub open spec fn extended_timestamp_bytes(t: Option<u64>) -> Seq<u8> {
    match t {
        Some(t) => be4_bytes(t as int % 4294967296),
        None => Seq::empty(),
    }
}

/// An AMF0 string value.
pub open spec fn amf_string(s: Seq<char>) -> Seq<u8> {
    amf_bytes(AmfValue::String(s))
}

/// An AMF0 number value: the nearest double to `n`.
pub open spec fn amf_integer(n: u64) -> Seq<u8> {
    amf_bytes(AmfValue::Number(u64_to_number_spec(n)))
}

/// A NetConnection command: the name, the transaction id, then what it holds.
pub open spec fn net_connection_bytes(c: NetConnectionCommandView) -> Seq<u8> {
    match c {
        NetConnectionCommandView::Connect { transaction_id, command_object, .. } => amf_string(
            "connect"@,
        ) + amf_integer(transaction_id) + amf_bytes(AmfValue::Object(command_object.to_pairs())),
        NetConnectionCommandView::ConnectResult {
            result,
            transaction_id,
            properties,
            information,
        } => amf_string(result.name_spec()) + amf_integer(transaction_id) + amf_bytes(
            AmfValue::Object(properties),
        ) + amf_bytes(AmfValue::Object(information.to_pairs())),
        NetConnectionCommandView::ReleaseStream { transaction_id, play_path } => amf_string(
            "releaseStream"@,
        ) + amf_integer(transaction_id) + amf_bytes(AmfValue::Null) + amf_string(play_path),
        NetConnectionCommandView::ReleaseStreamResult { result, transaction_id } => amf_string(
            result.name_spec(),
        ) + amf_integer(transaction_id) + amf_bytes(AmfValue::Null),
        NetConnectionCommandView::CreateStream { transaction_id } => amf_string("createStream"@)
            + amf_integer(transaction_id) + amf_bytes(AmfValue::Null),
        NetConnectionCommandView::CreateStreamResult { result, message_id, transaction_id } =>
            amf_string(result.name_spec()) + amf_integer(transaction_id) + amf_bytes(AmfValue::Null)
            + amf_integer(message_id as u64),
    }
}

/// A NetStream command.
pub open spec fn net_stream_bytes(c: NetStreamCommandView) -> Seq<u8> {
    match c {
        NetStreamCommandView::Publish { transaction_id, play_path, play_type } => amf_string(
            "publish"@,
        ) + amf_integer(transaction_id) + amf_bytes(AmfValue::Null) + amf_string(play_path)
            + amf_string(play_type.name_spec()),
        NetStreamCommandView::OnStatus { transaction_id, info_object } => amf_string("onStatus"@)
            + amf_integer(transaction_id) + amf_bytes(AmfValue::Null) + amf_bytes(
            AmfValue::Object(info_object.to_pairs()),
        ),
    }
}

/// An FCPublish command.
pub open spec fn fc_publish_bytes(c: FcPublishCommandView) -> Seq<u8> {
    match c {
        FcPublishCommandView::FcPublish { transaction_id, play_path } => amf_string("FCPublish"@)
            + amf_integer(transaction_id) + amf_bytes(AmfValue::Null) + amf_string(play_path),
        FcPublishCommandView::OnFcPublish => amf_string("onFCPublish"@),
    }
}

/// An invoke command.
pub open spec fn invoke_bytes(c: InvokeCommandView) -> Seq<u8> {
    match c {
        InvokeCommandView::NetConnection(n) => net_connection_bytes(n),
        InvokeCommandView::NetStream(n) => net_stream_bytes(n),
        InvokeCommandView::FcPublish(f) => fc_publish_bytes(f),
        InvokeCommandView::Unknown(b) => b,
    }
}

/// A notify command: "@setDataFrame", the data frame's name and the metadata
/// as a mixed array; or the bytes of an unknown one.
pub open spec fn notify_bytes(c: NotifyCommandView) -> Seq<u8> {
    match c {
        NotifyCommandView::SetDataFrame { data_frame, meta_data } => amf_string("@setDataFrame"@)
            + amf_string(data_frame) + amf_bytes(AmfValue::MixedArray(meta_data.to_pairs())),
        NotifyCommandView::Unknown(b) => b,
    }
}

/// The chunk data. The chunk size is written with its top bit cleared.
pub open spec fn chunk_data_bytes(d: ChunkDataView) -> Seq<u8> {
    match d {
        ChunkDataView::ChunkSize(n) => be4_bytes((n & 0x7fffffff) as int),
        ChunkDataView::BytesRead(n) => be4_bytes(n as int),
        ChunkDataView::Ping(PingData::StreamBegin(id)) => be2_bytes(
            PingType::StreamBegin.id_spec() as int,
        ) + be4_bytes(id as int),
        ChunkDataView::ServerBandwidth(n) => be4_bytes(n as int),
        ChunkDataView::ClientBandwidth(n, l) => be4_bytes(n as int) + seq![l.id_spec()],
        ChunkDataView::Audio(b) => b,
        ChunkDataView::Video(b) => b,
        ChunkDataView::Notify(c) => notify_bytes(c),
        ChunkDataView::Invoke(c) => invoke_bytes(c),
        ChunkDataView::Unknown(b) => b,
    }
}

/// A whole chunk: its basic header, message header, extended timestamp and data.
pub open spec fn chunk_bytes(c: Chunk) -> Seq<u8> {
    basic_header_bytes(c.basic_header_spec()@.0, c.basic_header_spec()@.1) + message_header_bytes(
        c.message_header_spec(),
    ) + extended_timestamp_bytes(c.extended_timestamp_spec()) + match opt_chunk_data(
        c.chunk_data_spec(),
    ) {
        Some(d) => chunk_data_bytes(d),
        None => Seq::empty(),
    }
}

/// Appending `a`, then `b`, is appending `a + b`.
pub proof fn lemma_put_put(v: ByteBufferView, a: Seq<u8>, b: Seq<u8>)
    ensures
        put(put(v, a), b) == put(v, a + b),
{
    assert((v.bytes + a) + b =~= v.bytes + (a + b));
}

/// Appending three pieces one after the other is appending them together.
pub proof fn lemma_put3(v: ByteBufferView, a: Seq<u8>, b: Seq<u8>, c: Seq<u8>)
    ensures
        put(put(put(v, a), b), c) == put(v, a + b + c),
{
    lemma_put_put(v, a, b);
    lemma_put_put(v, a + b, c);
}

/// Appending four pieces one after the other is appending them together.
pub proof fn lemma_put4(v: ByteBufferView, a: Seq<u8>, b: Seq<u8>, c: Seq<u8>, d: Seq<u8>)
    ensures
        put(put(put(put(v, a), b), c), d) == put(v, a + b + c + d),
{
    lemma_put3(v, a, b, c);
    lemma_put_put(v, a + b + c, d);
}

/// Appending five pieces one after the other is appending them together.
pub proof fn lemma_put5(v: ByteBufferView, a: Seq<u8>, b: Seq<u8>, c: Seq<u8>, d: Seq<u8>, e: Seq<u8>)
    ensures
        put(put(put(put(put(v, a), b), c), d), e) == put(v, a + b + c + d + e),
{
    lemma_put4(v, a, b, c, d);
    lemma_put_put(v, a + b + c + d, e);
}

/// The bytes of the first `i` pairs are no more than those of all of them.
proof fn lemma_pairs_bytes_prefix(s: Seq<(Seq<char>, AmfValue)>, i: int)
    requires
        0 <= i <= s.len(),
    ensures
        pairs_bytes(s.subrange(0, i)).len() <= pairs_bytes(s).len(),
    decreases s.len() - i,
{
    if i < s.len() {
        lemma_pairs_bytes_prefix(s, i + 1);
        assert(s.subrange(0, i + 1).subrange(0, i) =~= s.subrange(0, i));
    } else {
        assert(s.subrange(0, i) =~= s);
    }
}

/// The bytes of the first `i + 1` pairs are those of the first `i`, then the `i`th pair.
proof fn lemma_pairs_bytes_step(s: Seq<(Seq<char>, AmfValue)>, i: int)
    requires
        0 <= i < s.len(),
    ensures
        pairs_bytes(s.subrange(0, i + 1)) == pairs_bytes(s.subrange(0, i)) + string_body_bytes(s[i].0)
            + amf_bytes(s[i].1),
{
    assert(s.subrange(0, i + 1).subrange(0, i) =~= s.subrange(0, i));
}

/// Appends the bytes of a slice.
fn push_slice(out: &mut Vec<u8>, s: &[u8])
    ensures
        final(out)@ == old(out)@ + s@,
{
    let mut i: usize = 0;
    while i < s.len()
        invariant
            i <= s@.len(),
            out@ == old(out)@ + s@.subrange(0, i as int),
        decreases s@.len() - i,
    {
        out.push(s[i]);
        i = i + 1;
        assert(s@.subrange(0, i as int) =~= s@.subrange(0, i - 1) + seq![s@[i - 1]]);
    }
    assert(s@.subrange(0, s@.len() as int) =~= s@);
}

// ---------------------------------------------------------------------------
// Writing bytes
// ---------------------------------------------------------------------------

impl ByteBuffer {
    /// Appends `x` and counts it.
    fn put_seq(&mut self, x: &Vec<u8>)
        requires
            room(old(self)@, x@.len() as int),
        ensures
            final(self)@ == put(old(self)@, x@),
    {
        let n = x.len();
        let bytes = self.bytes_mut();
        let mut i: usize = 0;
        while i < n
            invariant
                n == x@.len(),
                i <= n,
                bytes@ == old(self)@.bytes + x@.subrange(0, i as int),
            decreases n - i,
        {
            bytes.push(x[i]);
            i = i + 1;
            assert(x@.subrange(0, i as int) =~= x@.subrange(0, i - 1) + seq![x@[i - 1]]);
        }
        assert(x@.subrange(0, n as int) =~= x@);
        self.add_len(n);
    }

    /// Appends an AMF0 string body: the length of its UTF-8 bytes, then those bytes.
    fn put_string_body(&mut self, s: &String)
        requires
            room(old(self)@, string_body_bytes(s@).len() as int),
        ensures
            final(self)@ == put(old(self)@, string_body_bytes(s@)),
    {
        let bytes = s.as_str().as_bytes();
        let n = bytes.len();
        self.put_u16_be((n % 65536) as u16);
        let mut v: Vec<u8> = Vec::new();
        push_slice(&mut v, bytes);
        self.put_seq(&v);
        proof {
            lemma_put_put(old(self)@, be2_bytes(n as int % 65536), encode_utf8(s@));
        }
    }

    /// Appends the name/value pairs of an object.
    fn put_pairs(&mut self, o: &Vec<(String, AmfData)>)
        requires
            room(old(self)@, pairs_bytes(pairs_value(o@)).len() as int),
        ensures
            final(self)@ == put(old(self)@, pairs_bytes(pairs_value(o@))),
        decreases o,
    {
        let ghost all = pairs_value(o@);
        let mut i: usize = 0;
        assert(all.subrange(0, 0) =~= Seq::<(Seq<char>, AmfValue)>::empty());
        assert(old(self)@.bytes + Seq::<u8>::empty() =~= old(self)@.bytes);
        while i < o.len()
            invariant
                i <= o@.len(),
                all == pairs_value(o@),
                all.len() == o@.len(),
                room(old(self)@, pairs_bytes(all).len() as int),
                self@ == put(old(self)@, pairs_bytes(all.subrange(0, i as int))),
            decreases o@.len() - i,
        {
            proof {
                lemma_pairs_bytes_step(all, i as int);
                lemma_pairs_bytes_prefix(all, i + 1);
                assert(decreases_to!(o => o@));
                assert(decreases_to!(o@ => o@[i as int]));
                assert(decreases_to!(o@[i as int] => o@[i as int].1));
            }
            let ghost before = self@;
            self.put_string_body(&o[i].0);
            self.put_amf(&o[i].1);
            proof {
                lemma_put_put(before, string_body_bytes(all[i as int].0), amf_bytes(all[i as int].1));
                lemma_put_put(
                    old(self)@,
                    pairs_bytes(all.subrange(0, i as int)),
                    string_body_bytes(all[i as int].0) + amf_bytes(all[i as int].1),
                );
                assert(pairs_bytes(all.subrange(0, i as int)) + (string_body_bytes(all[i as int].0)
                    + amf_bytes(all[i as int].1)) =~= pairs_bytes(all.subrange(0, i + 1)));
            }
            i = i + 1;
        }
        assert(all.subrange(0, o@.len() as int) =~= all);
    }

    /// Appends an AMF0 value: its type marker, then its data.
    fn put_amf(&mut self, d: &AmfData)
        requires
            room(old(self)@, amf_bytes(d.value()).len() as int),
        ensures
            final(self)@ == put(old(self)@, amf_bytes(d.value())),
        decreases d,
    {
        proof {
            d.lemma_value_pairs();
        }
        match d {
            AmfData::Number(n) => {
                self.put_u8(0);
                self.put_f64(*n);
                proof {
                    lemma_put_put(old(self)@, seq![0u8], be8_bytes(*n as int));
                }
            },
            AmfData::Boolean(b) => {
                self.put_u8(1);
                self.put_u8(if *b { 1 } else { 0 });
                proof {
                    lemma_put_put(old(self)@, seq![1u8], seq![if *b { 1u8 } else { 0u8 }]);
                    assert(seq![1u8] + seq![if *b { 1u8 } else { 0u8 }] =~= amf_bytes(d.value()));
                }
            },
            AmfData::String(t) => {
                self.put_u8(2);
                self.put_string_body(t);
                proof {
                    lemma_put_put(old(self)@, seq![2u8], string_body_bytes(t@));
                }
            },
            AmfData::Object(o) => {
                self.put_u8(3);
                self.put_pairs(o);
                let mut end: Vec<u8> = Vec::new();
                end.push(0);
                end.push(0);
                end.push(9);
                self.put_seq(&end);
                proof {
                    lemma_put_put(old(self)@, seq![3u8], pairs_bytes(pairs_value(o@)));
                    lemma_put_put(old(self)@, seq![3u8] + pairs_bytes(pairs_value(o@)), end@);
                    assert(end@ =~= seq![0u8, 0u8, 9u8]);
                }
            },
            AmfData::Null => {
                self.put_u8(5);
            },
            AmfData::MixedArray(o) => {
                self.put_u8(8);
                self.put_u32_be(((o.len() as u64) % 4294967296) as u32);
                self.put_pairs(o);
                let mut end: Vec<u8> = Vec::new();
                end.push(0);
                end.push(0);
                end.push(9);
                self.put_seq(&end);
                proof {
                    let c = be4_bytes(o@.len() as int % 4294967296);
                    lemma_put_put(old(self)@, seq![8u8], c);
                    lemma_put_put(old(self)@, seq![8u8] + c, pairs_bytes(pairs_value(o@)));
                    lemma_put_put(old(self)@, seq![8u8] + c + pairs_bytes(pairs_value(o@)), end@);
                    assert(end@ =~= seq![0u8, 0u8, 9u8]);
                }
            },
            AmfData::ObjectEnd => {
                assert(old(self)@.bytes + Seq::empty() =~= old(self)@.bytes);
            },
        }
    }

    /// Appends an AMF0 number: its marker (0), then the 8 bytes of the double.
    pub fn encode_amf_number(&mut self, number: u64)
        requires
            room(old(self)@, 9),
        ensures
            final(self)@ == put(old(self)@, amf_bytes(AmfValue::Number(number))),
    {
        self.put_amf(&AmfData::Number(number));
    }

    /// Appends an AMF0 boolean: its marker (1), then 1 for `true` and 0 for `false`.
    pub fn encode_amf_boolean(&mut self, boolean: bool)
        requires
            room(old(self)@, 2),
        ensures
            final(self)@ == put(old(self)@, amf_bytes(AmfValue::Boolean(boolean))),
    {
        self.put_amf(&AmfData::Boolean(boolean));
    }

    /// Appends an AMF0 string: its marker (2), then its string body.
    pub fn encode_amf_string(&mut self, string: String)
        requires
            room(old(self)@, amf_bytes(AmfValue::String(string@)).len() as int),
        ensures
            final(self)@ == put(old(self)@, amf_bytes(AmfValue::String(string@))),
    {
        self.put_amf(&AmfData::String(string));
    }

    /// Appends an AMF0 object: its marker (3), its pairs, then the object end marker.
    pub fn encode_amf_object(&mut self, object: Vec<(String, AmfData)>)
        requires
            room(old(self)@, amf_bytes(AmfValue::Object(pairs_value(object@))).len() as int),
        ensures
            final(self)@ == put(old(self)@, amf_bytes(AmfValue::Object(pairs_value(object@)))),
    {
        let d = AmfData::Object(object);
        proof {
            d.lemma_value_pairs();
        }
        self.put_amf(&d);
    }

    /// Appends an AMF0 null: its marker (5) alone.
    pub fn encode_amf_null(&mut self)
        requires
            room(old(self)@, 1),
        ensures
            final(self)@ == put(old(self)@, amf_bytes(AmfValue::Null)),
    {
        self.put_amf(&AmfData::Null);
    }

    /// Appends an AMF0 mixed array: its marker (8), the count of its pairs, its
    /// pairs, then the object end marker.
    pub fn encode_amf_mixed_array(&mut self, mixed_array: Vec<(String, AmfData)>)
        requires
            room(old(self)@, amf_bytes(AmfValue::MixedArray(pairs_value(mixed_array@))).len() as int),
        ensures
            final(self)@ == put(old(self)@, amf_bytes(AmfValue::MixedArray(pairs_value(mixed_array@)))),
    {
        let d = AmfData::MixedArray(mixed_array);
        proof {
            d.lemma_value_pairs();
        }
        self.put_amf(&d);
    }

    /// Appends an AMF0 value. The object end is written as nothing.
    pub fn encode_amf_data(&mut self, data: AmfData)
        requires
            room(old(self)@, amf_bytes(data.value()).len() as int),
        ensures
            final(self)@ == put(old(self)@, amf_bytes(data.value())),
    {
        self.put_amf(&data);
    }

    /// Appends the chunk basic header (see `basic_header_bytes`).
    pub fn encode_basic_header(&mut self, basic_header: BasicHeader)
        requires
            room(old(self)@, 3),
        ensures
            final(self)@ == put(old(self)@, basic_header_bytes(basic_header@.0, basic_header@.1)),
    {
        let top: u8 = basic_header.get_message_format().id() * 64;
        let n: u32 = match basic_header.get_chunk_id() {
            ChunkId::U8(x) => x as u32,
            ChunkId::U16(x) => x as u32,
        };
        if n < 64 {
            self.put_u8(top + n as u8);
        } else if n <= 319 {
            self.put_u8(top);
            self.put_u8((n - 64) as u8);
            proof {
                lemma_put_put(old(self)@, seq![top], seq![(n - 64) as u8]);
                assert(seq![top] + seq![(n - 64) as u8] =~= basic_header_bytes(
                    basic_header@.0,
                    basic_header@.1,
                ));
            }
        } else {
            self.put_u8(top + 1);
            self.put_u16_le((n - 64) as u16);
            proof {
                lemma_put_put(old(self)@, seq![(top + 1) as u8], le2_bytes(n - 64));
            }
        }
    }

    /// Appends the chunk message header: each field its format holds.
    pub fn encode_message_header(&mut self, message_header: MessageHeader)
        requires
            room(old(self)@, 11),
        ensures
            final(self)@ == put(old(self)@, message_header_bytes(message_header)),
    {
        match message_header {
            MessageHeader::New { message_type, message_id, message_len, timestamp } => {
                self.put_u24_be((timestamp % 16777216) as u32);
                self.put_u24_be(message_len % 16777216);
                self.put_u8(message_type.id());
                self.put_u32_le(message_id);
                proof {
                    lemma_put4(
                        old(self)@,
                        be3_bytes(timestamp as int % 16777216),
                        be3_bytes(message_len as int % 16777216),
                        seq![message_type.id_spec()],
                        le4_bytes(message_id as int),
                    );
                }
            },
            MessageHeader::SameSource { message_type, message_len, timestamp } => {
                self.put_u24_be((timestamp % 16777216) as u32);
                self.put_u24_be(message_len % 16777216);
                self.put_u8(message_type.id());
                proof {
                    lemma_put3(
                        old(self)@,
                        be3_bytes(timestamp as int % 16777216),
                        be3_bytes(message_len as int % 16777216),
                        seq![message_type.id_spec()],
                    );
                }
            },
            MessageHeader::TimerChange { timestamp } => {
                self.put_u24_be((timestamp % 16777216) as u32);
            },
            MessageHeader::Continue => {
                assert(old(self)@.bytes + Seq::empty() =~= old(self)@.bytes);
            },
        }
    }

    /// Appends the extended timestamp (4 bytes), where there is one.
    pub fn encode_extended_timestamp(&mut self, timestamp: Option<u64>)
        requires
            room(old(self)@, 4),
        ensures
            final(self)@ == put(old(self)@, extended_timestamp_bytes(timestamp)),
    {
        match timestamp {
            Some(t) => self.put_u32_be((t % 4294967296) as u32),
            None => {
                assert(old(self)@.bytes + Seq::empty() =~= old(self)@.bytes);
            },
        }
    }

    /// Appends the chunk size (4 bytes), its top bit cleared.
    pub fn encode_chunk_size(&mut self, chunk_size: u32)
        requires
            room(old(self)@, 4),
        ensures
            final(self)@ == put(old(self)@, chunk_data_bytes(ChunkDataView::ChunkSize(chunk_size))),
    {
        self.put_u32_be(chunk_size & 0x7fffffff);
    }

    /// Appends the bytes read (4 bytes).
    pub fn encode_bytes_read(&mut self, bytes_read: u32)
        requires
            room(old(self)@, 4),
        ensures
            final(self)@ == put(old(self)@, chunk_data_bytes(ChunkDataView::BytesRead(bytes_read))),
    {
        self.put_u32_be(bytes_read);
    }

    /// Appends a ping: its event type (2 bytes), then its event data.
    pub fn encode_ping(&mut self, ping_data: PingData)
        requires
            room(old(self)@, 6),
        ensures
            final(self)@ == put(old(self)@, chunk_data_bytes(ChunkDataView::Ping(ping_data))),
    {
        match ping_data {
            PingData::StreamBegin(id) => {
                self.put_u16_be(PingType::StreamBegin.id());
                self.put_u32_be(id);
                proof {
                    lemma_put_put(
                        old(self)@,
                        be2_bytes(PingType::StreamBegin.id_spec() as int),
                        be4_bytes(id as int),
                    );
                }
            },
        }
    }

    /// Appends the server bandwidth (4 bytes).
    pub fn encode_server_bandwidth(&mut self, bandwidth: u32)
        requires
            room(old(self)@, 4),
        ensures
            final(self)@ == put(old(self)@, chunk_data_bytes(ChunkDataView::ServerBandwidth(bandwidth))),
    {
        self.put_u32_be(bandwidth);
    }

    /// Appends the client bandwidth (4 bytes), then its limit type (1 byte).
    pub fn encode_client_bandwidth(&mut self, bandwidth: u32, limit_type: LimitType)
        requires
            room(old(self)@, 5),
        ensures
            final(self)@ == put(
                old(self)@,
                chunk_data_bytes(ChunkDataView::ClientBandwidth(bandwidth, limit_type)),
            ),
    {
        self.put_u32_be(bandwidth);
        self.put_u8(limit_type.id());
        proof {
            lemma_put_put(old(self)@, be4_bytes(bandwidth as int), seq![limit_type.id_spec()]);
        }
    }

    /// Appends audio data as it is.
    pub fn encode_audio(&mut self, bytes: Vec<u8>)
        requires
            room(old(self)@, bytes@.len() as int),
        ensures
            final(self)@ == put(old(self)@, bytes@),
    {
        self.put_bytes(bytes);
    }

    /// Appends video data as it is.
    pub fn encode_video(&mut self, bytes: Vec<u8>)
        requires
            room(old(self)@, bytes@.len() as int),
        ensures
            final(self)@ == put(old(self)@, bytes@),
    {
        self.put_bytes(bytes);
    }

    /// Appends the bytes of a message of an unknown type as they are.
    pub fn encode_unknown(&mut self, unknown: Vec<u8>)
        requires
            room(old(self)@, unknown@.len() as int),
        ensures
            final(self)@ == put(old(self)@, unknown@),
    {
        self.put_bytes(unknown);
    }

    /// Appends a notify command (see `notify_bytes`).
    pub fn encode_notify(&mut self, notify_command: NotifyCommand)
        requires
            room(old(self)@, notify_bytes(notify_command@).len() as int),
        ensures
            final(self)@ == put(old(self)@, notify_bytes(notify_command@)),
    {
        match notify_command {
            NotifyCommand::SetDataFrame { data_frame, meta_data } => {
                let ghost d = data_frame@;
                let ghost m = meta_data@;
                self.encode_amf_string("@setDataFrame".to_owned());
                self.encode_amf_string(data_frame);
                self.encode_amf_mixed_array(meta_data.into_amf_object());
                proof {
                    lemma_put3(
                        old(self)@,
                        amf_string("@setDataFrame"@),
                        amf_string(d),
                        amf_bytes(AmfValue::MixedArray(m.to_pairs())),
                    );
                }
            },
            NotifyCommand::Unknown(bytes) => self.put_bytes(bytes),
        }
    }

    /// Appends a NetConnection command (see `net_connection_bytes`).
    #[verifier::spinoff_prover]
    #[verifier::rlimit(30)]
    pub fn encode_invoke_net_connection(&mut self, net_connection: NetConnectionCommand)
        requires
            room(old(self)@, net_connection_bytes(net_connection@).len() as int),
        ensures
            final(self)@ == put(old(self)@, net_connection_bytes(net_connection@)),
    {
        match net_connection {
            NetConnectionCommand::Connect { transaction_id, command_object, .. } => {
                let ghost c = command_object@;
                self.encode_amf_string("connect".to_owned());
                self.encode_amf_number(u64_to_number(transaction_id));
                self.encode_amf_object(command_object.into_amf_object());
                proof {
                    lemma_put3(
                        old(self)@,
                        amf_string("connect"@),
                        amf_integer(transaction_id),
                        amf_bytes(AmfValue::Object(c.to_pairs())),
                    );
                }
            },
            NetConnectionCommand::ConnectResult { result, transaction_id, properties, information } => {
                let ghost pr = pairs_value(properties@);
                let ghost inf = information@;
                self.encode_amf_string(result.to_string());
                self.encode_amf_number(u64_to_number(transaction_id));
                self.encode_amf_object(properties);
                self.encode_amf_object(information.into_amf_object());
                proof {
                    lemma_put4(
                        old(self)@,
                        amf_string(result.name_spec()),
                        amf_integer(transaction_id),
                        amf_bytes(AmfValue::Object(pr)),
                        amf_bytes(AmfValue::Object(inf.to_pairs())),
                    );
                }
            },
            NetConnectionCommand::ReleaseStream { transaction_id, play_path } => {
                let ghost pp = play_path@;
                self.encode_amf_string("releaseStream".to_owned());
                self.encode_amf_number(u64_to_number(transaction_id));
                self.encode_amf_null();
                self.encode_amf_string(play_path);
                proof {
                    lemma_put4(
                        old(self)@,
                        amf_string("releaseStream"@),
                        amf_integer(transaction_id),
                        amf_bytes(AmfValue::Null),
                        amf_string(pp),
                    );
                }
            },
            NetConnectionCommand::ReleaseStreamResult { result, transaction_id } => {
                self.encode_amf_string(result.to_string());
                self.encode_amf_number(u64_to_number(transaction_id));
                self.encode_amf_null();
                proof {
                    lemma_put3(
                        old(self)@,
                        amf_string(result.name_spec()),
                        amf_integer(transaction_id),
                        amf_bytes(AmfValue::Null),
                    );
                }
            },
            NetConnectionCommand::CreateStream { transaction_id } => {
                self.encode_amf_string("createStream".to_owned());
                self.encode_amf_number(u64_to_number(transaction_id));
                self.encode_amf_null();
                proof {
                    lemma_put3(
                        old(self)@,
                        amf_string("createStream"@),
                        amf_integer(transaction_id),
                        amf_bytes(AmfValue::Null),
                    );
                }
            },
            NetConnectionCommand::CreateStreamResult { result, message_id, transaction_id } => {
                self.encode_amf_string(result.to_string());
                self.encode_amf_number(u64_to_number(transaction_id));
                self.encode_amf_null();
                self.encode_amf_number(u64_to_number(message_id as u64));
                proof {
                    lemma_put4(
                        old(self)@,
                        amf_string(result.name_spec()),
                        amf_integer(transaction_id),
                        amf_bytes(AmfValue::Null),
                        amf_integer(message_id as u64),
                    );
                }
            },
        }
    }

    /// Appends a NetStream command (see `net_stream_bytes`).
    pub fn encode_invoke_net_stream(&mut self, net_stream: NetStreamCommand)
        requires
            room(old(self)@, net_stream_bytes(net_stream@).len() as int),
        ensures
            final(self)@ == put(old(self)@, net_stream_bytes(net_stream@)),
    {
        match net_stream {
            NetStreamCommand::Publish { transaction_id, play_path, play_type } => {
                let ghost pp = play_path@;
                self.encode_amf_string("publish".to_owned());
                self.encode_amf_number(u64_to_number(transaction_id));
                self.encode_amf_null();
                self.encode_amf_string(play_path);
                self.encode_amf_string(play_type.to_string());
                proof {
                    lemma_put5(
                        old(self)@,
                        amf_string("publish"@),
                        amf_integer(transaction_id),
                        amf_bytes(AmfValue::Null),
                        amf_string(pp),
                        amf_string(play_type.name_spec()),
                    );
                }
            },
            NetStreamCommand::OnStatus { transaction_id, info_object } => {
                let ghost inf = info_object@;
                self.encode_amf_string("onStatus".to_owned());
                self.encode_amf_number(u64_to_number(transaction_id));
                self.encode_amf_null();
                self.encode_amf_object(info_object.into_amf_object());
                proof {
                    lemma_put4(
                        old(self)@,
                        amf_string("onStatus"@),
                        amf_integer(transaction_id),
                        amf_bytes(AmfValue::Null),
                        amf_bytes(AmfValue::Object(inf.to_pairs())),
                    );
                }
            },
        }
    }

    /// Appends an FCPublish command (see `fc_publish_bytes`).
    pub fn encode_invoke_fc_publish(&mut self, fc_publish: FcPublishCommand)
        requires
            room(old(self)@, fc_publish_bytes(fc_publish@).len() as int),
        ensures
            final(self)@ == put(old(self)@, fc_publish_bytes(fc_publish@)),
    {
        match fc_publish {
            FcPublishCommand::FcPublish { transaction_id, play_path } => {
                let ghost pp = play_path@;
                self.encode_amf_string("FCPublish".to_owned());
                self.encode_amf_number(u64_to_number(transaction_id));
                self.encode_amf_null();
                self.encode_amf_string(play_path);
                proof {
                    lemma_put4(
                        old(self)@,
                        amf_string("FCPublish"@),
                        amf_integer(transaction_id),
                        amf_bytes(AmfValue::Null),
                        amf_string(pp),
                    );
                }
            },
            FcPublishCommand::OnFcPublish => {
                self.encode_amf_string("onFCPublish".to_owned());
            },
        }
    }

    /// Appends an invoke command (see `invoke_bytes`).
    pub fn encode_invoke(&mut self, invoke: InvokeCommand)
        requires
            room(old(self)@, invoke_bytes(invoke@).len() as int),
        ensures
            final(self)@ == put(old(self)@, invoke_bytes(invoke@)),
    {
        match invoke {
            InvokeCommand::NetConnection(c) => self.encode_invoke_net_connection(c),
            InvokeCommand::NetStream(c) => self.encode_invoke_net_stream(c),
            InvokeCommand::FcPublish(c) => self.encode_invoke_fc_publish(c),
            InvokeCommand::Unknown(bytes) => self.put_bytes(bytes),
        }
    }

    /// Appends the chunk data, where there is some (see `chunk_data_bytes`).
    pub fn encode_chunk_data(&mut self, chunk_data: Option<ChunkData>)
        requires
            room(
                old(self)@,
                match opt_chunk_data(chunk_data) {
                    Some(d) => chunk_data_bytes(d).len() as int,
                    None => 0,
                },
            ),
        ensures
            final(self)@ == put(
                old(self)@,
                match opt_chunk_data(chunk_data) {
                    Some(d) => chunk_data_bytes(d),
                    None => Seq::empty(),
                },
            ),
    {
        match chunk_data {
            Some(d) => match d {
                ChunkData::ChunkSize(n) => self.encode_chunk_size(n),
                ChunkData::BytesRead(n) => self.encode_bytes_read(n),
                ChunkData::Ping(p) => self.encode_ping(p),
                ChunkData::ServerBandwidth(n) => self.encode_server_bandwidth(n),
                ChunkData::ClientBandwidth(n, l) => self.encode_client_bandwidth(n, l),
                ChunkData::Audio(b) => self.encode_audio(b),
                ChunkData::Video(b) => self.encode_video(b),
                ChunkData::Notify(c) => self.encode_notify(c),
                ChunkData::Invoke(c) => self.encode_invoke(c),
                ChunkData::Unknown(b) => self.encode_unknown(b),
            },
            None => {
                assert(old(self)@.bytes + Seq::empty() =~= old(self)@.bytes);
            },
        }
    }

    /// Appends 1 byte.
    pub fn put_u8(&mut self, byte: u8)
        requires
            room(old(self)@, 1),
        ensures
            final(self)@ == put(old(self)@, seq![byte]),
    {
        let mut v: Vec<u8> = Vec::new();
        v.push(byte);
        assert(v@ =~= seq![byte]);
        self.put_seq(&v);
    }

    /// Appends 2 bytes, big endian.
    pub fn put_u16_be(&mut self, byte: u16)
        requires
            room(old(self)@, 2),
        ensures
            final(self)@ == put(old(self)@, be2_bytes(byte as int)),
    {
        let mut v: Vec<u8> = Vec::new();
        crate::byteorder::push_be_u16(&mut v, byte);
        assert(v@ =~= be2_bytes(byte as int));
        self.put_seq(&v);
    }

    /// Appends 2 bytes, little endian.
    pub fn put_u16_le(&mut self, byte: u16)
        requires
            room(old(self)@, 2),
        ensures
            final(self)@ == put(old(self)@, le2_bytes(byte as int)),
    {
        let mut v: Vec<u8> = Vec::new();
        crate::byteorder::push_le_u16(&mut v, byte);
        assert(v@ =~= le2_bytes(byte as int));
        self.put_seq(&v);
    }

    /// Appends the low 3 bytes, big endian.
    pub fn put_u24_be(&mut self, byte: u32)
        requires
            room(old(self)@, 3),
        ensures
            final(self)@ == put(old(self)@, be3_bytes(byte as int)),
    {
        let mut v: Vec<u8> = Vec::new();
        crate::byteorder::push_be_u24(&mut v, byte);
        assert(v@ =~= be3_bytes(byte as int));
        self.put_seq(&v);
    }

    /// Appends 4 bytes, big endian.
    pub fn put_u32_be(&mut self, byte: u32)
        requires
            room(old(self)@, 4),
        ensures
            final(self)@ == put(old(self)@, be4_bytes(byte as int)),
    {
        let mut v: Vec<u8> = Vec::new();
        crate::byteorder::push_be_u32(&mut v, byte);
        assert(v@ =~= be4_bytes(byte as int));
        self.put_seq(&v);
    }

    /// Appends 4 bytes, little endian.
    pub fn put_u32_le(&mut self, byte: u32)
        requires
            room(old(self)@, 4),
        ensures
            final(self)@ == put(old(self)@, le4_bytes(byte as int)),
    {
        let mut v: Vec<u8> = Vec::new();
        crate::byteorder::push_le_u32(&mut v, byte);
        assert(v@ =~= le4_bytes(byte as int));
        self.put_seq(&v);
    }

    /// Appends the 8 bytes of a double (its bits), big endian.
    pub fn put_f64(&mut self, byte: u64)
        requires
            room(old(self)@, 8),
        ensures
            final(self)@ == put(old(self)@, be8_bytes(byte as int)),
    {
        let mut v: Vec<u8> = Vec::new();
        crate::byteorder::push_be_u64(&mut v, byte);
        assert(v@ =~= be8_bytes(byte as int));
        self.put_seq(&v);
    }

    /// Appends the bytes as they are.
    pub fn put_bytes(&mut self, bytes: Vec<u8>)
        requires
            room(old(self)@, bytes@.len() as int),
        ensures
            final(self)@ == put(old(self)@, bytes@),
    {
        self.put_seq(&bytes);
    }
}

} // verus!

verus! {

/// The bytes of a chunk: its basic header, message header, extended timestamp
/// and chunk data, one after the other.
pub fn encode_chunk(chunk: Chunk) -> (r: Vec<u8>)
    requires
        chunk_bytes(chunk).len() <= usize::MAX,
    ensures
        r@ == chunk_bytes(chunk),
{
    let ghost c = chunk;
    let mut buffer = ByteBuffer::new(Vec::new());
    let basic_header = chunk.get_basic_header();
    let message_header = chunk.get_message_header();
    let extended_timestamp = chunk.get_extended_timestamp();
    let ghost b0 = buffer@;
    assert(b0.bytes =~= Seq::<u8>::empty());
    buffer.encode_basic_header(basic_header);
    buffer.encode_message_header(message_header);
    buffer.encode_extended_timestamp(extended_timestamp);
    buffer.encode_chunk_data(chunk.into_chunk_data());
    proof {
        lemma_put4(
            b0,
            basic_header_bytes(c.basic_header_spec()@.0, c.basic_header_spec()@.1),
            message_header_bytes(c.message_header_spec()),
            extended_timestamp_bytes(c.extended_timestamp_spec()),
            match opt_chunk_data(c.chunk_data_spec()) {
                Some(d) => chunk_data_bytes(d),
                None => Seq::empty(),
            },
        );
        assert(Seq::<u8>::empty() + chunk_bytes(c) =~= chunk_bytes(c));
    }
    let bytes = buffer.bytes();
    crate::byteorder::slice_to_vec(bytes, 0, bytes.len())
}

} // verus!
