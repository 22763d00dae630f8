//! # The FLV store
//!
//! The server keeps what a client publishes in the shape of an FLV file: a
//! header, then a body of tags, each after the size of the tag before it.
//!
//! * The header: the signature "FLV", the version, whether there are audio
//!   and video tags, and the offset of the data.
//! * A tag: whether it is filtered (encrypted), its type (audio 8, video 9,
//!   script data 18), the size of its data, its timestamp in milliseconds
//!   counted from when the store was created, the stream id (always 0), and
//!   its data.
//! * The size of the previous tag comes before each tag; before the first
//!   tag it is 0.
//!
//! An audio tag begins with a header byte: the sound format (4 bits), the
//! sound rate (2 bits), the sample size (1 bit) and mono or stereo (1 bit);
//! AAC audio has 1 more byte, its packet type. A video tag begins with a byte
//! of the frame type (4 bits) and the codec (4 bits); AVC video has 1 more
//! byte, its packet type, and 3 bytes of composition time. The script data
//! tag holds "onMetaData" and the metadata as AMF0.
use vstd::prelude::*;
use vstd::utf8::encode_utf8;
use crate::byteorder::{be3, read_be_u24, slice_to_vec};
use crate::clock::millis_since_epoch;
use crate::encoders::{amf_bytes, amf_string};
use crate::messages::{AmfValue, ByteBuffer, MetaData, MetaDataView};

verus! {

/// # The type of an FLV tag
///
/// |Number|Tag type    |
/// | ---: | :--------- |
/// |8     |`Audio`     |
/// |9     |`Video`     |
/// |18    |`ScriptData`|
#[derive(Clone, Copy, Debug, PartialEq, Eq, Structural)]
pub enum TagType {
    Audio,
    Video,
    ScriptData,
}

impl TagType {
    /// The number that stands for this value on the wire.
    pub open spec fn id_spec(self) -> u8 {
        match self {
            TagType::Audio => 8,
            TagType::Video => 9,
            TagType::ScriptData => 18,
        }
    }

    /// The value that `id` stands for, if any.
    pub open spec fn from_id_spec(id: u8) -> Option<TagType> {
        if id == 8 {
            Some(TagType::Audio)
        } else if id == 9 {
            Some(TagType::Video)
        } else if id == 18 {
            Some(TagType::ScriptData)
        } else {
            None
        }
    }

    /// Returns the number that stands for this value on the wire.
    pub fn id(&self) -> (r: u8)
        ensures
            r == self.id_spec(),
            TagType::from_id_spec(r) == Some(*self),
    {
        match self {
            TagType::Audio => 8,
            TagType::Video => 9,
            TagType::ScriptData => 18,
        }
    }

    /// Returns the value that `id` stands for, or `None` where `id` names none.
    pub fn from_id(id: u8) -> (r: Option<TagType>)
        ensures
            r == TagType::from_id_spec(id),
            r matches Some(v) ==> v.id_spec() == id,
    {
        if id == 8 {
            Some(TagType::Audio)
        } else if id == 9 {
            Some(TagType::Video)
        } else if id == 18 {
            Some(TagType::ScriptData)
        } else {
            None
        }
    }
}

/// # The sound format of an audio tag (the top 4 bits of its first byte)
///
/// 0 linear PCM (platform endian), 1 ADPCM, 2 MP3, 3 linear PCM (little
/// endian), 4 Nellymoser 16 kHz mono, 5 Nellymoser 8 kHz mono, 6 Nellymoser,
/// 7 G.711 A-law, 8 G.711 mu-law, 10 AAC, 11 Speex, 14 MP3 8 kHz, 15 device
/// specific.
#[derive(Clone, Copy, Debug, PartialEq, Eq, Structural)]
pub enum SoundFormat {
    LinearNe,
    Adpcm,
    Mp3,
    LinearLe,
    NellymoserSixteen,
    NellymoserEight,
    Nellymoser,
    G711A,
    G711mu,
    Aac,
    Speex,
    Mp3Eight,
    Other,
}

impl SoundFormat {
    /// The number that stands for this value on the wire.
    pub open spec fn id_spec(self) -> u8 {
        match self {
            SoundFormat::LinearNe => 0,
            SoundFormat::Adpcm => 1,
            SoundFormat::Mp3 => 2,
            SoundFormat::LinearLe => 3,
            SoundFormat::NellymoserSixteen => 4,
            SoundFormat::NellymoserEight => 5,
            SoundFormat::Nellymoser => 6,
            SoundFormat::G711A => 7,
            SoundFormat::G711mu => 8,
            SoundFormat::Aac => 10,
            SoundFormat::Speex => 11,
            SoundFormat::Mp3Eight => 14,
            SoundFormat::Other => 15,
        }
    }

    /// The value that `id` stands for, if any.
    pub open spec fn from_id_spec(id: u8) -> Option<SoundFormat> {
        if id == 0 {
            Some(SoundFormat::LinearNe)
        } else if id == 1 {
            Some(SoundFormat::Adpcm)
        } else if id == 2 {
            Some(SoundFormat::Mp3)
        } else if id == 3 {
            Some(SoundFormat::LinearLe)
        } else if id == 4 {
            Some(SoundFormat::NellymoserSixteen)
        } else if id == 5 {
            Some(SoundFormat::NellymoserEight)
        } else if id == 6 {
            Some(SoundFormat::Nellymoser)
        } else if id == 7 {
            Some(SoundFormat::G711A)
        } else if id == 8 {
            Some(SoundFormat::G711mu)
        } else if id == 10 {
            Some(SoundFormat::Aac)
        } else if id == 11 {
            Some(SoundFormat::Speex)
        } else if id == 14 {
            Some(SoundFormat::Mp3Eight)
        } else if id == 15 {
            Some(SoundFormat::Other)
        } else {
            None
        }
    }

    /// Returns the number that stands for this value on the wire.
    pub fn id(&self) -> (r: u8)
        ensures
            r == self.id_spec(),
            SoundFormat::from_id_spec(r) == Some(*self),
    {
        match self {
            SoundFormat::LinearNe => 0,
            SoundFormat::Adpcm => 1,
            SoundFormat::Mp3 => 2,
            SoundFormat::LinearLe => 3,
            SoundFormat::NellymoserSixteen => 4,
            SoundFormat::NellymoserEight => 5,
            SoundFormat::Nellymoser => 6,
            SoundFormat::G711A => 7,
            SoundFormat::G711mu => 8,
            SoundFormat::Aac => 10,
            SoundFormat::Speex => 11,
            SoundFormat::Mp3Eight => 14,
            SoundFormat::Other => 15,
        }
    }

    /// Returns the value that `id` stands for, or `None` where `id` names none.
    pub fn from_id(id: u8) -> (r: Option<SoundFormat>)
        ensures
            r == SoundFormat::from_id_spec(id),
            r matches Some(v) ==> v.id_spec() == id,
    {
        if id == 0 {
            Some(SoundFormat::LinearNe)
        } else if id == 1 {
            Some(SoundFormat::Adpcm)
        } else if id == 2 {
            Some(SoundFormat::Mp3)
        } else if id == 3 {
            Some(SoundFormat::LinearLe)
        } else if id == 4 {
            Some(SoundFormat::NellymoserSixteen)
        } else if id == 5 {
            Some(SoundFormat::NellymoserEight)
        } else if id == 6 {
            Some(SoundFormat::Nellymoser)
        } else if id == 7 {
            Some(SoundFormat::G711A)
        } else if id == 8 {
            Some(SoundFormat::G711mu)
        } else if id == 10 {
            Some(SoundFormat::Aac)
        } else if id == 11 {
            Some(SoundFormat::Speex)
        } else if id == 14 {
            Some(SoundFormat::Mp3Eight)
        } else if id == 15 {
            Some(SoundFormat::Other)
        } else {
            None
        }
    }
}

/// # The sound rate of an audio tag: 5.5, 11, 22 or 44 kHz
#[derive(Clone, Copy, Debug, PartialEq, Eq, Structural)]
pub enum SoundRate {
    FivePointFive,
    Eleven,
    TwentyTwo,
    FortyFour,
}

impl SoundRate {
    /// The number that stands for this value on the wire.
    pub open spec fn id_spec(self) -> u8 {
        match self {
            SoundRate::FivePointFive => 0,
            SoundRate::Eleven => 1,
            SoundRate::TwentyTwo => 2,
            SoundRate::FortyFour => 3,
        }
    }

    /// The value that `id` stands for, if any.
    pub open spec fn from_id_spec(id: u8) -> Option<SoundRate> {
        if id == 0 {
            Some(SoundRate::FivePointFive)
        } else if id == 1 {
            Some(SoundRate::Eleven)
        } else if id == 2 {
            Some(SoundRate::TwentyTwo)
        } else if id == 3 {
            Some(SoundRate::FortyFour)
        } else {
            None
        }
    }

    /// Returns the number that stands for this value on the wire.
    pub fn id(&self) -> (r: u8)
        ensures
            r == self.id_spec(),
            SoundRate::from_id_spec(r) == Some(*self),
    {
        match self {
            SoundRate::FivePointFive => 0,
            SoundRate::Eleven => 1,
            SoundRate::TwentyTwo => 2,
            SoundRate::FortyFour => 3,
        }
    }

    /// Returns the value that `id` stands for, or `None` where `id` names none.
    pub fn from_id(id: u8) -> (r: Option<SoundRate>)
        ensures
            r == SoundRate::from_id_spec(id),
            r matches Some(v) ==> v.id_spec() == id,
    {
        if id == 0 {
            Some(SoundRate::FivePointFive)
        } else if id == 1 {
            Some(SoundRate::Eleven)
        } else if id == 2 {
            Some(SoundRate::TwentyTwo)
        } else if id == 3 {
            Some(SoundRate::FortyFour)
        } else {
            None
        }
    }
}

/// # The size of each sound sample: 8 or 16 bits
#[derive(Clone, Copy, Debug, PartialEq, Eq, Structural)]
pub enum SoundSize {
    Eight,
    Sixteen,
}

impl SoundSize {
    /// The number that stands for this value on the wire.
    pub open spec fn id_spec(self) -> u8 {
        match self {
            SoundSize::Eight => 0,
            SoundSize::Sixteen => 1,
        }
    }

    /// The value that `id` stands for, if any.
    pub open spec fn from_id_spec(id: u8) -> Option<SoundSize> {
        if id == 0 {
            Some(SoundSize::Eight)
        } else if id == 1 {
            Some(SoundSize::Sixteen)
        } else {
            None
        }
    }

    /// Returns the number that stands for this value on the wire.
    pub fn id(&self) -> (r: u8)
        ensures
            r == self.id_spec(),
            SoundSize::from_id_spec(r) == Some(*self),
    {
        match self {
            SoundSize::Eight => 0,
            SoundSize::Sixteen => 1,
        }
    }

    /// Returns the value that `id` stands for, or `None` where `id` names none.
    pub fn from_id(id: u8) -> (r: Option<SoundSize>)
        ensures
            r == SoundSize::from_id_spec(id),
            r matches Some(v) ==> v.id_spec() == id,
    {
        if id == 0 {
            Some(SoundSize::Eight)
        } else if id == 1 {
            Some(SoundSize::Sixteen)
        } else {
            None
        }
    }
}

/// # Mono or stereo sound
#[derive(Clone, Copy, Debug, PartialEq, Eq, Structural)]
pub enum SoundType {
    Mono,
    Stereo,
}

impl SoundType {
    /// The number that stands for this value on the wire.
    pub open spec fn id_spec(self) -> u8 {
        match self {
            SoundType::Mono => 0,
            SoundType::Stereo => 1,
        }
    }

    /// The value that `id` stands for, if any.
    pub open spec fn from_id_spec(id: u8) -> Option<SoundType> {
        if id == 0 {
            Some(SoundType::Mono)
        } else if id == 1 {
            Some(SoundType::Stereo)
        } else {
            None
        }
    }

    /// Returns the number that stands for this value on the wire.
    pub fn id(&self) -> (r: u8)
        ensures
            r == self.id_spec(),
            SoundType::from_id_spec(r) == Some(*self),
    {
        match self {
            SoundType::Mono => 0,
            SoundType::Stereo => 1,
        }
    }

    /// Returns the value that `id` stands for, or `None` where `id` names none.
    pub fn from_id(id: u8) -> (r: Option<SoundType>)
        ensures
            r == SoundType::from_id_spec(id),
            r matches Some(v) ==> v.id_spec() == id,
    {
        if id == 0 {
            Some(SoundType::Mono)
        } else if id == 1 {
            Some(SoundType::Stereo)
        } else {
            None
        }
    }
}

/// # The AAC packet type: the sequence header or raw data
#[derive(Clone, Copy, Debug, PartialEq, Eq, Structural)]
pub enum AacPacketType {
    SequenceHeader,
    Raw,
}

impl AacPacketType {
    /// The number that stands for this value on the wire.
    pub open spec fn id_spec(self) -> u8 {
        match self {
            AacPacketType::SequenceHeader => 0,
            AacPacketType::Raw => 1,
        }
    }

    /// The value that `id` stands for, if any.
    pub open spec fn from_id_spec(id: u8) -> Option<AacPacketType> {
        if id == 0 {
            Some(AacPacketType::SequenceHeader)
        } else if id == 1 {
            Some(AacPacketType::Raw)
        } else {
            None
        }
    }

    /// Returns the number that stands for this value on the wire.
    pub fn id(&self) -> (r: u8)
        ensures
            r == self.id_spec(),
            AacPacketType::from_id_spec(r) == Some(*self),
    {
        match self {
            AacPacketType::SequenceHeader => 0,
            AacPacketType::Raw => 1,
        }
    }

    /// Returns the value that `id` stands for, or `None` where `id` names none.
    pub fn from_id(id: u8) -> (r: Option<AacPacketType>)
        ensures
            r == AacPacketType::from_id_spec(id),
            r matches Some(v) ==> v.id_spec() == id,
    {
        if id == 0 {
            Some(AacPacketType::SequenceHeader)
        } else if id == 1 {
            Some(AacPacketType::Raw)
        } else {
            None
        }
    }
}

/// # The frame type of a video tag (the top 4 bits of its first byte)
///
/// 1 key frame, 2 inter frame, 3 disposable inter frame, 4 generated key
/// frame, 5 video info or command frame.
#[derive(Clone, Copy, Debug, PartialEq, Eq, Structural)]
pub enum FrameType {
    Key,
    Inter,
    DisposableInter,
    GeneratedKey,
    VideoInfo,
}

impl FrameType {
    /// The number that stands for this value on the wire.
    pub open spec fn id_spec(self) -> u8 {
        match self {
            FrameType::Key => 1,
            FrameType::Inter => 2,
            FrameType::DisposableInter => 3,
            FrameType::GeneratedKey => 4,
            FrameType::VideoInfo => 5,
        }
    }

    /// The value that `id` stands for, if any.
    pub open spec fn from_id_spec(id: u8) -> Option<FrameType> {
        if id == 1 {
            Some(FrameType::Key)
        } else if id == 2 {
            Some(FrameType::Inter)
        } else if id == 3 {
            Some(FrameType::DisposableInter)
        } else if id == 4 {
            Some(FrameType::GeneratedKey)
        } else if id == 5 {
            Some(FrameType::VideoInfo)
        } else {
            None
        }
    }

    /// Returns the number that stands for this value on the wire.
    pub fn id(&self) -> (r: u8)
        ensures
            r == self.id_spec(),
            FrameType::from_id_spec(r) == Some(*self),
    {
        match self {
            FrameType::Key => 1,
            FrameType::Inter => 2,
            FrameType::DisposableInter => 3,
            FrameType::GeneratedKey => 4,
            FrameType::VideoInfo => 5,
        }
    }

    /// Returns the value that `id` stands for, or `None` where `id` names none.
    pub fn from_id(id: u8) -> (r: Option<FrameType>)
        ensures
            r == FrameType::from_id_spec(id),
            r matches Some(v) ==> v.id_spec() == id,
    {
        if id == 1 {
            Some(FrameType::Key)
        } else if id == 2 {
            Some(FrameType::Inter)
        } else if id == 3 {
            Some(FrameType::DisposableInter)
        } else if id == 4 {
            Some(FrameType::GeneratedKey)
        } else if id == 5 {
            Some(FrameType::VideoInfo)
        } else {
            None
        }
    }
}

/// # The video codec (the low 4 bits of the first byte of a video tag)
///
/// 2 Sorenson H.263, 3 screen video, 4 On2 VP6, 5 On2 VP6 with alpha, 6 screen
/// video version 2, 7 AVC.
#[derive(Clone, Copy, Debug, PartialEq, Eq, Structural)]
pub enum Codec {
    SorensonH263,
    ScreenVideo,
    On2Vp6,
    On2Vp6a,
    ScreenVideo2,
    Avc,
}

impl Codec {
    /// The number that stands for this value on the wire.
    pub open spec fn id_spec(self) -> u8 {
        match self {
            Codec::SorensonH263 => 2,
            Codec::ScreenVideo => 3,
            Codec::On2Vp6 => 4,
            Codec::On2Vp6a => 5,
            Codec::ScreenVideo2 => 6,
            Codec::Avc => 7,
        }
    }

    /// The value that `id` stands for, if any.
    pub open spec fn from_id_spec(id: u8) -> Option<Codec> {
        if id == 2 {
            Some(Codec::SorensonH263)
        } else if id == 3 {
            Some(Codec::ScreenVideo)
        } else if id == 4 {
            Some(Codec::On2Vp6)
        } else if id == 5 {
            Some(Codec::On2Vp6a)
        } else if id == 6 {
            Some(Codec::ScreenVideo2)
        } else if id == 7 {
            Some(Codec::Avc)
        } else {
            None
        }
    }

    /// Returns the number that stands for this value on the wire.
    pub fn id(&self) -> (r: u8)
        ensures
            r == self.id_spec(),
            Codec::from_id_spec(r) == Some(*self),
    {
        match self {
            Codec::SorensonH263 => 2,
            Codec::ScreenVideo => 3,
            Codec::On2Vp6 => 4,
            Codec::On2Vp6a => 5,
            Codec::ScreenVideo2 => 6,
            Codec::Avc => 7,
        }
    }

    /// Returns the value that `id` stands for, or `None` where `id` names none.
    pub fn from_id(id: u8) -> (r: Option<Codec>)
        ensures
            r == Codec::from_id_spec(id),
            r matches Some(v) ==> v.id_spec() == id,
    {
        if id == 2 {
            Some(Codec::SorensonH263)
        } else if id == 3 {
            Some(Codec::ScreenVideo)
        } else if id == 4 {
            Some(Codec::On2Vp6)
        } else if id == 5 {
            Some(Codec::On2Vp6a)
        } else if id == 6 {
            Some(Codec::ScreenVideo2)
        } else if id == 7 {
            Some(Codec::Avc)
        } else {
            None
        }
    }
}

/// # The AVC packet type: the sequence header, a NAL unit, or the end of sequence
#[derive(Clone, Copy, Debug, PartialEq, Eq, Structural)]
pub enum AvcPacketType {
    SequenceHeader,
    Nalu,
    EndOfSequence,
}

impl AvcPacketType {
    /// The number that stands for this value on the wire.
    pub open spec fn id_spec(self) -> u8 {
        match self {
            AvcPacketType::SequenceHeader => 0,
            AvcPacketType::Nalu => 1,
            AvcPacketType::EndOfSequence => 2,
        }
    }

    /// The value that `id` stands for, if any.
    pub open spec fn from_id_spec(id: u8) -> Option<AvcPacketType> {
        if id == 0 {
            Some(AvcPacketType::SequenceHeader)
        } else if id == 1 {
            Some(AvcPacketType::Nalu)
        } else if id == 2 {
            Some(AvcPacketType::EndOfSequence)
        } else {
            None
        }
    }

    /// Returns the number that stands for this value on the wire.
    pub fn id(&self) -> (r: u8)
        ensures
            r == self.id_spec(),
            AvcPacketType::from_id_spec(r) == Some(*self),
    {
        match self {
            AvcPacketType::SequenceHeader => 0,
            AvcPacketType::Nalu => 1,
            AvcPacketType::EndOfSequence => 2,
        }
    }

    /// Returns the value that `id` stands for, or `None` where `id` names none.
    pub fn from_id(id: u8) -> (r: Option<AvcPacketType>)
        ensures
            r == AvcPacketType::from_id_spec(id),
            r matches Some(v) ==> v.id_spec() == id,
    {
        if id == 0 {
            Some(AvcPacketType::SequenceHeader)
        } else if id == 1 {
            Some(AvcPacketType::Nalu)
        } else if id == 2 {
            Some(AvcPacketType::EndOfSequence)
        } else {
            None
        }
    }
}


/// # The FLV header
///
/// Whether the file has audio tags and video tags, the version, and the
/// offset of the data (the size of the header).
#[derive(Clone, Copy, Debug, PartialEq, Eq, Structural)]
pub struct FlvHeader {
    pub has_audio: bool,
    pub has_video: bool,
    pub version: u8,
    pub offset: u32,
}

impl Default for FlvHeader {
    /// A header of no audio, no video, version 0 and offset 0.
    fn default() -> (r: Self)
        ensures
            r == (FlvHeader { has_audio: false, has_video: false, version: 0, offset: 0 }),
    {
        FlvHeader { has_audio: false, has_video: false, version: 0, offset: 0 }
    }
}

/// # The audio tag header
///
/// The sound format, rate, sample size and type; for AAC, the packet type.
#[derive(Clone, Copy, Debug, PartialEq, Eq, Structural)]
pub struct AudioTagHeader {
    pub sound_format: SoundFormat,
    pub sound_rate: SoundRate,
    pub sound_size: SoundSize,
    pub sound_type: SoundType,
    pub aac_packet_type: Option<AacPacketType>,
}

impl AudioTagHeader {
    /// The length of this header in bytes: 1, and 1 more for the AAC packet type.
    pub open spec fn real_len_spec(self) -> int {
        1 + if self.aac_packet_type is Some {
            1int
        } else {
            0int
        }
    }

    /// Returns the length of this header in bytes.
    pub fn real_len(&self) -> (r: u32)
        ensures
            r == self.real_len_spec(),
    {
        if self.aac_packet_type.is_some() {
            2
        } else {
            1
        }
    }
}

/// # The video tag header
///
/// The frame type and the codec; for AVC, the packet type and the composition
/// time (in milliseconds).
#[derive(Clone, Copy, Debug, PartialEq, Eq, Structural)]
pub struct VideoTagHeader {
    pub frame_type: FrameType,
    pub codec: Codec,
    pub avc_packet_type: Option<AvcPacketType>,
    pub composition_time: Option<u64>,
}

impl VideoTagHeader {
    /// The length of this header in bytes: 1, 1 more for the AVC packet type
    /// and 3 more for the composition time.
    pub open spec fn real_len_spec(self) -> int {
        1 + (if self.avc_packet_type is Some {
            1int
        } else {
            0int
        }) + (if self.composition_time is Some {
            3int
        } else {
            0int
        })
    }

    /// Returns the length of this header in bytes.
    pub fn real_len(&self) -> (r: u32)
        ensures
            r == self.real_len_spec(),
    {
        let avc: u32 = if self.avc_packet_type.is_some() {
            1
        } else {
            0
        };
        let composition: u32 = if self.composition_time.is_some() {
            3
        } else {
            0
        };
        1 + avc + composition
    }
}

/// # The encryption tag header
///
/// The number of filters, the length of the filter parameters, and the
/// filter's name.
#[derive(Clone, Debug)]
pub struct EncryptionTagHeader {
    pub filters_count: u8,
    pub length: u32,
    pub filter_name: String,
}

impl EncryptionTagHeader {
    /// The length of this header in bytes: 4, and the bytes of the filter's
    /// name (counted in 32 bits).
    pub open spec fn real_len_spec(&self) -> int {
        4 + (encode_utf8(self.filter_name@).len() as usize) as int % 4294967296
    }

    /// Returns the length of this header in bytes.
    pub fn real_len(&self) -> (r: u32)
        requires
            self.real_len_spec() <= u32::MAX,
        ensures
            r == self.real_len_spec(),
    {
        let n = self.filter_name.as_str().len();
        4 + ((n as u64) % 4294967296) as u32
    }
}

/// # The filter parameters
///
/// * `Encryption`: the initialization vector (16 bytes).
/// * `SelectiveEncryption`: whether the packet is encrypted, and then its
///   initialization vector.
#[derive(Clone, Debug)]
pub enum FilterParams {
    Encryption(Vec<u8>),
    SelectiveEncryption(bool, Option<Vec<u8>>),
}

impl FilterParams {
    /// The length of the parameters in bytes: 16 for encryption; for selective
    /// encryption 24 where the packet is encrypted, 8 otherwise.
    pub open spec fn real_len_spec(&self) -> int {
        match self {
            FilterParams::Encryption(_) => 16,
            FilterParams::SelectiveEncryption(encrypted, _) => if *encrypted {
                24
            } else {
                8
            },
        }
    }

    /// Returns the length of the parameters in bytes.
    pub fn real_len(&self) -> (r: u32)
        ensures
            r == self.real_len_spec(),
    {
        match self {
            FilterParams::Encryption(_) => 16,
            FilterParams::SelectiveEncryption(encrypted, _) => if *encrypted {
                24
            } else {
                8
            },
        }
    }
}

/// # The encryption tag
#[derive(Clone, Debug)]
pub struct EncryptionTag {
    pub filter_params: FilterParams,
    pub encryption_tag_header: EncryptionTagHeader,
}

impl EncryptionTag {
    /// The length of the encryption tag in bytes: its parameters and its header.
    pub open spec fn real_len_spec(&self) -> int {
        self.filter_params.real_len_spec() + self.encryption_tag_header.real_len_spec()
    }

    /// Returns the length of the encryption tag in bytes.
    pub fn real_len(&self) -> (r: u32)
        requires
            self.real_len_spec() <= u32::MAX,
        ensures
            r == self.real_len_spec(),
    {
        self.filter_params.real_len() + self.encryption_tag_header.real_len()
    }
}

/// The length of an optional encryption tag in bytes.
pub open spec fn encryption_len(e: Option<EncryptionTag>) -> int {
    match e {
        Some(t) => t.real_len_spec(),
        None => 0,
    }
}

/// Returns the length of an optional encryption tag in bytes.
fn encryption_real_len(e: &Option<EncryptionTag>) -> (r: u32)
    requires
        encryption_len(*e) <= u32::MAX,
    ensures
        r == encryption_len(*e),
{
    match e {
        Some(t) => t.real_len(),
        None => 0,
    }
}

/// The number of bytes of a sequence, counted in 32 bits.
pub open spec fn count32(b: Seq<u8>) -> int {
    b.len() as int % 4294967296
}

/// Returns the number of bytes of a vector, counted in 32 bits.
fn count32_of(b: &Vec<u8>) -> (r: u32)
    ensures
        r == count32(b@),
{
    ((b.len() as u64) % 4294967296) as u32
}

/// # The audio tag
///
/// Its encryption tag where it is encrypted, its header and its audio data.
#[derive(Clone, Debug)]
pub struct AudioTag {
    pub encryption_tag: Option<EncryptionTag>,
    pub audio_tag_header: AudioTagHeader,
    pub bytes: Vec<u8>,
}

/// The audio tag header at the start of `b` and the audio data after it:
/// `None` where the bytes are too few or name no sound format or AAC packet type.
pub open spec fn parse_audio_tag(b: Seq<u8>) -> Option<(AudioTagHeader, Seq<u8>)> {
    if b.len() >= 1 {
        let x = b[0];
        match SoundFormat::from_id_spec(x / 16) {
            Some(format) => {
                let rate = SoundRate::from_id_spec((x / 4) % 4);
                let size = SoundSize::from_id_spec((x / 2) % 2);
                let kind = SoundType::from_id_spec(x % 2);
                if rate is None || size is None || kind is None {
                    None
                } else if format == SoundFormat::Aac {
                    if b.len() >= 2 {
                        match AacPacketType::from_id_spec(b[1]) {
                            Some(aac) => Some(
                                (
                                    AudioTagHeader {
                                        sound_format: format,
                                        sound_rate: rate->0,
                                        sound_size: size->0,
                                        sound_type: kind->0,
                                        aac_packet_type: Some(aac),
                                    },
                                    b.subrange(2, b.len() as int),
                                ),
                            ),
                            None => None,
                        }
                    } else {
                        None
                    }
                } else {
                    Some(
                        (
                            AudioTagHeader {
                                sound_format: format,
                                sound_rate: rate->0,
                                sound_size: size->0,
                                sound_type: kind->0,
                                aac_packet_type: None,
                            },
                            b.subrange(1, b.len() as int),
                        ),
                    )
                }
            },
            None => None,
        }
    } else {
        None
    }
}

impl AudioTag {
    /// The length of this tag's data in bytes: its header, its audio data
    /// (counted in 32 bits) and its encryption tag.
    pub open spec fn real_len_spec(&self) -> int {
        self.audio_tag_header.real_len_spec() + count32(self.bytes@) + encryption_len(
            self.encryption_tag,
        )
    }

    /// Returns the length of this tag's data in bytes.
    pub fn real_len(&self) -> (r: u32)
        requires
            self.real_len_spec() <= u32::MAX,
        ensures
            r == self.real_len_spec(),
    {
        self.audio_tag_header.real_len() + count32_of(&self.bytes) + encryption_real_len(
            &self.encryption_tag,
        )
    }

    /// Reads an audio tag from the audio data of a chunk: its header, then the
    /// audio data. `None` where the bytes are too few or name no sound format
    /// or AAC packet type.
    pub fn from_bytes(bytes: Vec<u8>) -> (r: Option<AudioTag>)
        ensures
            match parse_audio_tag(bytes@) {
                Some((h, rest)) => r matches Some(t) && t.encryption_tag is None
                    && t.audio_tag_header == h && t.bytes@ == rest,
                None => r is None,
            },
    {
        if bytes.len() < 1 {
            return None;
        }
        let x = bytes[0];
        let format = match SoundFormat::from_id(x / 16) {
            Some(f) => f,
            None => return None,
        };
        let rate = match SoundRate::from_id((x / 4) % 4) {
            Some(v) => v,
            None => return None,
        };
        let size = match SoundSize::from_id((x / 2) % 2) {
            Some(v) => v,
            None => return None,
        };
        let kind = match SoundType::from_id(x % 2) {
            Some(v) => v,
            None => return None,
        };
        let (aac_packet_type, offset) = if format == SoundFormat::Aac {
            if bytes.len() < 2 {
                return None;
            }
            match AacPacketType::from_id(bytes[1]) {
                Some(aac) => (Some(aac), 2),
                None => return None,
            }
        } else {
            (None, 1)
        };
        let audio_tag_header = AudioTagHeader {
            sound_format: format,
            sound_rate: rate,
            sound_size: size,
            sound_type: kind,
            aac_packet_type,
        };
        let rest = slice_to_vec(&bytes, offset, bytes.len());
        Some(AudioTag { encryption_tag: None, audio_tag_header, bytes: rest })
    }
}

/// # The video tag
///
/// Its encryption tag where it is encrypted, its header and its video data.
#[derive(Clone, Debug)]
pub struct VideoTag {
    pub encryption_tag: Option<EncryptionTag>,
    pub video_tag_header: VideoTagHeader,
    pub bytes: Vec<u8>,
}

/// The video tag header at the start of `b` and the video data after it:
/// `None` where the bytes are too few or name no frame type, codec or AVC
/// packet type. An AVC NAL unit holds its composition time in the 3 bytes
/// after the packet type; other AVC packets skip those 3 bytes and hold 0.
pub open spec fn parse_video_tag(b: Seq<u8>) -> Option<(VideoTagHeader, Seq<u8>)> {
    if b.len() >= 1 {
        let x = b[0];
        match (FrameType::from_id_spec(x / 16), Codec::from_id_spec(x % 16)) {
            (Some(frame), Some(codec)) => if codec == Codec::Avc {
                if b.len() >= 5 {
                    match AvcPacketType::from_id_spec(b[1]) {
                        Some(avc) => Some(
                            (
                                VideoTagHeader {
                                    frame_type: frame,
                                    codec,
                                    avc_packet_type: Some(avc),
                                    composition_time: Some(
                                        if avc == AvcPacketType::Nalu {
                                            be3(b, 2) as u64
                                        } else {
                                            0
                                        },
                                    ),
                                },
                                b.subrange(5, b.len() as int),
                            ),
                        ),
                        None => None,
                    }
                } else {
                    None
                }
            } else {
                Some(
                    (
                        VideoTagHeader {
                            frame_type: frame,
                            codec,
                            avc_packet_type: None,
                            composition_time: None,
                        },
                        b.subrange(1, b.len() as int),
                    ),
                )
            },
            _ => None,
        }
    } else {
        None
    }
}

impl VideoTag {
    /// The length of this tag's data in bytes: its header, its video data
    /// (counted in 32 bits) and its encryption tag.
    pub open spec fn real_len_spec(&self) -> int {
        self.video_tag_header.real_len_spec() + count32(self.bytes@) + encryption_len(
            self.encryption_tag,
        )
    }

    /// Returns the length of this tag's data in bytes.
    pub fn real_len(&self) -> (r: u32)
        requires
            self.real_len_spec() <= u32::MAX,
        ensures
            r == self.real_len_spec(),
    {
        self.video_tag_header.real_len() + count32_of(&self.bytes) + encryption_real_len(
            &self.encryption_tag,
        )
    }

    /// Reads a video tag from the video data of a chunk: its header, then the
    /// video data. `None` where the bytes are too few or name no frame type,
    /// codec or AVC packet type.
    pub fn from_bytes(bytes: Vec<u8>) -> (r: Option<VideoTag>)
        ensures
            match parse_video_tag(bytes@) {
                Some((h, rest)) => r matches Some(t) && t.encryption_tag is None
                    && t.video_tag_header == h && t.bytes@ == rest,
                None => r is None,
            },
    {
        if bytes.len() < 1 {
            return None;
        }
        let x = bytes[0];
        let frame_type = match FrameType::from_id(x / 16) {
            Some(f) => f,
            None => return None,
        };
        let codec = match Codec::from_id(x % 16) {
            Some(c) => c,
            None => return None,
        };
        let (avc_packet_type, composition_time, offset) = if codec == Codec::Avc {
            if bytes.len() < 5 {
                return None;
            }
            match AvcPacketType::from_id(bytes[1]) {
                Some(avc) => {
                    let t: u64 = if avc == AvcPacketType::Nalu {
                        read_be_u24(&bytes, 2) as u64
                    } else {
                        0
                    };
                    (Some(avc), Some(t), 5)
                },
                None => return None,
            }
        } else {
            (None, None, 1)
        };
        let video_tag_header = VideoTagHeader { frame_type, codec, avc_packet_type, composition_time };
        let rest = slice_to_vec(&bytes, offset, bytes.len());
        Some(VideoTag { encryption_tag: None, video_tag_header, bytes: rest })
    }
}

/// # The script data tag
///
/// Its encryption tag where it is encrypted, and its bytes: "onMetaData" and
/// the metadata, as AMF0.
#[derive(Clone, Debug)]
pub struct DataTag {
    pub encryption_tag: Option<EncryptionTag>,
    pub bytes: Vec<u8>,
}

/// The bytes of the script data tag of metadata: the AMF0 string
/// "onMetaData", then the metadata as an AMF0 mixed array.
pub open spec fn meta_data_tag_bytes(m: MetaDataView) -> Seq<u8> {
    amf_string("onMetaData"@) + amf_bytes(AmfValue::MixedArray(m.to_pairs()))
}

impl DataTag {
    /// The length of this tag's data in bytes: its bytes (counted in 32 bits)
    /// and its encryption tag.
    pub open spec fn real_len_spec(&self) -> int {
        count32(self.bytes@) + encryption_len(self.encryption_tag)
    }

    /// Returns the length of this tag's data in bytes.
    pub fn real_len(&self) -> (r: u32)
        requires
            self.real_len_spec() <= u32::MAX,
        ensures
            r == self.real_len_spec(),
    {
        count32_of(&self.bytes) + encryption_real_len(&self.encryption_tag)
    }

    /// Makes the script data tag of metadata: "onMetaData", then the metadata
    /// as an AMF0 mixed array.
    pub fn from_meta_data(meta_data: MetaData) -> (r: DataTag)
        requires
            meta_data_tag_bytes(meta_data@).len() <= usize::MAX,
        ensures
            r.encryption_tag is None,
            r.bytes@ == meta_data_tag_bytes(meta_data@),
    {
        let ghost m = meta_data@;
        let mut buffer = ByteBuffer::new(Vec::new());
        let ghost b0 = buffer@;
        assert(b0.bytes =~= Seq::<u8>::empty());
        buffer.encode_amf_string("onMetaData".to_owned());
        buffer.encode_amf_mixed_array(meta_data.into_amf_object());
        proof {
            crate::encoders::lemma_put_put(
                b0,
                amf_string("onMetaData"@),
                amf_bytes(AmfValue::MixedArray(m.to_pairs())),
            );
            assert(Seq::<u8>::empty() + meta_data_tag_bytes(m) =~= meta_data_tag_bytes(m));
        }
        let bytes = buffer.bytes();
        DataTag { encryption_tag: None, bytes: slice_to_vec(bytes, 0, bytes.len()) }
    }
}

/// # The data of an FLV tag
#[derive(Clone, Debug)]
pub enum FlvData {
    Audio(AudioTag),
    Video(VideoTag),
    Data(DataTag),
}

impl FlvData {
    /// Whether the data is encrypted: whether it has an encryption tag.
    pub open spec fn has_encryption_tag_spec(&self) -> bool {
        match self {
            FlvData::Audio(t) => t.encryption_tag is Some,
            FlvData::Video(t) => t.encryption_tag is Some,
            FlvData::Data(t) => t.encryption_tag is Some,
        }
    }

    /// Returns whether the data is encrypted.
    pub fn has_encryption_tag(&self) -> (r: bool)
        ensures
            r == self.has_encryption_tag_spec(),
    {
        match self {
            FlvData::Audio(t) => t.encryption_tag.is_some(),
            FlvData::Video(t) => t.encryption_tag.is_some(),
            FlvData::Data(t) => t.encryption_tag.is_some(),
        }
    }

    /// The length of the data in bytes.
    pub open spec fn real_len_spec(&self) -> int {
        match self {
            FlvData::Audio(t) => t.real_len_spec(),
            FlvData::Video(t) => t.real_len_spec(),
            FlvData::Data(t) => t.real_len_spec(),
        }
    }

    /// Returns the length of the data in bytes.
    pub fn real_len(&self) -> (r: u32)
        requires
            self.real_len_spec() <= u32::MAX,
        ensures
            r == self.real_len_spec(),
    {
        match self {
            FlvData::Audio(t) => t.real_len(),
            FlvData::Video(t) => t.real_len(),
            FlvData::Data(t) => t.real_len(),
        }
    }
}

/// # The FLV tag
///
/// Whether it is filtered, its type, the size of its data, the stream id, its
/// timestamp in milliseconds from when the store was created, and its data.
#[derive(Clone, Debug)]
pub struct FlvTag {
    pub is_filtered: bool,
    pub tag_type: TagType,
    pub data_size: u32,
    pub stream_id: u32,
    pub timestamp: u64,
    pub data: FlvData,
}

impl FlvTag {
    /// The length of the tag in bytes: its 11 byte header and its data.
    pub open spec fn real_len_spec(&self) -> int {
        11 + self.data.real_len_spec()
    }

    /// Returns the length of the tag in bytes.
    pub fn real_len(&self) -> (r: u32)
        requires
            self.real_len_spec() <= u32::MAX,
        ensures
            r == self.real_len_spec(),
    {
        11 + self.data.real_len()
    }
}

/// # An FLV body: the size of the previous tag, then a tag
#[derive(Clone, Debug)]
pub struct FlvBody {
    pub previous_size: u32,
    pub flv_tag: FlvTag,
}

/// # The FLV store
///
/// The header, the time when the store was created (milliseconds since the
/// Unix epoch), and the bodies.
#[derive(Clone, Debug)]
pub struct Flv {
    pub flv_header: FlvHeader,
    pub created: u64,
    pub body: Vec<FlvBody>,
}

/// The store `after` is `before` with the script data tag of the metadata
/// `m` appended at the time `now` (its header noting whether the metadata
/// names an audio codec and a video codec).
pub open spec fn meta_data_appended(before: Flv, after: Flv, m: MetaDataView, now: u64) -> bool {
    &&& after.flv_header == (FlvHeader {
        has_audio: m.audio_codec_id is Some,
        has_video: m.video_codec_id is Some,
        ..before.flv_header
    })
    &&& after.created == before.created
    &&& after.body@.len() == before.body@.len() + 1
    &&& after.body@.subrange(0, before.body@.len() as int) == before.body@
    &&& after.body@.last().previous_size == before.next_previous_size()
    &&& after.body@.last().flv_tag.tag_type == TagType::ScriptData
    &&& after.body@.last().flv_tag.stream_id == 0
    &&& after.body@.last().flv_tag.is_filtered == false
    &&& after.body@.last().flv_tag.timestamp == now - before.created
    &&& after.body@.last().flv_tag.data_size == meta_data_tag_bytes(m).len()
    &&& after.body@.last().flv_tag.data matches FlvData::Data(t) && t.encryption_tag is None
        && t.bytes@ == meta_data_tag_bytes(m)
}

/// The store `after` is `before` with the audio tag read from `b` appended at
/// the time `now`; `before` itself where `b` is no audio tag.
pub open spec fn audio_appended(before: Flv, after: Flv, b: Seq<u8>, now: u64) -> bool {
    &&& after.flv_header == before.flv_header
    &&& after.created == before.created
    &&& match parse_audio_tag(b) {
        Some((h, rest)) => {
            &&& after.body@.len() == before.body@.len() + 1
            &&& after.body@.subrange(0, before.body@.len() as int) == before.body@
            &&& after.body@.last().previous_size == before.next_previous_size()
            &&& after.body@.last().flv_tag.tag_type == TagType::Audio
            &&& after.body@.last().flv_tag.stream_id == 0
            &&& after.body@.last().flv_tag.is_filtered == false
            &&& after.body@.last().flv_tag.timestamp == now - before.created
            &&& after.body@.last().flv_tag.data_size == h.real_len_spec() + rest.len()
            &&& after.body@.last().flv_tag.data matches FlvData::Audio(t) && t.encryption_tag is None
                && t.audio_tag_header == h && t.bytes@ == rest
        },
        None => after.body@ == before.body@,
    }
}

/// The store `after` is `before` with the video tag read from `b` appended at
/// the time `now`; `before` itself where `b` is no video tag.
pub open spec fn video_appended(before: Flv, after: Flv, b: Seq<u8>, now: u64) -> bool {
    &&& after.flv_header == before.flv_header
    &&& after.created == before.created
    &&& match parse_video_tag(b) {
        Some((h, rest)) => {
            &&& after.body@.len() == before.body@.len() + 1
            &&& after.body@.subrange(0, before.body@.len() as int) == before.body@
            &&& after.body@.last().previous_size == before.next_previous_size()
            &&& after.body@.last().flv_tag.tag_type == TagType::Video
            &&& after.body@.last().flv_tag.stream_id == 0
            &&& after.body@.last().flv_tag.is_filtered == false
            &&& after.body@.last().flv_tag.timestamp == now - before.created
            &&& after.body@.last().flv_tag.data_size == h.real_len_spec() + rest.len()
            &&& after.body@.last().flv_tag.data matches FlvData::Video(t) && t.encryption_tag is None
                && t.video_tag_header == h && t.bytes@ == rest
        },
        None => after.body@ == before.body@,
    }
}

impl Default for Flv {
    /// An empty store: the default header, created at 0, no bodies.
    fn default() -> (r: Self)
        ensures
            r.flv_header == (FlvHeader { has_audio: false, has_video: false, version: 0, offset: 0 }),
            r.created == 0,
            r.body@.len() == 0,
    {
        Flv { flv_header: FlvHeader::default(), created: 0, body: Vec::new() }
    }
}

impl Flv {
    /// The size of the tag before the next one: that of the last tag, or 0
    /// where there is none.
    pub open spec fn next_previous_size(&self) -> int {
        if self.body@.len() == 0 {
            0
        } else {
            self.body@.last().flv_tag.real_len_spec()
        }
    }

    /// The last tag's length fits in 32 bits, as the size of the previous tag must.
    pub open spec fn last_fits(&self) -> bool {
        self.next_previous_size() <= u32::MAX
    }

    /// Every tag's data size is the length of its data and fits in 32 bits,
    /// every tag's length fits in 32 bits, and the size before each tag is
    /// that of the tag before it (0 before the first).
    #[verifier::opaque]
    pub open spec fn wf(&self) -> bool {
        forall|i: int|
            0 <= i < self.body@.len() ==> {
                &&& (#[trigger] self.body@[i]).flv_tag.data_size == self.body@[i].flv_tag.data.real_len_spec()
                &&& self.body@[i].flv_tag.real_len_spec() <= u32::MAX
                &&& self.body@[i].previous_size == if i == 0 {
                    0
                } else {
                    self.body@[i - 1].flv_tag.real_len_spec()
                }
            }
    }

    /// Returns the size of the tag before the next one.
    fn previous_size(&self) -> (r: u32)
        requires
            self.last_fits(),
        ensures
            r == self.next_previous_size(),
    {
        let n = self.body.len();
        if n == 0 {
            0
        } else {
            self.body[n - 1].flv_tag.real_len()
        }
    }

    /// Appends a tag of `data` of type `tag_type` at the time `now`.
    fn append_data_at(&mut self, tag_type: TagType, data: FlvData, now: u64)
        requires
            old(self).last_fits(),
            old(self).created <= now,
            11 + data.real_len_spec() <= u32::MAX,
        ensures
            final(self).flv_header == old(self).flv_header,
            final(self).created == old(self).created,
            final(self).body@ == old(self).body@.push(
                FlvBody {
                    previous_size: old(self).next_previous_size() as u32,
                    flv_tag: FlvTag {
                        is_filtered: data.has_encryption_tag_spec(),
                        tag_type,
                        data_size: data.real_len_spec() as u32,
                        stream_id: 0,
                        timestamp: (now - old(self).created) as u64,
                        data,
                    },
                },
            ),
            old(self).wf() ==> final(self).wf(),
    {
        let ghost before = *self;
        let previous_size = self.previous_size();
        let is_filtered = data.has_encryption_tag();
        let data_size = data.real_len();
        let timestamp = now - self.created;
        self.body.push(
            FlvBody {
                previous_size,
                flv_tag: FlvTag { is_filtered, tag_type, data_size, stream_id: 0, timestamp, data },
            },
        );
        proof {
            if before.wf() {
                lemma_append_keeps_wf(before, *self, self.body@.last().flv_tag);
            }
        }
    }

    /// Appends the script data tag of `meta_data` at the time `now`, and notes
    /// in the header whether the metadata names an audio codec and a video codec.
    pub fn append_meta_data_at(&mut self, meta_data: MetaData, now: u64)
        requires
            old(self).last_fits(),
            old(self).created <= now,
            meta_data_tag_bytes(meta_data@).len() + 11 <= u32::MAX,
        ensures
            meta_data_appended(*old(self), *final(self), meta_data@, now),
            old(self).wf() ==> final(self).wf(),
    {
        let ghost old_body = self.body@;
        let ghost before = *self;
        self.flv_header.has_audio = meta_data.get_audio_codec_id().is_some();
        self.flv_header.has_video = meta_data.get_video_codec_id().is_some();
        proof {
            lemma_wf_of_body(before, *self);
        }
        let data = FlvData::Data(DataTag::from_meta_data(meta_data));
        self.append_data_at(TagType::ScriptData, data, now);
        assert(self.body@.subrange(0, old_body.len() as int) =~= old_body);
    }

    /// Appends an audio tag read from the audio data `bytes` at the time `now`;
    /// where the bytes are no audio tag, the store stays as it was.
    pub fn append_audio_at(&mut self, bytes: Vec<u8>, now: u64)
        requires
            old(self).last_fits(),
            old(self).created <= now,
            bytes@.len() + 11 <= u32::MAX,
        ensures
            audio_appended(*old(self), *final(self), bytes@, now),
            old(self).wf() ==> final(self).wf(),
    {
        let ghost old_body = self.body@;
        match AudioTag::from_bytes(bytes) {
            Some(tag) => {
                self.append_data_at(TagType::Audio, FlvData::Audio(tag), now);
                assert(self.body@.subrange(0, old_body.len() as int) =~= old_body);
            },
            None => {},
        }
    }

    /// Appends a video tag read from the video data `bytes` at the time `now`;
    /// where the bytes are no video tag, the store stays as it was.
    pub fn append_video_at(&mut self, bytes: Vec<u8>, now: u64)
        requires
            old(self).last_fits(),
            old(self).created <= now,
            bytes@.len() + 11 <= u32::MAX,
        ensures
            video_appended(*old(self), *final(self), bytes@, now),
            old(self).wf() ==> final(self).wf(),
    {
        let ghost old_body = self.body@;
        match VideoTag::from_bytes(bytes) {
            Some(tag) => {
                self.append_data_at(TagType::Video, FlvData::Video(tag), now);
                assert(self.body@.subrange(0, old_body.len() as int) =~= old_body);
            },
            None => {},
        }
    }

    /// Appends the script data tag of `meta_data` at the time of the clock (see `append_meta_data_at`).
    /// Where the clock stands before the Unix epoch, the tag is stamped with
    /// the time of the store's creation; where it stands before the store was
    /// created (which a store created at 0 never sees), the store stays as it
    /// was.
    pub fn append_meta_data(&mut self, meta_data: MetaData)
        requires
            old(self).last_fits(),
            meta_data_tag_bytes(meta_data@).len() + 11 <= u32::MAX,
        ensures
            (exists|now: u64|
                old(self).created <= now && #[trigger] meta_data_appended(
                    *old(self),
                    *final(self),
                    meta_data@,
                    now,
                )) || (*final(self) == *old(self)
                && old(self).created > 0),
            old(self).wf() ==> final(self).wf(),
    {
        let ghost m = meta_data@;
        let ghost before = *self;
        match millis_since_epoch() {
            Some(t) => if self.created <= t {
                self.append_meta_data_at(meta_data, t);
                assert(meta_data_appended(before, *self, m, t));
            },
            None => {
                let now = self.created;
                self.append_meta_data_at(meta_data, now);
                assert(meta_data_appended(before, *self, m, now));
            },
        }
    }

    /// Appends an audio tag read from `bytes` at the time of the clock (see `append_audio_at`).
    /// Where the clock stands before the Unix epoch, the tag is stamped with
    /// the time of the store's creation; where it stands before the store was
    /// created (which a store created at 0 never sees), the store stays as it
    /// was.
    pub fn append_audio(&mut self, bytes: Vec<u8>)
        requires
            old(self).last_fits(),
            bytes@.len() + 11 <= u32::MAX,
        ensures
            (exists|now: u64|
                old(self).created <= now && #[trigger] audio_appended(
                    *old(self),
                    *final(self),
                    bytes@,
                    now,
                )) || (*final(self) == *old(self)
                && old(self).created > 0),
            old(self).wf() ==> final(self).wf(),
    {
        let ghost b = bytes@;
        let ghost before = *self;
        match millis_since_epoch() {
            Some(t) => if self.created <= t {
                self.append_audio_at(bytes, t);
                assert(audio_appended(before, *self, b, t));
            },
            None => {
                let now = self.created;
                self.append_audio_at(bytes, now);
                assert(audio_appended(before, *self, b, now));
            },
        }
    }

    /// Appends a video tag read from `bytes` at the time of the clock (see `append_video_at`).
    /// Where the clock stands before the Unix epoch, the tag is stamped with
    /// the time of the store's creation; where it stands before the store was
    /// created (which a store created at 0 never sees), the store stays as it
    /// was.
    pub fn append_video(&mut self, bytes: Vec<u8>)
        requires
            old(self).last_fits(),
            bytes@.len() + 11 <= u32::MAX,
        ensures
            (exists|now: u64|
                old(self).created <= now && #[trigger] video_appended(
                    *old(self),
                    *final(self),
                    bytes@,
                    now,
                )) || (*final(self) == *old(self)
                && old(self).created > 0),
            old(self).wf() ==> final(self).wf(),
    {
        let ghost b = bytes@;
        let ghost before = *self;
        match millis_since_epoch() {
            Some(t) => if self.created <= t {
                self.append_video_at(bytes, t);
                assert(video_appended(before, *self, b, t));
            },
            None => {
                let now = self.created;
                self.append_video_at(bytes, now);
                assert(video_appended(before, *self, b, now));
            },
        }
    }
}

/// Video data that holds a video tag is stored in a store created at 0,
/// whatever the clock reads (see `append_video`): the store gains exactly one tag, behind the tags it held, a video tag of the
/// header and the data read from the bytes.
pub proof fn lemma_video_stored(before: Flv, after: Flv, b: Seq<u8>)
    requires
        (exists|now: u64| before.created <= now && #[trigger] video_appended(before, after, b, now))
            || (after == before && before.created > 0),
        before.created == 0,
        parse_video_tag(b) is Some,
    ensures
        after.body@.len() == before.body@.len() + 1,
        after.body@.subrange(0, before.body@.len() as int) == before.body@,
        after.body@.last().flv_tag.tag_type == TagType::Video,
        after.body@.last().flv_tag.data matches FlvData::Video(t) && t.video_tag_header
            == parse_video_tag(b).unwrap().0 && t.bytes@ == parse_video_tag(b).unwrap().1,
{
}

/// Audio data that holds an audio tag is stored in a store created at 0,
/// whatever the clock reads (see `append_audio`): the store gains exactly one tag, behind the tags it held, an audio tag of
/// the header and the data read from the bytes.
pub proof fn lemma_audio_stored(before: Flv, after: Flv, b: Seq<u8>)
    requires
        (exists|now: u64| before.created <= now && #[trigger] audio_appended(before, after, b, now))
            || (after == before && before.created > 0),
        before.created == 0,
        parse_audio_tag(b) is Some,
    ensures
        after.body@.len() == before.body@.len() + 1,
        after.body@.subrange(0, before.body@.len() as int) == before.body@,
        after.body@.last().flv_tag.tag_type == TagType::Audio,
        after.body@.last().flv_tag.data matches FlvData::Audio(t) && t.audio_tag_header
            == parse_audio_tag(b).unwrap().0 && t.bytes@ == parse_audio_tag(b).unwrap().1,
{
}

/// Metadata is stored in a store created at 0, whatever the clock reads (see
/// `append_meta_data`): the store gains exactly one tag, behind the tags it held, a script data tag of its bytes.
pub proof fn lemma_meta_data_stored(before: Flv, after: Flv, m: MetaDataView)
    requires
        (exists|now: u64| before.created <= now && #[trigger] meta_data_appended(before, after, m, now))
            || (after == before && before.created > 0),
        before.created == 0,
    ensures
        after.body@.len() == before.body@.len() + 1,
        after.body@.subrange(0, before.body@.len() as int) == before.body@,
        after.body@.last().flv_tag.tag_type == TagType::ScriptData,
        after.body@.last().flv_tag.data matches FlvData::Data(t) && t.bytes@ == meta_data_tag_bytes(m),
{
}

/// In a well formed store the last tag's length fits in 32 bits.
pub proof fn lemma_wf_last_fits(a: Flv)
    requires
        a.wf(),
    ensures
        a.last_fits(),
{
    reveal(Flv::wf);
    if a.body@.len() > 0 {
        assert(a.body@[a.body@.len() - 1] == a.body@.last());
    }
}

/// Whether a store is well formed depends on its bodies alone.
pub proof fn lemma_wf_of_body(a: Flv, b: Flv)
    requires
        a.body@ == b.body@,
    ensures
        a.wf() == b.wf(),
{
    reveal(Flv::wf);
}

/// The empty store is well formed.
pub proof fn lemma_empty_wf(a: Flv)
    requires
        a.body@.len() == 0,
    ensures
        a.wf(),
{
    reveal(Flv::wf);
}

/// Appending keeps the store well formed: the size before the new tag is that
/// of the tag before it, and the new tag's data size is its data's length.
#[verifier::spinoff_prover]
#[verifier::rlimit(50)]
pub proof fn lemma_append_keeps_wf(before: Flv, after: Flv, tag: FlvTag)
    requires
        before.wf(),
        tag.data_size == tag.data.real_len_spec(),
        tag.real_len_spec() <= u32::MAX,
        after.body@ == before.body@.push(
            FlvBody { previous_size: before.next_previous_size() as u32, flv_tag: tag },
        ),
    ensures
        after.wf(),
{
    reveal(Flv::wf);
    assert forall|i: int| 0 <= i < after.body@.len() implies {
        &&& (#[trigger] after.body@[i]).flv_tag.data_size == after.body@[i].flv_tag.data.real_len_spec()
        &&& after.body@[i].flv_tag.real_len_spec() <= u32::MAX
        &&& after.body@[i].previous_size == if i == 0 {
            0
        } else {
            after.body@[i - 1].flv_tag.real_len_spec()
        }
    } by {
        if i < before.body@.len() {
            assert(after.body@[i] == before.body@[i]);
            if i > 0 {
                assert(after.body@[i - 1] == before.body@[i - 1]);
            }
        } else if i > 0 {
            assert(after.body@[i - 1] == before.body@[i - 1]);
            assert(before.body@[i - 1].flv_tag.real_len_spec() <= u32::MAX);
        }
    }
}

} // verus!
