//! # The commands and the chunk
//!
//! The invoke commands (NetConnection, NetStream, FCPublish), the notify
//! command (`@setDataFrame`), the ping data, the chunk data of each message
//! type, and the chunk itself: its headers with its data.
use vstd::prelude::*;
use crate::messages::{
    AmfData, AmfValue, Argument, BasicHeader, CommandObject, CommandObjectView, InfoObject,
    InfoObjectView, LimitType, MessageHeader, MetaData, MetaDataView, NetConnectionResult, PlayType,
    pairs_value,
};

verus! {

/// # The NetConnection command
///
/// * `Connect`: the client asks to connect to an application.
/// * `ConnectResult`: the server's answer, with its properties and an
///   information object.
/// * `ReleaseStream`: the client releases the stream of a play path.
/// * `ReleaseStreamResult`: the server's answer.
/// * `CreateStream`: the client asks for a message stream.
/// * `CreateStreamResult`: the server's answer, with the message stream id.
///
/// The transaction id is read from an AMF0 number as Rust's `as u64` does.
#[derive(Debug, Clone)]
pub enum NetConnectionCommand {
    Connect { argument: Option<Argument>, transaction_id: u64, command_object: CommandObject },
    ConnectResult {
        result: NetConnectionResult,
        transaction_id: u64,
        properties: Vec<(String, AmfData)>,
        information: InfoObject,
    },
    ReleaseStream { transaction_id: u64, play_path: String },
    ReleaseStreamResult { result: NetConnectionResult, transaction_id: u64 },
    CreateStream { transaction_id: u64 },
    CreateStreamResult { result: NetConnectionResult, message_id: u32, transaction_id: u64 },
}

/// # The FCPublish command
///
/// * `FcPublish`: the client announces the play path it will publish.
/// * `OnFcPublish`: the server's answer, which holds nothing.
#[derive(Debug, Clone)]
pub enum FcPublishCommand {
    FcPublish { transaction_id: u64, play_path: String },
    OnFcPublish,
}

/// # The NetStream command
///
/// * `Publish`: the client starts to publish a play path.
/// * `OnStatus`: the server's answer, with an information object.
#[derive(Debug, Clone)]
pub enum NetStreamCommand {
    Publish { transaction_id: u64, play_path: String, play_type: PlayType },
    OnStatus { transaction_id: u64, info_object: InfoObject },
}

/// # The command of an invoke chunk
///
/// `Unknown` keeps the bytes of a command that is not one of the others.
#[derive(Debug, Clone)]
pub enum InvokeCommand {
    NetConnection(NetConnectionCommand),
    NetStream(NetStreamCommand),
    FcPublish(FcPublishCommand),
    Unknown(Vec<u8>),
}

impl InvokeCommand {
    /// Returns whether this is the connect of the NetConnection command.
    pub fn is_connect(&self) -> (r: bool)
        ensures
            r == (*self matches InvokeCommand::NetConnection(NetConnectionCommand::Connect { .. })),
    {
        match self {
            InvokeCommand::NetConnection(NetConnectionCommand::Connect { .. }) => true,
            _ => false,
        }
    }

    /// Returns whether this is the releaseStream of the NetConnection command.
    pub fn is_release_stream(&self) -> (r: bool)
        ensures
            r == (*self matches InvokeCommand::NetConnection(
                NetConnectionCommand::ReleaseStream { .. },
            )),
    {
        match self {
            InvokeCommand::NetConnection(NetConnectionCommand::ReleaseStream { .. }) => true,
            _ => false,
        }
    }

    /// Returns whether this is the createStream of the NetConnection command.
    pub fn is_create_stream(&self) -> (r: bool)
        ensures
            r == (*self matches InvokeCommand::NetConnection(
                NetConnectionCommand::CreateStream { .. },
            )),
    {
        match self {
            InvokeCommand::NetConnection(NetConnectionCommand::CreateStream { .. }) => true,
            _ => false,
        }
    }

    /// Returns the NetConnection command if this is one, `None` otherwise.
    pub fn net_connection(&self) -> (r: Option<&NetConnectionCommand>)
        ensures
            match *self {
                InvokeCommand::NetConnection(c) => r == Some(&c),
                _ => r is None,
            },
    {
        match self {
            InvokeCommand::NetConnection(c) => Some(c),
            _ => None,
        }
    }

    /// Returns whether this is the FCPublish command.
    pub fn is_fc_publish(&self) -> (r: bool)
        ensures
            r == (*self is FcPublish),
    {
        match self {
            InvokeCommand::FcPublish(_) => true,
            _ => false,
        }
    }

    /// Returns the FCPublish command if this is one, `None` otherwise.
    pub fn fc_publish(&self) -> (r: Option<&FcPublishCommand>)
        ensures
            match *self {
                InvokeCommand::FcPublish(c) => r == Some(&c),
                _ => r is None,
            },
    {
        match self {
            InvokeCommand::FcPublish(c) => Some(c),
            _ => None,
        }
    }

    /// Returns whether this is the publish of the NetStream command.
    pub fn is_publish(&self) -> (r: bool)
        ensures
            r == (*self matches InvokeCommand::NetStream(NetStreamCommand::Publish { .. })),
    {
        match self {
            InvokeCommand::NetStream(NetStreamCommand::Publish { .. }) => true,
            _ => false,
        }
    }

    /// Returns the NetStream command if this is one, `None` otherwise.
    pub fn net_stream(&self) -> (r: Option<&NetStreamCommand>)
        ensures
            match *self {
                InvokeCommand::NetStream(c) => r == Some(&c),
                _ => r is None,
            },
    {
        match self {
            InvokeCommand::NetStream(c) => Some(c),
            _ => None,
        }
    }
}

/// # The data of a ping
///
/// `StreamBegin` holds the message stream id that has begun.
#[derive(Debug, Clone, Copy, PartialEq, Eq, Structural)]
pub enum PingData {
    StreamBegin(u32),
}

/// # The notify command
///
/// * `SetDataFrame`: the data frame's name (such as "onMetaData") and the
///   metadata that goes with it.
/// * `Unknown`: the bytes of a notify command that is not `@setDataFrame`.
#[derive(Debug, Clone)]
pub enum NotifyCommand {
    SetDataFrame { data_frame: String, meta_data: MetaData },
    Unknown(Vec<u8>),
}

impl NotifyCommand {
    /// Returns whether this is `@setDataFrame`.
    pub fn is_data_frame(&self) -> (r: bool)
        ensures
            r == (*self is SetDataFrame),
    {
        match self {
            NotifyCommand::SetDataFrame { .. } => true,
            _ => false,
        }
    }

    /// Returns the data frame's name and the metadata if this is
    /// `@setDataFrame`, `None` otherwise.
    pub fn data_frame(&self) -> (r: Option<(&String, &MetaData)>)
        ensures
            match *self {
                NotifyCommand::SetDataFrame { data_frame, meta_data } => r == Some(
                    (&data_frame, &meta_data),
                ),
                _ => r is None,
            },
    {
        match self {
            NotifyCommand::SetDataFrame { data_frame, meta_data } => Some((data_frame, meta_data)),
            _ => None,
        }
    }
}

/// # The chunk data
///
/// The data of each message type: the chunk size, the bytes read, a ping, the
/// server bandwidth, the client bandwidth with its limit type, audio and video
/// bytes, a notify command, an invoke command, and the bytes of any other type.
#[derive(Debug, Clone)]
pub enum ChunkData {
    ChunkSize(u32),
    BytesRead(u32),
    Ping(PingData),
    ServerBandwidth(u32),
    ClientBandwidth(u32, LimitType),
    Audio(Vec<u8>),
    Video(Vec<u8>),
    Notify(NotifyCommand),
    Invoke(InvokeCommand),
    Unknown(Vec<u8>),
}

impl ChunkData {
    /// Returns the chunk size if this is one, `None` otherwise.
    pub fn chunk_size(&self) -> (r: Option<u32>)
        ensures
            r == (match *self {
                ChunkData::ChunkSize(n) => Some(n),
                _ => None,
            }),
    {
        match self {
            ChunkData::ChunkSize(n) => Some(*n),
            _ => None,
        }
    }

    /// Returns the bytes read if this is that message, `None` otherwise.
    pub fn bytes_read(&self) -> (r: Option<u32>)
        ensures
            r == (match *self {
                ChunkData::BytesRead(n) => Some(n),
                _ => None,
            }),
    {
        match self {
            ChunkData::BytesRead(n) => Some(*n),
            _ => None,
        }
    }

    /// Returns the ping data if this is a ping, `None` otherwise.
    pub fn ping(&self) -> (r: Option<&PingData>)
        ensures
            match *self {
                ChunkData::Ping(p) => r == Some(&p),
                _ => r is None,
            },
    {
        match self {
            ChunkData::Ping(p) => Some(p),
            _ => None,
        }
    }

    /// Returns the server bandwidth if this is one, `None` otherwise.
    pub fn server_bandwidth(&self) -> (r: Option<u32>)
        ensures
            r == (match *self {
                ChunkData::ServerBandwidth(n) => Some(n),
                _ => None,
            }),
    {
        match self {
            ChunkData::ServerBandwidth(n) => Some(*n),
            _ => None,
        }
    }

    /// Returns the client bandwidth and its limit type if this is one, `None` otherwise.
    pub fn client_bandwidth(&self) -> (r: Option<(u32, LimitType)>)
        ensures
            r == (match *self {
                ChunkData::ClientBandwidth(n, l) => Some((n, l)),
                _ => None,
            }),
    {
        match self {
            ChunkData::ClientBandwidth(n, l) => Some((*n, *l)),
            _ => None,
        }
    }

    /// Returns the audio bytes if this is audio, `None` otherwise.
    pub fn audio(&self) -> (r: Option<&Vec<u8>>)
        ensures
            match *self {
                ChunkData::Audio(b) => r == Some(&b),
                _ => r is None,
            },
    {
        match self {
            ChunkData::Audio(b) => Some(b),
            _ => None,
        }
    }

    /// Returns the video bytes if this is video, `None` otherwise.
    pub fn video(&self) -> (r: Option<&Vec<u8>>)
        ensures
            match *self {
                ChunkData::Video(b) => r == Some(&b),
                _ => r is None,
            },
    {
        match self {
            ChunkData::Video(b) => Some(b),
            _ => None,
        }
    }

    /// Returns the notify command if this is one, `None` otherwise.
    pub fn notify(&self) -> (r: Option<&NotifyCommand>)
        ensures
            match *self {
                ChunkData::Notify(c) => r == Some(&c),
                _ => r is None,
            },
    {
        match self {
            ChunkData::Notify(c) => Some(c),
            _ => None,
        }
    }

    /// Returns the invoke command if this is one, `None` otherwise.
    pub fn invoke(&self) -> (r: Option<&InvokeCommand>)
        ensures
            match *self {
                ChunkData::Invoke(c) => r == Some(&c),
                _ => r is None,
            },
    {
        match self {
            ChunkData::Invoke(c) => Some(c),
            _ => None,
        }
    }

    /// Returns the bytes of an unknown message if this is one, `None` otherwise.
    pub fn unknown(&self) -> (r: Option<&Vec<u8>>)
        ensures
            match *self {
                ChunkData::Unknown(b) => r == Some(&b),
                _ => r is None,
            },
    {
        match self {
            ChunkData::Unknown(b) => Some(b),
            _ => None,
        }
    }
}

/// # The NetConnection command as the contracts see it
pub enum NetConnectionCommandView {
    Connect { argument: Option<Argument>, transaction_id: u64, command_object: CommandObjectView },
    ConnectResult {
        result: NetConnectionResult,
        transaction_id: u64,
        properties: Seq<(Seq<char>, AmfValue)>,
        information: InfoObjectView,
    },
    ReleaseStream { transaction_id: u64, play_path: Seq<char> },
    ReleaseStreamResult { result: NetConnectionResult, transaction_id: u64 },
    CreateStream { transaction_id: u64 },
    CreateStreamResult { result: NetConnectionResult, message_id: u32, transaction_id: u64 },
}

impl View for NetConnectionCommand {
    type V = NetConnectionCommandView;

    open spec fn view(&self) -> NetConnectionCommandView {
        match self {
            NetConnectionCommand::Connect { argument, transaction_id, command_object } =>
                NetConnectionCommandView::Connect {
                argument: *argument,
                transaction_id: *transaction_id,
                command_object: command_object@,
            },
            NetConnectionCommand::ConnectResult {
                result,
                transaction_id,
                properties,
                information,
            } => NetConnectionCommandView::ConnectResult {
                result: *result,
                transaction_id: *transaction_id,
                properties: pairs_value(properties@),
                information: information@,
            },
            NetConnectionCommand::ReleaseStream { transaction_id, play_path } =>
                NetConnectionCommandView::ReleaseStream {
                transaction_id: *transaction_id,
                play_path: play_path@,
            },
            NetConnectionCommand::ReleaseStreamResult { result, transaction_id } =>
                NetConnectionCommandView::ReleaseStreamResult {
                result: *result,
                transaction_id: *transaction_id,
            },
            NetConnectionCommand::CreateStream { transaction_id } =>
                NetConnectionCommandView::CreateStream { transaction_id: *transaction_id },
            NetConnectionCommand::CreateStreamResult { result, message_id, transaction_id } =>
                NetConnectionCommandView::CreateStreamResult {
                result: *result,
                message_id: *message_id,
                transaction_id: *transaction_id,
            },
        }
    }
}

/// # The FCPublish command as the contracts see it
pub enum FcPublishCommandView {
    FcPublish { transaction_id: u64, play_path: Seq<char> },
    OnFcPublish,
}

impl View for FcPublishCommand {
    type V = FcPublishCommandView;

    open spec fn view(&self) -> FcPublishCommandView {
        match self {
            FcPublishCommand::FcPublish { transaction_id, play_path } =>
                FcPublishCommandView::FcPublish {
                transaction_id: *transaction_id,
                play_path: play_path@,
            },
            FcPublishCommand::OnFcPublish => FcPublishCommandView::OnFcPublish,
        }
    }
}

/// # The NetStream command as the contracts see it
pub enum NetStreamCommandView {
    Publish { transaction_id: u64, play_path: Seq<char>, play_type: PlayType },
    OnStatus { transaction_id: u64, info_object: InfoObjectView },
}

impl View for NetStreamCommand {
    type V = NetStreamCommandView;

    open spec fn view(&self) -> NetStreamCommandView {
        match self {
            NetStreamCommand::Publish { transaction_id, play_path, play_type } =>
                NetStreamCommandView::Publish {
                transaction_id: *transaction_id,
                play_path: play_path@,
                play_type: *play_type,
            },
            NetStreamCommand::OnStatus { transaction_id, info_object } =>
                NetStreamCommandView::OnStatus {
                transaction_id: *transaction_id,
                info_object: info_object@,
            },
        }
    }
}

/// # The command of an invoke chunk as the contracts see it
pub enum InvokeCommandView {
    NetConnection(NetConnectionCommandView),
    NetStream(NetStreamCommandView),
    FcPublish(FcPublishCommandView),
    Unknown(Seq<u8>),
}

impl View for InvokeCommand {
    type V = InvokeCommandView;

    open spec fn view(&self) -> InvokeCommandView {
        match self {
            InvokeCommand::NetConnection(c) => InvokeCommandView::NetConnection(c@),
            InvokeCommand::NetStream(c) => InvokeCommandView::NetStream(c@),
            InvokeCommand::FcPublish(c) => InvokeCommandView::FcPublish(c@),
            InvokeCommand::Unknown(b) => InvokeCommandView::Unknown(b@),
        }
    }
}

/// # The notify command as the contracts see it
pub enum NotifyCommandView {
    SetDataFrame { data_frame: Seq<char>, meta_data: MetaDataView },
    Unknown(Seq<u8>),
}

impl View for NotifyCommand {
    type V = NotifyCommandView;

    open spec fn view(&self) -> NotifyCommandView {
        match self {
            NotifyCommand::SetDataFrame { data_frame, meta_data } =>
                NotifyCommandView::SetDataFrame {
                data_frame: data_frame@,
                meta_data: meta_data@,
            },
            NotifyCommand::Unknown(b) => NotifyCommandView::Unknown(b@),
        }
    }
}

/// # The chunk data as the contracts see it
pub enum ChunkDataView {
    ChunkSize(u32),
    BytesRead(u32),
    Ping(PingData),
    ServerBandwidth(u32),
    ClientBandwidth(u32, LimitType),
    Audio(Seq<u8>),
    Video(Seq<u8>),
    Notify(NotifyCommandView),
    Invoke(InvokeCommandView),
    Unknown(Seq<u8>),
}

impl View for ChunkData {
    type V = ChunkDataView;

    open spec fn view(&self) -> ChunkDataView {
        match self {
            ChunkData::ChunkSize(n) => ChunkDataView::ChunkSize(*n),
            ChunkData::BytesRead(n) => ChunkDataView::BytesRead(*n),
            ChunkData::Ping(p) => ChunkDataView::Ping(*p),
            ChunkData::ServerBandwidth(n) => ChunkDataView::ServerBandwidth(*n),
            ChunkData::ClientBandwidth(n, l) => ChunkDataView::ClientBandwidth(*n, *l),
            ChunkData::Audio(b) => ChunkDataView::Audio(b@),
            ChunkData::Video(b) => ChunkDataView::Video(b@),
            ChunkData::Notify(c) => ChunkDataView::Notify(c@),
            ChunkData::Invoke(c) => ChunkDataView::Invoke(c@),
            ChunkData::Unknown(b) => ChunkDataView::Unknown(b@),
        }
    }
}

/// The chunk data of an optional chunk data, as the contracts see it.
pub open spec fn opt_chunk_data(o: Option<ChunkData>) -> Option<ChunkDataView> {
    match o {
        Some(d) => Some(d@),
        None => None,
    }
}

/// # The chunk
///
/// The basic header, the extended timestamp where there is one (in seconds),
/// the message header and the chunk data where there is one.
#[derive(Debug, Clone)]
pub struct Chunk {
    basic_header: BasicHeader,
    extended_timestamp: Option<u64>,
    message_header: MessageHeader,
    chunk_data: Option<ChunkData>,
}

impl Chunk {
    /// The basic header of this chunk.
    pub closed spec fn basic_header_spec(&self) -> BasicHeader {
        self.basic_header
    }

    /// The extended timestamp of this chunk, in seconds, where there is one.
    pub closed spec fn extended_timestamp_spec(&self) -> Option<u64> {
        self.extended_timestamp
    }

    /// The message header of this chunk.
    pub closed spec fn message_header_spec(&self) -> MessageHeader {
        self.message_header
    }

    /// The chunk data of this chunk, where there is some.
    pub closed spec fn chunk_data_spec(&self) -> Option<ChunkData> {
        self.chunk_data
    }

    /// Constructs a chunk of its parts.
    pub fn new(
        basic_header: BasicHeader,
        extended_timestamp: Option<u64>,
        message_header: MessageHeader,
        chunk_data: Option<ChunkData>,
    ) -> (r: Self)
        ensures
            r.basic_header_spec() == basic_header,
            r.extended_timestamp_spec() == extended_timestamp,
            r.message_header_spec() == message_header,
            r.chunk_data_spec() == chunk_data,
    {
        Chunk { basic_header, extended_timestamp, message_header, chunk_data }
    }

    /// Returns the basic header.
    pub fn get_basic_header(&self) -> (r: BasicHeader)
        ensures
            r == self.basic_header_spec(),
    {
        self.basic_header
    }

    /// Returns the extended timestamp, in seconds, where there is one.
    pub fn get_extended_timestamp(&self) -> (r: Option<u64>)
        ensures
            r == self.extended_timestamp_spec(),
    {
        self.extended_timestamp
    }

    /// Returns the message header.
    pub fn get_message_header(&self) -> (r: MessageHeader)
        ensures
            r == self.message_header_spec(),
    {
        self.message_header
    }

    /// Returns the chunk data, where there is some.
    pub fn get_chunk_data(&self) -> (r: &Option<ChunkData>)
        ensures
            *r == self.chunk_data_spec(),
    {
        &self.chunk_data
    }

    /// Takes the chunk data out of this chunk.
    pub fn into_chunk_data(self) -> (r: Option<ChunkData>)
        ensures
            r == self.chunk_data_spec(),
    {
        self.chunk_data
    }
}

} // verus!
