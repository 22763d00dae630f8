use std::time::SystemTime;

use rand::random;
use sheave::buffer::ByteBuffer;
use sheave::commands::{
    Chunk, ChunkData, FcPublishCommand, InvokeCommand, NetConnectionCommand, NetStreamCommand,
    PingData,
};
use sheave::errors::{
    ChunkFormatError, ChunkLengthError, IoKind, RtmpError, RtmpStateError, SignatureDoesNotMatchError,
};
use sheave::handlers::{
    basic_header_rest_len, chunk_data_piece, message_header_len, LastChunk, RtmpHandler, RtmpState,
    Step,
};
use sheave::handshake::{
    calculate_digest, calculate_hmac_sha256, genuine_fp_key, get_digest_offset, Algorithm,
    DIGEST_LEN, HANDSHAKE_CHUNK_SIZE, RTMP_VERSION,
};
use sheave::messages::{
    BasicHeader, ChunkId, CommandObject, MessageFormat, MessageHeader, MessageType,
    NetConnectionResult, PlayType,
};

fn now_millis() -> u64 {
    SystemTime::now().duration_since(SystemTime::UNIX_EPOCH).unwrap().as_millis() as u64
}

fn digested_c0c1() -> Vec<u8> {
    let mut c0c1: Vec<u8> = vec![RTMP_VERSION, 0, 0, 0, 0, 9, 0, 124, 2];
    for _ in 8..HANDSHAKE_CHUNK_SIZE {
        c0c1.push(random());
    }
    let key = genuine_fp_key();
    let pos = get_digest_offset(Algorithm::DigestOffset1, &c0c1[1..]);
    let digest = calculate_digest(pos, &c0c1[1..], &key[..30]);
    c0c1[(pos + 1)..(pos + 33)].copy_from_slice(&digest);
    c0c1
}

fn signed_c2(s0s1s2: &[u8]) -> Vec<u8> {
    let mut c2 = s0s1s2[1..(HANDSHAKE_CHUNK_SIZE + 1)].to_vec();
    let pos = get_digest_offset(Algorithm::DigestOffset1, c2.as_slice());
    let digest = calculate_hmac_sha256(&c2[pos..(pos + DIGEST_LEN)], &genuine_fp_key());
    let signature = calculate_hmac_sha256(&c2[..(HANDSHAKE_CHUNK_SIZE - DIGEST_LEN)], &digest);
    c2[(HANDSHAKE_CHUNK_SIZE - DIGEST_LEN)..].copy_from_slice(&signature);
    c2
}

/// A handler whose handshake is done.
fn connected_handler() -> RtmpHandler {
    let mut handler = RtmpHandler::new(now_millis());
    assert_eq!(handler.next_step().ok(), Some(Step::Handshake));
    assert!(handler.receive_c0c1(digested_c0c1()).is_ok());
    assert_eq!(handler.get_state(), RtmpState::ReceivedHandshake);
    let s0s1s2 = handler.s0s1s2();
    assert!(handler.receive_c2(signed_c2(&s0s1s2)).is_ok());
    assert_eq!(handler.get_state(), RtmpState::HandshakeDone);
    assert_eq!(handler.next_step().ok(), Some(Step::Chunk));
    handler
}

/// The bytes of a chunk of format 0 on `chunk_id` holding `data` of `message_type`.
fn chunk_bytes(chunk_id: u8, message_type: MessageType, data: ChunkData) -> Vec<u8> {
    let mut payload = ByteBuffer::new(Vec::new());
    payload.encode_chunk_data(Some(data));
    let len = payload.bytes().len() as u32;
    let mut buffer = ByteBuffer::new(Vec::new());
    buffer.encode_basic_header(BasicHeader::new(MessageFormat::New, ChunkId::U8(chunk_id)));
    buffer.encode_message_header(MessageHeader::New {
        message_type,
        message_id: 0,
        message_len: len,
        timestamp: 0,
    });
    buffer.put_bytes(payload.bytes().clone());
    buffer.bytes().clone()
}

fn invoke_bytes(command: InvokeCommand) -> Vec<u8> {
    chunk_bytes(3, MessageType::Invoke, ChunkData::Invoke(command))
}

/// Receives the chunk in `bytes` and handles it.
fn handle(handler: &mut RtmpHandler, bytes: Vec<u8>) -> Result<Vec<u8>, RtmpError> {
    let chunk = match handler.receive_chunk(bytes) {
        Ok(c) => c,
        Err(e) => return Err(e),
    };
    handler.handle_received_chunk(chunk)
}

/// Handles a chunk of format 0 on chunk stream 3 holding `data`.
fn handle_data(handler: &mut RtmpHandler, data: ChunkData) -> Result<Vec<u8>, RtmpError> {
    let chunk = Chunk::new(
        BasicHeader::new(MessageFormat::New, ChunkId::U8(3)),
        None,
        MessageHeader::New { message_type: MessageType::Invoke, message_id: 0, message_len: 0, timestamp: 0 },
        Some(data),
    );
    handler.handle_received_chunk(chunk)
}

#[test]
fn rtmp_state_numbers() {
    assert_eq!(RtmpState::TcpConnect.id(), 0);
    assert_eq!(RtmpState::Connected.id(), 12);
    assert_eq!(RtmpState::Error.id(), 0xff);
    assert_eq!(RtmpState::from_id(0x0b), Some(RtmpState::ReceivedPublish));
    assert_eq!(RtmpState::from_id(0x0e), Some(RtmpState::Disconnected));
    assert_eq!(RtmpState::from_id(0xff), Some(RtmpState::Error));
    assert_eq!(RtmpState::from_id(0x0f), None);
    for id in 0u8..=14 {
        assert_eq!(RtmpState::from_id(id).map(|s| s.id()), Some(id));
    }
    assert_eq!(RtmpState::default(), RtmpState::TcpConnect);
}

#[test]
fn last_chunk_getters_and_setters() {
    let mut last = LastChunk::new(Some(MessageType::Audio), Some(1), Some(10), Some(20), None);
    assert_eq!(last.get_message_type(), Some(MessageType::Audio));
    assert_eq!(last.get_message_id(), Some(1));
    assert_eq!(last.get_message_len(), Some(10));
    assert_eq!(last.get_timestamp(), Some(20));
    assert!(last.get_chunk_data().is_none());
    last.set_message_type(Some(MessageType::Video));
    last.set_message_id(None);
    last.set_message_len(Some(11));
    last.set_timestamp(Some(21));
    last.set_chunk_data(Some(ChunkData::ChunkSize(4096)));
    assert_eq!(last.get_message_type(), Some(MessageType::Video));
    assert_eq!(last.get_message_id(), None);
    assert_eq!(last.get_message_len(), Some(11));
    assert_eq!(last.get_timestamp(), Some(21));
    assert!(matches!(last.get_chunk_data(), Some(ChunkData::ChunkSize(4096))));
}

#[test]
fn reading_plan_of_headers() {
    assert_eq!(basic_header_rest_len(0x03), 0);
    assert_eq!(basic_header_rest_len(0x40), 1);
    assert_eq!(basic_header_rest_len(0xc1), 2);
    assert_eq!(message_header_len(&vec![0x03]).ok(), Some(11));
    assert_eq!(message_header_len(&vec![0x43]).ok(), Some(7));
    assert_eq!(message_header_len(&vec![0x83]).ok(), Some(3));
    assert_eq!(message_header_len(&vec![0xc3]).ok(), Some(0));
    assert_eq!(message_header_len(&vec![0x00, 0x10]).ok(), Some(11));
    assert!(matches!(message_header_len(&vec![0x00]), Err(RtmpError::ChunkFormat(_))));
    assert!(matches!(message_header_len(&vec![]), Err(RtmpError::ChunkFormat(_))));
}

#[test]
fn chunk_data_comes_in_pieces_of_the_chunk_size() {
    assert_eq!(chunk_data_piece(300, 128), (128, true));
    assert_eq!(chunk_data_piece(128, 128), (128, false));
    assert_eq!(chunk_data_piece(44, 128), (44, false));
}

#[test]
fn chunk_body_plan_inherits_from_the_last_chunk() {
    let mut handler = connected_handler();
    let header: Vec<u8> = vec![0x04, 0xff, 0xff, 0xff, 0x00, 0x00, 0x05, 0x08, 0x01, 0x00, 0x00, 0x00];
    assert_eq!(handler.chunk_body_plan(&header).ok(), Some((true, 5)));
    let first = chunk_bytes(4, MessageType::Audio, ChunkData::Audio(vec![0xaf, 0x01, 1, 2, 3]));
    assert!(handler.receive_chunk(first).is_ok());
    assert_eq!(handler.chunk_body_plan(&vec![0xc4]).ok(), Some((false, 5)));
    assert_eq!(handler.chunk_body_plan(&vec![0xc5]).ok(), Some((false, 0)));
    assert!(matches!(handler.chunk_body_plan(&vec![0x04, 0x00]), Err(RtmpError::ChunkFormat(_))));
}

#[test]
fn a_continued_chunk_takes_the_type_and_length_of_the_last() {
    let mut handler = connected_handler();
    let first = chunk_bytes(5, MessageType::Video, ChunkData::Video(vec![0x17, 0x01, 0, 0, 0, 9]));
    let chunk = handler.receive_chunk(first).ok().unwrap();
    assert_eq!(chunk.get_basic_header().get_chunk_id(), ChunkId::U8(5));
    let mut second = vec![0xc5];
    second.extend_from_slice(&[0x27, 0x01, 0, 0, 0, 8]);
    let chunk = handler.receive_chunk(second).ok().unwrap();
    assert_eq!(chunk.get_basic_header().get_message_format(), MessageFormat::Continue);
    assert_eq!(chunk.get_message_header(), MessageHeader::Continue);
    match chunk.get_chunk_data() {
        Some(ChunkData::Video(bytes)) => assert_eq!(bytes, &vec![0x27, 0x01, 0, 0, 0, 8]),
        _ => panic!("expected video data"),
    }
}

#[test]
fn unreadable_headers_are_format_errors() {
    let mut handler = connected_handler();
    match handler.receive_chunk(vec![]) {
        Err(RtmpError::ChunkFormat(e)) => assert_eq!(
            e.to_string(),
            "ChunkFormatError: description The basic header format is invalid., source None\n"
        ),
        _ => panic!("expected a format error"),
    }
    match handler.receive_chunk(vec![0x03, 0x00, 0x00]) {
        Err(RtmpError::ChunkFormat(e)) => assert_eq!(
            e.to_string(),
            "ChunkFormatError: description The message header format is invalid., source None\n"
        ),
        _ => panic!("expected a format error"),
    }
}

#[test]
fn the_invocations_lead_to_connected() {
    let mut handler = connected_handler();

    let connect = InvokeCommand::NetConnection(NetConnectionCommand::Connect {
        argument: None,
        transaction_id: 1,
        command_object: CommandObject::new(),
    });
    let out = handle(&mut handler, invoke_bytes(connect)).ok().unwrap();
    assert_eq!(handler.get_state(), RtmpState::SentConnectResult);
    // The result of connect (187 bytes of data, split after 128), the server
    // bandwidth, the client bandwidth, the ping, the chunk size, and the
    // result again with a header of format 3.
    assert_eq!(out.len(), 444);
    assert_eq!(&out[..12], &[0x03, 0, 0, 0, 0, 0, 187, 20, 0, 0, 0, 0]);
    assert_eq!(&out[12..22], &[0x02, 0x00, 0x07, b'_', b'r', b'e', b's', b'u', b'l', b't']);
    assert_eq!(out[12 + 128], 0xc3);
    assert_eq!(&out[200..212], &[0x02, 0, 0, 0, 0, 0, 4, 5, 0, 0, 0, 0]);
    assert_eq!(&out[212..216], &3000000u32.to_be_bytes());
    assert_eq!(&out[216..224], &[0x42, 0, 0, 0, 0, 0, 5, 6]);
    assert_eq!(out[228], 2);
    assert_eq!(&out[229..237], &[0x42, 0, 0, 0, 0, 0, 6, 4]);
    assert_eq!(&out[237..243], &[0, 0, 0, 0, 0, 0]);
    assert_eq!(&out[243..251], &[0x42, 0, 0, 0, 0, 0, 4, 1]);
    assert_eq!(&out[251..255], &128u32.to_be_bytes());
    assert_eq!(out[255], 0xc3);
    assert_eq!(&out[256..(256 + 128)], &out[12..(12 + 128)]);

    let release = InvokeCommand::NetConnection(NetConnectionCommand::ReleaseStream {
        transaction_id: 2,
        play_path: "stream".to_string(),
    });
    let out = handle(&mut handler, invoke_bytes(release)).ok().unwrap();
    assert_eq!(handler.get_state(), RtmpState::SentReleaseStreamResult);
    assert_eq!(out.len(), 28);
    assert_eq!(&out[..8], &[0x43, 0, 0, 0, 0, 0, 20, 20]);

    let fc_publish = InvokeCommand::FcPublish(FcPublishCommand::FcPublish {
        transaction_id: 3,
        play_path: "stream".to_string(),
    });
    let out = handle(&mut handler, invoke_bytes(fc_publish)).ok().unwrap();
    assert_eq!(handler.get_state(), RtmpState::SentOnFcPublish);
    assert_eq!(out.len(), 22);
    assert_eq!(&out[8..], &[0x02, 0x00, 11, b'o', b'n', b'F', b'C', b'P', b'u', b'b', b'l', b'i', b's', b'h']);

    let create = InvokeCommand::NetConnection(NetConnectionCommand::CreateStream { transaction_id: 4 });
    let out = handle(&mut handler, invoke_bytes(create)).ok().unwrap();
    assert_eq!(handler.get_state(), RtmpState::SentCreateStreamResult);
    assert_eq!(out.len(), 37);

    let publish = InvokeCommand::NetStream(NetStreamCommand::Publish {
        transaction_id: 5,
        play_path: "stream".to_string(),
        play_type: PlayType::Live,
    });
    let out = handle(&mut handler, invoke_bytes(publish)).ok().unwrap();
    assert_eq!(handler.get_state(), RtmpState::Connected);
    assert_eq!(out.len(), 153);
    assert_eq!(&out[..8], &[0x42, 0, 0, 0, 0, 0, 6, 4]);
    assert_eq!(&out[14..22], &[0x43, 0, 0, 0, 0, 0, 130, 20]);
    assert_eq!(out[22 + 128], 0xc3);
}

#[test]
fn a_zero_chunk_size_is_taken() {
    let mut handler = connected_handler();
    let out = handle(&mut handler, chunk_bytes(2, MessageType::ChunkSize, ChunkData::ChunkSize(0)));
    assert_eq!(out.ok().map(|b| b.len()), Some(0));
    assert_eq!(handler.get_chunk_size(), 0);
    let connect = Chunk::new(
        BasicHeader::new(MessageFormat::New, ChunkId::U8(3)),
        None,
        MessageHeader::New { message_type: MessageType::Invoke, message_id: 0, message_len: 0, timestamp: 0 },
        Some(ChunkData::Invoke(InvokeCommand::NetConnection(NetConnectionCommand::Connect {
            argument: None,
            transaction_id: 1,
            command_object: CommandObject::new(),
        }))),
    );
    assert!(handler.sends_answer(&connect));
    let release_result = InvokeCommand::NetConnection(NetConnectionCommand::ReleaseStreamResult {
        result: NetConnectionResult::Result,
        transaction_id: 2,
    });
    assert!(handle_data(&mut handler, ChunkData::Invoke(release_result)).is_err());
    let out = handle(&mut handler, chunk_bytes(2, MessageType::ChunkSize, ChunkData::ChunkSize(4096)));
    assert_eq!(out.ok().map(|b| b.len()), Some(0));
    assert_eq!(handler.get_chunk_size(), 4096);
}

#[test]
fn a_ping_is_not_handled() {
    let mut handler = connected_handler();
    match handle(&mut handler, chunk_bytes(2, MessageType::Ping, ChunkData::Ping(PingData::StreamBegin(0)))) {
        Err(RtmpError::RtmpState(e)) => assert_eq!(
            e.to_string(),
            "RtmpStateError: description not implemented: when received ping, source None\n"
        ),
        _ => panic!("expected a state error"),
    }
}

#[test]
fn responses_are_refused_when_received() {
    let mut handler = connected_handler();
    let result = InvokeCommand::NetConnection(NetConnectionCommand::CreateStreamResult {
        result: sheave::messages::NetConnectionResult::Result,
        message_id: 1,
        transaction_id: 4,
    });
    match handle_data(&mut handler, ChunkData::Invoke(result)) {
        Err(RtmpError::ChunkFormat(e)) => assert_eq!(
            e.to_string(),
            "ChunkFormatError: description _result response has been passed when receiving., source None\n"
        ),
        _ => panic!("expected a format error"),
    }
    let on_fc_publish = InvokeCommand::FcPublish(FcPublishCommand::OnFcPublish);
    match handle_data(&mut handler, ChunkData::Invoke(on_fc_publish)) {
        Err(RtmpError::ChunkFormat(e)) => assert_eq!(
            e.to_string(),
            "ChunkFormatError: description onFCPublish response has been passed when receiving., source None\n"
        ),
        _ => panic!("expected a format error"),
    }
    let result = InvokeCommand::NetConnection(NetConnectionCommand::CreateStreamResult {
        result: sheave::messages::NetConnectionResult::Result,
        message_id: 1,
        transaction_id: 4,
    });
    // On the wire, "_result" is an invocation that no request names.
    assert!(matches!(handle(&mut handler, invoke_bytes(result)), Err(RtmpError::RtmpState(_))));
    assert_eq!(handler.get_state(), RtmpState::HandshakeDone);
}

#[test]
fn a_long_play_path_is_published() {
    let mut handler = connected_handler();
    let publish = InvokeCommand::NetStream(NetStreamCommand::Publish {
        transaction_id: 5,
        play_path: "a".repeat(70000),
        play_type: PlayType::Live,
    });
    let out = handle_data(&mut handler, ChunkData::Invoke(publish)).ok().unwrap();
    assert_eq!(handler.get_state(), RtmpState::Connected);
    // The ping (18 bytes), then onStatus: the play path stands in it twice,
    // and its 140118 bytes go in pieces of 128 behind 1094 headers of format 3.
    assert_eq!(&out[..12], &[0x02, 0, 0, 0, 0, 0, 6, 4, 0, 0, 0, 0]);
    assert_eq!(&out[18..30], &[0x03, 0, 0, 0, 0x02, 0x23, 0x56, 20, 0, 0, 0, 0]);
    assert_eq!(out[30 + 128], 0xc3);
    assert_eq!(out.len(), 141242);
}

#[test]
fn an_unknown_invocation_has_no_answer() {
    let mut handler = connected_handler();
    let unknown = InvokeCommand::Unknown(vec![0x02, 0x00, 0x03, b'f', b'o', b'o']);
    match handle_data(&mut handler, ChunkData::Invoke(unknown)) {
        Err(RtmpError::RtmpState(e)) => assert_eq!(
            e.to_string(),
            "RtmpStateError: description not implemented: other commands, source None\n"
        ),
        _ => panic!("expected a state error"),
    }
}

#[test]
fn a_chunk_without_data_is_a_format_error() {
    let mut handler = connected_handler();
    let chunk = Chunk::new(
        BasicHeader::new(MessageFormat::Continue, ChunkId::U8(3)),
        None,
        MessageHeader::Continue,
        None,
    );
    match handler.handle_received_chunk(chunk) {
        Err(RtmpError::ChunkFormat(e)) => assert_eq!(
            e.to_string(),
            "ChunkFormatError: description Somehow the chunk data is nothing., source None\n"
        ),
        _ => panic!("expected a format error"),
    }
}

#[test]
fn bandwidths_and_audio_are_taken_without_answer() {
    let mut handler = connected_handler();
    let out = handle(&mut handler, chunk_bytes(2, MessageType::ServerBandwidth, ChunkData::ServerBandwidth(2500000)));
    assert_eq!(out.ok().map(|b| b.len()), Some(0));
    let out = handle(
        &mut handler,
        chunk_bytes(2, MessageType::ClientBandwidth, ChunkData::ClientBandwidth(2500000, sheave::messages::LimitType::Soft)),
    );
    assert_eq!(out.ok().map(|b| b.len()), Some(0));
    let out = handle(&mut handler, chunk_bytes(4, MessageType::Audio, ChunkData::Audio(vec![0xaf, 0x01, 0x21, 0x00])));
    assert_eq!(out.ok().map(|b| b.len()), Some(0));
    let out = handle(&mut handler, chunk_bytes(2, MessageType::BytesRead, ChunkData::BytesRead(u32::MAX)));
    assert_eq!(out.ok().map(|b| b.len()), Some(0));
    assert_eq!(handler.get_state(), RtmpState::HandshakeDone);
}

#[test]
fn a_failed_c2_keeps_the_handshake_state() {
    let mut handler = RtmpHandler::new(now_millis());
    assert!(handler.receive_c0c1(digested_c0c1()).is_ok());
    let _ = handler.s0s1s2();
    assert!(matches!(handler.receive_c2(vec![0u8; 1536]), Err(RtmpError::SignatureDoesNotMatch(_))));
    assert_eq!(handler.get_state(), RtmpState::ReceivedHandshake);
}

#[test]
fn a_failed_c0c1_keeps_tcp_connect() {
    let mut handler = RtmpHandler::new(now_millis());
    assert!(matches!(handler.receive_c0c1(vec![3u8; 10]), Err(RtmpError::ChunkLength(_))));
    assert_eq!(handler.get_state(), RtmpState::TcpConnect);
    assert_eq!(handler.next_step().ok(), Some(Step::Handshake));
}

/// Reads one message from `bytes` at `pos` as a receiver does, gathering its
/// chunk data from the pieces; returns the chunk and the position after it.
fn read_message(reader: &mut RtmpHandler, bytes: &[u8], pos: usize) -> (Chunk, usize) {
    let mut at = pos;
    let mut read = vec![bytes[at]];
    at += 1;
    let rest = basic_header_rest_len(read[0]);
    read.extend_from_slice(&bytes[at..(at + rest)]);
    at += rest;
    let header_len = message_header_len(&read).ok().unwrap();
    read.extend_from_slice(&bytes[at..(at + header_len)]);
    at += header_len;
    let (extended, message_len) = reader.chunk_body_plan(&read).ok().unwrap();
    if extended {
        read.extend_from_slice(&bytes[at..(at + 4)]);
        at += 4;
    }
    let chunk_size = reader.get_chunk_size();
    let mut remaining = message_len;
    while remaining > 0 {
        let (piece, separated) = chunk_data_piece(remaining, chunk_size);
        read.extend_from_slice(&bytes[at..(at + piece as usize)]);
        at += piece as usize;
        if separated {
            at += 1;
        }
        remaining -= piece;
    }
    (reader.receive_chunk(read).ok().unwrap(), at)
}

#[test]
fn the_answers_to_connect_read_back() {
    let mut handler = connected_handler();
    let connect = InvokeCommand::NetConnection(NetConnectionCommand::Connect {
        argument: None,
        transaction_id: 1,
        command_object: CommandObject::new(),
    });
    let out = handle(&mut handler, invoke_bytes(connect)).ok().unwrap();
    let mut reader = RtmpHandler::new(now_millis());

    let (chunk, pos) = read_message(&mut reader, &out, 0);
    assert_eq!(pos, 200);
    let first = match chunk.get_chunk_data() {
        Some(ChunkData::Invoke(InvokeCommand::Unknown(rest))) => rest.clone(),
        _ => panic!("expected an invocation that no request names"),
    };
    // What follows "_result" and the transaction id: the properties and the
    // information object, gathered back from the two pieces.
    assert_eq!(first.len(), 187 - 19);
    assert_eq!(first[0], 0x03);
    assert_eq!(&first[(first.len() - 3)..], &[0x00, 0x00, 0x09]);

    let (chunk, pos) = read_message(&mut reader, &out, pos);
    assert!(matches!(chunk.get_chunk_data(), Some(ChunkData::ServerBandwidth(3000000))));
    let (chunk, pos) = read_message(&mut reader, &out, pos);
    assert!(matches!(
        chunk.get_chunk_data(),
        Some(ChunkData::ClientBandwidth(3000000, sheave::messages::LimitType::Dynamic))
    ));
    let (chunk, pos) = read_message(&mut reader, &out, pos);
    assert!(matches!(chunk.get_chunk_data(), Some(ChunkData::Ping(PingData::StreamBegin(0)))));
    let (chunk, pos) = read_message(&mut reader, &out, pos);
    assert!(matches!(chunk.get_chunk_data(), Some(ChunkData::ChunkSize(128))));
    let (chunk, pos) = read_message(&mut reader, &out, pos);
    assert_eq!(chunk.get_message_header(), MessageHeader::Continue);
    match chunk.get_chunk_data() {
        Some(ChunkData::Invoke(InvokeCommand::Unknown(rest))) => assert_eq!(rest, &first),
        _ => panic!("expected the same invocation again"),
    }
    assert_eq!(pos, out.len());
}

#[test]
fn a_timestamp_past_24_bits_is_extended() {
    let mut reader = RtmpHandler::new(now_millis());
    let mut bytes: Vec<u8> = vec![0x04, 0xff, 0xff, 0xff, 0x00, 0x00, 0x02, 0x08, 0x01, 0x00, 0x00, 0x00];
    bytes.extend_from_slice(&[0x01, 0x00, 0x00, 0x00]);
    bytes.extend_from_slice(&[0x2e, 0x00]);
    let (chunk, pos) = read_message(&mut reader, &bytes, 0);
    assert_eq!(pos, bytes.len());
    assert_eq!(chunk.get_extended_timestamp(), Some(0x01000000));
    assert!(matches!(chunk.get_chunk_data(), Some(ChunkData::Audio(b)) if b == &vec![0x2e, 0x00]));
}

#[test]
fn errors_travel_as_their_kinds() {
    let header = RtmpError::ChunkFormat(ChunkFormatError::new("The basic header format is invalid.".to_string()));
    assert_eq!(header.io_kind(), IoKind::InvalidData);
    let response = RtmpError::ChunkFormat(ChunkFormatError::new(
        "_result response has been passed when receiving.".to_string(),
    ));
    assert_eq!(response.io_kind(), IoKind::InvalidInput);
    let short = RtmpError::ChunkLength(ChunkLengthError::new("Requested RTMP chunk's size is not 1537 bytes!".to_string()));
    assert_eq!(short.io_kind(), IoKind::InvalidInput);
    let signature = RtmpError::SignatureDoesNotMatch(SignatureDoesNotMatchError::new(
        "Client signature doesn't match!".to_string(),
    ));
    assert_eq!(signature.io_kind(), IoKind::InvalidData);
    let state = RtmpError::RtmpState(RtmpStateError::new("not implemented: when received ping".to_string()));
    assert_eq!(state.io_kind(), IoKind::Other);
}
