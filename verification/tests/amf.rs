use sheave::buffer::ByteBuffer;
use sheave::commands::{
    Chunk, ChunkData, FcPublishCommand, InvokeCommand, NetConnectionCommand, NetStreamCommand,
    NotifyCommand, PingData,
};
use sheave::encoders::encode_chunk;
use sheave::messages::{
    AmfData, BasicHeader, ChunkId, CommandObject, LimitType, MessageFormat, MessageHeader,
    MessageType, MetaData, PlayType,
};

fn encoded(f: impl FnOnce(&mut ByteBuffer)) -> Vec<u8> {
    let mut buffer = ByteBuffer::new(Vec::new());
    f(&mut buffer);
    buffer.bytes().clone()
}

#[test]
fn numbers_are_eight_bytes_of_a_double() {
    let bytes = encoded(|b| b.encode_amf_number(1.5f64.to_bits()));
    assert_eq!(bytes, vec![0x00, 0x3f, 0xf8, 0, 0, 0, 0, 0, 0]);
    let mut buffer = ByteBuffer::new(bytes.clone());
    match buffer.decode_amf_data() {
        Some(AmfData::Number(n)) => assert_eq!(f64::from_bits(n), 1.5),
        _ => panic!("expected a number"),
    }
    assert_eq!(buffer.offset(), 9);
    // The number's body alone, after its marker.
    let mut buffer = ByteBuffer::new(bytes);
    buffer.offset_to(1);
    assert!(matches!(buffer.decode_amf_number(), Some(AmfData::Number(n)) if f64::from_bits(n) == 1.5));
}

#[test]
fn booleans_are_one_byte() {
    assert_eq!(encoded(|b| b.encode_amf_boolean(true)), vec![0x01, 0x01]);
    assert_eq!(encoded(|b| b.encode_amf_boolean(false)), vec![0x01, 0x00]);
    let mut buffer = ByteBuffer::new(vec![0x01, 0x02]);
    assert!(matches!(buffer.decode_amf_data(), Some(AmfData::Boolean(true))));
}

#[test]
fn strings_are_a_length_and_utf8() {
    let bytes = encoded(|b| b.encode_amf_string("héllo".to_string()));
    assert_eq!(bytes, vec![0x02, 0x00, 0x06, b'h', 0xc3, 0xa9, b'l', b'l', b'o']);
    let mut buffer = ByteBuffer::new(bytes);
    match buffer.decode_amf_data() {
        Some(AmfData::String(s)) => assert_eq!(s, "héllo"),
        _ => panic!("expected a string"),
    }
}

#[test]
fn invalid_utf8_is_no_string() {
    let mut buffer = ByteBuffer::new(vec![0x02, 0x00, 0x02, 0xc3, 0x28]);
    assert!(buffer.decode_amf_data().is_none());
    assert_eq!(buffer.offset(), 0);
}

#[test]
fn a_short_buffer_reads_nothing_and_stays() {
    let mut buffer = ByteBuffer::new(vec![0x00, 0x3f, 0xf0]);
    assert!(buffer.decode_amf_data().is_none());
    assert_eq!(buffer.offset(), 0);
    assert_eq!(buffer.get_u16_be(), Some(0x003f));
    assert_eq!(buffer.offset(), 2);
    assert_eq!(buffer.get_u16_be(), None);
    assert_eq!(buffer.offset(), 2);
}

#[test]
fn objects_round_trip() {
    let object = vec![
        ("app".to_string(), AmfData::String("live".to_string())),
        ("fpad".to_string(), AmfData::Boolean(false)),
        ("nested".to_string(), AmfData::Object(vec![("n".to_string(), AmfData::Number(2.0f64.to_bits()))])),
    ];
    let bytes = encoded(|b| b.encode_amf_object(object));
    assert_eq!(bytes[0], 0x03);
    assert_eq!(&bytes[(bytes.len() - 3)..], &[0x00, 0x00, 0x09]);
    let mut buffer = ByteBuffer::new(bytes.clone());
    match buffer.decode_amf_data() {
        Some(AmfData::Object(pairs)) => {
            assert_eq!(pairs.len(), 3);
            assert_eq!(pairs[0].0, "app");
            assert!(matches!(&pairs[0].1, AmfData::String(s) if s == "live"));
            assert!(matches!(pairs[1].1, AmfData::Boolean(false)));
            match &pairs[2].1 {
                AmfData::Object(inner) => {
                    assert_eq!(inner[0].0, "n");
                    assert!(matches!(inner[0].1, AmfData::Number(n) if f64::from_bits(n) == 2.0));
                },
                _ => panic!("expected an object"),
            }
        },
        _ => panic!("expected an object"),
    }
    assert_eq!(buffer.offset(), bytes.len());
}

#[test]
fn a_repeated_name_keeps_its_last_value() {
    let bytes = vec![
        0x03, 0x00, 0x01, b'a', 0x01, 0x00, 0x00, 0x01, b'a', 0x01, 0x01, 0x00, 0x00, 0x09,
    ];
    let mut buffer = ByteBuffer::new(bytes);
    match buffer.decode_amf_data() {
        Some(AmfData::Object(pairs)) => {
            assert_eq!(pairs.len(), 1);
            assert!(matches!(pairs[0].1, AmfData::Boolean(true)));
        },
        _ => panic!("expected an object"),
    }
}

#[test]
fn mixed_arrays_hold_their_count() {
    let pairs = vec![("duration".to_string(), AmfData::Number(10.0f64.to_bits()))];
    let bytes = encoded(|b| b.encode_amf_mixed_array(pairs));
    assert_eq!(&bytes[..5], &[0x08, 0, 0, 0, 1]);
    let mut buffer = ByteBuffer::new(bytes);
    assert!(matches!(buffer.decode_amf_data(), Some(AmfData::MixedArray(p)) if p.len() == 1));
}

#[test]
fn null_is_one_byte() {
    assert_eq!(encoded(|b| b.encode_amf_null()), vec![0x05]);
    let mut buffer = ByteBuffer::new(vec![0x05]);
    assert!(matches!(buffer.decode_amf_data(), Some(AmfData::Null)));
}

#[test]
fn basic_headers_take_one_two_or_three_bytes() {
    let one = encoded(|b| b.encode_basic_header(BasicHeader::new(MessageFormat::SameSource, ChunkId::U8(3))));
    assert_eq!(one, vec![0x43]);
    let two = encoded(|b| b.encode_basic_header(BasicHeader::new(MessageFormat::New, ChunkId::U8(100))));
    assert_eq!(two, vec![0x00, 36]);
    let three = encoded(|b| b.encode_basic_header(BasicHeader::new(MessageFormat::Continue, ChunkId::U16(400))));
    assert_eq!(three, vec![0xc1, 0x50, 0x01]);
    for bytes in [one, two, three] {
        let mut buffer = ByteBuffer::new(bytes.clone());
        let header = buffer.decode_basic_header().unwrap();
        assert_eq!(encoded(|b| b.encode_basic_header(header)), bytes);
    }
}

#[test]
fn message_headers_of_each_format() {
    let header = MessageHeader::New { message_type: MessageType::Audio, message_id: 1, message_len: 300, timestamp: 20 };
    let bytes = encoded(|b| b.encode_message_header(header));
    assert_eq!(bytes, vec![0, 0, 20, 0, 1, 44, 8, 1, 0, 0, 0]);
    let mut buffer = ByteBuffer::new(bytes);
    assert_eq!(buffer.decode_message_header(MessageFormat::New), Some(header));

    let header = MessageHeader::SameSource { message_type: MessageType::Video, message_len: 7, timestamp: 1 };
    let bytes = encoded(|b| b.encode_message_header(header));
    assert_eq!(bytes, vec![0, 0, 1, 0, 0, 7, 9]);
    let mut buffer = ByteBuffer::new(bytes);
    assert_eq!(buffer.decode_message_header(MessageFormat::SameSource), Some(header));

    let header = MessageHeader::TimerChange { timestamp: 0x123456 };
    let bytes = encoded(|b| b.encode_message_header(header));
    assert_eq!(bytes, vec![0x12, 0x34, 0x56]);

    let mut buffer = ByteBuffer::new(vec![]);
    assert_eq!(buffer.decode_message_header(MessageFormat::Continue), Some(MessageHeader::Continue));
    assert_eq!(header.get_timestamp(), Some(0x123456));
    assert_eq!(header.get_message_len(), None);
}

#[test]
fn an_extended_timestamp_follows_a_full_timestamp() {
    let header = MessageHeader::TimerChange { timestamp: 0xffffff };
    let mut buffer = ByteBuffer::new(vec![0x01, 0x02, 0x03, 0x04]);
    assert_eq!(buffer.decode_extended_timestamp(header), Some(0x01020304));
    let mut buffer = ByteBuffer::new(vec![0x01, 0x02, 0x03, 0x04]);
    assert_eq!(buffer.decode_extended_timestamp(MessageHeader::TimerChange { timestamp: 5 }), None);
    assert_eq!(encoded(|b| b.encode_extended_timestamp(Some(0x1_0000_0001))), vec![0, 0, 0, 1]);
    assert_eq!(encoded(|b| b.encode_extended_timestamp(None)), Vec::<u8>::new());
}

#[test]
fn the_chunk_size_has_its_top_bit_cleared() {
    assert_eq!(encoded(|b| b.encode_chunk_size(0x8000_0080)), vec![0, 0, 0, 0x80]);
    let mut buffer = ByteBuffer::new(vec![0x80, 0, 0, 0x80]);
    assert!(buffer.decode_chunk_size().is_none());
    let mut buffer = ByteBuffer::new(vec![0, 0, 0x10, 0]);
    assert!(matches!(buffer.decode_chunk_size(), Some(ChunkData::ChunkSize(4096))));
}

#[test]
fn control_messages_round_trip() {
    let bytes = encoded(|b| b.encode_client_bandwidth(2500000, LimitType::Dynamic));
    assert_eq!(bytes, vec![0x00, 0x26, 0x25, 0xa0, 0x02]);
    let mut buffer = ByteBuffer::new(bytes);
    assert!(matches!(buffer.decode_client_bandwidth(), Some(ChunkData::ClientBandwidth(2500000, LimitType::Dynamic))));

    let bytes = encoded(|b| b.encode_ping(PingData::StreamBegin(1)));
    assert_eq!(bytes, vec![0, 0, 0, 0, 0, 1]);
    let mut buffer = ByteBuffer::new(bytes);
    assert!(matches!(buffer.decode_ping(), Some(ChunkData::Ping(PingData::StreamBegin(1)))));

    let mut buffer = ByteBuffer::new(vec![0, 0, 0x10, 0]);
    assert!(matches!(buffer.decode_bytes_read(), Some(ChunkData::BytesRead(4096))));
    let mut buffer = ByteBuffer::new(vec![0, 0x2d, 0xc6, 0xc0]);
    assert!(matches!(buffer.decode_server_bandwidth(), Some(ChunkData::ServerBandwidth(3000000))));
}

fn invoke_round_trip(command: InvokeCommand) -> Option<ChunkData> {
    let bytes = encoded(|b| b.encode_invoke(command));
    let mut buffer = ByteBuffer::new(bytes);
    buffer.decode_invoke()
}

#[test]
fn requests_round_trip() {
    let mut command_object = CommandObject::new();
    command_object.set_app(Some("live".to_string()));
    command_object.set_tc_url(Some("rtmp://localhost/live".to_string()));
    let connect = InvokeCommand::NetConnection(NetConnectionCommand::Connect {
        argument: None,
        transaction_id: 1,
        command_object,
    });
    match invoke_round_trip(connect) {
        Some(ChunkData::Invoke(c)) => assert!(c.is_connect()),
        _ => panic!("expected connect"),
    }

    let release = InvokeCommand::NetConnection(NetConnectionCommand::ReleaseStream {
        transaction_id: 2,
        play_path: "key".to_string(),
    });
    match invoke_round_trip(release) {
        Some(ChunkData::Invoke(InvokeCommand::NetConnection(NetConnectionCommand::ReleaseStream { transaction_id, play_path }))) => {
            assert_eq!(transaction_id, 2);
            assert_eq!(play_path, "key");
        },
        _ => panic!("expected releaseStream"),
    }

    let fc_publish = InvokeCommand::FcPublish(FcPublishCommand::FcPublish { transaction_id: 3, play_path: "key".to_string() });
    match invoke_round_trip(fc_publish) {
        Some(ChunkData::Invoke(c)) => assert!(c.is_fc_publish()),
        _ => panic!("expected FCPublish"),
    }

    let create = InvokeCommand::NetConnection(NetConnectionCommand::CreateStream { transaction_id: 4 });
    match invoke_round_trip(create) {
        Some(ChunkData::Invoke(c)) => assert!(c.is_create_stream()),
        _ => panic!("expected createStream"),
    }

    let publish = InvokeCommand::NetStream(NetStreamCommand::Publish {
        transaction_id: 5,
        play_path: "key".to_string(),
        play_type: PlayType::Record,
    });
    match invoke_round_trip(publish) {
        Some(ChunkData::Invoke(InvokeCommand::NetStream(NetStreamCommand::Publish { transaction_id, play_path, play_type }))) => {
            assert_eq!(transaction_id, 5);
            assert_eq!(play_path, "key");
            assert_eq!(play_type, PlayType::Record);
        },
        _ => panic!("expected publish"),
    }
}

#[test]
fn metadata_goes_as_a_mixed_array() {
    let mut meta_data = MetaData::new();
    meta_data.set_width(Some(1280.0f64.to_bits()));
    meta_data.set_encoder(Some("Lavf".to_string()));
    let notify = NotifyCommand::SetDataFrame { data_frame: "onMetaData".to_string(), meta_data };
    let bytes = encoded(|b| b.encode_notify(notify));
    assert_eq!(&bytes[..16], &[0x02, 0x00, 0x0d, b'@', b's', b'e', b't', b'D', b'a', b't', b'a', b'F', b'r', b'a', b'm', b'e']);
    let mut buffer = ByteBuffer::new(bytes);
    match buffer.decode_notify() {
        Some(ChunkData::Notify(n)) => {
            let (frame, meta) = n.data_frame().unwrap();
            assert_eq!(frame, "onMetaData");
            assert_eq!(meta.get_width(), Some(1280));
            assert_eq!(meta.get_encoder(), &Some("Lavf".to_string()));
            assert_eq!(meta.get_height(), None);
        },
        _ => panic!("expected a notify"),
    }
}

#[test]
fn a_whole_chunk_is_its_parts() {
    let chunk = Chunk::new(
        BasicHeader::new(MessageFormat::New, ChunkId::U8(4)),
        None,
        MessageHeader::New { message_type: MessageType::Audio, message_id: 1, message_len: 3, timestamp: 0 },
        Some(ChunkData::Audio(vec![0xaf, 0x01, 0x42])),
    );
    assert_eq!(encode_chunk(chunk), vec![0x04, 0, 0, 0, 0, 0, 3, 8, 1, 0, 0, 0, 0xaf, 0x01, 0x42]);
}

#[test]
fn the_counted_length_stays_the_number_of_bytes() {
    let mut buffer = ByteBuffer::new(vec![0x01, 0x02]);
    assert_eq!(buffer.len(), buffer.bytes().len());
    buffer.put_u16_be(0x0304);
    assert_eq!(buffer.len(), 4);
    assert_eq!(buffer.len(), buffer.bytes().len());
    buffer.encode_amf_string("live".to_string());
    assert_eq!(buffer.len(), 11);
    assert_eq!(buffer.len(), buffer.bytes().len());
    assert_eq!(buffer.get_u8(), Some(0x01));
    assert_eq!(buffer.len(), buffer.bytes().len());
    buffer.clear();
    assert_eq!(buffer.len(), 0);
    assert_eq!(buffer.len(), buffer.bytes().len());
}
