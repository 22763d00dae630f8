use sheave::messages::{
    convert_audio_codecs_into_flags, convert_video_codecs_into_flags, detect_audio_codecs,
    detect_video_codecs, AmfData, AmfDataType, AudioCodec, CommandObject, ConnectStatus, InfoLevel,
    InfoObject, LimitType, MessageFormat, MessageType, MetaData, NetConnectionResult,
    NetConnectionStatus, NetStreamStatus, ObjectEncoding, PingType, PlayType, PublishStatus,
    Status, VideoCodec, VideoFunction,
};

#[test]
fn message_types_and_formats_have_their_numbers() {
    assert_eq!(MessageType::Invoke.id(), 20);
    assert_eq!(MessageType::from_id(18), MessageType::Notify);
    assert_eq!(MessageType::from_id(2), MessageType::Unknown);
    assert_eq!(MessageFormat::from_id(2), Some(MessageFormat::TimerChange));
    assert_eq!(MessageFormat::from_id(4), None);
    assert_eq!(AmfDataType::from_id(8).map(|t| t.id()), Some(8));
    assert_eq!(LimitType::from_id(3), None);
    assert_eq!(PingType::StreamBegin.id(), 0);
    assert_eq!(ObjectEncoding::from_id(3), Some(ObjectEncoding::Amf3));
    assert_eq!(VideoFunction::from_id(1).map(|f| f.id()), Some(1));
}

#[test]
fn audio_codecs_are_bits() {
    let codecs = detect_audio_codecs(0x0406);
    assert_eq!(codecs, vec![AudioCodec::Adpcm, AudioCodec::Mp3, AudioCodec::Aac]);
    assert_eq!(convert_audio_codecs_into_flags(codecs), 0x0406);
    assert_eq!(detect_audio_codecs(0x0fff), vec![AudioCodec::All]);
    assert_eq!(convert_audio_codecs_into_flags(vec![AudioCodec::All]), 0x0fff);
    assert_eq!(detect_audio_codecs(0x0001), vec![AudioCodec::AudioNone]);
}

#[test]
fn video_codecs_are_bits() {
    let codecs = detect_video_codecs(0x84);
    assert_eq!(codecs, vec![VideoCodec::Sorenson, VideoCodec::H264]);
    assert_eq!(convert_video_codecs_into_flags(codecs), 0x84);
    assert_eq!(detect_video_codecs(0xff), vec![VideoCodec::All]);
}

#[test]
fn statuses_are_dotted_names() {
    let start = Status::NetStream(NetStreamStatus::Publish(PublishStatus::Start));
    assert_eq!(start.to_string(), "NetStream.Publish.Start");
    let success = Status::NetConnection(NetConnectionStatus::Connect(ConnectStatus::Success));
    assert_eq!(success.to_string(), "NetConnection.Connect.Success");
    assert_eq!(Status::parse(&"NetStream.Publish.Start".to_string()), Some(start));
    assert_eq!(Status::parse(&"NetStream.Play.Start".to_string()), None);
    assert_eq!(NetConnectionResult::Result.to_string(), "_result");
    assert_eq!(NetConnectionResult::parse(&"_error".to_string()), Some(NetConnectionResult::Error));
    assert_eq!(InfoLevel::parse(&"warning".to_string()), Some(InfoLevel::Warning));
    assert_eq!(PlayType::parse(&"append".to_string()), Some(PlayType::Append));
    assert_eq!(PlayType::default(), PlayType::Live);
}

#[test]
fn a_command_object_round_trips_through_amf() {
    let mut command_object = CommandObject::new();
    command_object.set_app(Some("live".to_string()));
    command_object.set_flash_ver(Some("FMLE/3.0".to_string()));
    command_object.set_fpad(Some(false));
    command_object.set_audio_codecs(Some(3191.0f64.to_bits()));
    command_object.set_video_codecs(Some(252.0f64.to_bits()));
    command_object.set_object_encoding(Some(0.0f64.to_bits()));
    let pairs = command_object.into_amf_object();
    let names: Vec<&str> = pairs.iter().map(|(k, _)| k.as_str()).collect();
    assert!(names.contains(&"app"));
    assert!(names.contains(&"flashVer"));
    assert!(names.contains(&"fpad"));
    assert!(names.contains(&"objectEncoding"));
    let back = CommandObject::from_amf_object(pairs);
    let again = back.into_amf_object();
    assert!(again.iter().any(|(k, v)| k == "app" && matches!(v, AmfData::String(s) if s == "live")));
    assert!(again.iter().any(|(k, v)| k == "fpad" && matches!(v, AmfData::Boolean(false))));
}

#[test]
fn command_object_numbers_are_their_values() {
    let mut command_object = CommandObject::new();
    command_object.set_object_encoding(Some(3.0f64.to_bits()));
    command_object.set_audio_codecs(Some(3191.0f64.to_bits()));
    command_object.set_video_codecs(Some(252.0f64.to_bits()));
    command_object.set_video_function(Some(1.0f64.to_bits()));
    let pairs = command_object.into_amf_object();
    let number = |pairs: &Vec<(String, AmfData)>, name: &str| {
        pairs.iter().find_map(|(k, v)| match v {
            AmfData::Number(n) if k == name => Some(f64::from_bits(*n)),
            _ => None,
        })
    };
    assert_eq!(number(&pairs, "objectEncoding"), Some(3.0));
    assert_eq!(number(&pairs, "audioCodecs"), Some(3191.0));
    assert_eq!(number(&pairs, "videoCodecs"), Some(252.0));
    assert_eq!(number(&pairs, "videoFunction"), Some(1.0));
    let again = CommandObject::from_amf_object(pairs).into_amf_object();
    assert_eq!(number(&again, "objectEncoding"), Some(3.0));
    assert_eq!(number(&again, "audioCodecs"), Some(3191.0));
    assert_eq!(number(&again, "videoCodecs"), Some(252.0));
    assert_eq!(number(&again, "videoFunction"), Some(1.0));
}

#[test]
fn an_info_object_keeps_known_fields() {
    let pairs = vec![
        ("level".to_string(), AmfData::String("status".to_string())),
        ("code".to_string(), AmfData::String("NetStream.Publish.Start".to_string())),
        ("description".to_string(), AmfData::String("key is now published".to_string())),
        ("unknown".to_string(), AmfData::Null),
    ];
    let info = InfoObject::from_amf_object(pairs);
    let back = info.into_amf_object();
    assert_eq!(back.len(), 3);
    assert_eq!(back[0].0, "level");
    assert!(matches!(&back[1].1, AmfData::String(s) if s == "NetStream.Publish.Start"));
    assert_eq!(back[2].0, "description");

    let mut info = InfoObject::new();
    info.set_level(Some("nonsense".to_string()));
    info.set_code(Some("NetConnection.Connect.Success".to_string()));
    info.set_details(Some("key".to_string()));
    let back = info.into_amf_object();
    assert_eq!(back.len(), 2);
    assert_eq!(back[0].0, "code");
    assert_eq!(back[1].0, "details");
}

#[test]
fn metadata_reads_known_pairs_in_order() {
    let pairs = vec![
        ("width".to_string(), AmfData::Number(1280.0f64.to_bits())),
        ("height".to_string(), AmfData::Number(720.0f64.to_bits())),
        ("stereo".to_string(), AmfData::Boolean(true)),
        ("encoder".to_string(), AmfData::String("Lavf58".to_string())),
        ("width".to_string(), AmfData::Number(1920.0f64.to_bits())),
        ("ignored".to_string(), AmfData::Boolean(true)),
    ];
    let mut meta_data = MetaData::from_amf_object(pairs);
    assert_eq!(meta_data.get_width(), Some(1920));
    assert_eq!(meta_data.get_height(), Some(720));
    assert_eq!(meta_data.is_stereo(), Some(true));
    assert_eq!(meta_data.get_encoder(), &Some("Lavf58".to_string()));
    assert_eq!(meta_data.get_duration(), None);
    let back = meta_data.into_amf_object();
    assert_eq!(back.len(), 4);
    assert_eq!(back[0].0, "stereo");
}
