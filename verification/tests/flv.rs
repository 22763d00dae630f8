use sheave::flv::{
    AacPacketType, AudioTag, AvcPacketType, Codec, Flv, FlvData, FrameType, SoundFormat,
    SoundRate, SoundSize, SoundType, TagType, VideoTag,
};
use sheave::messages::MetaData;

#[test]
fn an_aac_audio_tag_has_a_packet_type() {
    let tag = AudioTag::from_bytes(vec![0xaf, 0x01, 0x21, 0x10]).unwrap();
    assert!(tag.encryption_tag.is_none());
    assert_eq!(tag.audio_tag_header.sound_format, SoundFormat::Aac);
    assert_eq!(tag.audio_tag_header.sound_rate, SoundRate::FortyFour);
    assert_eq!(tag.audio_tag_header.sound_size, SoundSize::Sixteen);
    assert_eq!(tag.audio_tag_header.sound_type, SoundType::Stereo);
    assert_eq!(tag.audio_tag_header.aac_packet_type, Some(AacPacketType::Raw));
    assert_eq!(tag.bytes, vec![0x21, 0x10]);
    assert_eq!(tag.real_len(), 4);
}

#[test]
fn an_mp3_audio_tag_has_none() {
    let tag = AudioTag::from_bytes(vec![0x2e, 0x01, 0x02]).unwrap();
    assert_eq!(tag.audio_tag_header.sound_format, SoundFormat::Mp3);
    assert_eq!(tag.audio_tag_header.sound_rate, SoundRate::FortyFour);
    assert_eq!(tag.audio_tag_header.sound_size, SoundSize::Sixteen);
    assert_eq!(tag.audio_tag_header.sound_type, SoundType::Mono);
    assert_eq!(tag.audio_tag_header.aac_packet_type, None);
    assert_eq!(tag.bytes, vec![0x01, 0x02]);
}

#[test]
fn unreadable_audio_is_no_tag() {
    assert!(AudioTag::from_bytes(vec![]).is_none());
    assert!(AudioTag::from_bytes(vec![0xaf]).is_none());
    assert!(AudioTag::from_bytes(vec![0x9f, 0x00]).is_none());
}

#[test]
fn an_avc_video_tag_has_a_composition_time() {
    let tag = VideoTag::from_bytes(vec![0x17, 0x01, 0x00, 0x00, 0x28, 0xaa, 0xbb]).unwrap();
    assert_eq!(tag.video_tag_header.frame_type, FrameType::Key);
    assert_eq!(tag.video_tag_header.codec, Codec::Avc);
    assert_eq!(tag.video_tag_header.avc_packet_type, Some(AvcPacketType::Nalu));
    assert_eq!(tag.video_tag_header.composition_time, Some(40));
    assert_eq!(tag.bytes, vec![0xaa, 0xbb]);
    assert_eq!(tag.real_len(), 7);
}

#[test]
fn unreadable_video_is_no_tag() {
    assert!(VideoTag::from_bytes(vec![0x17, 0x01]).is_none());
    assert!(VideoTag::from_bytes(vec![0x08]).is_none());
}

#[test]
fn tags_are_appended_with_the_size_of_the_previous() {
    let mut flv = Flv::default();
    flv.created = 1000;
    flv.append_audio_at(vec![0xaf, 0x00, 0x12, 0x10], 1500);
    flv.append_video_at(vec![0x17, 0x00, 0x00, 0x00, 0x00, 0x01], 1520);
    flv.append_audio_at(vec![0x9f], 1530);
    assert_eq!(flv.body.len(), 2);
    assert_eq!(flv.body[0].previous_size, 0);
    assert_eq!(flv.body[0].flv_tag.tag_type, TagType::Audio);
    assert_eq!(flv.body[0].flv_tag.timestamp, 500);
    assert_eq!(flv.body[0].flv_tag.data_size, 4);
    assert_eq!(flv.body[1].previous_size, 15);
    assert_eq!(flv.body[1].flv_tag.tag_type, TagType::Video);
    assert_eq!(flv.body[1].flv_tag.timestamp, 520);
    assert!(matches!(flv.body[1].flv_tag.data, FlvData::Video(_)));
}

#[test]
fn metadata_sets_what_the_header_has() {
    let mut flv = Flv::default();
    let mut meta_data = MetaData::new();
    meta_data.set_audio_codec_id(Some(10.0f64.to_bits()));
    flv.append_meta_data_at(meta_data, 0);
    assert!(flv.flv_header.has_audio);
    assert!(!flv.flv_header.has_video);
    assert_eq!(flv.body.len(), 1);
    assert_eq!(flv.body[0].flv_tag.tag_type, TagType::ScriptData);
    match &flv.body[0].flv_tag.data {
        FlvData::Data(tag) => assert_eq!(&tag.bytes[..13], &[0x02, 0x00, 0x0a, b'o', b'n', b'M', b'e', b't', b'a', b'D', b'a', b't', b'a']),
        _ => panic!("expected script data"),
    }
}

#[test]
fn the_clock_appends_after_the_creation() {
    let mut flv = Flv::default();
    flv.append_audio(vec![0xaf, 0x01, 0x00]);
    assert_eq!(flv.body.len(), 1);
    flv.created = u64::MAX;
    flv.append_video(vec![0x17, 0x01, 0, 0, 0]);
    assert_eq!(flv.body.len(), 1);
}
