use quantaos::bluetooth::a2dp::{MediaCodecCapability, MediaType, SepCapabilities};

#[test]
fn capabilities_round_trip() {
    let mut c = SepCapabilities::default();
    c.media_transport = true;
    c.delay_reporting = true;
    c.media_codec = Some(MediaCodecCapability {
        media_type: MediaType::Audio,
        codec_type: 0,
        codec_info: vec![0x21, 0x15, 2, 53],
    });
    let bytes = c.to_bytes();
    let d = SepCapabilities::from_bytes(&bytes);
    assert!(d.media_transport);
    assert!(d.delay_reporting);
    assert!(!d.reporting);
    assert!(d.recovery.is_none());
    assert!(d.content_protection.is_none());
    assert!(!d.header_compression);
    assert!(!d.multiplexing);
    let m = d.media_codec.unwrap();
    assert_eq!(m.media_type, MediaType::Audio);
    assert_eq!(m.codec_type, 0);
    assert_eq!(m.codec_info, vec![0x21, 0x15, 2, 53]);
}

#[test]
fn truncated_capabilities_do_not_panic() {
    let d = SepCapabilities::from_bytes(&[7, 9, 0]);
    assert!(d.media_codec.is_none());
    let e = SepCapabilities::from_bytes(&[1]);
    assert!(e.media_transport);
    assert!(e.media_codec.is_none());
}
