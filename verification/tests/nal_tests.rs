use wavry_core::nal::{
    avcc_frame, nal_units_of_payload, parse_avcc_nalus, NalAction, NalDecoder, NAL_IDR, NAL_PPS,
    NAL_SEI, NAL_SLICE, NAL_SPS,
};
use wavry_core::portal::monitor_crop;

#[test]
fn avcc_units_split_by_length() {
    let data = vec![0, 0, 0, 2, 0x67, 0xAA, 0, 0, 0, 1, 0x68, 0, 0, 0, 3, 0x65, 1, 2];
    let units = parse_avcc_nalus(&data);
    assert_eq!(
        units,
        vec![(7u8, vec![0x67, 0xAA]), (8u8, vec![0x68]), (5u8, vec![0x65, 1, 2])]
    );
}

#[test]
fn avcc_stops_at_overlong_length() {
    let data = vec![0, 0, 0, 1, 0x41, 0, 0, 0, 9, 1, 2];
    assert_eq!(parse_avcc_nalus(&data), vec![(1u8, vec![0x41])]);
    assert!(parse_avcc_nalus(&[0, 0, 1]).is_empty());
}

#[test]
fn avcc_skips_empty_units() {
    let data = vec![0, 0, 0, 0, 0, 0, 0, 1, 0x06];
    assert_eq!(parse_avcc_nalus(&data), vec![(6u8, vec![0x06])]);
}

#[test]
fn framed_unit_parses_back() {
    let nal = vec![0x65u8; 300];
    let framed = avcc_frame(&nal);
    assert_eq!(&framed[..4], &[0, 0, 1, 44]);
    assert_eq!(parse_avcc_nalus(&framed), vec![(5u8, nal)]);
}

#[test]
fn payload_without_prefix_is_one_unit() {
    let payload = vec![0x67u8, 0x42, 0x00];
    assert_eq!(nal_units_of_payload(&payload), vec![(7u8, payload.clone())]);
    assert!(nal_units_of_payload(&[]).is_empty());
}

#[test]
fn decoder_waits_for_both_parameter_sets() {
    let mut d = NalDecoder::new();
    assert!(matches!(d.on_nal(NAL_IDR, &[0x65, 1]), NalAction::SkipFrame));
    assert!(matches!(d.on_nal(NAL_SPS, &[0x67, 1]), NalAction::Stored));
    assert!(matches!(d.on_nal(NAL_PPS, &[0x68, 2]), NalAction::CreateDecoder));
    assert!(matches!(d.on_nal(NAL_SLICE, &[0x41]), NalAction::SkipFrame));
    d.set_session_ready(true);
    match d.on_nal(NAL_SLICE, &[0x41, 9]) {
        NalAction::Decode(frame) => assert_eq!(frame, vec![0, 0, 0, 2, 0x41, 9]),
        other => panic!("unexpected {:?}", other),
    }
    assert!(matches!(d.on_nal(NAL_SEI, &[0x06]), NalAction::Ignore));
    assert!(matches!(d.on_nal(NAL_SPS, &[0x67, 3]), NalAction::CreateDecoder));
    assert_eq!(d.sps, Some(vec![0x67, 3]));
}

#[test]
fn monitor_crop_clamps() {
    let monitors = vec![(0i16, 0i16, 1920u16, 1080u16), (1920, -10, 1280, 0)];
    assert_eq!(monitor_crop(&monitors, 0, 3200, 1080), Some((0, 1280, 0, 0)));
    assert_eq!(monitor_crop(&monitors, 1, 3200, 1080), Some((1920, 0, 0, 1079)));
    assert_eq!(monitor_crop(&monitors, 2, 3200, 1080), None);
}
