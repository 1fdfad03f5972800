//! The record format's executable encoders and parsers, the joint-type
//! conversion, and the error/result bridge.

use nuitrack_rs::codec::{
    encode_time_point, push_i32_le, push_u16_le, push_u32_le, push_u64_le, read_i32_le,
    read_time_point, read_u16_le, read_u32_le, read_u64_le,
};
use nuitrack_rs::{
    CData, Color3, JointType, NuiError, NuiResult, RawResult, SkeletonFeed, TimePoint,
};

#[test]
fn little_endian_words_have_exact_bytes() {
    let mut out = Vec::new();
    push_u16_le(&mut out, 0x1234);
    assert_eq!(out, vec![0x34, 0x12]);
    out.clear();
    push_u32_le(&mut out, 0xdeadbeef);
    assert_eq!(out, vec![0xef, 0xbe, 0xad, 0xde]);
    out.clear();
    push_u64_le(&mut out, 0x0102030405060708);
    assert_eq!(out, vec![8, 7, 6, 5, 4, 3, 2, 1]);
    out.clear();
    push_i32_le(&mut out, -2);
    assert_eq!(out, vec![0xfe, 0xff, 0xff, 0xff]);
}

#[test]
fn little_endian_words_read_back() {
    let mut out = Vec::new();
    push_u16_le(&mut out, 65535);
    push_u32_le(&mut out, 7);
    push_u64_le(&mut out, u64::MAX);
    push_i32_le(&mut out, i32::MIN);
    let (a, i) = read_u16_le(&out, 0).expect("u16 expected");
    let (b, i) = read_u32_le(&out, i).expect("u32 expected");
    let (c, i) = read_u64_le(&out, i).expect("u64 expected");
    let (d, i) = read_i32_le(&out, i).expect("i32 expected");
    assert_eq!((a, b, c, d), (65535, 7, u64::MAX, i32::MIN));
    assert_eq!(i, out.len());
    assert_eq!(read_u16_le(&out, out.len() - 1), None);
    assert_eq!(read_u64_le(&out, out.len() - 3), None);
}

#[test]
fn minimal_record_has_exact_layout() {
    // A snapshot with no skeletons, no depth and no colour is its three
    // counts and two dimensions: 8 + 4 + 4 + 8 + 8 bytes in field order.
    let tp = TimePoint { skeleton: vec![], rows: 2, cols: 3, depth: vec![], color: vec![] };
    let mut out = Vec::new();
    encode_time_point(&mut out, &tp);
    let mut expected = vec![0u8; 8];
    expected.extend_from_slice(&[2, 0, 0, 0]);
    expected.extend_from_slice(&[3, 0, 0, 0]);
    expected.extend_from_slice(&[0; 8]);
    expected.extend_from_slice(&[0; 8]);
    assert_eq!(out, expected);
    let (back, used) = read_time_point(&out, 0).expect("record expected");
    assert_eq!(used, out.len());
    assert_eq!(back, tp);
}

#[test]
fn record_with_payload_reads_back() {
    let tp = TimePoint {
        skeleton: vec![SkeletonFeed { id: -5, joints: vec![] }],
        rows: 1,
        cols: 2,
        depth: vec![10, 20, 30],
        color: vec![Color3 { red: 1, green: 2, blue: 3 }, Color3 { red: 4, green: 5, blue: 6 }],
    };
    let mut out = Vec::new();
    encode_time_point(&mut out, &tp);
    // skeleton count + one feed (id + joint count), dimensions, depth
    // count + three words, colour count + two samples.
    assert_eq!(out.len(), 8 + (4 + 8) + 4 + 4 + 8 + 3 * 2 + 8 + 2 * 3);
    let (back, used) = read_time_point(&out, 0).expect("record expected");
    assert_eq!(used, out.len());
    assert_eq!(back, tp);
}

#[test]
fn truncated_record_is_refused() {
    let tp = TimePoint { skeleton: vec![], rows: 2, cols: 3, depth: vec![7], color: vec![] };
    let mut out = Vec::new();
    encode_time_point(&mut out, &tp);
    out.pop();
    assert!(read_time_point(&out, 0).is_none());
}

#[test]
fn joint_types_convert_exactly() {
    assert_eq!(JointType::from_u32(0), Some(JointType::NoJoint));
    assert_eq!(JointType::from_u32(1), Some(JointType::Head));
    assert_eq!(JointType::from_u32(2), Some(JointType::Neck));
    assert_eq!(JointType::from_u32(3), Some(JointType::Torso));
    assert_eq!(JointType::from_u32(4), Some(JointType::Waist));
    assert_eq!(JointType::from_u32(5), Some(JointType::LeftCollar));
    assert_eq!(JointType::from_u32(6), Some(JointType::LeftShoulder));
    assert_eq!(JointType::from_u32(7), Some(JointType::LeftElbow));
    assert_eq!(JointType::from_u32(8), Some(JointType::LeftWrist));
    assert_eq!(JointType::from_u32(9), Some(JointType::LeftHand));
    assert_eq!(JointType::from_u32(10), Some(JointType::LeftFingertip));
    assert_eq!(JointType::from_u32(11), Some(JointType::RightCollar));
    assert_eq!(JointType::from_u32(12), Some(JointType::RightShoulder));
    assert_eq!(JointType::from_u32(13), Some(JointType::RightElbow));
    assert_eq!(JointType::from_u32(14), Some(JointType::RightWrist));
    assert_eq!(JointType::from_u32(15), Some(JointType::RightHand));
    assert_eq!(JointType::from_u32(16), Some(JointType::RightFingertip));
    assert_eq!(JointType::from_u32(17), Some(JointType::LeftHip));
    assert_eq!(JointType::from_u32(18), Some(JointType::LeftKnee));
    assert_eq!(JointType::from_u32(19), Some(JointType::LeftAnkle));
    assert_eq!(JointType::from_u32(20), Some(JointType::LeftFoot));
    assert_eq!(JointType::from_u32(21), Some(JointType::RightHip));
    assert_eq!(JointType::from_u32(22), Some(JointType::RightKnee));
    assert_eq!(JointType::from_u32(23), Some(JointType::RightAnkle));
    assert_eq!(JointType::from_u32(24), Some(JointType::RightFoot));
    assert_eq!(JointType::from_u32(25), None);
    assert_eq!(JointType::from_u32(u32::MAX), None);
}

#[test]
fn native_outcomes_convert_by_tag() {
    let empty = RawResult {
        tag: 0,
        callback_id: 0,
        skeleton_data: Vec::new(),
        error_msg: String::new(),
    };
    assert!(matches!(empty.to_result(), Ok(CData::Empty)));

    let with_id = RawResult {
        tag: 1,
        callback_id: 99,
        skeleton_data: Vec::new(),
        error_msg: String::new(),
    };
    match with_id.to_result() {
        Ok(data) => assert_eq!(data.callback_id(), 99),
        Err(_) => panic!("a callback-id outcome must convert"),
    }

    let with_skeletons = RawResult {
        tag: 2,
        callback_id: 0,
        skeleton_data: vec![SkeletonFeed { id: 4, joints: vec![] }],
        error_msg: String::new(),
    };
    match with_skeletons.to_result() {
        Ok(CData::SkeletonData(feeds)) => assert_eq!(feeds[0].id, 4),
        _ => panic!("a skeleton outcome must convert"),
    }

    let bad = RawResult {
        tag: 3,
        callback_id: 0,
        skeleton_data: Vec::new(),
        error_msg: "sensor unplugged".to_string(),
    };
    assert_eq!(bad.to_result().err(), Some(NuiError::Failed("sensor unplugged".to_string())));
}

#[test]
fn error_messages_describe_each_variant() {
    assert_eq!(NuiError::Failed("x".to_string()).message(), "x");
    assert!(NuiError::BadType.message().len() > 0);
    assert!(NuiError::StreamDesynchronized.message().len() > 0);
    assert!(NuiError::SerializationFailed.message().len() > 0);
    assert!(NuiError::DecompressionFailed.message().len() > 0);
}
