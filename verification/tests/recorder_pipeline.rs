//! The recorder: tick alignment, the buffering threshold, and flushing.

use nuitrack_rs::{
    record, Color3, DataMsg, Joint, Orientation, SkeletonFeed, TimePoint, Vector3,
};

fn joint(seed: u32) -> Joint {
    Joint {
        type_: seed % 25,
        confidence: (0.5f32 + (seed % 3) as f32 * 0.25).to_bits(),
        real: Vector3 {
            x: (seed as f32).to_bits(),
            y: (seed as f32 + 0.5).to_bits(),
            z: (-(seed as f32)).to_bits(),
        },
        proj: Vector3 {
            x: (0.25f32).to_bits(),
            y: (0.75f32).to_bits(),
            z: (seed as f32 * 2.0).to_bits(),
        },
        orient: Orientation {
            matrix: [seed, seed + 1, seed + 2, seed + 3, seed + 4, seed + 5, seed + 6, seed + 7,
                seed + 8],
        },
    }
}

fn tick_msgs(tick: u32) -> Vec<DataMsg> {
    vec![
        DataMsg::Skeleton(vec![SkeletonFeed { id: tick as i32, joints: vec![joint(tick)] }]),
        DataMsg::Depth(vec![tick as u16, (tick + 1) as u16]),
        DataMsg::Color(vec![Color3 { red: tick as u8, green: 2, blue: 3 }]),
        DataMsg::Size(2, 1),
    ]
}

fn tick_time_point(tick: u32) -> TimePoint {
    TimePoint {
        skeleton: vec![SkeletonFeed { id: tick as i32, joints: vec![joint(tick)] }],
        rows: 2,
        cols: 1,
        depth: vec![tick as u16, (tick + 1) as u16],
        color: vec![Color3 { red: tick as u8, green: 2, blue: 3 }],
    }
}

#[test]
fn one_tick_assembles_one_snapshot() {
    let mut rec = record();
    rec.ingest(tick_msgs(4)).expect("a complete tick must assemble");
    assert_eq!(rec.buffered(), 1);
    assert_eq!(rec.data[0], tick_time_point(4));
}

#[test]
fn interleaving_within_a_tick_does_not_matter() {
    // The four capture messages of one tick arrive in an arbitrary
    // order; the assembled snapshot is the same.
    let mut rec = record();
    let mut msgs = tick_msgs(9);
    msgs.reverse();
    rec.ingest(msgs).expect("a complete tick must assemble");
    assert_eq!(rec.data[0], tick_time_point(9));
}

#[test]
fn later_tick_is_not_consumed_early() {
    // Ticks are handed to the recorder batch by batch: what arrives for
    // the next tick goes into the next batch and must not leak into the
    // snapshot assembled for the current one.
    let mut rec = record();
    rec.ingest(tick_msgs(1)).expect("first tick must assemble");
    rec.ingest(tick_msgs(2)).expect("second tick must assemble");
    assert_eq!(rec.buffered(), 2);
    assert_eq!(rec.data[0], tick_time_point(1));
    assert_eq!(rec.data[1], tick_time_point(2));
}

#[test]
fn missing_stream_is_desynchronized() {
    let mut rec = record();
    let mut msgs = tick_msgs(5);
    msgs.remove(1); // drop the depth capture
    let e = rec.ingest(msgs).err().expect("an incomplete tick must fail");
    assert_eq!(e, nuitrack_rs::NuiError::StreamDesynchronized);
    assert_eq!(rec.buffered(), 0);
}

#[test]
fn duplicate_kind_takes_the_last_message() {
    let mut rec = record();
    let mut msgs = tick_msgs(6);
    msgs.insert(0, DataMsg::Depth(vec![999]));
    rec.ingest(msgs).expect("a complete tick must assemble");
    // The later depth message wins.
    assert_eq!(rec.data[0].depth, vec![6u16, 7u16]);
}

#[test]
fn buffer_flushes_past_the_threshold() {
    // The buffer holds up to its threshold of snapshots plus the one
    // assembled in the same call; only a call that finds the buffer
    // over the threshold writes the buffered run out.
    let mut rec = record();
    for t in 0..51u32 {
        rec.ingest(tick_msgs(t)).expect("tick must assemble");
    }
    assert_eq!(rec.buffered(), 51);
    assert_eq!(rec.out.len(), 0, "no write before the threshold is passed");
    rec.ingest(tick_msgs(51)).expect("tick must assemble");
    assert_eq!(rec.buffered(), 1, "the buffered run was written and cleared");
    assert!(rec.out.len() > 0, "one compressed write happened");
    // The written bytes hold exactly the first 51 snapshots.
    let bytes = rec.take_output();
    let mut player = nuitrack_rs::playback(bytes, false).expect("recording must decode");
    for t in 0..51u32 {
        let tp = player.update().expect("update never fails").expect("snapshot expected");
        assert_eq!(tp, tick_time_point(t));
    }
    assert_eq!(player.update().expect("update never fails"), None);
}

#[test]
fn flush_writes_a_partial_buffer() {
    let mut rec = record();
    for t in 0..3u32 {
        rec.ingest(tick_msgs(t)).expect("tick must assemble");
    }
    assert_eq!(rec.out.len(), 0);
    rec.flush().expect("flush must succeed");
    assert_eq!(rec.buffered(), 0);
    let bytes = rec.take_output();
    let mut player = nuitrack_rs::playback(bytes, false).expect("recording must decode");
    for t in 0..3u32 {
        let tp = player.update().expect("update never fails").expect("snapshot expected");
        assert_eq!(tp, tick_time_point(t));
    }
    assert_eq!(player.update().expect("update never fails"), None);
}

#[test]
fn flush_of_empty_buffer_writes_nothing() {
    let mut rec = record();
    rec.flush().expect("flush of nothing succeeds");
    assert_eq!(rec.out.len(), 0);
    assert_eq!(rec.buffered(), 0);
}
