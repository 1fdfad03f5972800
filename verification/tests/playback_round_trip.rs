//! The player: round trips through the recorder, looping and exhaustion.

use nuitrack_rs::{
    playback, record, Color3, Content, DataMsg, Joint, NuiError, Orientation, SkeletonFeed,
    TimePoint, Vector3,
};

/// A small deterministic pseudo-random stream for synthetic field values.
struct Lcg(u64);

impl Lcg {
    fn next(&mut self) -> u32 {
        self.0 = self.0.wrapping_mul(6364136223846793005).wrapping_add(1442695040888963407);
        (self.0 >> 32) as u32
    }
}

fn synth_joint(r: &mut Lcg) -> Joint {
    Joint {
        type_: r.next(),
        confidence: r.next(),
        real: Vector3 { x: r.next(), y: r.next(), z: r.next() },
        proj: Vector3 { x: r.next(), y: r.next(), z: r.next() },
        orient: Orientation {
            matrix: [
                r.next(),
                r.next(),
                r.next(),
                r.next(),
                r.next(),
                r.next(),
                r.next(),
                r.next(),
                r.next(),
            ],
        },
    }
}

fn synth_time_point(r: &mut Lcg, idx: u32) -> TimePoint {
    // Every fourth snapshot has empty joint, depth and colour arrays.
    let empty = idx % 4 == 3;
    let nskel = if empty { 0 } else { (r.next() % 3) as usize };
    let mut skeleton = Vec::new();
    for _ in 0..nskel {
        let njoints = (r.next() % 4) as usize;
        let mut joints = Vec::new();
        for _ in 0..njoints {
            joints.push(synth_joint(r));
        }
        skeleton.push(SkeletonFeed { id: r.next() as i32, joints });
    }
    let ndepth = if empty { 0 } else { (r.next() % 8) as usize };
    let mut depth = Vec::new();
    for _ in 0..ndepth {
        depth.push(r.next() as u16);
    }
    let ncolor = if empty { 0 } else { (r.next() % 8) as usize };
    let mut color = Vec::new();
    for _ in 0..ncolor {
        color.push(Color3 { red: r.next() as u8, green: r.next() as u8, blue: r.next() as u8 });
    }
    TimePoint { skeleton, rows: r.next() as i32, cols: r.next() as i32, depth, color }
}

fn msgs_of(tp: &TimePoint) -> Vec<DataMsg> {
    vec![
        DataMsg::Skeleton(tp.skeleton.clone()),
        DataMsg::Depth(tp.depth.clone()),
        DataMsg::Color(tp.color.clone()),
        DataMsg::Size(tp.rows, tp.cols),
    ]
}

#[test]
fn record_then_replay_reproduces_every_snapshot() {
    // Synthetic snapshots with pseudo-random field values, including
    // empty arrays, must come back bit-for-bit in their original order.
    let mut r = Lcg(42);
    let n = 17u32;
    let originals: Vec<TimePoint> = (0..n).map(|i| synth_time_point(&mut r, i)).collect();
    let mut rec = record();
    for tp in &originals {
        rec.ingest(msgs_of(tp)).expect("tick must assemble");
    }
    rec.flush().expect("flush must succeed");
    let bytes = rec.take_output();
    let mut player = playback(bytes, false).expect("recording must decode");
    for tp in &originals {
        let got = player.update().expect("update never fails").expect("snapshot expected");
        assert_eq!(&got, tp);
    }
    assert_eq!(player.update().expect("update never fails"), None);
}

#[test]
fn round_trip_survives_split_writes() {
    // Two flushes append two frame runs to the same output; decoding
    // sees one continuous recording.
    let mut r = Lcg(7);
    let originals: Vec<TimePoint> = (0..6u32).map(|i| synth_time_point(&mut r, i)).collect();
    let mut rec = record();
    for tp in &originals[..2] {
        rec.ingest(msgs_of(tp)).expect("tick must assemble");
    }
    rec.flush().expect("flush must succeed");
    for tp in &originals[2..] {
        rec.ingest(msgs_of(tp)).expect("tick must assemble");
    }
    rec.flush().expect("flush must succeed");
    let bytes = rec.take_output();
    let mut player = playback(bytes, false).expect("recording must decode");
    for tp in &originals {
        let got = player.update().expect("update never fails").expect("snapshot expected");
        assert_eq!(&got, tp);
    }
    assert_eq!(player.update().expect("update never fails"), None);
}

fn three_tick_bytes() -> Vec<u8> {
    let mut rec = record();
    for t in 0..3i32 {
        rec.ingest(vec![
            DataMsg::Skeleton(vec![]),
            DataMsg::Depth(vec![t as u16]),
            DataMsg::Color(vec![]),
            DataMsg::Size(t, t),
        ])
        .expect("tick must assemble");
    }
    rec.flush().expect("flush must succeed");
    rec.take_output()
}

#[test]
fn looping_player_cycles_without_gap() {
    let mut player = playback(three_tick_bytes(), true).expect("recording must decode");
    let mut rows = Vec::new();
    for _ in 0..7 {
        let tp = player.update().expect("update never fails").expect("looping never exhausts");
        rows.push(tp.rows);
    }
    assert_eq!(rows, vec![0, 1, 2, 0, 1, 2, 0]);
}

#[test]
fn non_looping_player_exhausts_silently() {
    let mut player = playback(three_tick_bytes(), false).expect("recording must decode");
    for t in 0..3i32 {
        let tp = player.update().expect("update never fails").expect("snapshot expected");
        assert_eq!(tp.rows, t);
    }
    // The fourth and later pulls are no-ops: no snapshot, no error.
    for _ in 0..4 {
        assert_eq!(player.update().expect("update never fails"), None);
    }
}

#[test]
fn content_cycles_like_the_player() {
    let mut r = Lcg(3);
    let tps: Vec<TimePoint> = (0..3u32).map(|i| synth_time_point(&mut r, i)).collect();
    let expected: Vec<TimePoint> = tps.clone();
    let mut content = Content::new(tps, true);
    for k in 0..7usize {
        let tp = content.next().expect("looping never exhausts");
        assert_eq!(tp, expected[k % 3]);
    }
}

#[test]
fn empty_recording_replays_as_nothing() {
    let mut rec = record();
    rec.flush().expect("flush must succeed");
    let bytes = rec.take_output();
    assert_eq!(bytes.len(), 0);
    let mut player = playback(bytes, true).expect("empty recording must decode");
    assert_eq!(player.update().expect("update never fails"), None);
}

#[test]
fn truncated_recording_is_rejected() {
    let e = playback(vec![1, 2, 3], false).err().expect("garbage must be rejected");
    assert_eq!(e, NuiError::SerializationFailed);
}

#[test]
fn corrupt_block_is_rejected() {
    // A frame whose length is right but whose block is not a Snappy
    // block fails at decompression.
    let mut bytes = vec![3, 0, 0, 0, 0, 0, 0, 0];
    bytes.extend_from_slice(&[0xff, 0xff, 0xff]);
    let e = playback(bytes, false).err().expect("corrupt block must be rejected");
    assert_eq!(e, NuiError::DecompressionFailed);
}

#[test]
fn tampered_recording_does_not_replay_tampered_values() {
    // Flipping a byte inside a frame either fails to decode or yields
    // different snapshots; it must never silently reproduce the
    // original recording.
    let good = three_tick_bytes();
    let mut orig_player = playback(good.clone(), false).expect("recording must decode");
    let mut originals = Vec::new();
    while let Some(tp) = orig_player.update().expect("update never fails") {
        originals.push(tp);
    }
    let mut bad = good.clone();
    let mid = bad.len() / 2;
    bad[mid] ^= 0x40;
    match playback(bad, false) {
        Err(_) => {},
        Ok(mut p) => {
            let mut decoded = Vec::new();
            while let Some(tp) = p.update().expect("update never fails") {
                decoded.push(tp);
            }
            assert_ne!(decoded, originals);
        },
    }
}
