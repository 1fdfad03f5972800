//! The on-disk record format.
//!
//! A snapshot is laid out as a flat little-endian byte record: counts are
//! 64-bit, frame dimensions 32-bit, and every joint field a 32-bit word
//! (the joints' floating-point fields travel as IEEE-754 bit patterns).  The
//! specification-level encoders and parsers below define the format; the
//! executable functions implement them, and the round-trip lemmas prove
//! that parsing inverts encoding exactly.

use vstd::prelude::*;

use crate::data::{
    Color3, Joint, JointV, Orientation, SkeletonFeed, SkeletonFeedV, TimePoint, TimePointV,
    Vector3, wf_joint, wf_skeleton_feed, wf_time_point,
};

verus! {

// ---------------------------------------------------------------------
// Little-endian primitives: specification encoders
// ---------------------------------------------------------------------

pub open spec fn u16_le(v: u16) -> Seq<u8> {
    seq![(v % 0x100) as u8, ((v / 0x100) % 0x100) as u8]
}

pub open spec fn u32_le(v: u32) -> Seq<u8> {
    seq![
        (v % 0x100) as u8,
        ((v / 0x100) % 0x100) as u8,
        ((v / 0x10000) % 0x100) as u8,
        ((v / 0x1000000) % 0x100) as u8,
    ]
}

pub open spec fn u64_le(v: u64) -> Seq<u8> {
    seq![
        (v % 0x100) as u8,
        ((v / 0x100) % 0x100) as u8,
        ((v / 0x10000) % 0x100) as u8,
        ((v / 0x1000000) % 0x100) as u8,
        ((v / 0x100000000) % 0x100) as u8,
        ((v / 0x10000000000) % 0x100) as u8,
        ((v / 0x1000000000000) % 0x100) as u8,
        ((v / 0x100000000000000) % 0x100) as u8,
    ]
}

/// A signed 32-bit value travels as the unsigned word with the same bits.
pub open spec fn i32_le(v: i32) -> Seq<u8> {
    u32_le(v as u32)
}

// ---------------------------------------------------------------------
// Little-endian primitives: specification parsers
//
// Each parser consumes a prefix of the sequence and yields the value and
// the remainder, or nothing when the input is too short.
// ---------------------------------------------------------------------

pub open spec fn parse_u16(s: Seq<u8>) -> Option<(u16, Seq<u8>)> {
    if s.len() >= 2 {
        Some((((s[0] + s[1] * 0x100)) as u16, s.skip(2)))
    } else {
        None
    }
}

pub open spec fn parse_u32(s: Seq<u8>) -> Option<(u32, Seq<u8>)> {
    if s.len() >= 4 {
        Some((
            ((s[0] + s[1] * 0x100 + s[2] * 0x10000 + s[3] * 0x1000000)) as u32,
            s.skip(4),
        ))
    } else {
        None
    }
}

pub open spec fn parse_u64(s: Seq<u8>) -> Option<(u64, Seq<u8>)> {
    if s.len() >= 8 {
        Some((
            ((s[0] + s[1] * 0x100 + s[2] * 0x10000 + s[3] * 0x1000000 + s[4] * 0x100000000
                + s[5] * 0x10000000000 + s[6] * 0x1000000000000 + s[7] * 0x100000000000000))
                as u64,
            s.skip(8),
        ))
    } else {
        None
    }
}

pub open spec fn parse_i32(s: Seq<u8>) -> Option<(i32, Seq<u8>)> {
    match parse_u32(s) {
        Some((v, r)) => Some((v as i32, r)),
        None => None,
    }
}

// ---------------------------------------------------------------------
// Round-trip lemmas for the primitives
// ---------------------------------------------------------------------

pub proof fn lemma_u16_round_trip(v: u16, rest: Seq<u8>)
    ensures
        parse_u16(u16_le(v) + rest) == Some((v, rest)),
{
    let s = u16_le(v) + rest;
    assert(s[0] == (v % 0x100) as u8);
    assert(s[1] == ((v / 0x100) % 0x100) as u8);
    assert(v % 0x100 + ((v / 0x100) % 0x100) * 0x100 == v);
    assert(s.skip(2) =~= rest);
}

pub proof fn lemma_u32_round_trip(v: u32, rest: Seq<u8>)
    ensures
        parse_u32(u32_le(v) + rest) == Some((v, rest)),
{
    let s = u32_le(v) + rest;
    assert(s[0] == (v % 0x100) as u8);
    assert(s[1] == ((v / 0x100) % 0x100) as u8);
    assert(s[2] == ((v / 0x10000) % 0x100) as u8);
    assert(s[3] == ((v / 0x1000000) % 0x100) as u8);
    assert(v % 0x100 + ((v / 0x100) % 0x100) * 0x100 + ((v / 0x10000) % 0x100) * 0x10000 + (
    (v / 0x1000000) % 0x100) * 0x1000000 == v);
    assert(s.skip(4) =~= rest);
}

/// The flat little-endian sum of a value's eight bytes gives the value
/// back; proved by peeling one byte at a time.
pub proof fn lemma_u64_bytes_sum(v: u64)
    ensures
        v % 0x100 + ((v / 0x100) % 0x100) * 0x100 + ((v / 0x10000) % 0x100) * 0x10000 + ((v
            / 0x1000000) % 0x100) * 0x1000000 + ((v / 0x100000000) % 0x100) * 0x100000000 + ((v
            / 0x10000000000) % 0x100) * 0x10000000000 + ((v / 0x1000000000000) % 0x100)
            * 0x1000000000000 + ((v / 0x100000000000000) % 0x100) * 0x100000000000000 == v,
{
    let x = v as int;
    let q1 = x / 0x100;
    let q2 = x / 0x10000;
    let q3 = x / 0x1000000;
    let q4 = x / 0x100000000;
    let q5 = x / 0x10000000000;
    let q6 = x / 0x1000000000000;
    let q7 = x / 0x100000000000000;
    vstd::arithmetic::div_mod::lemma_div_denominator(x, 0x100, 0x100);
    vstd::arithmetic::div_mod::lemma_div_denominator(x, 0x10000, 0x100);
    vstd::arithmetic::div_mod::lemma_div_denominator(x, 0x1000000, 0x100);
    vstd::arithmetic::div_mod::lemma_div_denominator(x, 0x100000000, 0x100);
    vstd::arithmetic::div_mod::lemma_div_denominator(x, 0x10000000000, 0x100);
    vstd::arithmetic::div_mod::lemma_div_denominator(x, 0x1000000000000, 0x100);
    assert(q1 / 0x100 == q2);
    assert(q2 / 0x100 == q3);
    assert(q3 / 0x100 == q4);
    assert(q4 / 0x100 == q5);
    assert(q5 / 0x100 == q6);
    assert(q6 / 0x100 == q7);
    vstd::arithmetic::div_mod::lemma_fundamental_div_mod(x, 0x100);
    vstd::arithmetic::div_mod::lemma_fundamental_div_mod(q1, 0x100);
    vstd::arithmetic::div_mod::lemma_fundamental_div_mod(q2, 0x100);
    vstd::arithmetic::div_mod::lemma_fundamental_div_mod(q3, 0x100);
    vstd::arithmetic::div_mod::lemma_fundamental_div_mod(q4, 0x100);
    vstd::arithmetic::div_mod::lemma_fundamental_div_mod(q5, 0x100);
    vstd::arithmetic::div_mod::lemma_fundamental_div_mod(q6, 0x100);
    assert(q7 % 0x100 == q7) by {
        assert(x < 0x10000000000000000);
        assert(0 <= q7 < 0x100);
    }
}

#[verifier::rlimit(50)]
pub proof fn lemma_u64_round_trip(v: u64, rest: Seq<u8>)
    ensures
        parse_u64(u64_le(v) + rest) == Some((v, rest)),
{
    let s = u64_le(v) + rest;
    assert(s[0] == (v % 0x100) as u8);
    assert(s[1] == ((v / 0x100) % 0x100) as u8);
    assert(s[2] == ((v / 0x10000) % 0x100) as u8);
    assert(s[3] == ((v / 0x1000000) % 0x100) as u8);
    assert(s[4] == ((v / 0x100000000) % 0x100) as u8);
    assert(s[5] == ((v / 0x10000000000) % 0x100) as u8);
    assert(s[6] == ((v / 0x1000000000000) % 0x100) as u8);
    assert(s[7] == ((v / 0x100000000000000) % 0x100) as u8);
    lemma_u64_bytes_sum(v);
    assert(s.skip(8) =~= rest);
}

pub proof fn lemma_i32_cast_round_trip(v: i32)
    ensures
        (v as u32) as i32 == v,
{
    assert((v as u32) as i32 == v) by (bit_vector);
}

pub proof fn lemma_i32_round_trip(v: i32, rest: Seq<u8>)
    ensures
        parse_i32(i32_le(v) + rest) == Some((v, rest)),
{
    lemma_u32_round_trip(v as u32, rest);
    lemma_i32_cast_round_trip(v);
}

// ---------------------------------------------------------------------
// Record layout: specification encoders
// ---------------------------------------------------------------------

/// A colour sample travels as its three channels, red first.
pub open spec fn color_enc(c: Color3) -> Seq<u8> {
    seq![c.red, c.green, c.blue]
}

pub open spec fn colors_enc(cs: Seq<Color3>) -> Seq<u8>
    decreases cs.len(),
{
    if cs.len() == 0 {
        Seq::empty()
    } else {
        color_enc(cs[0]) + colors_enc(cs.skip(1))
    }
}

pub open spec fn u16s_enc(vs: Seq<u16>) -> Seq<u8>
    decreases vs.len(),
{
    if vs.len() == 0 {
        Seq::empty()
    } else {
        u16_le(vs[0]) + u16s_enc(vs.skip(1))
    }
}

pub open spec fn u32s_enc(vs: Seq<u32>) -> Seq<u8>
    decreases vs.len(),
{
    if vs.len() == 0 {
        Seq::empty()
    } else {
        u32_le(vs[0]) + u32s_enc(vs.skip(1))
    }
}

pub open spec fn vector3_enc(v: Vector3) -> Seq<u8> {
    u32_le(v.x) + u32_le(v.y) + u32_le(v.z)
}

/// A joint: kind, confidence, both positions, then the nine orientation
/// entries, every field a 32-bit word.
pub open spec fn joint_enc(j: JointV) -> Seq<u8> {
    u32_le(j.type_) + u32_le(j.confidence) + vector3_enc(j.real) + vector3_enc(j.proj) + u32s_enc(
        j.orient,
    )
}

pub open spec fn joints_enc(js: Seq<JointV>) -> Seq<u8>
    decreases js.len(),
{
    if js.len() == 0 {
        Seq::empty()
    } else {
        joint_enc(js[0]) + joints_enc(js.skip(1))
    }
}

/// A skeleton feed: its id, then its joints behind a 64-bit count.
pub open spec fn feed_enc(f: SkeletonFeedV) -> Seq<u8> {
    i32_le(f.id) + u64_le(f.joints.len() as u64) + joints_enc(f.joints)
}

pub open spec fn feeds_enc(fs: Seq<SkeletonFeedV>) -> Seq<u8>
    decreases fs.len(),
{
    if fs.len() == 0 {
        Seq::empty()
    } else {
        feed_enc(fs[0]) + feeds_enc(fs.skip(1))
    }
}

/// One snapshot record: skeleton feeds, frame dimensions, depth plane and
/// colour plane, in that order, each list behind a 64-bit count.
pub open spec fn time_point_enc(t: TimePointV) -> Seq<u8> {
    u64_le(t.skeleton.len() as u64) + feeds_enc(t.skeleton) + i32_le(t.rows) + i32_le(t.cols)
        + u64_le(t.depth.len() as u64) + u16s_enc(t.depth) + u64_le(t.color.len() as u64)
        + colors_enc(t.color)
}

// ---------------------------------------------------------------------
// Record layout: specification parsers
// ---------------------------------------------------------------------

pub open spec fn parse_color(s: Seq<u8>) -> Option<(Color3, Seq<u8>)> {
    if s.len() >= 3 {
        Some((Color3 { red: s[0], green: s[1], blue: s[2] }, s.skip(3)))
    } else {
        None
    }
}

pub open spec fn parse_colors(s: Seq<u8>, n: nat) -> Option<(Seq<Color3>, Seq<u8>)>
    decreases n,
{
    if n == 0 {
        Some((Seq::empty(), s))
    } else {
        match parse_color(s) {
            Some((c, r)) => match parse_colors(r, (n - 1) as nat) {
                Some((cs, r2)) => Some((seq![c] + cs, r2)),
                None => None,
            },
            None => None,
        }
    }
}

pub open spec fn parse_u16s(s: Seq<u8>, n: nat) -> Option<(Seq<u16>, Seq<u8>)>
    decreases n,
{
    if n == 0 {
        Some((Seq::empty(), s))
    } else {
        match parse_u16(s) {
            Some((v, r)) => match parse_u16s(r, (n - 1) as nat) {
                Some((vs, r2)) => Some((seq![v] + vs, r2)),
                None => None,
            },
            None => None,
        }
    }
}

pub open spec fn parse_u32s(s: Seq<u8>, n: nat) -> Option<(Seq<u32>, Seq<u8>)>
    decreases n,
{
    if n == 0 {
        Some((Seq::empty(), s))
    } else {
        match parse_u32(s) {
            Some((v, r)) => match parse_u32s(r, (n - 1) as nat) {
                Some((vs, r2)) => Some((seq![v] + vs, r2)),
                None => None,
            },
            None => None,
        }
    }
}

pub open spec fn parse_vector3(s: Seq<u8>) -> Option<(Vector3, Seq<u8>)> {
    match parse_u32(s) {
        Some((x, r1)) => match parse_u32(r1) {
            Some((y, r2)) => match parse_u32(r2) {
                Some((z, r3)) => Some((Vector3 { x, y, z }, r3)),
                None => None,
            },
            None => None,
        },
        None => None,
    }
}

pub open spec fn parse_joint(s: Seq<u8>) -> Option<(JointV, Seq<u8>)> {
    match parse_u32(s) {
        Some((type_, r1)) => match parse_u32(r1) {
            Some((confidence, r2)) => match parse_vector3(r2) {
                Some((rw, r3)) => match parse_vector3(r3) {
                    Some((pj, r4)) => match parse_u32s(r4, 9) {
                        Some((orient, r5)) => Some(
                            (JointV { type_, confidence, real: rw, proj: pj, orient }, r5),
                        ),
                        None => None,
                    },
                    None => None,
                },
                None => None,
            },
            None => None,
        },
        None => None,
    }
}

pub open spec fn parse_joints(s: Seq<u8>, n: nat) -> Option<(Seq<JointV>, Seq<u8>)>
    decreases n,
{
    if n == 0 {
        Some((Seq::empty(), s))
    } else {
        match parse_joint(s) {
            Some((j, r)) => match parse_joints(r, (n - 1) as nat) {
                Some((js, r2)) => Some((seq![j] + js, r2)),
                None => None,
            },
            None => None,
        }
    }
}

pub open spec fn parse_feed(s: Seq<u8>) -> Option<(SkeletonFeedV, Seq<u8>)> {
    match parse_i32(s) {
        Some((id, r1)) => match parse_u64(r1) {
            Some((n, r2)) => match parse_joints(r2, n as nat) {
                Some((joints, r3)) => Some((SkeletonFeedV { id, joints }, r3)),
                None => None,
            },
            None => None,
        },
        None => None,
    }
}

pub open spec fn parse_feeds(s: Seq<u8>, n: nat) -> Option<(Seq<SkeletonFeedV>, Seq<u8>)>
    decreases n,
{
    if n == 0 {
        Some((Seq::empty(), s))
    } else {
        match parse_feed(s) {
            Some((f, r)) => match parse_feeds(r, (n - 1) as nat) {
                Some((fs, r2)) => Some((seq![f] + fs, r2)),
                None => None,
            },
            None => None,
        }
    }
}

pub open spec fn parse_time_point(s: Seq<u8>) -> Option<(TimePointV, Seq<u8>)> {
    match parse_u64(s) {
        Some((ns, r1)) => match parse_feeds(r1, ns as nat) {
            Some((skeleton, r2)) => match parse_i32(r2) {
                Some((rows, r3)) => match parse_i32(r3) {
                    Some((cols, r4)) => match parse_u64(r4) {
                        Some((nd, r5)) => match parse_u16s(r5, nd as nat) {
                            Some((depth, r6)) => match parse_u64(r6) {
                                Some((nc, r7)) => match parse_colors(r7, nc as nat) {
                                    Some((color, r8)) => Some(
                                        (TimePointV { skeleton, rows, cols, depth, color }, r8),
                                    ),
                                    None => None,
                                },
                                None => None,
                            },
                            None => None,
                        },
                        None => None,
                    },
                    None => None,
                },
                None => None,
            },
            None => None,
        },
        None => None,
    }
}

// ---------------------------------------------------------------------
// Round-trip lemmas for the record layout
// ---------------------------------------------------------------------

pub proof fn lemma_color_round_trip(c: Color3, rest: Seq<u8>)
    ensures
        parse_color(color_enc(c) + rest) == Some((c, rest)),
{
    let s = color_enc(c) + rest;
    assert(s[0] == c.red);
    assert(s[1] == c.green);
    assert(s[2] == c.blue);
    assert(s.skip(3) =~= rest);
}

pub proof fn lemma_colors_round_trip(vs: Seq<Color3>, rest: Seq<u8>)
    ensures
        parse_colors(colors_enc(vs) + rest, vs.len()) == Some((vs, rest)),
    decreases vs.len(),
{
    if vs.len() == 0 {
        assert(colors_enc(vs) + rest =~= rest);
        assert(vs =~= Seq::<Color3>::empty());
    } else {
        let a = color_enc(vs[0]);
        let b = colors_enc(vs.skip(1));
        let tail = b + rest;
        assert(colors_enc(vs) == a + b);
        assert((a + b) + rest =~= a + tail);
        lemma_color_round_trip(vs[0], tail);
        lemma_colors_round_trip(vs.skip(1), rest);
        assert(seq![vs[0]] + vs.skip(1) =~= vs);
    }
}

pub proof fn lemma_u16s_round_trip(vs: Seq<u16>, rest: Seq<u8>)
    ensures
        parse_u16s(u16s_enc(vs) + rest, vs.len()) == Some((vs, rest)),
    decreases vs.len(),
{
    if vs.len() == 0 {
        assert(u16s_enc(vs) + rest =~= rest);
        assert(vs =~= Seq::<u16>::empty());
    } else {
        let a = u16_le(vs[0]);
        let b = u16s_enc(vs.skip(1));
        let tail = b + rest;
        assert(u16s_enc(vs) == a + b);
        assert((a + b) + rest =~= a + tail);
        lemma_u16_round_trip(vs[0], tail);
        lemma_u16s_round_trip(vs.skip(1), rest);
        assert(seq![vs[0]] + vs.skip(1) =~= vs);
    }
}

pub proof fn lemma_u32s_round_trip(vs: Seq<u32>, rest: Seq<u8>)
    ensures
        parse_u32s(u32s_enc(vs) + rest, vs.len()) == Some((vs, rest)),
    decreases vs.len(),
{
    if vs.len() == 0 {
        assert(u32s_enc(vs) + rest =~= rest);
        assert(vs =~= Seq::<u32>::empty());
    } else {
        let a = u32_le(vs[0]);
        let b = u32s_enc(vs.skip(1));
        let tail = b + rest;
        assert(u32s_enc(vs) == a + b);
        assert((a + b) + rest =~= a + tail);
        lemma_u32_round_trip(vs[0], tail);
        lemma_u32s_round_trip(vs.skip(1), rest);
        assert(seq![vs[0]] + vs.skip(1) =~= vs);
    }
}

pub proof fn lemma_vector3_round_trip(v: Vector3, rest: Seq<u8>)
    ensures
        parse_vector3(vector3_enc(v) + rest) == Some((v, rest)),
{
    let r2 = u32_le(v.z) + rest;
    let r1 = u32_le(v.y) + r2;
    assert(vector3_enc(v) + rest =~= u32_le(v.x) + r1);
    lemma_u32_round_trip(v.x, r1);
    lemma_u32_round_trip(v.y, r2);
    lemma_u32_round_trip(v.z, rest);
}

pub proof fn lemma_joint_round_trip(j: JointV, rest: Seq<u8>)
    requires
        wf_joint(j),
    ensures
        parse_joint(joint_enc(j) + rest) == Some((j, rest)),
{
    let r4 = u32s_enc(j.orient) + rest;
    let r3 = vector3_enc(j.proj) + r4;
    let r2 = vector3_enc(j.real) + r3;
    let r1 = u32_le(j.confidence) + r2;
    assert(joint_enc(j) + rest =~= u32_le(j.type_) + r1);
    lemma_u32_round_trip(j.type_, r1);
    lemma_u32_round_trip(j.confidence, r2);
    lemma_vector3_round_trip(j.real, r3);
    lemma_vector3_round_trip(j.proj, r4);
    lemma_u32s_round_trip(j.orient, rest);
}

pub proof fn lemma_joints_round_trip(vs: Seq<JointV>, rest: Seq<u8>)
    requires
        forall|i: int| 0 <= i < vs.len() ==> wf_joint(#[trigger] vs[i]),
    ensures
        parse_joints(joints_enc(vs) + rest, vs.len()) == Some((vs, rest)),
    decreases vs.len(),
{
    if vs.len() == 0 {
        assert(joints_enc(vs) + rest =~= rest);
        assert(vs =~= Seq::<JointV>::empty());
    } else {
        let a = joint_enc(vs[0]);
        let b = joints_enc(vs.skip(1));
        let tail = b + rest;
        assert(joints_enc(vs) == a + b);
        assert((a + b) + rest =~= a + tail);
        lemma_joint_round_trip(vs[0], tail);
        lemma_joints_round_trip(vs.skip(1), rest);
        assert(seq![vs[0]] + vs.skip(1) =~= vs);
    }
}

pub proof fn lemma_feed_round_trip(f: SkeletonFeedV, rest: Seq<u8>)
    requires
        wf_skeleton_feed(f),
    ensures
        parse_feed(feed_enc(f) + rest) == Some((f, rest)),
{
    let r2 = joints_enc(f.joints) + rest;
    let r1 = u64_le(f.joints.len() as u64) + r2;
    assert(feed_enc(f) + rest =~= i32_le(f.id) + r1);
    lemma_i32_round_trip(f.id, r1);
    lemma_u64_round_trip(f.joints.len() as u64, r2);
    lemma_joints_round_trip(f.joints, rest);
    assert((f.joints.len() as u64) as nat == f.joints.len());
}

pub proof fn lemma_feeds_round_trip(vs: Seq<SkeletonFeedV>, rest: Seq<u8>)
    requires
        forall|i: int| 0 <= i < vs.len() ==> wf_skeleton_feed(#[trigger] vs[i]),
    ensures
        parse_feeds(feeds_enc(vs) + rest, vs.len()) == Some((vs, rest)),
    decreases vs.len(),
{
    if vs.len() == 0 {
        assert(feeds_enc(vs) + rest =~= rest);
        assert(vs =~= Seq::<SkeletonFeedV>::empty());
    } else {
        let a = feed_enc(vs[0]);
        let b = feeds_enc(vs.skip(1));
        let tail = b + rest;
        assert(feeds_enc(vs) == a + b);
        assert((a + b) + rest =~= a + tail);
        lemma_feed_round_trip(vs[0], tail);
        lemma_feeds_round_trip(vs.skip(1), rest);
        assert(seq![vs[0]] + vs.skip(1) =~= vs);
    }
}

/// Regrouping of a snapshot encoding followed by arbitrary bytes:
/// sequence concatenation is associative, one segment at a time.
#[verifier::rlimit(50)]
pub proof fn lemma_time_point_enc_regroup(t: TimePointV, rest: Seq<u8>)
    ensures
        time_point_enc(t) + rest == u64_le(t.skeleton.len() as u64) + (feeds_enc(t.skeleton) + (
        i32_le(t.rows) + (i32_le(t.cols) + (u64_le(t.depth.len() as u64) + (u16s_enc(t.depth) + (
        u64_le(t.color.len() as u64) + (colors_enc(t.color) + rest))))))),
{
    let e1 = u64_le(t.skeleton.len() as u64);
    let e2 = feeds_enc(t.skeleton);
    let e3 = i32_le(t.rows);
    let e4 = i32_le(t.cols);
    let e5 = u64_le(t.depth.len() as u64);
    let e6 = u16s_enc(t.depth);
    let e7 = u64_le(t.color.len() as u64);
    let e8 = colors_enc(t.color);
    let r7 = e8 + rest;
    let r6 = e7 + r7;
    let r5 = e6 + r6;
    let r4 = e5 + r5;
    let r3 = e4 + r4;
    let r2 = e3 + r3;
    let r1 = e2 + r2;
    let p2 = e1 + e2;
    let p3 = p2 + e3;
    let p4 = p3 + e4;
    let p5 = p4 + e5;
    let p6 = p5 + e6;
    let p7 = p6 + e7;
    let p8 = p7 + e8;
    assert(time_point_enc(t) == p8);
    assert(p8 + rest =~= p7 + r7);
    assert(p7 + r7 =~= p6 + r6);
    assert(p6 + r6 =~= p5 + r5);
    assert(p5 + r5 =~= p4 + r4);
    assert(p4 + r4 =~= p3 + r3);
    assert(p3 + r3 =~= p2 + r2);
    assert(p2 + r2 =~= e1 + r1);
}

/// Parsing a well-formed snapshot's encoding gives the snapshot back, with
/// the remainder untouched.
#[verifier::rlimit(50)]
pub proof fn lemma_time_point_round_trip(t: TimePointV, rest: Seq<u8>)
    requires
        wf_time_point(t),
    ensures
        parse_time_point(time_point_enc(t) + rest) == Some((t, rest)),
{
    let r7 = colors_enc(t.color) + rest;
    let r6 = u64_le(t.color.len() as u64) + r7;
    let r5 = u16s_enc(t.depth) + r6;
    let r4 = u64_le(t.depth.len() as u64) + r5;
    let r3 = i32_le(t.cols) + r4;
    let r2 = i32_le(t.rows) + r3;
    let r1 = feeds_enc(t.skeleton) + r2;
    lemma_time_point_enc_regroup(t, rest);
    assert(time_point_enc(t) + rest == u64_le(t.skeleton.len() as u64) + r1);
    lemma_u64_round_trip(t.skeleton.len() as u64, r1);
    assert((t.skeleton.len() as u64) as nat == t.skeleton.len());
    lemma_feeds_round_trip(t.skeleton, r2);
    lemma_i32_round_trip(t.rows, r3);
    lemma_i32_round_trip(t.cols, r4);
    lemma_u64_round_trip(t.depth.len() as u64, r5);
    assert((t.depth.len() as u64) as nat == t.depth.len());
    lemma_u16s_round_trip(t.depth, r6);
    lemma_u64_round_trip(t.color.len() as u64, r7);
    assert((t.color.len() as u64) as nat == t.color.len());
    lemma_colors_round_trip(t.color, rest);
}

// ---------------------------------------------------------------------
// Appending one element to a list extends its encoding at the end
// ---------------------------------------------------------------------

pub proof fn lemma_colors_enc_push(vs: Seq<Color3>, v: Color3)
    ensures
        colors_enc(vs.push(v)) == colors_enc(vs) + color_enc(v),
    decreases vs.len(),
{
    if vs.len() == 0 {
        assert(vs.push(v)[0] == v);
        assert(vs.push(v).skip(1) =~= vs);
        assert(colors_enc(vs) + color_enc(v) =~= color_enc(v) + colors_enc(vs));
    } else {
        let a = color_enc(vs[0]);
        let b = colors_enc(vs.skip(1));
        let c = color_enc(v);
        assert(vs.push(v)[0] == vs[0]);
        assert(vs.push(v).skip(1) =~= vs.skip(1).push(v));
        lemma_colors_enc_push(vs.skip(1), v);
        assert((a + b) + c =~= a + (b + c));
    }
}

pub proof fn lemma_u16s_enc_push(vs: Seq<u16>, v: u16)
    ensures
        u16s_enc(vs.push(v)) == u16s_enc(vs) + u16_le(v),
    decreases vs.len(),
{
    if vs.len() == 0 {
        assert(vs.push(v)[0] == v);
        assert(vs.push(v).skip(1) =~= vs);
        assert(u16s_enc(vs) + u16_le(v) =~= u16_le(v) + u16s_enc(vs));
    } else {
        let a = u16_le(vs[0]);
        let b = u16s_enc(vs.skip(1));
        let c = u16_le(v);
        assert(vs.push(v)[0] == vs[0]);
        assert(vs.push(v).skip(1) =~= vs.skip(1).push(v));
        lemma_u16s_enc_push(vs.skip(1), v);
        assert((a + b) + c =~= a + (b + c));
    }
}

pub proof fn lemma_u32s_enc_push(vs: Seq<u32>, v: u32)
    ensures
        u32s_enc(vs.push(v)) == u32s_enc(vs) + u32_le(v),
    decreases vs.len(),
{
    if vs.len() == 0 {
        assert(vs.push(v)[0] == v);
        assert(vs.push(v).skip(1) =~= vs);
        assert(u32s_enc(vs) + u32_le(v) =~= u32_le(v) + u32s_enc(vs));
    } else {
        let a = u32_le(vs[0]);
        let b = u32s_enc(vs.skip(1));
        let c = u32_le(v);
        assert(vs.push(v)[0] == vs[0]);
        assert(vs.push(v).skip(1) =~= vs.skip(1).push(v));
        lemma_u32s_enc_push(vs.skip(1), v);
        assert((a + b) + c =~= a + (b + c));
    }
}

pub proof fn lemma_joints_enc_push(vs: Seq<JointV>, v: JointV)
    ensures
        joints_enc(vs.push(v)) == joints_enc(vs) + joint_enc(v),
    decreases vs.len(),
{
    if vs.len() == 0 {
        assert(vs.push(v)[0] == v);
        assert(vs.push(v).skip(1) =~= vs);
        assert(joints_enc(vs) + joint_enc(v) =~= joint_enc(v) + joints_enc(vs));
    } else {
        let a = joint_enc(vs[0]);
        let b = joints_enc(vs.skip(1));
        let c = joint_enc(v);
        assert(vs.push(v)[0] == vs[0]);
        assert(vs.push(v).skip(1) =~= vs.skip(1).push(v));
        lemma_joints_enc_push(vs.skip(1), v);
        assert((a + b) + c =~= a + (b + c));
    }
}

pub proof fn lemma_feeds_enc_push(vs: Seq<SkeletonFeedV>, v: SkeletonFeedV)
    ensures
        feeds_enc(vs.push(v)) == feeds_enc(vs) + feed_enc(v),
    decreases vs.len(),
{
    if vs.len() == 0 {
        assert(vs.push(v)[0] == v);
        assert(vs.push(v).skip(1) =~= vs);
        assert(feeds_enc(vs) + feed_enc(v) =~= feed_enc(v) + feeds_enc(vs));
    } else {
        let a = feed_enc(vs[0]);
        let b = feeds_enc(vs.skip(1));
        let c = feed_enc(v);
        assert(vs.push(v)[0] == vs[0]);
        assert(vs.push(v).skip(1) =~= vs.skip(1).push(v));
        lemma_feeds_enc_push(vs.skip(1), v);
        assert((a + b) + c =~= a + (b + c));
    }
}

// ---------------------------------------------------------------------
// Little-endian primitives: executable encoders and parsers
// ---------------------------------------------------------------------

pub fn push_u16_le(out: &mut Vec<u8>, v: u16)
    ensures
        final(out)@ == old(out)@ + u16_le(v),
{
    out.push((v % 0x100) as u8);
    out.push(((v / 0x100) % 0x100) as u8);
    proof {
        assert(out@ =~= old(out)@ + u16_le(v));
    }
}

pub fn push_u32_le(out: &mut Vec<u8>, v: u32)
    ensures
        final(out)@ == old(out)@ + u32_le(v),
{
    out.push((v % 0x100) as u8);
    out.push(((v / 0x100) % 0x100) as u8);
    out.push(((v / 0x10000) % 0x100) as u8);
    out.push(((v / 0x1000000) % 0x100) as u8);
    proof {
        assert(out@ =~= old(out)@ + u32_le(v));
    }
}

pub fn push_u64_le(out: &mut Vec<u8>, v: u64)
    ensures
        final(out)@ == old(out)@ + u64_le(v),
{
    out.push((v % 0x100) as u8);
    out.push(((v / 0x100) % 0x100) as u8);
    out.push(((v / 0x10000) % 0x100) as u8);
    out.push(((v / 0x1000000) % 0x100) as u8);
    out.push(((v / 0x100000000) % 0x100) as u8);
    out.push(((v / 0x10000000000) % 0x100) as u8);
    out.push(((v / 0x1000000000000) % 0x100) as u8);
    out.push(((v / 0x100000000000000) % 0x100) as u8);
    proof {
        assert(out@ =~= old(out)@ + u64_le(v));
    }
}

pub fn push_i32_le(out: &mut Vec<u8>, v: i32)
    ensures
        final(out)@ == old(out)@ + i32_le(v),
{
    push_u32_le(out, v as u32);
}

pub fn read_u16_le(bytes: &Vec<u8>, i: usize) -> (r: Option<(u16, usize)>)
    requires
        i <= bytes@.len(),
    ensures
        match r {
            Some(p) => {
                i <= p.1 <= bytes@.len() && parse_u16(bytes@.skip(i as int)) == Some(
                    (p.0, bytes@.skip(p.1 as int)),
                )
            },
            None => parse_u16(bytes@.skip(i as int)) is None,
        },
{
    if bytes.len() - i >= 2 {
        let v: u16 = bytes[i] as u16 + bytes[i + 1] as u16 * 0x100;
        proof {
            let s = bytes@.skip(i as int);
            assert(s[0] == bytes@[i as int]);
            assert(s[1] == bytes@[i as int + 1]);
            assert(s.skip(2) =~= bytes@.skip(i as int + 2));
        }
        Some((v, i + 2))
    } else {
        None
    }
}

pub fn read_u32_le(bytes: &Vec<u8>, i: usize) -> (r: Option<(u32, usize)>)
    requires
        i <= bytes@.len(),
    ensures
        match r {
            Some(p) => {
                i <= p.1 <= bytes@.len() && parse_u32(bytes@.skip(i as int)) == Some(
                    (p.0, bytes@.skip(p.1 as int)),
                )
            },
            None => parse_u32(bytes@.skip(i as int)) is None,
        },
{
    if bytes.len() - i >= 4 {
        let v: u32 = bytes[i] as u32 + bytes[i + 1] as u32 * 0x100 + bytes[i + 2] as u32 * 0x10000
            + bytes[i + 3] as u32 * 0x1000000;
        proof {
            let s = bytes@.skip(i as int);
            assert(s[0] == bytes@[i as int]);
            assert(s[1] == bytes@[i as int + 1]);
            assert(s[2] == bytes@[i as int + 2]);
            assert(s[3] == bytes@[i as int + 3]);
            assert(s.skip(4) =~= bytes@.skip(i as int + 4));
        }
        Some((v, i + 4))
    } else {
        None
    }
}

pub fn read_u64_le(bytes: &Vec<u8>, i: usize) -> (r: Option<(u64, usize)>)
    requires
        i <= bytes@.len(),
    ensures
        match r {
            Some(p) => {
                i <= p.1 <= bytes@.len() && parse_u64(bytes@.skip(i as int)) == Some(
                    (p.0, bytes@.skip(p.1 as int)),
                )
            },
            None => parse_u64(bytes@.skip(i as int)) is None,
        },
{
    if bytes.len() - i >= 8 {
        let v: u64 = bytes[i] as u64 + bytes[i + 1] as u64 * 0x100 + bytes[i + 2] as u64 * 0x10000
            + bytes[i + 3] as u64 * 0x1000000 + bytes[i + 4] as u64 * 0x100000000
            + bytes[i + 5] as u64 * 0x10000000000 + bytes[i + 6] as u64 * 0x1000000000000
            + bytes[i + 7] as u64 * 0x100000000000000;
        proof {
            let s = bytes@.skip(i as int);
            assert(s[0] == bytes@[i as int]);
            assert(s[1] == bytes@[i as int + 1]);
            assert(s[2] == bytes@[i as int + 2]);
            assert(s[3] == bytes@[i as int + 3]);
            assert(s[4] == bytes@[i as int + 4]);
            assert(s[5] == bytes@[i as int + 5]);
            assert(s[6] == bytes@[i as int + 6]);
            assert(s[7] == bytes@[i as int + 7]);
            assert(s.skip(8) =~= bytes@.skip(i as int + 8));
        }
        Some((v, i + 8))
    } else {
        None
    }
}

pub fn read_i32_le(bytes: &Vec<u8>, i: usize) -> (r: Option<(i32, usize)>)
    requires
        i <= bytes@.len(),
    ensures
        match r {
            Some(p) => {
                i <= p.1 <= bytes@.len() && parse_i32(bytes@.skip(i as int)) == Some(
                    (p.0, bytes@.skip(p.1 as int)),
                )
            },
            None => parse_i32(bytes@.skip(i as int)) is None,
        },
{
    match read_u32_le(bytes, i) {
        Some((v, j)) => Some((v as i32, j)),
        None => None,
    }
}

// ---------------------------------------------------------------------
// Record layout: executable encoders
// ---------------------------------------------------------------------

pub fn encode_color(out: &mut Vec<u8>, c: &Color3)
    ensures
        final(out)@ == old(out)@ + color_enc(*c),
{
    out.push(c.red);
    out.push(c.green);
    out.push(c.blue);
    proof {
        assert(out@ =~= old(out)@ + color_enc(*c));
    }
}

pub fn encode_vector3(out: &mut Vec<u8>, v: &Vector3)
    ensures
        final(out)@ == old(out)@ + vector3_enc(*v),
{
    push_u32_le(out, v.x);
    push_u32_le(out, v.y);
    push_u32_le(out, v.z);
    proof {
        assert(out@ =~= old(out)@ + vector3_enc(*v));
    }
}

pub fn encode_joint(out: &mut Vec<u8>, j: &Joint)
    ensures
        final(out)@ == old(out)@ + joint_enc(j@),
{
    push_u32_le(out, j.type_);
    push_u32_le(out, j.confidence);
    encode_vector3(out, &j.real);
    encode_vector3(out, &j.proj);
    let ghost mid = out@;
    let ghost mseq = j.orient.matrix@;
    let mut k: usize = 0;
    while k < 9
        invariant
            k <= 9,
            mseq == j.orient.matrix@,
            out@ == mid + u32s_enc(mseq.take(k as int)),
        decreases 9 - k,
    {
        let ghost pre = mseq.take(k as int);
        push_u32_le(out, j.orient.matrix[k]);
        proof {
            assert(pre.push(mseq[k as int]) =~= mseq.take(k as int + 1));
            lemma_u32s_enc_push(pre, mseq[k as int]);
            assert(out@ =~= mid + u32s_enc(mseq.take(k as int + 1)));
        }
        k = k + 1;
    }
    proof {
        assert(mseq.take(9) =~= mseq);
        assert(out@ =~= old(out)@ + joint_enc(j@));
    }
}

pub fn encode_feed(out: &mut Vec<u8>, f: &SkeletonFeed)
    ensures
        final(out)@ == old(out)@ + feed_enc(f@),
{
    push_i32_le(out, f.id);
    push_u64_le(out, f.joints.len() as u64);
    let ghost mid = out@;
    let ghost jseq = f.joints.deep_view();
    let mut k: usize = 0;
    while k < f.joints.len()
        invariant
            k <= f.joints.len(),
            jseq == f.joints.deep_view(),
            out@ == mid + joints_enc(jseq.take(k as int)),
        decreases f.joints.len() - k,
    {
        let ghost pre = jseq.take(k as int);
        encode_joint(out, &f.joints[k]);
        proof {
            assert(jseq[k as int] == f.joints[k as int]@);
            assert(pre.push(jseq[k as int]) =~= jseq.take(k as int + 1));
            lemma_joints_enc_push(pre, jseq[k as int]);
            assert(out@ =~= mid + joints_enc(jseq.take(k as int + 1)));
        }
        k = k + 1;
    }
    proof {
        assert(jseq.take(f.joints.len() as int) =~= jseq);
        assert(out@ =~= old(out)@ + feed_enc(f@));
    }
}

#[verifier::rlimit(50)]
pub fn encode_time_point(out: &mut Vec<u8>, t: &TimePoint)
    ensures
        final(out)@ == old(out)@ + time_point_enc(t@),
{
    push_u64_le(out, t.skeleton.len() as u64);
    let ghost mid1 = out@;
    let ghost fseq = t.skeleton.deep_view();
    let mut k: usize = 0;
    while k < t.skeleton.len()
        invariant
            k <= t.skeleton.len(),
            fseq == t.skeleton.deep_view(),
            out@ == mid1 + feeds_enc(fseq.take(k as int)),
        decreases t.skeleton.len() - k,
    {
        let ghost pre = fseq.take(k as int);
        encode_feed(out, &t.skeleton[k]);
        proof {
            assert(fseq[k as int] == t.skeleton[k as int]@);
            assert(pre.push(fseq[k as int]) =~= fseq.take(k as int + 1));
            lemma_feeds_enc_push(pre, fseq[k as int]);
            assert(out@ =~= mid1 + feeds_enc(fseq.take(k as int + 1)));
        }
        k = k + 1;
    }
    proof {
        assert(fseq.take(t.skeleton.len() as int) =~= fseq);
    }
    push_i32_le(out, t.rows);
    push_i32_le(out, t.cols);
    push_u64_le(out, t.depth.len() as u64);
    let ghost mid2 = out@;
    let ghost dseq = t.depth@;
    let mut k2: usize = 0;
    while k2 < t.depth.len()
        invariant
            k2 <= t.depth.len(),
            dseq == t.depth@,
            out@ == mid2 + u16s_enc(dseq.take(k2 as int)),
        decreases t.depth.len() - k2,
    {
        let ghost pre = dseq.take(k2 as int);
        push_u16_le(out, t.depth[k2]);
        proof {
            assert(pre.push(dseq[k2 as int]) =~= dseq.take(k2 as int + 1));
            lemma_u16s_enc_push(pre, dseq[k2 as int]);
            assert(out@ =~= mid2 + u16s_enc(dseq.take(k2 as int + 1)));
        }
        k2 = k2 + 1;
    }
    proof {
        assert(dseq.take(t.depth.len() as int) =~= dseq);
    }
    push_u64_le(out, t.color.len() as u64);
    let ghost mid3 = out@;
    let ghost cseq = t.color@;
    let mut k3: usize = 0;
    while k3 < t.color.len()
        invariant
            k3 <= t.color.len(),
            cseq == t.color@,
            out@ == mid3 + colors_enc(cseq.take(k3 as int)),
        decreases t.color.len() - k3,
    {
        let ghost pre = cseq.take(k3 as int);
        encode_color(out, &t.color[k3]);
        proof {
            assert(pre.push(cseq[k3 as int]) =~= cseq.take(k3 as int + 1));
            lemma_colors_enc_push(pre, cseq[k3 as int]);
            assert(out@ =~= mid3 + colors_enc(cseq.take(k3 as int + 1)));
        }
        k3 = k3 + 1;
    }
    proof {
        assert(cseq.take(t.color.len() as int) =~= cseq);
        let e1 = u64_le(t@.skeleton.len() as u64);
        let e2 = feeds_enc(t@.skeleton);
        let e3 = i32_le(t@.rows);
        let e4 = i32_le(t@.cols);
        let e5 = u64_le(t@.depth.len() as u64);
        let e6 = u16s_enc(t@.depth);
        let e7 = u64_le(t@.color.len() as u64);
        let e8 = colors_enc(t@.color);
        let base = old(out)@;
        assert((base + e1) + e2 =~= base + (e1 + e2));
        assert((base + (e1 + e2)) + e3 =~= base + ((e1 + e2) + e3));
        assert((base + ((e1 + e2) + e3)) + e4 =~= base + (((e1 + e2) + e3) + e4));
        assert((base + (((e1 + e2) + e3) + e4)) + e5 =~= base + ((((e1 + e2) + e3) + e4) + e5));
        assert((base + ((((e1 + e2) + e3) + e4) + e5)) + e6 =~= base + (((((e1 + e2) + e3) + e4)
            + e5) + e6));
        assert((base + (((((e1 + e2) + e3) + e4) + e5) + e6)) + e7 =~= base + ((((((e1 + e2) + e3)
            + e4) + e5) + e6) + e7));
        assert((base + ((((((e1 + e2) + e3) + e4) + e5) + e6) + e7)) + e8 =~= base + (((((((e1
            + e2) + e3) + e4) + e5) + e6) + e7) + e8));
        assert(out@ == base + time_point_enc(t@));
    }
}

// ---------------------------------------------------------------------
// Record layout: executable parsers
// ---------------------------------------------------------------------

pub fn read_color(bytes: &Vec<u8>, i: usize) -> (r: Option<(Color3, usize)>)
    requires
        i <= bytes@.len(),
    ensures
        match r {
            Some(p) => i <= p.1 <= bytes@.len() && parse_color(bytes@.skip(i as int)) == Some(
                (p.0, bytes@.skip(p.1 as int)),
            ),
            None => parse_color(bytes@.skip(i as int)) is None,
        },
{
    if bytes.len() - i >= 3 {
        let c = Color3 { red: bytes[i], green: bytes[i + 1], blue: bytes[i + 2] };
        proof {
            let s = bytes@.skip(i as int);
            assert(s[0] == bytes@[i as int]);
            assert(s[1] == bytes@[i as int + 1]);
            assert(s[2] == bytes@[i as int + 2]);
            assert(s.skip(3) =~= bytes@.skip(i as int + 3));
        }
        Some((c, i + 3))
    } else {
        None
    }
}

pub fn read_colors(bytes: &Vec<u8>, i: usize, n: u64) -> (r: Option<(Vec<Color3>, usize)>)
    requires
        i <= bytes@.len(),
    ensures
        match r {
            Some(p) => i <= p.1 <= bytes@.len() && p.0@.len() == n && parse_colors(
                bytes@.skip(i as int),
                n as nat,
            ) == Some((p.0@, bytes@.skip(p.1 as int))),
            None => parse_colors(bytes@.skip(i as int), n as nat) is None,
        },
{
    let mut acc: Vec<Color3> = Vec::new();
    let mut cur: usize = i;
    let mut k: u64 = 0;
    while k < n
        invariant
            i <= cur <= bytes@.len(),
            k <= n,
            acc@.len() == k,
            parse_colors(bytes@.skip(i as int), n as nat) == (match parse_colors(
                bytes@.skip(cur as int),
                (n - k) as nat,
            ) {
                Some(p) => Some((acc@ + p.0, p.1)),
                None => None::<(Seq<Color3>, Seq<u8>)>,
            }),
        decreases n - k,
    {
        let ghost accv = acc@;
        match read_color(bytes, cur) {
            Some((x, nx)) => {
                proof {
                    let m = (n - k) as nat;
                    match parse_colors(bytes@.skip(nx as int), (m - 1) as nat) {
                        Some(p) => {
                            assert(accv.push(x) + p.0 =~= accv + (seq![x] + p.0));
                        },
                        None => {},
                    }
                }
                acc.push(x);
                proof {
                    assert(acc@ =~= accv.push(x));
                }
                cur = nx;
                k = k + 1;
            },
            None => {
                return None;
            },
        }
    }
    proof {
        assert(acc@ + Seq::<Color3>::empty() =~= acc@);
    }
    Some((acc, cur))
}

pub fn read_u16s(bytes: &Vec<u8>, i: usize, n: u64) -> (r: Option<(Vec<u16>, usize)>)
    requires
        i <= bytes@.len(),
    ensures
        match r {
            Some(p) => i <= p.1 <= bytes@.len() && p.0@.len() == n && parse_u16s(
                bytes@.skip(i as int),
                n as nat,
            ) == Some((p.0@, bytes@.skip(p.1 as int))),
            None => parse_u16s(bytes@.skip(i as int), n as nat) is None,
        },
{
    let mut acc: Vec<u16> = Vec::new();
    let mut cur: usize = i;
    let mut k: u64 = 0;
    while k < n
        invariant
            i <= cur <= bytes@.len(),
            k <= n,
            acc@.len() == k,
            parse_u16s(bytes@.skip(i as int), n as nat) == (match parse_u16s(
                bytes@.skip(cur as int),
                (n - k) as nat,
            ) {
                Some(p) => Some((acc@ + p.0, p.1)),
                None => None::<(Seq<u16>, Seq<u8>)>,
            }),
        decreases n - k,
    {
        let ghost accv = acc@;
        match read_u16_le(bytes, cur) {
            Some((x, nx)) => {
                proof {
                    let m = (n - k) as nat;
                    match parse_u16s(bytes@.skip(nx as int), (m - 1) as nat) {
                        Some(p) => {
                            assert(accv.push(x) + p.0 =~= accv + (seq![x] + p.0));
                        },
                        None => {},
                    }
                }
                acc.push(x);
                proof {
                    assert(acc@ =~= accv.push(x));
                }
                cur = nx;
                k = k + 1;
            },
            None => {
                return None;
            },
        }
    }
    proof {
        assert(acc@ + Seq::<u16>::empty() =~= acc@);
    }
    Some((acc, cur))
}

pub fn read_u32s(bytes: &Vec<u8>, i: usize, n: u64) -> (r: Option<(Vec<u32>, usize)>)
    requires
        i <= bytes@.len(),
    ensures
        match r {
            Some(p) => i <= p.1 <= bytes@.len() && p.0@.len() == n && parse_u32s(
                bytes@.skip(i as int),
                n as nat,
            ) == Some((p.0@, bytes@.skip(p.1 as int))),
            None => parse_u32s(bytes@.skip(i as int), n as nat) is None,
        },
{
    let mut acc: Vec<u32> = Vec::new();
    let mut cur: usize = i;
    let mut k: u64 = 0;
    while k < n
        invariant
            i <= cur <= bytes@.len(),
            k <= n,
            acc@.len() == k,
            parse_u32s(bytes@.skip(i as int), n as nat) == (match parse_u32s(
                bytes@.skip(cur as int),
                (n - k) as nat,
            ) {
                Some(p) => Some((acc@ + p.0, p.1)),
                None => None::<(Seq<u32>, Seq<u8>)>,
            }),
        decreases n - k,
    {
        let ghost accv = acc@;
        match read_u32_le(bytes, cur) {
            Some((x, nx)) => {
                proof {
                    let m = (n - k) as nat;
                    match parse_u32s(bytes@.skip(nx as int), (m - 1) as nat) {
                        Some(p) => {
                            assert(accv.push(x) + p.0 =~= accv + (seq![x] + p.0));
                        },
                        None => {},
                    }
                }
                acc.push(x);
                proof {
                    assert(acc@ =~= accv.push(x));
                }
                cur = nx;
                k = k + 1;
            },
            None => {
                return None;
            },
        }
    }
    proof {
        assert(acc@ + Seq::<u32>::empty() =~= acc@);
    }
    Some((acc, cur))
}

pub fn read_vector3(bytes: &Vec<u8>, i: usize) -> (r: Option<(Vector3, usize)>)
    requires
        i <= bytes@.len(),
    ensures
        match r {
            Some(p) => i <= p.1 <= bytes@.len() && parse_vector3(bytes@.skip(i as int)) == Some(
                (p.0, bytes@.skip(p.1 as int)),
            ),
            None => parse_vector3(bytes@.skip(i as int)) is None,
        },
{
    let (x, i1) = match read_u32_le(bytes, i) {
        Some(p) => p,
        None => {
            return None;
        },
    };
    let (y, i2) = match read_u32_le(bytes, i1) {
        Some(p) => p,
        None => {
            return None;
        },
    };
    let (z, i3) = match read_u32_le(bytes, i2) {
        Some(p) => p,
        None => {
            return None;
        },
    };
    Some((Vector3 { x, y, z }, i3))
}

pub fn read_joint(bytes: &Vec<u8>, i: usize) -> (r: Option<(Joint, usize)>)
    requires
        i <= bytes@.len(),
    ensures
        match r {
            Some(p) => i <= p.1 <= bytes@.len() && parse_joint(bytes@.skip(i as int)) == Some(
                (p.0@, bytes@.skip(p.1 as int)),
            ),
            None => parse_joint(bytes@.skip(i as int)) is None,
        },
{
    let (type_, i1) = match read_u32_le(bytes, i) {
        Some(p) => p,
        None => {
            return None;
        },
    };
    let (confidence, i2) = match read_u32_le(bytes, i1) {
        Some(p) => p,
        None => {
            return None;
        },
    };
    let (rw, i3) = match read_vector3(bytes, i2) {
        Some(p) => p,
        None => {
            return None;
        },
    };
    let (pj, i4) = match read_vector3(bytes, i3) {
        Some(p) => p,
        None => {
            return None;
        },
    };
    let (ori, i5) = match read_u32s(bytes, i4, 9) {
        Some(p) => p,
        None => {
            return None;
        },
    };
    let m: [u32; 9] = [ori[0], ori[1], ori[2], ori[3], ori[4], ori[5], ori[6], ori[7], ori[8]];
    let j = Joint { type_, confidence, real: rw, proj: pj, orient: Orientation { matrix: m } };
    proof {
        assert(m@ =~= ori@);
    }
    Some((j, i5))
}

pub fn read_joints(bytes: &Vec<u8>, i: usize, n: u64) -> (r: Option<(Vec<Joint>, usize)>)
    requires
        i <= bytes@.len(),
    ensures
        match r {
            Some(p) => i <= p.1 <= bytes@.len() && p.0.deep_view().len() == n && parse_joints(
                bytes@.skip(i as int),
                n as nat,
            ) == Some((p.0.deep_view(), bytes@.skip(p.1 as int))),
            None => parse_joints(bytes@.skip(i as int), n as nat) is None,
        },
{
    let mut acc: Vec<Joint> = Vec::new();
    let mut cur: usize = i;
    let mut k: u64 = 0;
    while k < n
        invariant
            i <= cur <= bytes@.len(),
            k <= n,
            acc.deep_view().len() == k,
            parse_joints(bytes@.skip(i as int), n as nat) == (match parse_joints(
                bytes@.skip(cur as int),
                (n - k) as nat,
            ) {
                Some(p) => Some((acc.deep_view() + p.0, p.1)),
                None => None::<(Seq<JointV>, Seq<u8>)>,
            }),
        decreases n - k,
    {
        let ghost accv = acc.deep_view();
        match read_joint(bytes, cur) {
            Some((x, nx)) => {
                proof {
                    let m = (n - k) as nat;
                    match parse_joints(bytes@.skip(nx as int), (m - 1) as nat) {
                        Some(p) => {
                            assert(accv.push(x@) + p.0 =~= accv + (seq![x@] + p.0));
                        },
                        None => {},
                    }
                }
                acc.push(x);
                proof {
                    assert(acc.deep_view() =~= accv.push(x@));
                }
                cur = nx;
                k = k + 1;
            },
            None => {
                return None;
            },
        }
    }
    proof {
        assert(acc.deep_view() + Seq::<JointV>::empty() =~= acc.deep_view());
    }
    Some((acc, cur))
}

pub fn read_feed(bytes: &Vec<u8>, i: usize) -> (r: Option<(SkeletonFeed, usize)>)
    requires
        i <= bytes@.len(),
    ensures
        match r {
            Some(p) => i <= p.1 <= bytes@.len() && parse_feed(bytes@.skip(i as int)) == Some(
                (p.0@, bytes@.skip(p.1 as int)),
            ),
            None => parse_feed(bytes@.skip(i as int)) is None,
        },
{
    let (id, i1) = match read_i32_le(bytes, i) {
        Some(p) => p,
        None => {
            return None;
        },
    };
    let (n, i2) = match read_u64_le(bytes, i1) {
        Some(p) => p,
        None => {
            return None;
        },
    };
    let (joints, i3) = match read_joints(bytes, i2, n) {
        Some(p) => p,
        None => {
            return None;
        },
    };
    Some((SkeletonFeed { id, joints }, i3))
}

pub fn read_feeds(bytes: &Vec<u8>, i: usize, n: u64) -> (r: Option<(Vec<SkeletonFeed>, usize)>)
    requires
        i <= bytes@.len(),
    ensures
        match r {
            Some(p) => i <= p.1 <= bytes@.len() && p.0.deep_view().len() == n && parse_feeds(
                bytes@.skip(i as int),
                n as nat,
            ) == Some((p.0.deep_view(), bytes@.skip(p.1 as int))),
            None => parse_feeds(bytes@.skip(i as int), n as nat) is None,
        },
{
    let mut acc: Vec<SkeletonFeed> = Vec::new();
    let mut cur: usize = i;
    let mut k: u64 = 0;
    while k < n
        invariant
            i <= cur <= bytes@.len(),
            k <= n,
            acc.deep_view().len() == k,
            parse_feeds(bytes@.skip(i as int), n as nat) == (match parse_feeds(
                bytes@.skip(cur as int),
                (n - k) as nat,
            ) {
                Some(p) => Some((acc.deep_view() + p.0, p.1)),
                None => None::<(Seq<SkeletonFeedV>, Seq<u8>)>,
            }),
        decreases n - k,
    {
        let ghost accv = acc.deep_view();
        match read_feed(bytes, cur) {
            Some((x, nx)) => {
                proof {
                    let m = (n - k) as nat;
                    match parse_feeds(bytes@.skip(nx as int), (m - 1) as nat) {
                        Some(p) => {
                            assert(accv.push(x@) + p.0 =~= accv + (seq![x@] + p.0));
                        },
                        None => {},
                    }
                }
                acc.push(x);
                proof {
                    assert(acc.deep_view() =~= accv.push(x@));
                }
                cur = nx;
                k = k + 1;
            },
            None => {
                return None;
            },
        }
    }
    proof {
        assert(acc.deep_view() + Seq::<SkeletonFeedV>::empty() =~= acc.deep_view());
    }
    Some((acc, cur))
}

pub fn read_time_point(bytes: &Vec<u8>, i: usize) -> (r: Option<(TimePoint, usize)>)
    requires
        i <= bytes@.len(),
    ensures
        match r {
            Some(p) => i <= p.1 <= bytes@.len() && parse_time_point(bytes@.skip(i as int))
                == Some((p.0@, bytes@.skip(p.1 as int))),
            None => parse_time_point(bytes@.skip(i as int)) is None,
        },
{
    let (ns, i1) = match read_u64_le(bytes, i) {
        Some(p) => p,
        None => {
            return None;
        },
    };
    let (skeleton, i2) = match read_feeds(bytes, i1, ns) {
        Some(p) => p,
        None => {
            return None;
        },
    };
    let (rows, i3) = match read_i32_le(bytes, i2) {
        Some(p) => p,
        None => {
            return None;
        },
    };
    let (cols, i4) = match read_i32_le(bytes, i3) {
        Some(p) => p,
        None => {
            return None;
        },
    };
    let (nd, i5) = match read_u64_le(bytes, i4) {
        Some(p) => p,
        None => {
            return None;
        },
    };
    let (depth, i6) = match read_u16s(bytes, i5, nd) {
        Some(p) => p,
        None => {
            return None;
        },
    };
    let (nc, i7) = match read_u64_le(bytes, i6) {
        Some(p) => p,
        None => {
            return None;
        },
    };
    let (color, i8) = match read_colors(bytes, i7, nc) {
        Some(p) => p,
        None => {
            return None;
        },
    };
    Some((TimePoint { skeleton, rows, cols, depth, color }, i8))
}

} // verus!
