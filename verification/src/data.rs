//! Owned, serializable frame data.
//!
//! Live mode hands frames out as borrowed views over foreign memory; the
//! types here are the owned copies that survive past a callback and are
//! what the recorder stores and the player replays.  Floating-point joint
//! fields are carried as their IEEE-754 bit patterns, so a recorded value
//! replays bit-for-bit.

use vstd::prelude::*;

verus! {

/// One colour sample of the RGB feed.
#[derive(Clone, Copy, Debug, PartialEq, Eq, Structural)]
pub struct Color3 {
    pub red: u8,
    pub green: u8,
    pub blue: u8,
}

/// A 3-D position; each coordinate is the bit pattern of an IEEE-754
/// single-precision number.
#[derive(Clone, Copy, Debug, PartialEq, Eq, Structural)]
pub struct Vector3 {
    pub x: u32,
    pub y: u32,
    pub z: u32,
}

/// A flattened 3x3 rotation matrix; each entry is the bit pattern of an
/// IEEE-754 single-precision number.
#[derive(Clone, Copy, Debug, PartialEq, Eq)]
pub struct Orientation {
    pub matrix: [u32; 9],
}

/// An owned copy of one tracked joint.
#[derive(Clone, Copy, Debug, PartialEq, Eq)]
pub struct Joint {
    /// The joint kind, in the middleware's unsigned representation
    /// (see `JointType::from_u32`).
    pub type_: u32,
    /// Tracking confidence, as an IEEE-754 single-precision bit pattern.
    pub confidence: u32,
    /// Position in real-world coordinates.
    pub real: Vector3,
    /// Position in normalized projective coordinates.
    pub proj: Vector3,
    /// Joint orientation.
    pub orient: Orientation,
}

/// An owned copy of one skeleton: its id and its joint array.
#[derive(Debug, PartialEq, Eq)]
pub struct SkeletonFeed {
    pub id: i32,
    pub joints: Vec<Joint>,
}

/// One aligned snapshot of every stream for a single tick: the skeleton
/// feeds, the frame dimensions, the depth plane and the colour plane, all
/// captured from the same tick and fully owned.
#[derive(Debug, PartialEq, Eq)]
pub struct TimePoint {
    pub skeleton: Vec<SkeletonFeed>,
    pub rows: i32,
    pub cols: i32,
    pub depth: Vec<u16>,
    pub color: Vec<Color3>,
}

/// Mathematical mirror of `Joint`: the orientation matrix as a sequence.
pub struct JointV {
    pub type_: u32,
    pub confidence: u32,
    pub real: Vector3,
    pub proj: Vector3,
    pub orient: Seq<u32>,
}

/// Mathematical mirror of `SkeletonFeed`.
pub struct SkeletonFeedV {
    pub id: i32,
    pub joints: Seq<JointV>,
}

/// Mathematical mirror of `TimePoint`.
pub struct TimePointV {
    pub skeleton: Seq<SkeletonFeedV>,
    pub rows: i32,
    pub cols: i32,
    pub depth: Seq<u16>,
    pub color: Seq<Color3>,
}

impl View for Color3 {
    type V = Color3;

    open spec fn view(&self) -> Color3 {
        *self
    }
}

impl DeepView for Color3 {
    type V = Color3;

    open spec fn deep_view(&self) -> Color3 {
        *self
    }
}

impl View for Vector3 {
    type V = Vector3;

    open spec fn view(&self) -> Vector3 {
        *self
    }
}

impl DeepView for Vector3 {
    type V = Vector3;

    open spec fn deep_view(&self) -> Vector3 {
        *self
    }
}

impl View for Joint {
    type V = JointV;

    open spec fn view(&self) -> JointV {
        JointV {
            type_: self.type_,
            confidence: self.confidence,
            real: self.real,
            proj: self.proj,
            orient: self.orient.matrix@,
        }
    }
}

impl DeepView for Joint {
    type V = JointV;

    open spec fn deep_view(&self) -> JointV {
        self.view()
    }
}

impl View for SkeletonFeed {
    type V = SkeletonFeedV;

    open spec fn view(&self) -> SkeletonFeedV {
        SkeletonFeedV { id: self.id, joints: self.joints.deep_view() }
    }
}

impl DeepView for SkeletonFeed {
    type V = SkeletonFeedV;

    open spec fn deep_view(&self) -> SkeletonFeedV {
        self.view()
    }
}

impl View for TimePoint {
    type V = TimePointV;

    open spec fn view(&self) -> TimePointV {
        TimePointV {
            skeleton: self.skeleton.deep_view(),
            rows: self.rows,
            cols: self.cols,
            depth: self.depth@,
            color: self.color@,
        }
    }
}

impl DeepView for TimePoint {
    type V = TimePointV;

    open spec fn deep_view(&self) -> TimePointV {
        self.view()
    }
}

impl Clone for SkeletonFeed {
    fn clone(&self) -> (r: Self)
        ensures
            r@ == self@,
    {
        SkeletonFeed { id: self.id, joints: self.joints.clone() }
    }
}

impl Clone for TimePoint {
    fn clone(&self) -> (r: Self)
        ensures
            r@ == self@,
    {
        TimePoint {
            skeleton: self.skeleton.clone(),
            rows: self.rows,
            cols: self.cols,
            depth: self.depth.clone(),
            color: self.color.clone(),
        }
    }
}

/// A joint mirror is well formed when its orientation matrix has exactly
/// the nine entries of a flattened 3x3 matrix.  Views of executable values
/// always are; the predicate matters for statements over arbitrary mirrors.
pub open spec fn wf_joint(j: JointV) -> bool {
    j.orient.len() == 9
}

/// A skeleton mirror is well formed when each joint is and the joint count
/// fits the on-disk count field.
pub open spec fn wf_skeleton_feed(f: SkeletonFeedV) -> bool {
    &&& f.joints.len() <= u64::MAX
    &&& forall|i: int| 0 <= i < f.joints.len() ==> wf_joint(#[trigger] f.joints[i])
}

/// A snapshot mirror is well formed when each skeleton is and every count
/// fits its on-disk count field.
pub open spec fn wf_time_point(t: TimePointV) -> bool {
    &&& t.skeleton.len() <= u64::MAX
    &&& t.depth.len() <= u64::MAX
    &&& t.color.len() <= u64::MAX
    &&& forall|i: int| 0 <= i < t.skeleton.len() ==> wf_skeleton_feed(#[trigger] t.skeleton[i])
}

/// The view of an executable snapshot is always well formed: vector
/// lengths are machine-bounded and the orientation matrix is a fixed
/// nine-entry array.
pub proof fn lemma_time_point_view_wf(t: &TimePoint)
    ensures
        wf_time_point(t@),
{
    assert(t.skeleton.len() == t@.skeleton.len());
    assert(t.depth.len() == t@.depth.len());
    assert(t.color.len() == t@.color.len());
    assert forall|i: int| 0 <= i < t@.skeleton.len() implies wf_skeleton_feed(
        #[trigger] t@.skeleton[i],
    ) by {
        let f = t.skeleton@[i];
        assert(t@.skeleton[i] == f@);
        assert(f.joints.len() == f@.joints.len());
        assert forall|k: int| 0 <= k < f@.joints.len() implies wf_joint(#[trigger] f@.joints[k]) by {
            let j = f.joints@[k];
            assert(f@.joints[k] == j@);
            assert(j.orient.matrix@.len() == 9);
        }
    }
}

} // verus!
