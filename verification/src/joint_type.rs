//! A readable form of the joint type.

use vstd::prelude::*;

verus! {

/// A readable form of the joint type.
///
/// Can be converted from `u32` via the `from_u32` method.  `NoJoint`
/// stands for the middleware's zero value, an absent joint.
#[derive(Clone, Copy, Debug, PartialEq, Eq, Structural, Hash)]
pub enum JointType {
    NoJoint,
    Head,
    Neck,
    Torso,
    Waist,
    LeftCollar,
    LeftShoulder,
    LeftElbow,
    LeftWrist,
    LeftHand,
    LeftFingertip,
    RightCollar,
    RightShoulder,
    RightElbow,
    RightWrist,
    RightHand,
    RightFingertip,
    LeftHip,
    LeftKnee,
    LeftAnkle,
    LeftFoot,
    RightHip,
    RightKnee,
    RightAnkle,
    RightFoot,
}

/// The joint type the middleware's unsigned representation stands for:
/// the types in declaration order for 0 through 24, nothing beyond.
pub open spec fn spec_from_u32(u: u32) -> Option<JointType> {
    if u == 0 {
        Some(JointType::NoJoint)
    } else if u == 1 {
        Some(JointType::Head)
    } else if u == 2 {
        Some(JointType::Neck)
    } else if u == 3 {
        Some(JointType::Torso)
    } else if u == 4 {
        Some(JointType::Waist)
    } else if u == 5 {
        Some(JointType::LeftCollar)
    } else if u == 6 {
        Some(JointType::LeftShoulder)
    } else if u == 7 {
        Some(JointType::LeftElbow)
    } else if u == 8 {
        Some(JointType::LeftWrist)
    } else if u == 9 {
        Some(JointType::LeftHand)
    } else if u == 10 {
        Some(JointType::LeftFingertip)
    } else if u == 11 {
        Some(JointType::RightCollar)
    } else if u == 12 {
        Some(JointType::RightShoulder)
    } else if u == 13 {
        Some(JointType::RightElbow)
    } else if u == 14 {
        Some(JointType::RightWrist)
    } else if u == 15 {
        Some(JointType::RightHand)
    } else if u == 16 {
        Some(JointType::RightFingertip)
    } else if u == 17 {
        Some(JointType::LeftHip)
    } else if u == 18 {
        Some(JointType::LeftKnee)
    } else if u == 19 {
        Some(JointType::LeftAnkle)
    } else if u == 20 {
        Some(JointType::LeftFoot)
    } else if u == 21 {
        Some(JointType::RightHip)
    } else if u == 22 {
        Some(JointType::RightKnee)
    } else if u == 23 {
        Some(JointType::RightAnkle)
    } else if u == 24 {
        Some(JointType::RightFoot)
    } else {
        Option::None
    }
}

impl JointType {
    /// Convert from the middleware's unsigned integer representation.
    ///
    /// Returns nothing exactly when the integer matches no valid joint
    /// type, that is, beyond 24.
    pub fn from_u32(u: u32) -> (r: Option<Self>)
        ensures
            r == spec_from_u32(u),
            r is Some <==> u <= 24,
    {
        let ty = match u {
            0 => JointType::NoJoint,
            1 => JointType::Head,
            2 => JointType::Neck,
            3 => JointType::Torso,
            4 => JointType::Waist,
            5 => JointType::LeftCollar,
            6 => JointType::LeftShoulder,
            7 => JointType::LeftElbow,
            8 => JointType::LeftWrist,
            9 => JointType::LeftHand,
            10 => JointType::LeftFingertip,
            11 => JointType::RightCollar,
            12 => JointType::RightShoulder,
            13 => JointType::RightElbow,
            14 => JointType::RightWrist,
            15 => JointType::RightHand,
            16 => JointType::RightFingertip,
            17 => JointType::LeftHip,
            18 => JointType::LeftKnee,
            19 => JointType::LeftAnkle,
            20 => JointType::LeftFoot,
            21 => JointType::RightHip,
            22 => JointType::RightKnee,
            23 => JointType::RightAnkle,
            24 => JointType::RightFoot,
            _ => {
                return Option::None;
            },
        };
        Some(ty)
    }
}

} // verus!
