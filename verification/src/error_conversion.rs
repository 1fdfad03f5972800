//! The error/result bridge: interpreting the native layer's tagged
//! outcome values.
//!
//! Every native call reports a tagged union: a discriminant and one
//! meaningful payload.  `RawResult` carries such an outcome as plain
//! values, and `to_result` is the single place where one is interpreted;
//! no other code reads a native outcome directly.

use vstd::prelude::*;

use crate::data::SkeletonFeed;
use crate::errors::NuiError;

verus! {

/// Discriminant of a success without payload.
pub const EMPTY_TYPE: i32 = 0;

/// Discriminant of a success carrying a callback registration id.
pub const CALL_BACK_TYPE: i32 = 1;

/// Discriminant of a success carrying skeleton data.
pub const SKELETON_DATA_TYPE: i32 = 2;

/// The opaque registration id the native layer returns for a callback.
pub type CallBackId = u64;

/// A native call outcome as plain values: the discriminant and the
/// union's payloads.  Only the payload matching the tag is meaningful;
/// any tag beyond the three success discriminants is a failure carrying
/// the native error message.
pub struct RawResult {
    pub tag: i32,
    pub callback_id: u64,
    pub skeleton_data: Vec<SkeletonFeed>,
    pub error_msg: String,
}

/// The payload of a successful native outcome.
pub enum CData {
    SkeletonData(Vec<SkeletonFeed>),
    CallBackId(CallBackId),
    Empty,
}

/// A native outcome that can be interpreted as a typed result.
pub trait NuiResult: Sized {
    type Item;

    /// What the interpretation yields.
    spec fn spec_result(self) -> Result<Self::Item, NuiError>;

    /// Interpret the outcome.
    fn to_result(self) -> (r: Result<Self::Item, NuiError>)
        ensures
            r == self.spec_result(),
    ;
}

impl RawResult {
    /// Whether the native layer reported success.
    pub open spec fn is_success(self) -> bool {
        self.tag == EMPTY_TYPE || self.tag == CALL_BACK_TYPE || self.tag == SKELETON_DATA_TYPE
    }

    /// The failure a non-success outcome carries.
    pub open spec fn spec_error(self) -> NuiError
        recommends
            !self.is_success(),
    {
        NuiError::Failed(self.error_msg)
    }
}

impl NuiResult for RawResult {
    type Item = CData;

    open spec fn spec_result(self) -> Result<CData, NuiError> {
        if self.tag == EMPTY_TYPE {
            Ok(CData::Empty)
        } else if self.tag == CALL_BACK_TYPE {
            Ok(CData::CallBackId(self.callback_id))
        } else if self.tag == SKELETON_DATA_TYPE {
            Ok(CData::SkeletonData(self.skeleton_data))
        } else {
            Err(NuiError::Failed(self.error_msg))
        }
    }

    fn to_result(self) -> (r: Result<CData, NuiError>) {
        if self.tag == EMPTY_TYPE {
            Ok(CData::Empty)
        } else if self.tag == CALL_BACK_TYPE {
            Ok(CData::CallBackId(self.callback_id))
        } else if self.tag == SKELETON_DATA_TYPE {
            Ok(CData::SkeletonData(self.skeleton_data))
        } else {
            Err(NuiError::Failed(self.error_msg))
        }
    }
}

impl CData {
    /// The registration id a callback registration returned; only a
    /// `CallBackId` payload carries one.
    pub fn callback_id(self) -> (r: CallBackId)
        requires
            self is CallBackId,
        ensures
            self matches CData::CallBackId(id) ==> r == id,
    {
        match self {
            CData::CallBackId(id) => id,
            _ => vstd::pervasive::unreached(),
        }
    }
}

} // verus!
