//! Typed session layer over a native motion-tracking middleware, with a
//! record/playback pipeline for captured frames.
//!
//! The session lifecycle is `Offline -> Initialized -> Running` (or
//! `Offline -> Player` for replay), encoded as move-only typed states:
//! only the operations legal in the current state exist on it.  Every
//! native call outcome enters the library as a plain tagged value
//! (`RawResult`) and is interpreted here; the caller performs the native
//! call itself and hands the outcome in.  The recorder assembles per-kind
//! capture streams into aligned snapshots and encodes them, compressed,
//! for durable storage; the player decodes such a stream and replays it.

use vstd::prelude::*;

pub mod codec;
pub mod compress;
mod data;
pub mod error_conversion;
mod errors;
pub mod joint_type;
pub mod lifecycle;
pub mod player;
pub mod recorder;
pub mod stream;

pub use data::{Color3, Joint, Orientation, SkeletonFeed, TimePoint, Vector3};
pub use error_conversion::{CData, CallBackId, NuiResult, RawResult};
pub use errors::NuiError;
pub use joint_type::JointType;
pub use player::Content;
pub use recorder::{DataMsg, Recorder};

use error_conversion::CALL_BACK_TYPE;

verus! {

/// Kinds of data stream a callback can bind to.
#[derive(Clone, Copy, Debug, PartialEq, Eq, Structural)]
pub enum CallBackType {
    Skeleton,
    Depth,
    Color,
}

/// One registered stream callback: its kind and the registration id the
/// native layer returned for it.  The session owns these so that the
/// registrations live exactly as long as it does.
#[derive(Clone, Copy, Debug, PartialEq, Eq, Structural)]
pub struct CallBackReg {
    pub kind: CallBackType,
    pub id: CallBackId,
}

/// A session state carried as a type parameter.
pub struct State<T> {
    phantom: core::marker::PhantomData<T>,
}

/// No native resources held.
pub struct Offline;

/// Native context allocated; callbacks may still be registered.  `armed`
/// records whether this value still owes the native release.
pub struct Initialized {
    pub armed: bool,
}

/// Callbacks fixed; periodic updates pull frames.  `armed` records
/// whether this value still owes the native release; a contained
/// callback panic discharges it early (see `Nui::note_released`).
pub struct Running {
    pub armed: bool,
}

/// Replay of a recording; no native resources.
pub struct Player {
    pub content: Content,
}

/// A tracking session in state `T`.  Sessions are move-only: a
/// transition consumes the old state's value, so a stale handle cannot be
/// used after the session has moved on.
pub struct Nui<T> {
    pub state: T,
    pub callbacks: Vec<CallBackReg>,
}

/// Interpret the native initialize outcome.  On success the session
/// enters `Initialized`, armed to release the native resources on
/// teardown; on failure the native error is returned.
pub fn init(outcome: RawResult) -> (r: Result<Nui<Initialized>, NuiError>)
    ensures
        outcome.is_success() ==> (r matches Ok(n) && n.state.armed && n.callbacks@.len() == 0),
        !outcome.is_success() ==> (r matches Err(e) && e == outcome.spec_error()),
{
    Nui::<Offline>::new(outcome)
}

/// A fresh recorder with an empty buffer and no output.
pub fn record() -> (r: Recorder)
    ensures
        r.wf(),
        r.data@.len() == 0,
        r.out@.len() == 0,
        r.written@ == Seq::<data::TimePointV>::empty(),
{
    Recorder::new()
}

/// Decode a recording and open a replay session over it.  Succeeds
/// exactly when the bytes parse as a stream of frames.
pub fn playback(bytes: Vec<u8>, loop_player: bool) -> (r: Result<Nui<Player>, NuiError>)
    ensures
        match r {
            Ok(n) => stream::parse_stream(bytes@) == Some(n.state.content.data.deep_view())
                && n.state.content.index == 0 && n.state.content.looping == loop_player
                && n.state.content.wf() && n.callbacks@.len() == 0,
            Err(e) => stream::parse_stream(bytes@) is None && (e == NuiError::DecompressionFailed
                || e == NuiError::SerializationFailed),
        },
{
    Nui::<Player>::new(bytes, loop_player)
}

impl Nui<Offline> {
    /// Interpret the native initialize outcome (see `init`).
    pub fn new(outcome: RawResult) -> (r: Result<Nui<Initialized>, NuiError>)
        ensures
            outcome.is_success() ==> (r matches Ok(n) && n.state.armed && n.callbacks@.len()
                == 0),
            !outcome.is_success() ==> (r matches Err(e) && e == outcome.spec_error()),
    {
        match outcome.to_result() {
            Ok(_) => Ok(Nui { state: Initialized { armed: true }, callbacks: Vec::new() }),
            Err(e) => Err(e),
        }
    }
}

impl Nui<Initialized> {
    /// Interpret a native callback-registration outcome: on a success
    /// carrying a registration id, store the handle of the given kind so
    /// that its lifetime matches the session's.  A success without an id
    /// is a payload of the wrong kind.
    fn register(&mut self, kind: CallBackType, outcome: RawResult) -> (r: Result<(), NuiError>)
        ensures
            final(self).state == old(self).state,
            match r {
                Ok(()) => outcome.tag == CALL_BACK_TYPE && final(self).callbacks@ == old(
                    self,
                ).callbacks@.push(CallBackReg { kind, id: outcome.callback_id }),
                Err(e) => final(self).callbacks@ == old(self).callbacks@ && ((outcome.is_success()
                    && outcome.tag != CALL_BACK_TYPE && e == NuiError::BadType) || (
                !outcome.is_success() && e == outcome.spec_error())),
            },
    {
        match outcome.to_result() {
            Ok(CData::CallBackId(id)) => {
                self.callbacks.push(CallBackReg { kind, id });
                Ok(())
            },
            Ok(_) => Err(NuiError::BadType),
            Err(e) => Err(e),
        }
    }

    /// Register a skeleton-stream callback from its native registration
    /// outcome.
    pub fn skeleton_data(&mut self, outcome: RawResult) -> (r: Result<(), NuiError>)
        ensures
            final(self).state == old(self).state,
            match r {
                Ok(()) => outcome.tag == CALL_BACK_TYPE && final(self).callbacks@ == old(
                    self,
                ).callbacks@.push(
                    CallBackReg { kind: CallBackType::Skeleton, id: outcome.callback_id },
                ),
                Err(e) => final(self).callbacks@ == old(self).callbacks@ && ((outcome.is_success()
                    && outcome.tag != CALL_BACK_TYPE && e == NuiError::BadType) || (
                !outcome.is_success() && e == outcome.spec_error())),
            },
    {
        self.register(CallBackType::Skeleton, outcome)
    }

    /// Register a depth-stream callback from its native registration
    /// outcome.
    pub fn depth_data(&mut self, outcome: RawResult) -> (r: Result<(), NuiError>)
        ensures
            final(self).state == old(self).state,
            match r {
                Ok(()) => outcome.tag == CALL_BACK_TYPE && final(self).callbacks@ == old(
                    self,
                ).callbacks@.push(
                    CallBackReg { kind: CallBackType::Depth, id: outcome.callback_id },
                ),
                Err(e) => final(self).callbacks@ == old(self).callbacks@ && ((outcome.is_success()
                    && outcome.tag != CALL_BACK_TYPE && e == NuiError::BadType) || (
                !outcome.is_success() && e == outcome.spec_error())),
            },
    {
        self.register(CallBackType::Depth, outcome)
    }

    /// Register a colour-stream callback from its native registration
    /// outcome.
    pub fn color_data(&mut self, outcome: RawResult) -> (r: Result<(), NuiError>)
        ensures
            final(self).state == old(self).state,
            match r {
                Ok(()) => outcome.tag == CALL_BACK_TYPE && final(self).callbacks@ == old(
                    self,
                ).callbacks@.push(
                    CallBackReg { kind: CallBackType::Color, id: outcome.callback_id },
                ),
                Err(e) => final(self).callbacks@ == old(self).callbacks@ && ((outcome.is_success()
                    && outcome.tag != CALL_BACK_TYPE && e == NuiError::BadType) || (
                !outcome.is_success() && e == outcome.spec_error())),
            },
    {
        self.register(CallBackType::Color, outcome)
    }

    /// Interpret the native outcome of setting the camera rotation;
    /// legal only before `run`.
    pub fn set_camera_rotation(&self, outcome: RawResult) -> (r: Result<(), NuiError>)
        ensures
            outcome.is_success() <==> r is Ok,
            !outcome.is_success() ==> (r matches Err(e) && e == outcome.spec_error()),
    {
        match outcome.to_result() {
            Ok(_) => Ok(()),
            Err(e) => Err(e),
        }
    }

    /// Interpret the native run outcome.  On success the session moves
    /// to `Running`, carrying its callbacks and its release obligation
    /// forward; on failure the `Initialized` value is handed back
    /// unchanged, so the obligation to release is not lost.
    pub fn run(self, outcome: RawResult) -> (r: Result<Nui<Running>, (Nui<Initialized>, NuiError)>)
        ensures
            outcome.is_success() ==> (r matches Ok(n) && n.state.armed == self.state.armed
                && n.callbacks@ == self.callbacks@),
            !outcome.is_success() ==> (r matches Err(p) && p.0.state == self.state
                && p.0.callbacks@ == self.callbacks@ && p.1 == outcome.spec_error()),
    {
        let armed = self.state.armed;
        match outcome.to_result() {
            Ok(_) => Ok(Nui { state: Running { armed }, callbacks: self.callbacks }),
            Err(e) => Err((self, e)),
        }
    }

    /// End the session without running.  Returns whether the native
    /// resources must now be released: exactly when the release
    /// obligation is still armed.
    pub fn teardown(self) -> (do_release: bool)
        ensures
            do_release == self.state.armed,
    {
        self.state.armed
    }
}

impl Nui<Running> {
    /// Interpret the native update outcome (one synchronous pull that
    /// fired all due callbacks on the native side).
    pub fn update(&self, outcome: RawResult) -> (r: Result<(), NuiError>)
        ensures
            outcome.is_success() <==> r is Ok,
            !outcome.is_success() ==> (r matches Err(e) && e == outcome.spec_error()),
    {
        match outcome.to_result() {
            Ok(_) => Ok(()),
            Err(e) => Err(e),
        }
    }

    /// Record that the native resources have already been released on
    /// this session's behalf (after a contained callback panic forced a
    /// release), so that teardown will not release them twice.
    pub fn note_released(&mut self)
        ensures
            !final(self).state.armed,
            final(self).callbacks@ == old(self).callbacks@,
    {
        self.state.armed = false;
    }

    /// End the session.  Returns whether the native resources must now
    /// be released: exactly when the release obligation is still armed.
    pub fn teardown(self) -> (do_release: bool)
        ensures
            do_release == self.state.armed,
    {
        self.state.armed
    }
}

impl Nui<Player> {
    /// Decode a recording and open a replay session over it (see
    /// `playback`).
    pub fn new(bytes: Vec<u8>, loop_player: bool) -> (r: Result<Nui<Player>, NuiError>)
        ensures
            match r {
                Ok(n) => stream::parse_stream(bytes@) == Some(n.state.content.data.deep_view())
                    && n.state.content.index == 0 && n.state.content.looping == loop_player
                    && n.state.content.wf() && n.callbacks@.len() == 0,
                Err(e) => stream::parse_stream(bytes@) is None && (e
                    == NuiError::DecompressionFailed || e == NuiError::SerializationFailed),
            },
    {
        match player::read_in(bytes, loop_player) {
            Ok(content) => Ok(Nui { state: Player { content }, callbacks: Vec::new() }),
            Err(e) => Err(e),
        }
    }

    /// Pull the next snapshot of the replay, exactly as live mode would
    /// deliver it: the next recorded tick, cycling when looping, nothing
    /// once a non-looping replay is exhausted.  Never fails; the caller
    /// dispatches the snapshot to its callbacks.
    pub fn update(&mut self) -> (r: Result<Option<TimePoint>, NuiError>)
        requires
            old(self).state.content.wf(),
        ensures
            final(self).state.content.wf(),
            final(self).callbacks@ == old(self).callbacks@,
            final(self).state.content.data@ == old(self).state.content.data@,
            final(self).state.content.looping == old(self).state.content.looping,
            ({
                let n = old(self).state.content.data@.len();
                let i = old(self).state.content.index;
                if i < n {
                    &&& r matches Ok(o)
                    &&& o matches Some(tp)
                    &&& tp@ == old(self).state.content.data.deep_view()[i as int]
                    &&& final(self).state.content.index == (if old(self).state.content.looping && i
                        + 1 == n {
                        0int
                    } else {
                        i + 1
                    })
                } else {
                    &&& r matches Ok(o)
                    &&& o is None
                    &&& final(self).state.content.index == i
                }
            }),
    {
        Ok(self.state.content.next())
    }
}

} // verus!
