//! The player: pull-based replay of a decoded recording.
//!
//! A recording's snapshots are decoded eagerly into memory and replayed
//! at the caller's pace: each pull yields the next snapshot, cycling
//! forever when looping is on and exhausting silently when it is off.

use vstd::prelude::*;

use crate::data::{TimePoint, TimePointV};
use crate::errors::NuiError;
use crate::stream::{decode_stream, parse_stream};

verus! {

/// A decoded recording together with the replay position.
pub struct Content {
    /// Every snapshot of the recording, in order.
    pub data: Vec<TimePoint>,
    /// The index the next pull will yield.
    pub index: usize,
    /// Whether replay restarts from the first snapshot on exhaustion.
    pub looping: bool,
}

impl Content {
    /// The replay position stays inside the recording (or at its end,
    /// where a non-looping replay rests).
    pub open spec fn wf(self) -> bool {
        self.index <= self.data@.len() && (self.looping && self.data@.len() > 0 ==> self.index
            < self.data@.len())
    }

    /// Wrap decoded snapshots for replay.
    pub fn new(data: Vec<TimePoint>, looping: bool) -> (r: Content)
        ensures
            r.wf(),
            r.data@ == data@,
            r.index == 0,
            r.looping == looping,
    {
        Content { data, index: 0, looping }
    }

    /// The next snapshot of the replay, or nothing when a non-looping
    /// replay is exhausted (or the recording is empty).  A looping replay
    /// cycles: after the last snapshot comes the first again.
    pub fn next(&mut self) -> (r: Option<TimePoint>)
        requires
            old(self).wf(),
        ensures
            final(self).wf(),
            final(self).data@ == old(self).data@,
            final(self).looping == old(self).looping,
            ({
                let n = old(self).data@.len();
                let i = old(self).index;
                if i < n {
                    &&& r matches Some(tp)
                    &&& tp@ == old(self).data.deep_view()[i as int]
                    &&& final(self).index == (if old(self).looping && i + 1 == n {
                        0int
                    } else {
                        i + 1
                    })
                } else {
                    r is None && final(self).index == i
                }
            }),
    {
        if self.index < self.data.len() {
            let tp = self.data[self.index].clone();
            proof {
                assert(self.data.deep_view()[self.index as int] == self.data@[self.index as int]@);
            }
            if self.looping && self.index + 1 == self.data.len() {
                self.index = 0;
            } else {
                self.index = self.index + 1;
            }
            Some(tp)
        } else {
            None
        }
    }
}

/// Decode a recording's bytes and wrap them for replay.  Succeeds exactly
/// when the bytes parse as a stream of frames; the error names the stage
/// that refused.
pub fn read_in(bytes: Vec<u8>, loop_player: bool) -> (r: Result<Content, NuiError>)
    ensures
        match r {
            Ok(c) => parse_stream(bytes@) == Some(c.data.deep_view()) && c.wf() && c.index == 0
                && c.looping == loop_player,
            Err(e) => parse_stream(bytes@) is None && (e == NuiError::DecompressionFailed || e
                == NuiError::SerializationFailed),
        },
{
    match decode_stream(&bytes) {
        Ok(tps) => Ok(Content::new(tps, loop_player)),
        Err(e) => Err(e),
    }
}

} // verus!
