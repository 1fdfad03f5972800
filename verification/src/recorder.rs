//! The recorder: a multi-channel aggregator for captured frames.
//!
//! One capture stream exists per frame kind.  For every tick the caller
//! collects one message from each stream and hands the batch to
//! `ingest`, which assembles them into a single aligned `TimePoint`.
//! Snapshots buffer in memory; once the buffer passes its threshold the
//! buffered run is encoded, compressed and appended to the output bytes,
//! which the caller drains to durable storage.

use vstd::prelude::*;

use crate::data::{Color3, SkeletonFeed, SkeletonFeedV, TimePoint, TimePointV};
use crate::errors::NuiError;
use crate::stream::{append_frames, frame_fits, parse_stream};

verus! {

/// The buffer flushes once it holds more than this many snapshots.
pub const BUFFER_SIZE: usize = 50;

/// One message of a capture stream: the payload of one frame kind for one
/// tick.
pub enum DataMsg {
    Skeleton(Vec<SkeletonFeed>),
    Depth(Vec<u16>),
    Color(Vec<Color3>),
    Size(i32, i32),
}

/// Mathematical mirror of `DataMsg`.
pub enum DataMsgV {
    Skeleton(Seq<SkeletonFeedV>),
    Depth(Seq<u16>),
    Color(Seq<Color3>),
    Size(i32, i32),
}

impl View for DataMsg {
    type V = DataMsgV;

    open spec fn view(&self) -> DataMsgV {
        match self {
            DataMsg::Skeleton(s) => DataMsgV::Skeleton(s.deep_view()),
            DataMsg::Depth(d) => DataMsgV::Depth(d@),
            DataMsg::Color(c) => DataMsgV::Color(c@),
            DataMsg::Size(r, c) => DataMsgV::Size(*r, *c),
        }
    }
}

impl DeepView for DataMsg {
    type V = DataMsgV;

    open spec fn deep_view(&self) -> DataMsgV {
        self.view()
    }
}

/// The last skeleton payload in a batch, if any: later messages of the
/// same kind overwrite earlier ones.
pub open spec fn last_skeleton(msgs: Seq<DataMsgV>) -> Option<Seq<SkeletonFeedV>>
    decreases msgs.len(),
{
    if msgs.len() == 0 {
        None
    } else {
        match msgs.last() {
            DataMsgV::Skeleton(s) => Some(s),
            _ => last_skeleton(msgs.drop_last()),
        }
    }
}

/// The last depth payload in a batch, if any.
pub open spec fn last_depth(msgs: Seq<DataMsgV>) -> Option<Seq<u16>>
    decreases msgs.len(),
{
    if msgs.len() == 0 {
        None
    } else {
        match msgs.last() {
            DataMsgV::Depth(d) => Some(d),
            _ => last_depth(msgs.drop_last()),
        }
    }
}

/// The last colour payload in a batch, if any.
pub open spec fn last_color(msgs: Seq<DataMsgV>) -> Option<Seq<Color3>>
    decreases msgs.len(),
{
    if msgs.len() == 0 {
        None
    } else {
        match msgs.last() {
            DataMsgV::Color(c) => Some(c),
            _ => last_color(msgs.drop_last()),
        }
    }
}

/// The last frame-size payload in a batch, if any.
pub open spec fn last_size(msgs: Seq<DataMsgV>) -> Option<(i32, i32)>
    decreases msgs.len(),
{
    if msgs.len() == 0 {
        None
    } else {
        match msgs.last() {
            DataMsgV::Size(r, c) => Some((r, c)),
            _ => last_size(msgs.drop_last()),
        }
    }
}

/// What a batch of capture messages assembles to: one snapshot holding
/// the last payload of every kind, or nothing if some kind never
/// reported.
pub open spec fn assemble_spec(msgs: Seq<DataMsgV>) -> Option<TimePointV> {
    match (last_skeleton(msgs), last_depth(msgs), last_color(msgs), last_size(msgs)) {
        (Some(skeleton), Some(depth), Some(color), Some(sz)) => Some(
            TimePointV { skeleton, rows: sz.0, cols: sz.1, depth, color },
        ),
        _ => None,
    }
}

/// Assemble one tick's batch of capture messages into a snapshot.
/// Succeeds exactly when every frame kind is present in the batch, taking
/// the last message of each kind.
pub fn assemble(msgs: Vec<DataMsg>) -> (r: Result<TimePoint, NuiError>)
    ensures
        match r {
            Ok(tp) => assemble_spec(msgs.deep_view()) == Some(tp@),
            Err(e) => assemble_spec(msgs.deep_view()) is None && e
                == NuiError::StreamDesynchronized,
        },
{
    let ghost mv = msgs.deep_view();
    proof {
        assert(mv.len() == msgs@.len());
        assert(msgs@.len() == msgs.len());
    }
    let mut skeleton: Option<Vec<SkeletonFeed>> = None;
    let mut depth: Option<Vec<u16>> = None;
    let mut color: Option<Vec<Color3>> = None;
    let mut size: Option<(i32, i32)> = None;
    let mut k: usize = 0;
    let mut rest = msgs;
    // Consume the batch front to back; the running options hold the last
    // payload of each kind seen so far.
    while rest.len() > 0
        invariant
            mv.len() <= usize::MAX,
            mv.len() == k + rest@.len(),
            forall|i: int| 0 <= i < rest@.len() ==> mv[k + i] == #[trigger] rest@[i]@,
            (match skeleton {
                Some(s) => last_skeleton(mv.take(k as int)) == Some(s.deep_view()),
                None => last_skeleton(mv.take(k as int)) is None,
            }),
            (match depth {
                Some(d) => last_depth(mv.take(k as int)) == Some(d@),
                None => last_depth(mv.take(k as int)) is None,
            }),
            (match color {
                Some(c) => last_color(mv.take(k as int)) == Some(c@),
                None => last_color(mv.take(k as int)) is None,
            }),
            (match size {
                Some(sz) => last_size(mv.take(k as int)) == Some((sz.0, sz.1)),
                None => last_size(mv.take(k as int)) is None,
            }),
        decreases rest@.len(),
    {
        let m = rest.remove(0);
        proof {
            assert(mv[k as int] == m@);
            assert(mv.take(k as int + 1).drop_last() =~= mv.take(k as int));
            assert(mv.take(k as int + 1).last() == mv[k as int]);
        }
        match m {
            DataMsg::Skeleton(s) => skeleton = Some(s),
            DataMsg::Depth(d) => depth = Some(d),
            DataMsg::Color(c) => color = Some(c),
            DataMsg::Size(r, c) => size = Some((r, c)),
        }
        k = k + 1;
    }
    proof {
        assert(mv.take(k as int) =~= mv);
    }
    match (skeleton, depth, color, size) {
        (Some(skeleton), Some(depth), Some(color), Some(sz)) => Ok(
            TimePoint { skeleton, rows: sz.0, cols: sz.1, depth, color },
        ),
        _ => Err(NuiError::StreamDesynchronized),
    }
}

/// The recorder's verified core: the in-memory snapshot buffer and the
/// encoded output bytes.  The channels that feed it and the file that
/// drains it live with the caller.
pub struct Recorder {
    /// Snapshots assembled but not yet written out.
    pub data: Vec<TimePoint>,
    /// Encoded, compressed frames awaiting the caller's storage.
    pub out: Vec<u8>,
    /// Every snapshot already written to `out`, in order.
    pub written: Ghost<Seq<TimePointV>>,
}

impl Recorder {
    /// The output bytes always parse back to exactly the written
    /// snapshots.
    pub open spec fn wf(self) -> bool {
        parse_stream(self.out@) == Some(self.written@)
    }

    /// A fresh recorder: empty buffer, no output.
    pub fn new() -> (r: Recorder)
        ensures
            r.wf(),
            r.data@.len() == 0,
            r.out@.len() == 0,
            r.written@ == Seq::<TimePointV>::empty(),
    {
        let r = Recorder { data: Vec::new(), out: Vec::new(), written: Ghost(Seq::empty()) };
        proof {
            assert(r.out@.len() == 0);
        }
        r
    }

    /// Unconditionally encode, compress and append every buffered
    /// snapshot to the output, clearing the buffer.  Fails only when a
    /// snapshot is so large that the compressor refuses its block; the
    /// recorder is then unchanged.
    pub fn flush(&mut self) -> (r: Result<(), NuiError>)
        requires
            old(self).wf(),
        ensures
            final(self).wf(),
            match r {
                Ok(()) => final(self).data@.len() == 0
                    && final(self).written@ == old(self).written@ + old(self).data.deep_view()
                    && final(self).out@.len() >= old(self).out@.len()
                    && final(self).out@.take(old(self).out@.len() as int) == old(self).out@
                    && (old(self).data@.len() == 0 ==> final(self).out@ == old(self).out@),
                Err(e) => final(self).data@ == old(self).data@ && final(self).out@ == old(
                    self,
                ).out@ && final(self).written@ == old(self).written@ && e
                    == NuiError::SerializationFailed && exists|i: int|
                    0 <= i < old(self).data.deep_view().len() && !frame_fits(
                        #[trigger] old(self).data.deep_view()[i],
                    ),
            },
    {
        let ghost outpre = self.out@;
        match append_frames(&mut self.out, &self.data) {
            Ok(()) => {
                proof {
                    crate::stream::lemma_parse_stream_append(
                        outpre,
                        self.out@.skip(outpre.len() as int),
                        self.written@,
                        self.data.deep_view(),
                    );
                    assert(outpre + self.out@.skip(outpre.len() as int) =~= self.out@);
                }
                self.written = Ghost(self.written@ + self.data.deep_view());
                self.data = Vec::new();
                Ok(())
            },
            Err(e) => Err(e),
        }
    }

    /// Take one tick's batch of capture messages.  If the buffer has
    /// passed its threshold, the buffered run is first written out; then
    /// the batch is assembled into one snapshot and buffered.  It fails
    /// with `StreamDesynchronized` exactly when the batch is missing a
    /// frame kind, and with `SerializationFailed` exactly when the
    /// threshold write was due and some buffered record exceeds the
    /// compressor's block limit — the recorder is then unchanged.  The
    /// output bytes only ever grow, and only when the threshold write
    /// ran.
    pub fn ingest(&mut self, msgs: Vec<DataMsg>) -> (r: Result<(), NuiError>)
        requires
            old(self).wf(),
        ensures
            final(self).wf(),
            ({
                let flushed = old(self).data@.len() > BUFFER_SIZE;
                let mid_data: Seq<TimePointV> = if flushed {
                    Seq::empty()
                } else {
                    old(self).data.deep_view()
                };
                let mid_written = if flushed {
                    old(self).written@ + old(self).data.deep_view()
                } else {
                    old(self).written@
                };
                let out_extended = final(self).out@.len() >= old(self).out@.len()
                    && final(self).out@.take(old(self).out@.len() as int) == old(self).out@
                    && (!flushed ==> final(self).out@ == old(self).out@);
                match r {
                    Ok(()) => assemble_spec(msgs.deep_view()) matches Some(tp)
                        && final(self).data.deep_view() == mid_data.push(tp)
                        && final(self).written@ == mid_written && out_extended,
                    Err(e) => (e == NuiError::StreamDesynchronized && assemble_spec(
                        msgs.deep_view(),
                    ) is None && final(self).data.deep_view() == mid_data
                        && final(self).written@ == mid_written && out_extended) || (e
                        == NuiError::SerializationFailed && flushed && (exists|i: int|
                        0 <= i < old(self).data.deep_view().len() && !frame_fits(
                            #[trigger] old(self).data.deep_view()[i],
                        )) && final(self).data@ == old(self).data@
                        && final(self).out@ == old(self).out@
                        && final(self).written@ == old(self).written@),
                }
            }),
    {
        let ghost outpre = self.out@;
        if self.data.len() > BUFFER_SIZE {
            match self.flush() {
                Ok(()) => (),
                Err(e) => {
                    return Err(e);
                },
            }
        }
        proof {
            assert(self.out@.take(outpre.len() as int) =~= outpre);
        }
        let ghost middata = self.data.deep_view();
        match assemble(msgs) {
            Ok(tp) => {
                self.data.push(tp);
                proof {
                    assert(self.data.deep_view() =~= middata.push(tp@));
                }
                Ok(())
            },
            Err(e) => Err(e),
        }
    }

    /// Hand the encoded output bytes to the caller for storage, leaving
    /// the output empty.  The buffer of unwritten snapshots stays.
    pub fn take_output(&mut self) -> (r: Vec<u8>)
        requires
            old(self).wf(),
        ensures
            final(self).wf(),
            r@ == old(self).out@,
            final(self).out@.len() == 0,
            final(self).written@ == Seq::<TimePointV>::empty(),
            final(self).data@ == old(self).data@,
            parse_stream(r@) == Some(old(self).written@),
    {
        let mut out: Vec<u8> = Vec::new();
        core::mem::swap(&mut out, &mut self.out);
        self.written = Ghost(Seq::empty());
        proof {
            assert(self.out@.len() == 0);
        }
        out
    }

    /// How many snapshots are buffered and not yet written.
    pub fn buffered(&self) -> (r: usize)
        ensures
            r == self.data@.len(),
    {
        self.data.len()
    }
}

} // verus!
