//! Framing of compressed snapshot records.
//!
//! A recording is a sequence of independently framed records: each frame
//! is a 64-bit little-endian length followed by that many bytes of one
//! Snappy block, which decompresses to one encoded snapshot.  Frames are
//! self-delimiting, so appending streams concatenates their records.

use vstd::prelude::*;

use crate::codec::{
    encode_time_point, lemma_u64_round_trip, parse_time_point, parse_u64, push_u64_le,
    read_time_point, read_u64_le, time_point_enc, u64_le,
};
use crate::compress::{compress_block, decompress_block, snap_compressible, snap_unblock};
use crate::data::{TimePoint, TimePointV, lemma_time_point_view_wf, wf_time_point};
use crate::errors::NuiError;

verus! {

/// A snapshot whose encoding the block compressor accepts.  Every frame
/// the recorder writes satisfies this; it fails only for records of
/// several gigabytes.
pub open spec fn frame_fits(t: TimePointV) -> bool {
    snap_compressible(time_point_enc(t))
}

/// Parse one frame: the block length, the block, its decompression, and
/// in it exactly one snapshot record.
pub open spec fn parse_frame(s: Seq<u8>) -> Option<(TimePointV, Seq<u8>)> {
    match parse_u64(s) {
        Some((n, r)) => if r.len() >= n {
            match snap_unblock(r.take(n as int)) {
                Some(raw) => match parse_time_point(raw) {
                    Some((t, rem)) => if rem.len() == 0 {
                        Some((t, r.skip(n as int)))
                    } else {
                        None
                    },
                    None => None,
                },
                None => None,
            }
        } else {
            None
        },
        None => None,
    }
}

/// Parse a whole stream of frames, to its end.
pub open spec fn parse_stream(s: Seq<u8>) -> Option<Seq<TimePointV>>
    decreases s.len(),
{
    if s.len() == 0 {
        Some(Seq::empty())
    } else {
        match parse_frame(s) {
            Some((t, r)) => if r.len() < s.len() {
                match parse_stream(r) {
                    Some(ts) => Some(seq![t] + ts),
                    None => None,
                }
            } else {
                None
            },
            None => None,
        }
    }
}

/// A frame's remainder is a proper suffix: at least the eight length
/// bytes are consumed.
pub proof fn lemma_parse_frame_shrinks(s: Seq<u8>, t: TimePointV, r: Seq<u8>)
    requires
        parse_frame(s) == Some((t, r)),
    ensures
        r.len() + 8 <= s.len(),
{
    let p = parse_u64(s);
    assert(p is Some);
    let q = p->0;
    let n = q.0;
    assert(q.1 == s.skip(8));
    assert(r == s.skip(8).skip(n as int));
}

/// What one frame parses to is unchanged by whatever follows it.
pub proof fn lemma_parse_frame_extend(a: Seq<u8>, b: Seq<u8>, t: TimePointV, r: Seq<u8>)
    requires
        parse_frame(a) == Some((t, r)),
    ensures
        parse_frame(a + b) == Some((t, r + b)),
{
    let s = a + b;
    assert(a.len() >= 8);
    assert(s.len() >= 8);
    assert forall|k: int| 0 <= k < 8 implies s[k] == a[k] by {}
    let qa = parse_u64(a)->0;
    let n = qa.0;
    let qs = parse_u64(s)->0;
    assert(qs.0 == n);
    assert(qs.1 == s.skip(8));
    let ra = a.skip(8);
    let rs = s.skip(8);
    assert(rs =~= ra + b);
    assert(ra.len() >= n);
    assert(rs.len() >= n);
    assert(rs.take(n as int) =~= ra.take(n as int));
    assert(rs.skip(n as int) =~= ra.skip(n as int) + b);
    assert(r == ra.skip(n as int));
}

/// Streams concatenate: parsing the concatenation of two parseable
/// streams yields the records of the first, then those of the second.
pub proof fn lemma_parse_stream_append(a: Seq<u8>, b: Seq<u8>, ta: Seq<TimePointV>, tb: Seq<
    TimePointV,
>)
    requires
        parse_stream(a) == Some(ta),
        parse_stream(b) == Some(tb),
    ensures
        parse_stream(a + b) == Some(ta + tb),
    decreases a.len(),
{
    if a.len() == 0 {
        assert(a + b =~= b);
        assert(ta =~= Seq::<TimePointV>::empty());
        assert(ta + tb =~= tb);
    } else {
        let pf = parse_frame(a);
        assert(pf is Some);
        let q = pf->0;
        let t = q.0;
        let r = q.1;
        lemma_parse_frame_shrinks(a, t, r);
        let ts = parse_stream(r)->0;
        assert(ta == seq![t] + ts);
        lemma_parse_frame_extend(a, b, t, r);
        lemma_parse_stream_append(r, b, ts, tb);
        if (a + b).len() == 0 {
            assert(false);
        }
        assert((r + b).len() < (a + b).len());
        assert(parse_stream(a + b) == Some(seq![t] + (ts + tb)));
        assert(seq![t] + (ts + tb) =~= (seq![t] + ts) + tb);
    }
}

/// One frame built from a compressed block that decompresses to exactly
/// one well-formed record parses as that single record.
pub proof fn lemma_single_frame_stream(c: Seq<u8>, t: TimePointV)
    requires
        c.len() <= u64::MAX,
        snap_unblock(c) == Some(time_point_enc(t)),
        wf_time_point(t),
    ensures
        parse_stream(u64_le(c.len() as u64) + c) == Some(seq![t]),
{
    let s = u64_le(c.len() as u64) + c;
    lemma_u64_round_trip(c.len() as u64, c);
    assert(parse_u64(s) == Some((c.len() as u64, c)));
    assert(c.take(c.len() as int) =~= c);
    crate::codec::lemma_time_point_round_trip(t, Seq::empty());
    assert(time_point_enc(t) + Seq::<u8>::empty() =~= time_point_enc(t));
    assert(parse_time_point(time_point_enc(t)) == Some((t, Seq::<u8>::empty())));
    assert(c.skip(c.len() as int) =~= Seq::<u8>::empty());
    assert(parse_frame(s) == Some((t, Seq::<u8>::empty())));
    assert(s.len() >= 8);
    assert(parse_stream(Seq::<u8>::empty()) == Some(Seq::<TimePointV>::empty()));
    assert(parse_stream(s) == Some(seq![t] + Seq::<TimePointV>::empty()));
    assert(seq![t] + Seq::<TimePointV>::empty() =~= seq![t]);
}

/// The frames of a recording: one length-prefixed block per record.
pub open spec fn frames_of(cs: Seq<Seq<u8>>) -> Seq<u8>
    decreases cs.len(),
{
    if cs.len() == 0 {
        Seq::empty()
    } else {
        (u64_le(cs[0].len() as u64) + cs[0]) + frames_of(cs.skip(1))
    }
}

/// Helper for the recording round trip: if every frame alone parses as
/// its single record, the concatenation parses as the record sequence.
proof fn lemma_frames_parse(cs: Seq<Seq<u8>>, ts: Seq<TimePointV>)
    requires
        cs.len() == ts.len(),
        forall|i: int|
            0 <= i < cs.len() ==> parse_stream(
                u64_le((#[trigger] cs[i]).len() as u64) + cs[i],
            ) == Some(seq![#[trigger] ts[i]]),
    ensures
        parse_stream(frames_of(cs)) == Some(ts),
    decreases cs.len(),
{
    if cs.len() == 0 {
        assert(ts =~= Seq::<TimePointV>::empty());
    } else {
        let frame = u64_le(cs[0].len() as u64) + cs[0];
        assert forall|i: int| 0 <= i < cs.skip(1).len() implies parse_stream(
            u64_le((#[trigger] cs.skip(1)[i]).len() as u64) + cs.skip(1)[i],
        ) == Some(seq![#[trigger] ts.skip(1)[i]]) by {
            assert(cs.skip(1)[i] == cs[i + 1]);
            assert(ts.skip(1)[i] == ts[i + 1]);
        }
        lemma_frames_parse(cs.skip(1), ts.skip(1));
        lemma_parse_stream_append(frame, frames_of(cs.skip(1)), seq![ts[0]], ts.skip(1));
        assert(frames_of(cs) == frame + frames_of(cs.skip(1)));
        assert(seq![ts[0]] + ts.skip(1) =~= ts);
    }
}

/// Round trip of a whole recording: frames built from blocks that
/// decompress to the records' encodings parse back to exactly those
/// records, in order.
pub proof fn lemma_recording_round_trip(cs: Seq<Seq<u8>>, ts: Seq<TimePointV>)
    requires
        cs.len() == ts.len(),
        forall|i: int|
            0 <= i < cs.len() ==> (#[trigger] cs[i]).len() <= u64::MAX && snap_unblock(cs[i])
                == Some(time_point_enc(#[trigger] ts[i])) && wf_time_point(ts[i]),
    ensures
        parse_stream(frames_of(cs)) == Some(ts),
{
    assert forall|i: int| 0 <= i < cs.len() implies parse_stream(
        u64_le((#[trigger] cs[i]).len() as u64) + cs[i],
    ) == Some(seq![#[trigger] ts[i]]) by {
        lemma_single_frame_stream(cs[i], ts[i]);
    }
    lemma_frames_parse(cs, ts);
}

/// Copy `len` bytes of `bytes` starting at `start` into a fresh vector.
fn copy_range(bytes: &Vec<u8>, start: usize, len: usize) -> (r: Vec<u8>)
    requires
        start + len <= bytes@.len(),
    ensures
        r@ == bytes@.subrange(start as int, start as int + len as int),
{
    let mut r: Vec<u8> = Vec::new();
    let mut k: usize = 0;
    while k < len
        invariant
            k <= len,
            start + len <= bytes@.len(),
            r@ == bytes@.subrange(start as int, start as int + k as int),
        decreases len - k,
    {
        proof {
            assert(bytes@.len() == bytes.len());
        }
        r.push(bytes[start + k]);
        proof {
            assert(r@ =~= bytes@.subrange(start as int, start as int + k as int + 1));
        }
        k = k + 1;
    }
    r
}

/// Encode, compress and frame every snapshot of `tps`, appending the
/// frames to `out`.  On success the appended bytes parse back to exactly
/// the given snapshots, in order; on failure (a record so large that the
/// compressor refuses its block) `out` is unchanged.
#[verifier::rlimit(50)]
pub fn append_frames(out: &mut Vec<u8>, tps: &Vec<TimePoint>) -> (r: Result<(), NuiError>)
    ensures
        match r {
            Ok(()) => final(out)@.len() >= old(out)@.len() && final(out)@.take(
                old(out)@.len() as int,
            ) == old(out)@ && parse_stream(final(out)@.skip(old(out)@.len() as int)) == Some(
                tps.deep_view(),
            ) && (tps@.len() == 0 ==> final(out)@ == old(out)@),
            Err(e) => final(out)@ == old(out)@ && e == NuiError::SerializationFailed && exists|
                i: int,
            |
                0 <= i < tps.deep_view().len() && !frame_fits(#[trigger] tps.deep_view()[i]),
        },
{
    let ghost tv = tps.deep_view();
    let mut seg: Vec<u8> = Vec::new();
    let mut k: usize = 0;
    proof {
        assert(tv.take(0) =~= Seq::<TimePointV>::empty());
    }
    while k < tps.len()
        invariant
            k <= tps.len(),
            tv == tps.deep_view(),
            parse_stream(seg@) == Some(tv.take(k as int)),
            k == 0 ==> seg@ == Seq::<u8>::empty(),
        decreases tps.len() - k,
    {
        let mut raw: Vec<u8> = Vec::new();
        encode_time_point(&mut raw, &tps[k]);
        proof {
            assert(raw@ =~= time_point_enc(tps[k as int]@));
            assert(tv[k as int] == tps[k as int]@);
        }
        let c = match compress_block(&raw) {
            Ok(c) => c,
            Err(e) => {
                proof {
                    assert(!frame_fits(tv[k as int]));
                }
                return Err(e);
            },
        };
        let ghost cv = c@;
        let ghost segpre = seg@;
        let clen = c.len();
        push_u64_le(&mut seg, clen as u64);
        let mut cmoved = c;
        seg.append(&mut cmoved);
        proof {
            let frame = u64_le(cv.len() as u64) + cv;
            assert(seg@ =~= segpre + frame);
            lemma_time_point_view_wf(&tps[k as int]);
            lemma_single_frame_stream(cv, tv[k as int]);
            lemma_parse_stream_append(segpre, frame, tv.take(k as int), seq![tv[k as int]]);
            assert(tv.take(k as int) + seq![tv[k as int]] =~= tv.take(k as int + 1));
        }
        k = k + 1;
    }
    proof {
        assert(tv.take(tps.len() as int) =~= tv);
    }
    let ghost outpre = out@;
    let ghost segv = seg@;
    let mut segmoved = seg;
    out.append(&mut segmoved);
    proof {
        assert(out@.take(outpre.len() as int) =~= outpre);
        assert(out@.skip(outpre.len() as int) =~= segv);
        if tps@.len() == 0 {
            assert(out@ =~= outpre);
        }
    }
    Ok(())
}

/// Decode a whole recording: parse frame after frame until the bytes are
/// exhausted.  The result is exactly what `parse_stream` yields; a failure
/// names the stage that refused (a bad block, or a bad record inside one).
pub fn decode_stream(bytes: &Vec<u8>) -> (r: Result<Vec<TimePoint>, NuiError>)
    ensures
        match r {
            Ok(tps) => parse_stream(bytes@) == Some(tps.deep_view()),
            Err(e) => parse_stream(bytes@) is None && (e == NuiError::DecompressionFailed || e
                == NuiError::SerializationFailed),
        },
{
    let mut acc: Vec<TimePoint> = Vec::new();
    let mut i: usize = 0;
    proof {
        assert(bytes@.skip(0) =~= bytes@);
        assert(acc.deep_view() =~= Seq::<TimePointV>::empty());
        match parse_stream(bytes@) {
            Some(ts) => {
                assert(acc.deep_view() + ts =~= ts);
            },
            None => {},
        }
    }
    while i < bytes.len()
        invariant
            i <= bytes@.len(),
            parse_stream(bytes@) == (match parse_stream(bytes@.skip(i as int)) {
                Some(ts) => Some(acc.deep_view() + ts),
                None => None::<Seq<TimePointV>>,
            }),
        decreases bytes@.len() - i,
    {
        let ghost accv = acc.deep_view();
        let ghost scur = bytes@.skip(i as int);
        let (n, j) = match read_u64_le(bytes, i) {
            Some(p) => p,
            None => {
                return Err(NuiError::SerializationFailed);
            },
        };
        if n > (bytes.len() - j) as u64 {
            proof {
                assert(bytes@.skip(j as int).len() < n);
                assert(parse_frame(scur) is None);
            }
            return Err(NuiError::SerializationFailed);
        }
        let nu: usize = n as usize;
        let block = copy_range(bytes, j, nu);
        proof {
            assert(block@ =~= bytes@.skip(j as int).take(n as int));
        }
        let raw = match decompress_block(&block) {
            Ok(raw) => raw,
            Err(e) => {
                proof {
                    assert(parse_frame(scur) is None);
                }
                return Err(e);
            },
        };
        let (tp, used) = match read_time_point(&raw, 0) {
            Some(p) => p,
            None => {
                proof {
                    assert(raw@.skip(0) =~= raw@);
                    assert(parse_frame(scur) is None);
                }
                return Err(NuiError::SerializationFailed);
            },
        };
        if used != raw.len() {
            proof {
                assert(raw@.skip(0) =~= raw@);
                assert(raw@.skip(used as int).len() != 0);
                assert(parse_frame(scur) is None);
            }
            return Err(NuiError::SerializationFailed);
        }
        let inext: usize = j + nu;
        proof {
            assert(raw@.skip(0) =~= raw@);
            assert(raw@.skip(used as int).len() == 0);
            assert(raw@.skip(used as int) =~= Seq::<u8>::empty());
            assert(parse_time_point(raw@) == Some((tp@, Seq::<u8>::empty())));
            assert(bytes@.skip(j as int).skip(n as int) =~= bytes@.skip(inext as int));
            assert(parse_frame(scur) == Some((tp@, bytes@.skip(inext as int))));
            assert(scur.len() != 0);
            match parse_stream(bytes@.skip(inext as int)) {
                Some(ts) => {
                    assert(accv.push(tp@) + ts =~= accv + (seq![tp@] + ts));
                },
                None => {},
            }
        }
        acc.push(tp);
        proof {
            assert(acc.deep_view() =~= accv.push(tp@));
        }
        i = inext;
    }
    proof {
        assert(bytes@.skip(i as int).len() == 0);
        assert(parse_stream(bytes@.skip(i as int)) == Some(Seq::<TimePointV>::empty()));
        assert(acc.deep_view() + Seq::<TimePointV>::empty() =~= acc.deep_view());
    }
    Ok(acc)
}

} // verus!
