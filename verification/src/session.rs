//! One request's decode as a state machine: the decisions of the
//! worker loop, separated from the filesystem and decoder calls whose
//! outcomes feed it. Whatever those outcomes are, the emitted run
//! obeys the result protocol.

use vstd::prelude::*;
use crate::events::{FileMeta, FrameOutcome, LoadResult, RgbaBuffer};
use crate::protocol::{all_for, complete_run, open_run};
use crate::sniff::{is_gif_signature, sniff_format, FormatClass};

verus! {

/// Nanosecond frame delay from a format's millisecond fraction;
/// a zero denominator is taken as no delay.
pub open spec fn delay_nanos(numer_ms: u32, denom_ms: u32) -> u64 {
    if denom_ms == 0 {
        0
    } else {
        ((numer_ms as int) * 1_000_000 / (denom_ms as int)) as u64
    }
}

/// The nanosecond delay of one frame: `numer_ms * 1_000_000 /
/// denom_ms`, integer division, and zero for a zero denominator.
pub fn frame_delay_nanos(numer_ms: u32, denom_ms: u32) -> (d: u64)
    ensures
        d == delay_nanos(numer_ms, denom_ms),
{
    if denom_ms == 0 {
        0
    } else {
        ((numer_ms as u64) * 1_000_000) / (denom_ms as u64)
    }
}

/// Where one request's decode stands.
#[derive(Clone, Copy, PartialEq, Eq, Structural, Debug)]
pub enum Phase {
    /// Created; nothing emitted yet.
    Fresh,
    /// `Start` emitted; frames may follow.
    Started,
    /// A terminal event emitted; the run is closed.
    Finished,
}

/// Which decode path the worker must take after `begin`.
#[derive(Clone, Copy, PartialEq, Eq, Structural, Debug)]
pub enum DecodePath {
    /// Metadata failed: the run is already closed, decode nothing.
    Aborted,
    /// Stream frames through the animated decoder.
    Animated,
    /// Decode the whole file as one image.
    SingleFrame,
}

/// The single event a frame outcome publishes: the decoded frame with
/// its delay, or the failure that closes the run.
pub open spec fn frame_event(req_id: u32, outcome: FrameOutcome) -> LoadResult {
    match outcome {
        FrameOutcome::Decoded { image, numer_ms, denom_ms } => LoadResult::Frame {
            req_id,
            image,
            delay_nano: delay_nanos(numer_ms, denom_ms),
        },
        FrameOutcome::Corrupt => LoadResult::Failed { req_id },
    }
}

/// The events a stream of frame outcomes publishes after `Start`:
/// frames in order up to the first corrupt one, closed by `Done`
/// (clean stream) or `Failed` (corruption).
pub open spec fn stream_events(req_id: u32, outcomes: Seq<FrameOutcome>) -> Seq<LoadResult>
    decreases outcomes.len(),
{
    if outcomes.len() == 0 {
        seq![LoadResult::Done { req_id }]
    } else if outcomes[0] is Corrupt {
        seq![LoadResult::Failed { req_id }]
    } else {
        seq![frame_event(req_id, outcomes[0])] + stream_events(req_id, outcomes.skip(1))
    }
}

/// The per-request state machine. The worker feeds it the outcomes of
/// its filesystem and decoder steps; each method returns the events to
/// publish, and `events()` is everything emitted so far.
pub struct DecodeSession {
    pub req_id: u32,
    pub phase: Phase,
    pub emitted: Ghost<Seq<LoadResult>>,
}

impl DecodeSession {
    /// Everything emitted so far for this request.
    pub open spec fn events(&self) -> Seq<LoadResult> {
        self.emitted@
    }

    pub open spec fn fresh(&self) -> bool {
        self.phase is Fresh
    }

    pub open spec fn started(&self) -> bool {
        self.phase is Started
    }

    pub open spec fn finished(&self) -> bool {
        self.phase is Finished
    }

    /// The protocol invariant: the emitted events all carry this
    /// request's id and form a legal run — empty before `Start`, open
    /// while frames may still follow, complete once a terminal event
    /// closed it.
    pub open spec fn inv(&self) -> bool {
        &&& all_for(self.emitted@, self.req_id)
        &&& match self.phase {
            Phase::Fresh => self.emitted@.len() == 0,
            Phase::Started => self.emitted@.len() >= 1 && open_run(self.emitted@),
            Phase::Finished => complete_run(self.emitted@),
        }
    }

    /// A fresh session for request `req_id`.
    pub fn new(req_id: u32) -> (s: DecodeSession)
        ensures
            s.inv(),
            s.fresh(),
            s.req_id == req_id,
            s.events() == Seq::<LoadResult>::empty(),
    {
        DecodeSession { req_id, phase: Phase::Fresh, emitted: Ghost(Seq::empty()) }
    }

    pub fn is_fresh(&self) -> (r: bool)
        ensures
            r == self.fresh(),
    {
        matches!(self.phase, Phase::Fresh)
    }

    pub fn is_started(&self) -> (r: bool)
        ensures
            r == self.started(),
    {
        matches!(self.phase, Phase::Started)
    }

    pub fn is_finished(&self) -> (r: bool)
        ensures
            r == self.finished(),
    {
        matches!(self.phase, Phase::Finished)
    }

    /// Closes the run with `Failed`, from any state that still owes a
    /// terminal event.
    fn close_failed(&mut self) -> (out: Vec<LoadResult>)
        requires
            old(self).inv(),
            old(self).fresh() || old(self).started(),
        ensures
            final(self).inv(),
            final(self).finished(),
            final(self).req_id == old(self).req_id,
            final(self).events() == old(self).events() + out@,
            out@.len() == 1,
            out@[0] == (LoadResult::Failed { req_id: old(self).req_id }),
    {
        let mut out: Vec<LoadResult> = Vec::new();
        out.push(LoadResult::Failed { req_id: self.req_id });
        self.emitted = Ghost(self.emitted@ + out@);
        self.phase = Phase::Finished;
        proof {
            let s = self.emitted@;
            assert(s.last() == out@[0]);
            if old(self).started() {
                assert(s[0] == old(self).events()[0]);
                assert(forall|i: int| 1 <= i < s.len() - 1 ==> (#[trigger] s[i]) == old(
                    self,
                ).events().skip(1)[i - 1]);
                assert(forall|i: int|
                    0 <= i < s.subrange(1, s.len() - 1).len() ==> (#[trigger] s.subrange(
                        1,
                        s.len() - 1,
                    )[i]) == s[i + 1]);
                assert(complete_run(s));
            } else {
                assert(s.len() == 1);
                assert(complete_run(s));
            }
        }
        out
    }

    /// Step one of serving a request: the worker resolved the file's
    /// metadata (or could not) and read the sniffing prefix (or could
    /// not). Returns the events to publish and the decode path to
    /// take: no metadata closes the run as `Failed` with no `Start`;
    /// otherwise `Start` is published and the sniffed prefix picks the
    /// path.
    pub fn begin(&mut self, metadata: Option<FileMeta>, prefix: Option<&[u8]>) -> (r: (
        Vec<LoadResult>,
        DecodePath,
    ))
        requires
            old(self).inv(),
            old(self).fresh(),
        ensures
            final(self).inv(),
            final(self).req_id == old(self).req_id,
            final(self).events() == old(self).events() + r.0@,
            metadata is None ==> {
                &&& r.1 is Aborted
                &&& final(self).finished()
                &&& r.0@.len() == 1
                &&& r.0@[0] == (LoadResult::Failed { req_id: old(self).req_id })
            },
            metadata matches Some(m) ==> {
                &&& final(self).started()
                &&& r.0@.len() == 1
                &&& r.0@[0] == (LoadResult::Start { req_id: old(self).req_id, metadata: m })
                &&& (r.1 is Animated <==> (prefix matches Some(p) && is_gif_signature(p@)))
                &&& !(r.1 is Aborted)
            },
    {
        match metadata {
            None => {
                let out = self.close_failed();
                (out, DecodePath::Aborted)
            },
            Some(m) => {
                let mut out: Vec<LoadResult> = Vec::new();
                out.push(LoadResult::Start { req_id: self.req_id, metadata: m });
                self.emitted = Ghost(self.emitted@ + out@);
                self.phase = Phase::Started;
                let path = match sniff_format(prefix) {
                    FormatClass::Animated => DecodePath::Animated,
                    FormatClass::SingleFrame => DecodePath::SingleFrame,
                };
                (out, path)
            },
        }
    }

    /// A frame was pulled from the stream. A decoded frame is
    /// published with its delay and the stream goes on; a corrupt
    /// frame closes the run as `Failed` and the stream must stop.
    /// Returns the events to publish and whether to keep pulling.
    pub fn on_frame(&mut self, outcome: FrameOutcome) -> (r: (Vec<LoadResult>, bool))
        requires
            old(self).inv(),
            old(self).started(),
        ensures
            final(self).inv(),
            final(self).req_id == old(self).req_id,
            final(self).events() == old(self).events() + r.0@,
            r.0@.len() == 1,
            r.0@[0] == frame_event(old(self).req_id, outcome),
            r.1 == (outcome is Decoded),
            outcome is Decoded ==> final(self).started(),
            outcome is Corrupt ==> final(self).finished(),
    {
        match outcome {
            FrameOutcome::Decoded { image, numer_ms, denom_ms } => {
                let delay_nano = frame_delay_nanos(numer_ms, denom_ms);
                let mut out: Vec<LoadResult> = Vec::new();
                out.push(LoadResult::Frame { req_id: self.req_id, image, delay_nano });
                self.emitted = Ghost(self.emitted@ + out@);
                proof {
                    let s = self.emitted@;
                    assert(s[0] == old(self).events()[0]);
                    assert(forall|i: int| 1 <= i < s.len() - 1 ==> (#[trigger] s[i]) == old(
                        self,
                    ).events().skip(1)[i - 1]);
                    assert(forall|i: int|
                        0 <= i < s.skip(1).len() ==> (#[trigger] s.skip(1)[i]) == s[i + 1]);
                    assert(open_run(s));
                }
                (out, true)
            },
            FrameOutcome::Corrupt => {
                let out = self.close_failed();
                (out, false)
            },
        }
    }

    /// The stream could not even begin (the file would not reopen or
    /// the decoder rejected it), or failed in a way that yields no
    /// further frames: closes the run as `Failed`.
    pub fn fail(&mut self) -> (out: Vec<LoadResult>)
        requires
            old(self).inv(),
            old(self).started(),
        ensures
            final(self).inv(),
            final(self).finished(),
            final(self).req_id == old(self).req_id,
            final(self).events() == old(self).events() + out@,
            out@.len() == 1,
            out@[0] == (LoadResult::Failed { req_id: old(self).req_id }),
    {
        self.close_failed()
    }

    /// The stream ended with every frame decoded: closes the run with
    /// `Done`.
    pub fn on_stream_end(&mut self) -> (out: Vec<LoadResult>)
        requires
            old(self).inv(),
            old(self).started(),
        ensures
            final(self).inv(),
            final(self).finished(),
            final(self).req_id == old(self).req_id,
            final(self).events() == old(self).events() + out@,
            out@.len() == 1,
            out@[0] == (LoadResult::Done { req_id: old(self).req_id }),
    {
        let mut out: Vec<LoadResult> = Vec::new();
        out.push(LoadResult::Done { req_id: self.req_id });
        self.emitted = Ghost(self.emitted@ + out@);
        self.phase = Phase::Finished;
        proof {
            let s = self.emitted@;
            assert(s.last() == out@[0]);
            assert(s[0] == old(self).events()[0]);
            assert(forall|i: int| 1 <= i < s.len() - 1 ==> (#[trigger] s[i]) == old(
                self,
            ).events().skip(1)[i - 1]);
            assert(forall|i: int|
                0 <= i < s.subrange(1, s.len() - 1).len() ==> (#[trigger] s.subrange(
                    1,
                    s.len() - 1,
                )[i]) == s[i + 1]);
            assert(complete_run(s));
        }
        out
    }

    /// The single-frame path: the whole file either decoded to one
    /// image — published as a zero-delay `Frame` and closed with
    /// `Done` — or it did not, closing the run as `Failed`.
    pub fn on_single(&mut self, image: Option<RgbaBuffer>) -> (out: Vec<LoadResult>)
        requires
            old(self).inv(),
            old(self).started(),
        ensures
            final(self).inv(),
            final(self).finished(),
            final(self).req_id == old(self).req_id,
            final(self).events() == old(self).events() + out@,
            image matches Some(img) ==> {
                &&& out@.len() == 2
                &&& out@[0] == (LoadResult::Frame {
                    req_id: old(self).req_id,
                    image: img,
                    delay_nano: 0,
                })
                &&& out@[1] == (LoadResult::Done { req_id: old(self).req_id })
            },
            image is None ==> {
                &&& out@.len() == 1
                &&& out@[0] == (LoadResult::Failed { req_id: old(self).req_id })
            },
    {
        match image {
            Some(img) => {
                let mut out: Vec<LoadResult> = Vec::new();
                out.push(LoadResult::Frame { req_id: self.req_id, image: img, delay_nano: 0 });
                out.push(LoadResult::Done { req_id: self.req_id });
                self.emitted = Ghost(self.emitted@ + out@);
                self.phase = Phase::Finished;
                proof {
                    let s = self.emitted@;
                    assert(s.last() == out@[1]);
                    assert(s[0] == old(self).events()[0]);
                    assert(forall|i: int|
                        0 <= i < s.subrange(1, s.len() - 1).len() ==> (#[trigger] s.subrange(
                            1,
                            s.len() - 1,
                        )[i]) == s[i + 1]);
                    assert(forall|i: int|
                        1 <= i < s.len() - 2 ==> (#[trigger] s[i]) == old(self).events().skip(
                            1,
                        )[i - 1]);
                    assert(s.len() >= 3 ==> s[s.len() - 2] == out@[0]);
                    assert(complete_run(s));
                }
                out
            },
            None => self.close_failed(),
        }
    }

    /// Drives a whole stream of frame outcomes through the session:
    /// publishes each decoded frame until the stream ends cleanly
    /// (`Done`) or a frame is corrupt (`Failed`, dropping the rest).
    #[verifier::loop_isolation(false)]
    pub fn run_stream(&mut self, outcomes: Vec<FrameOutcome>) -> (out: Vec<LoadResult>)
        requires
            old(self).inv(),
            old(self).started(),
        ensures
            final(self).inv(),
            final(self).finished(),
            final(self).req_id == old(self).req_id,
            final(self).events() == old(self).events() + out@,
            out@ == stream_events(old(self).req_id, outcomes@),
    {
        let ghost orig: Seq<FrameOutcome> = outcomes@;
        let mut rest = outcomes;
        let mut out: Vec<LoadResult> = Vec::new();
        while rest.len() > 0
            invariant
                self.inv(),
                self.started(),
                self.req_id == old(self).req_id,
                self.events() == old(self).events() + out@,
                stream_events(self.req_id, orig) == out@ + stream_events(self.req_id, rest@),
            decreases rest.len(),
        {
            let ghost rest_pre: Seq<FrameOutcome> = rest@;
            let ghost out_pre: Seq<LoadResult> = out@;
            let o = rest.remove(0);
            let ghost o_g: FrameOutcome = o;
            let (mut evs, cont) = self.on_frame(o);
            proof {
                assert(rest@ =~= rest_pre.skip(1));
            }
            out.append(&mut evs);
            if !cont {
                proof {
                    assert(stream_events(self.req_id, rest_pre) =~= seq![
                        frame_event(self.req_id, o_g),
                    ]);
                    assert(out@ =~= out_pre + seq![frame_event(self.req_id, o_g)]);
                    assert(out@ =~= stream_events(self.req_id, orig));
                }
                return out;
            }
            proof {
                assert(stream_events(self.req_id, rest_pre) =~= seq![
                    frame_event(self.req_id, o_g),
                ] + stream_events(self.req_id, rest@));
                assert(out@ =~= out_pre + seq![frame_event(self.req_id, o_g)]);
                assert(out@ + stream_events(self.req_id, rest@) =~= stream_events(
                    self.req_id,
                    orig,
                ));
            }
        }
        let mut evs = self.on_stream_end();
        proof {
            assert(rest@.len() == 0);
            assert(stream_events(self.req_id, rest@) =~= seq![
                LoadResult::Done { req_id: self.req_id },
            ]);
        }
        out.append(&mut evs);
        proof {
            assert(out@ =~= stream_events(self.req_id, orig));
        }
        out
    }
}

/// The protocol invariant, read off a closed session: its run shows
/// at most one `Start`, a `Frame` only after a `Start`, and exactly
/// one terminal event, which comes last.
pub proof fn lemma_session_protocol(s: DecodeSession)
    requires
        s.inv(),
        s.finished(),
    ensures
        crate::protocol::start_count(s.events()) <= 1,
        crate::protocol::terminal_count(s.events()) == 1,
        s.events().len() >= 1 && crate::protocol::is_terminal(s.events().last()),
        forall|i: int|
            0 <= i < s.events().len() && (#[trigger] s.events()[i]) is Frame ==> 1 <= i
                && s.events()[0] is Start,
        forall|i: int|
            0 <= i < s.events().len() - 1 ==> !crate::protocol::is_terminal(
                #[trigger] s.events()[i],
            ),
{
    crate::protocol::lemma_complete_run_shape(s.events());
}

/// A clean stream: every frame decodes, so the run publishes each
/// frame in order — each delay computed from its millisecond fraction
/// — and closes with `Done`.
pub proof fn lemma_stream_all_decoded(req_id: u32, outcomes: Seq<FrameOutcome>)
    requires
        forall|i: int| 0 <= i < outcomes.len() ==> (#[trigger] outcomes[i]) is Decoded,
    ensures
        stream_events(req_id, outcomes).len() == outcomes.len() + 1,
        forall|i: int|
            0 <= i < outcomes.len() ==> stream_events(req_id, outcomes)[i] == frame_event(
                req_id,
                #[trigger] outcomes[i],
            ),
        stream_events(req_id, outcomes).last() is Done,
    decreases outcomes.len(),
{
    if outcomes.len() > 0 {
        assert(forall|i: int|
            0 <= i < outcomes.skip(1).len() ==> (#[trigger] outcomes.skip(1)[i]) == outcomes[i
                + 1]);
        lemma_stream_all_decoded(req_id, outcomes.skip(1));
        assert forall|i: int| 0 <= i < outcomes.len() implies stream_events(req_id, outcomes)[i]
            == frame_event(req_id, outcomes[i]) by {
            if i > 0 {
                assert(outcomes.skip(1)[i - 1] == outcomes[i]);
                assert(stream_events(req_id, outcomes)[i] == stream_events(
                    req_id,
                    outcomes.skip(1),
                )[i - 1]);
            }
        }
    }
}

/// A stream corrupt at position `j` (the first corruption): exactly
/// the `j` frames before it are published, in order, and the run
/// closes with `Failed` — nothing after the corruption point is
/// emitted.
pub proof fn lemma_stream_corrupt_at(req_id: u32, outcomes: Seq<FrameOutcome>, j: int)
    requires
        0 <= j < outcomes.len(),
        outcomes[j] is Corrupt,
        forall|i: int| 0 <= i < j ==> (#[trigger] outcomes[i]) is Decoded,
    ensures
        stream_events(req_id, outcomes).len() == j + 1,
        forall|i: int|
            0 <= i < j ==> stream_events(req_id, outcomes)[i] == frame_event(
                req_id,
                #[trigger] outcomes[i],
            ),
        stream_events(req_id, outcomes).last() is Failed,
    decreases j,
{
    if j == 0 {
    } else {
        assert(outcomes[0] is Decoded);
        assert(forall|i: int|
            0 <= i < outcomes.skip(1).len() ==> (#[trigger] outcomes.skip(1)[i]) == outcomes[i
                + 1]);
        lemma_stream_corrupt_at(req_id, outcomes.skip(1), j - 1);
        assert forall|i: int| 0 <= i < j implies stream_events(req_id, outcomes)[i] == frame_event(
            req_id,
            outcomes[i],
        ) by {
            if i > 0 {
                assert(outcomes.skip(1)[i - 1] == outcomes[i]);
                assert(stream_events(req_id, outcomes)[i] == stream_events(
                    req_id,
                    outcomes.skip(1),
                )[i - 1]);
            }
        }
    }
}

} // verus!
