//! Voice activity detection with hysteresis and hangover.
//!
//! Audio is cut into fixed analysis frames here; each frame's voicing (its RMS
//! level against a threshold) is decided by the caller, and the hysteresis
//! below turns the voicing of successive frames into speech start and end
//! events.

use vstd::prelude::*;

use crate::audio::{
    chunks_of, frame_views, law_split_push_chunks, leftover, ChunkBuffer, TARGET_SAMPLE_RATE,
};

verus! {

#[derive(Debug, Clone, Copy, PartialEq, Eq, Structural)]
pub enum VadEvent {
    SpeechStart,
    SpeechEnd,
}

/// Frame timing and hysteresis state of a voice activity detector.
pub struct VadState {
    frame_ms: u32,
    min_speech_ms: u32,
    hangover_ms: u32,
    frames: ChunkBuffer,
    in_speech: bool,
    speech_run_ms: u32,
    silence_run_ms: u32,
}

/// Hysteresis state: speaking, and the lengths (ms) of the current voiced and
/// unvoiced runs.
pub struct Hyst {
    pub speaking: bool,
    pub speech_run: u32,
    pub silence_run: u32,
}

/// `a + b`, held at `u32::MAX`. Runs are only ever compared with thresholds
/// that fit in a `u32`, so the comparisons come out as with unbounded counts.
pub open spec fn sat_add(a: u32, b: u32) -> u32 {
    if a + b > u32::MAX {
        u32::MAX
    } else {
        (a + b) as u32
    }
}

/// One frame: a voiced frame extends the speech run and resets the silence
/// run, and starts speech once the run reaches `min_speech`; an unvoiced frame
/// does the opposite and ends speech once silence reaches `hangover`.
pub open spec fn hyst_step(h: Hyst, voiced: bool, frame_ms: u32, min_speech: u32, hangover: u32) -> (
    Hyst,
    Option<VadEvent>,
) {
    if voiced {
        let run = sat_add(h.speech_run, frame_ms);
        if !h.speaking && run >= min_speech {
            (Hyst { speaking: true, speech_run: run, silence_run: 0 }, Some(VadEvent::SpeechStart))
        } else {
            (Hyst { speaking: h.speaking, speech_run: run, silence_run: 0 }, None)
        }
    } else {
        let run = sat_add(h.silence_run, frame_ms);
        if h.speaking && run >= hangover {
            (Hyst { speaking: false, speech_run: 0, silence_run: run }, Some(VadEvent::SpeechEnd))
        } else {
            (Hyst { speaking: h.speaking, speech_run: 0, silence_run: run }, None)
        }
    }
}

/// Frames in order; the event is the last one any frame produced.
pub open spec fn hyst_run(h: Hyst, voicing: Seq<bool>, frame_ms: u32, min_speech: u32, hangover: u32) -> (
    Hyst,
    Option<VadEvent>,
)
    decreases voicing.len(),
{
    if voicing.len() == 0 {
        (h, None)
    } else {
        let (h1, e1) = hyst_run(h, voicing.drop_last(), frame_ms, min_speech, hangover);
        let (h2, e2) = hyst_step(h1, voicing.last(), frame_ms, min_speech, hangover);
        (h2, if e2 is Some { e2 } else { e1 })
    }
}

impl VadState {
    pub closed spec fn hyst(&self) -> Hyst {
        Hyst { speaking: self.in_speech, speech_run: self.speech_run_ms, silence_run: self.silence_run_ms }
    }

    pub closed spec fn frame_ms_of(&self) -> u32 {
        self.frame_ms
    }

    pub closed spec fn min_speech_of(&self) -> u32 {
        self.min_speech_ms
    }

    pub closed spec fn hangover_of(&self) -> u32 {
        self.hangover_ms
    }

    /// Samples per analysis frame.
    pub closed spec fn frame_len_of(&self) -> nat {
        self.frames.chunk_len_of()
    }

    /// Samples waiting for a whole frame.
    pub closed spec fn pending(&self) -> Seq<i16> {
        self.frames.pending_of()
    }

    pub closed spec fn wf(&self) -> bool {
        self.frames.wf()
    }

    pub fn new(frame_ms: u32, min_speech_ms: u32, hangover_ms: u32) -> (r: Self)
        requires
            1 <= frame_ms,
            TARGET_SAMPLE_RATE * frame_ms <= u32::MAX,
        ensures
            r.wf(),
            r.frame_len_of() == TARGET_SAMPLE_RATE * frame_ms / 1000,
            r.frame_ms_of() == frame_ms,
            r.min_speech_of() == min_speech_ms,
            r.hangover_of() == hangover_ms,
            r.pending().len() == 0,
            r.hyst() == (Hyst { speaking: false, speech_run: 0, silence_run: 0 }),
    {
        VadState {
            frame_ms,
            min_speech_ms,
            hangover_ms,
            frames: ChunkBuffer::new(frame_ms),
            in_speech: false,
            speech_run_ms: 0,
            silence_run_ms: 0,
        }
    }

    pub fn is_speaking(&self) -> (b: bool)
        ensures
            b == self.hyst().speaking,
    {
        self.in_speech
    }

    /// Buffer `samples` and hand back every whole analysis frame now ready,
    /// in order.
    pub fn take_frames(&mut self, samples: &[i16]) -> (frames: Vec<Vec<i16>>)
        requires
            old(self).wf(),
        ensures
            final(self).wf(),
            final(self).hyst() == old(self).hyst(),
            final(self).frame_len_of() == old(self).frame_len_of(),
            final(self).frame_ms_of() == old(self).frame_ms_of(),
            final(self).min_speech_of() == old(self).min_speech_of(),
            final(self).hangover_of() == old(self).hangover_of(),
            ({
                let all = old(self).pending() + samples@;
                let f = old(self).frame_len_of() as int;
                &&& frames@.len() * f + final(self).pending().len() == all.len()
                &&& forall|k: int|
                    0 <= k < frames@.len() ==> #[trigger] frames@[k]@ == all.subrange(k * f, k * f + f)
                &&& final(self).pending() == all.subrange(frames@.len() * f, all.len() as int)
                &&& final(self).pending().len() < f
                &&& frames@.len() == all.len() as int / f
                &&& frame_views(frames@) == chunks_of(all, f)
                &&& final(self).pending() == leftover(all, f)
            }),
    {
        self.frames.push(samples)
    }

    fn push_frame(&mut self, voiced: bool) -> (e: Option<VadEvent>)
        ensures
            (final(self).hyst(), e) == hyst_step(
                old(self).hyst(),
                voiced,
                old(self).frame_ms,
                old(self).min_speech_ms,
                old(self).hangover_ms,
            ),
            final(self).frames == old(self).frames,
            final(self).frame_ms == old(self).frame_ms,
            final(self).min_speech_ms == old(self).min_speech_ms,
            final(self).hangover_ms == old(self).hangover_ms,
    {
        if voiced {
            self.speech_run_ms = self.speech_run_ms.saturating_add(self.frame_ms);
            self.silence_run_ms = 0;
            if !self.in_speech && self.speech_run_ms >= self.min_speech_ms {
                self.in_speech = true;
                return Some(VadEvent::SpeechStart);
            }
        } else {
            self.silence_run_ms = self.silence_run_ms.saturating_add(self.frame_ms);
            self.speech_run_ms = 0;
            if self.in_speech && self.silence_run_ms >= self.hangover_ms {
                self.in_speech = false;
                return Some(VadEvent::SpeechEnd);
            }
        }
        None
    }

    /// Feed the voicing of successive frames; returns the last speech event
    /// they produced, if any.
    pub fn push_voicing(&mut self, voicing: &[bool]) -> (e: Option<VadEvent>)
        requires
            old(self).wf(),
        ensures
            final(self).wf(),
            (final(self).hyst(), e) == hyst_run(
                old(self).hyst(),
                voicing@,
                old(self).frame_ms_of(),
                old(self).min_speech_of(),
                old(self).hangover_of(),
            ),
            final(self).frame_len_of() == old(self).frame_len_of(),
            final(self).frame_ms_of() == old(self).frame_ms_of(),
            final(self).min_speech_of() == old(self).min_speech_of(),
            final(self).hangover_of() == old(self).hangover_of(),
            final(self).pending() == old(self).pending(),
            e == Some(VadEvent::SpeechStart) ==> final(self).hyst().speaking,
            e == Some(VadEvent::SpeechEnd) ==> !final(self).hyst().speaking,
            e is None ==> final(self).hyst().speaking == old(self).hyst().speaking,
    {
        let mut event: Option<VadEvent> = None;
        let mut i: usize = 0;
        while i < voicing.len()
            invariant
                i <= voicing@.len(),
                self.wf(),
                (self.hyst(), event) == hyst_run(
                    old(self).hyst(),
                    voicing@.take(i as int),
                    old(self).frame_ms,
                    old(self).min_speech_ms,
                    old(self).hangover_ms,
                ),
                self.frames == old(self).frames,
                self.frame_ms == old(self).frame_ms,
                self.min_speech_ms == old(self).min_speech_ms,
                self.hangover_ms == old(self).hangover_ms,
            decreases voicing@.len() - i,
        {
            assert(voicing@.take(i + 1).drop_last() =~= voicing@.take(i as int));
            if let Some(e) = self.push_frame(voicing[i]) {
                event = Some(e);
            }
            i = i + 1;
        }
        assert(voicing@.take(voicing@.len() as int) =~= voicing@);
        proof {
            law_reported_event_matches_state(
                old(self).hyst(),
                voicing@,
                old(self).frame_ms,
                old(self).min_speech_ms,
                old(self).hangover_ms,
            );
        }
        event
    }
}

/// The event `push_voicing` reports agrees with the state it leaves: a start
/// leaves the detector speaking, an end leaves it silent, and no event means
/// the speaking state did not change.
pub proof fn law_reported_event_matches_state(
    h: Hyst,
    voicing: Seq<bool>,
    frame_ms: u32,
    min_speech: u32,
    hangover: u32,
)
    ensures
        ({
            let (h2, e) = hyst_run(h, voicing, frame_ms, min_speech, hangover);
            &&& e == Some(VadEvent::SpeechStart) ==> h2.speaking
            &&& e == Some(VadEvent::SpeechEnd) ==> !h2.speaking
            &&& e is None ==> h2.speaking == h.speaking
        }),
    decreases voicing.len(),
{
    if voicing.len() > 0 {
        law_reported_event_matches_state(h, voicing.drop_last(), frame_ms, min_speech, hangover);
    }
}

/// Speech starts only after a voiced run of at least `min_speech` ms, and ends
/// only after an unvoiced run of at least `hangover` ms; a start is reported
/// only from silence and an end only from speech.
pub proof fn law_hysteresis(h: Hyst, voiced: bool, frame_ms: u32, min_speech: u32, hangover: u32)
    ensures
        ({
            let (h2, e) = hyst_step(h, voiced, frame_ms, min_speech, hangover);
            &&& e == Some(VadEvent::SpeechStart) ==> voiced && !h.speaking && h2.speech_run >= min_speech
            &&& e == Some(VadEvent::SpeechEnd) ==> !voiced && h.speaking && h2.silence_run >= hangover
            &&& h2.speaking != h.speaking ==> e is Some
        }),
{
}

/// Feeding the voicing of frames in two batches leaves the same state as one
/// batch of them all, and reports the event of the second batch, or else
/// that of the first.
pub proof fn law_split_voicing(
    h: Hyst,
    a: Seq<bool>,
    b: Seq<bool>,
    frame_ms: u32,
    min_speech: u32,
    hangover: u32,
)
    ensures
        ({
            let (h1, e1) = hyst_run(h, a, frame_ms, min_speech, hangover);
            let (h2, e2) = hyst_run(h1, b, frame_ms, min_speech, hangover);
            hyst_run(h, a + b, frame_ms, min_speech, hangover) == (h2, if e2 is Some {
                e2
            } else {
                e1
            })
        }),
    decreases b.len(),
{
    if b.len() == 0 {
        assert(a + b =~= a);
    } else {
        law_split_voicing(h, a, b.drop_last(), frame_ms, min_speech, hangover);
        assert((a + b).drop_last() =~= a + b.drop_last());
        assert((a + b).last() == b.last());
    }
}

/// A detector fed samples in two pushes ends in the same state, with the
/// same samples pending, as one fed them in one push, and the event of the
/// one push is that of the second push or else that of the first: partial
/// frames are carried over, so how the audio is cut into pushes does not
/// matter. `voiced` is the voicing test applied to each frame.
pub proof fn law_split_push(
    h: Hyst,
    pending: Seq<i16>,
    a: Seq<i16>,
    b: Seq<i16>,
    f: int,
    voiced: spec_fn(Seq<i16>) -> bool,
    frame_ms: u32,
    min_speech: u32,
    hangover: u32,
)
    requires
        f > 0,
    ensures
        ({
            let rest = leftover(pending + a, f);
            let (h1, e1) = hyst_run(
                h,
                chunks_of(pending + a, f).map_values(voiced),
                frame_ms,
                min_speech,
                hangover,
            );
            let (h2, e2) = hyst_run(
                h1,
                chunks_of(rest + b, f).map_values(voiced),
                frame_ms,
                min_speech,
                hangover,
            );
            &&& hyst_run(
                h,
                chunks_of(pending + a + b, f).map_values(voiced),
                frame_ms,
                min_speech,
                hangover,
            ) == (h2, if e2 is Some {
                e2
            } else {
                e1
            })
            &&& leftover(rest + b, f) == leftover(pending + a + b, f)
        }),
{
    law_split_push_chunks(pending, a, b, f);
    let c1 = chunks_of(pending + a, f);
    let c2 = chunks_of(leftover(pending + a, f) + b, f);
    assert((c1 + c2).map_values(voiced) =~= c1.map_values(voiced) + c2.map_values(voiced));
    law_split_voicing(h, c1.map_values(voiced), c2.map_values(voiced), frame_ms, min_speech, hangover);
}

/// The number of voiced frames at the end of `v`.
pub open spec fn trailing_voiced(v: Seq<bool>) -> nat
    decreases v.len(),
{
    if v.len() == 0 || !v.last() {
        0
    } else {
        trailing_voiced(v.drop_last()) + 1
    }
}

/// `t` frames of `frame_ms`, held at `u32::MAX`.
pub open spec fn run_ms(t: nat, frame_ms: u32) -> u32 {
    if t * frame_ms > u32::MAX {
        u32::MAX
    } else {
        (t * frame_ms) as u32
    }
}

/// An unvoiced frame resets the speech run and a voiced one resets the
/// silence run; each frame adds `frame_ms` to the run it continues.
pub proof fn law_runs_reset(h: Hyst, voiced: bool, frame_ms: u32, min_speech: u32, hangover: u32)
    ensures
        ({
            let h2 = hyst_step(h, voiced, frame_ms, min_speech, hangover).0;
            &&& !voiced ==> h2.speech_run == 0 && h2.silence_run as int == if h.silence_run + frame_ms
                > u32::MAX {
                u32::MAX as int
            } else {
                h.silence_run + frame_ms
            }
            &&& voiced ==> h2.silence_run == 0 && h2.speech_run as int == if h.speech_run + frame_ms
                > u32::MAX {
                u32::MAX as int
            } else {
                h.speech_run + frame_ms
            }
        }),
{
}

/// Speech must be continuous: once an unvoiced frame has been seen, the
/// speech run is the time of the voiced frames since the last unvoiced one,
/// and nothing before it counts.
pub proof fn law_speech_run_is_continuous(
    h: Hyst,
    v: Seq<bool>,
    frame_ms: u32,
    min_speech: u32,
    hangover: u32,
)
    requires
        trailing_voiced(v) < v.len(),
    ensures
        hyst_run(h, v, frame_ms, min_speech, hangover).0.speech_run == run_ms(
            trailing_voiced(v),
            frame_ms,
        ),
    decreases v.len(),
{
    let d = v.drop_last();
    if v.last() {
        law_speech_run_is_continuous(h, d, frame_ms, min_speech, hangover);
        let t = trailing_voiced(d);
        assert((t + 1) * frame_ms == t * frame_ms + frame_ms) by (nonlinear_arith);
        assert(0 <= t * frame_ms) by (nonlinear_arith);
    } else {
        assert(0 * frame_ms == 0) by (nonlinear_arith);
    }
}

/// Speech starts only after continuous voice: a start is reported only
/// when the voiced frames since the last unvoiced one (once there was one)
/// last at least `min_speech` ms.
pub proof fn law_start_needs_continuous_speech(
    h: Hyst,
    v: Seq<bool>,
    voiced: bool,
    frame_ms: u32,
    min_speech: u32,
    hangover: u32,
)
    requires
        trailing_voiced(v) < v.len(),
        hyst_step(hyst_run(h, v, frame_ms, min_speech, hangover).0, voiced, frame_ms, min_speech, hangover).1
            == Some(VadEvent::SpeechStart),
    ensures
        voiced,
        run_ms(trailing_voiced(v.push(voiced)), frame_ms) >= min_speech,
{
    law_speech_run_is_continuous(h, v, frame_ms, min_speech, hangover);
    assert(v.push(voiced).drop_last() =~= v);
    let vv = v.push(voiced);
    assert(vv.last() == voiced);
    if voiced {
        assert(trailing_voiced(vv) < vv.len());
        law_speech_run_is_continuous(h, vv, frame_ms, min_speech, hangover);
        assert(hyst_run(h, vv, frame_ms, min_speech, hangover).0 == hyst_step(
            hyst_run(h, v, frame_ms, min_speech, hangover).0,
            voiced,
            frame_ms,
            min_speech,
            hangover,
        ).0);
    }
}

} // verus!
