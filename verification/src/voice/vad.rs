//! Utterance chunking driven by per-frame voice activity decisions.
//!
//! Audio arrives in fixed-size frames, each judged speech or not by a voice
//! activity model. The chunker accumulates speech (and the silence inside and
//! right after it) and hands back a complete utterance once enough trailing
//! silence was heard, or once the utterance reached the maximum length.
//! The chunker is generic over the sample type; it never reads samples.
use vstd::prelude::*;

verus! {

/// Frames of trailing silence that end an utterance (~256ms at 32ms frames).
pub const SILENCE_FRAMES_THRESHOLD: usize = 8;

/// Maximum utterance length before a forced flush (15s at 16kHz).
pub const MAX_SAMPLES: usize = 240000;

/// Shorter utterances are discarded as noise (0.5s at 16kHz).
pub const MIN_SPEECH_SAMPLES: usize = 8000;

/// Frame size at 16kHz (512 samples = 32ms).
pub const FRAME_SIZE: usize = 512;

/// The accumulating utterance and the silence counters.
pub struct VadChunker<T> {
    speech_buf: Vec<T>,
    silent_frames: usize,
    has_speech: bool,
}

/// The abstract state of a chunker.
pub struct ChunkerModel<T> {
    pub buffered: Seq<T>,
    pub silent_frames: nat,
    pub has_speech: bool,
}

pub open spec fn empty_model<T>() -> ChunkerModel<T> {
    ChunkerModel { buffered: Seq::empty(), silent_frames: 0, has_speech: false }
}

/// What a flush of `m` hands back: the buffered utterance if long enough.
pub open spec fn flushed<T>(m: ChunkerModel<T>) -> Option<Seq<T>> {
    if m.buffered.len() < MIN_SPEECH_SAMPLES {
        None
    } else {
        Some(m.buffered)
    }
}

/// One frame's effect: the new state and the utterance handed back, if any.
pub open spec fn step<T>(m: ChunkerModel<T>, frame: Seq<T>, is_speech: bool) -> (
    ChunkerModel<T>,
    Option<Seq<T>>,
) {
    let after = if is_speech {
        ChunkerModel { buffered: m.buffered + frame, silent_frames: 0, has_speech: true }
    } else if m.has_speech {
        ChunkerModel {
            buffered: m.buffered + frame,
            silent_frames: m.silent_frames + 1,
            has_speech: true,
        }
    } else {
        m
    };
    if !is_speech && m.has_speech && after.silent_frames >= SILENCE_FRAMES_THRESHOLD {
        (empty_model(), flushed(after))
    } else if after.buffered.len() >= MAX_SAMPLES {
        (empty_model(), flushed(after))
    } else {
        (after, None)
    }
}

/// The invariant between frames: without speech nothing is buffered, the
/// silence count is below the threshold, and the buffer is below the maximum.
pub open spec fn model_wf<T>(m: ChunkerModel<T>) -> bool {
    &&& !m.has_speech ==> m.buffered.len() == 0 && m.silent_frames == 0
    &&& m.silent_frames < SILENCE_FRAMES_THRESHOLD
    &&& m.buffered.len() < MAX_SAMPLES
}

impl<T: Copy> VadChunker<T> {
    pub closed spec fn model(self) -> ChunkerModel<T> {
        ChunkerModel {
            buffered: self.speech_buf@,
            silent_frames: self.silent_frames as nat,
            has_speech: self.has_speech,
        }
    }

    pub closed spec fn wf(self) -> bool {
        model_wf(self.model())
    }

    pub fn new() -> (r: Self)
        ensures
            r.model() == empty_model::<T>(),
            r.wf(),
    {
        VadChunker { speech_buf: Vec::new(), silent_frames: 0, has_speech: false }
    }

    /// Feeds one frame with the model's speech decision for it. Returns
    /// `Some(chunk)` when a complete utterance is ready for transcription.
    pub fn push_frame(&mut self, frame: &[T], is_speech: bool) -> (r: Option<Vec<T>>)
        requires
            old(self).wf(),
            frame@.len() == FRAME_SIZE,
        ensures
            final(self).wf(),
            final(self).model() == step(old(self).model(), frame@, is_speech).0,
            r matches Some(c) ==> step(old(self).model(), frame@, is_speech).1 == Some(c@),
            r is None ==> step(old(self).model(), frame@, is_speech).1 is None,
    {
        if is_speech {
            self.has_speech = true;
            self.silent_frames = 0;
            self.append(frame);
        } else if self.has_speech {
            self.silent_frames = self.silent_frames + 1;
            self.append(frame);
            if self.silent_frames >= SILENCE_FRAMES_THRESHOLD {
                return self.flush();
            }
        }
        if self.speech_buf.len() >= MAX_SAMPLES {
            return self.flush();
        }
        None
    }

    fn append(&mut self, frame: &[T])
        requires
            old(self).speech_buf@.len() + frame@.len() <= usize::MAX,
        ensures
            final(self).speech_buf@ == old(self).speech_buf@ + frame@,
            final(self).silent_frames == old(self).silent_frames,
            final(self).has_speech == old(self).has_speech,
    {
        let ghost start = self.speech_buf@;
        let mut i: usize = 0;
        while i < frame.len()
            invariant
                i <= frame@.len(),
                self.speech_buf@ == start + frame@.take(i as int),
                self.silent_frames == old(self).silent_frames,
                self.has_speech == old(self).has_speech,
            decreases frame.len() - i,
        {
            self.speech_buf.push(frame[i]);
            assert(frame@.take(i + 1) =~= frame@.take(i as int).push(frame@[i as int]));
            assert(start + frame@.take(i + 1) =~= (start + frame@.take(i as int)).push(
                frame@[i as int],
            ));
            i += 1;
        }
        assert(frame@.take(frame@.len() as int) =~= frame@);
    }

    /// Ends the current utterance: returns it if it is long enough to be
    /// real speech, and starts over either way.
    pub fn flush(&mut self) -> (r: Option<Vec<T>>)
        ensures
            final(self).model() == empty_model::<T>(),
            final(self).wf(),
            r matches Some(c) ==> flushed(old(self).model()) == Some(c@),
            r is None ==> flushed(old(self).model()) is None,
    {
        if self.speech_buf.len() < MIN_SPEECH_SAMPLES {
            self.reset();
            return None;
        }
        let mut chunk: Vec<T> = Vec::new();
        std::mem::swap(&mut chunk, &mut self.speech_buf);
        self.reset();
        Some(chunk)
    }

    /// Whether an utterance is under way (speech was heard since the last flush).
    pub fn has_speech(&self) -> (r: bool)
        ensures
            r == self.model().has_speech,
    {
        self.has_speech
    }

    /// Drops any buffered audio and the silence count.
    pub fn reset(&mut self)
        ensures
            final(self).model() == empty_model::<T>(),
            final(self).wf(),
    {
        self.speech_buf.clear();
        self.silent_frames = 0;
        self.has_speech = false;
        assert(self.speech_buf@ =~= Seq::<T>::empty());
    }
}

/// Every state the chunker passes through keeps the invariant.
pub proof fn lemma_step_keeps_wf<T>(m: ChunkerModel<T>, frame: Seq<T>, is_speech: bool)
    requires
        model_wf(m),
        frame.len() == FRAME_SIZE,
    ensures
        model_wf(step(m, frame, is_speech).0),
{
}

/// Every utterance handed back is at least the minimum speech length and at
/// most the maximum plus one frame.
pub proof fn lemma_chunk_length<T>(m: ChunkerModel<T>, frame: Seq<T>, is_speech: bool)
    requires
        model_wf(m),
        frame.len() == FRAME_SIZE,
    ensures
        step(m, frame, is_speech).1 matches Some(c) ==> MIN_SPEECH_SAMPLES <= c.len() < MAX_SAMPLES
            + FRAME_SIZE,
{
}

/// Silence before any speech is never buffered.
pub proof fn lemma_leading_silence_ignored<T>(m: ChunkerModel<T>, frame: Seq<T>)
    requires
        model_wf(m),
        !m.has_speech,
    ensures
        step(m, frame, false).0 == m,
        step(m, frame, false).1 is None,
{
}

} // verus!
