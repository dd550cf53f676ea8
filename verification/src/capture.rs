use vstd::prelude::*;
use crate::b64::base64_encode;
use crate::b64::base64_of;
use crate::errors::CaptureError;
use crate::ring::LevelRing;
use crate::ring::ring_push_spec;
use crate::stats::batch_level_permille;
use crate::stats::level_permille_spec;
use crate::stats::near_silent;
use crate::stats::near_silent_spec;
use crate::wav::samples_to_wav;
use crate::wav::wav_bytes_spec;
use crate::wav::wav_valid;
use crate::wav::lemma_wav_bytes_len;

verus! {

/// Bookkeeping of one capture slot, shared between the stream callbacks and
/// the stopping caller. The worker appends converted sample batches and one
/// level per batch; the caller stops the session and turns what accumulated
/// into the encoded container.
///
/// The stop signal is a single-use hand-off: `arm_stop` stores it at session
/// start, the first `take_stop` consumes it, and a later `take_stop` is a
/// harmless no-op.
pub struct AudioCaptureState {
    pub samples: Vec<i16>,
    pub recent_levels: LevelRing,
    pub sample_rate: u32,
    pub channels: u16,
    pub error: Option<String>,
    pub stop_armed: bool,
}

/// The container and its transport encoding both fit the address space.
pub open spec fn encodable(sample_len: int, rate: u32, channels: u16) -> bool {
    &&& wav_valid(sample_len, rate, channels)
    &&& 4 * (44 + 2 * sample_len) <= usize::MAX
}

impl AudioCaptureState {
    pub open spec fn wf(&self) -> bool {
        self.recent_levels.wf()
    }

    /// A fresh capture slot: empty buffers, the default stream format, no
    /// recorded error, no stop signal armed.
    pub fn new() -> (r: AudioCaptureState)
        ensures
            r.samples@ == Seq::<i16>::empty(),
            r.recent_levels@ == Seq::<u16>::empty(),
            r.sample_rate == 44100,
            r.channels == 2,
            r.error is None,
            !r.stop_armed,
            r.wf(),
    {
        AudioCaptureState {
            samples: Vec::new(),
            recent_levels: LevelRing::new(),
            sample_rate: 44100,
            channels: 2,
            error: None,
            stop_armed: false,
        }
    }

    /// Clear the buffers and the error slot for a new session; the stream
    /// format and the stop signal are left as they are.
    pub fn reset(&mut self)
        ensures
            final(self).samples@ == Seq::<i16>::empty(),
            final(self).recent_levels@ == Seq::<u16>::empty(),
            final(self).error is None,
            final(self).sample_rate == old(self).sample_rate,
            final(self).channels == old(self).channels,
            final(self).stop_armed == old(self).stop_armed,
            final(self).wf(),
    {
        self.samples.clear();
        self.recent_levels.clear();
        self.error = None;
    }

    /// Record the format of the opened stream.
    pub fn set_format(&mut self, sample_rate: u32, channels: u16)
        ensures
            final(self).sample_rate == sample_rate,
            final(self).channels == channels,
            final(self).samples@ == old(self).samples@,
            final(self).recent_levels@ == old(self).recent_levels@,
            final(self).error == old(self).error,
            final(self).stop_armed == old(self).stop_armed,
            final(self).wf() == old(self).wf(),
    {
        self.sample_rate = sample_rate;
        self.channels = channels;
    }

    /// Record an error reported by the stream; it stays until `reset`.
    pub fn record_error(&mut self, message: String)
        ensures
            final(self).error matches Some(m) && m@ == message@,
            final(self).samples@ == old(self).samples@,
            final(self).recent_levels@ == old(self).recent_levels@,
            final(self).sample_rate == old(self).sample_rate,
            final(self).channels == old(self).channels,
            final(self).stop_armed == old(self).stop_armed,
            final(self).wf() == old(self).wf(),
    {
        self.error = Some(message);
    }

    /// Store the single-use stop signal at session start.
    pub fn arm_stop(&mut self)
        ensures
            final(self).stop_armed,
            final(self).samples@ == old(self).samples@,
            final(self).recent_levels@ == old(self).recent_levels@,
            final(self).sample_rate == old(self).sample_rate,
            final(self).channels == old(self).channels,
            final(self).error == old(self).error,
            final(self).wf() == old(self).wf(),
    {
        self.stop_armed = true;
    }

    /// Consume the stop signal if it is still armed. The first call returns
    /// true; any later call finds it spent and returns false, so stopping
    /// twice is a no-op.
    pub fn take_stop(&mut self) -> (r: bool)
        ensures
            r == old(self).stop_armed,
            !final(self).stop_armed,
            final(self).samples@ == old(self).samples@,
            final(self).recent_levels@ == old(self).recent_levels@,
            final(self).sample_rate == old(self).sample_rate,
            final(self).channels == old(self).channels,
            final(self).error == old(self).error,
            final(self).wf() == old(self).wf(),
    {
        let was = self.stop_armed;
        self.stop_armed = false;
        was
    }

    /// One stream callback: append a converted batch to the sample buffer
    /// and push the batch's display level onto the recent-levels ring.
    pub fn append_batch(&mut self, batch: &Vec<i16>)
        requires
            old(self).wf(),
        ensures
            final(self).samples@ == old(self).samples@ + batch@,
            final(self).recent_levels@ == ring_push_spec(
                old(self).recent_levels@,
                level_permille_spec(batch@) as u16,
            ),
            final(self).sample_rate == old(self).sample_rate,
            final(self).channels == old(self).channels,
            final(self).error == old(self).error,
            final(self).stop_armed == old(self).stop_armed,
            final(self).wf(),
    {
        self.samples.extend_from_slice(batch.as_slice());
        let level = batch_level_permille(batch.as_slice());
        self.recent_levels.push(level);
    }

    /// Turn the accumulated session into the transport-encoded container.
    ///
    /// Fails when the stream recorded an error, when nothing was captured,
    /// or when the capture misses both the peak and the RMS floor; otherwise
    /// the result is the base64 text of the WAV container holding exactly
    /// the accumulated samples at the recorded format.
    pub fn finish_capture(&self) -> (r: Result<String, CaptureError>)
        ensures
            self.error matches Some(m) ==> (r matches Err(
                CaptureError::RuntimeStreamError(em),
            ) && em@ == m@),
            self.error is None && self.samples@.len() == 0 ==> (r matches Err(e)
                && e is EmptyCapture),
            self.error is None && self.samples@.len() > 0 && near_silent_spec(self.samples@)
                ==> (r matches Err(e) && e is NearSilence),
            self.error is None && self.samples@.len() > 0 && !near_silent_spec(self.samples@)
                && encodable(self.samples@.len() as int, self.sample_rate, self.channels) ==> (
            r matches Ok(text) && text@ == base64_of(
                wav_bytes_spec(self.samples@, self.sample_rate, self.channels),
            )),
            self.error is None && self.samples@.len() > 0 && !near_silent_spec(self.samples@)
                && !encodable(self.samples@.len() as int, self.sample_rate, self.channels) ==> (
            r matches Err(e) && e is EncodeError),
    {
        match &self.error {
            Some(m) => {
                return Err(CaptureError::RuntimeStreamError(m.clone()));
            },
            None => {},
        }
        if self.samples.len() == 0 {
            return Err(
                CaptureError::EmptyCapture(
                    String::from_str(
                        "No audio samples captured. On WSL2, verify host microphone access is enabled for WSL/WSLg.",
                    ),
                ),
            );
        }
        if near_silent(self.samples.as_slice()) {
            return Err(
                CaptureError::NearSilence(
                    String::from_str(
                        "Captured audio is near silence. On WSL2, choose a non-loopback microphone source (prefer 'pulse' or 'RDPSource') and verify Windows microphone privacy access for desktop apps.",
                    ),
                ),
            );
        }
        let wav = match samples_to_wav(&self.samples, self.sample_rate, self.channels) {
            Ok(w) => w,
            Err(e) => {
                return Err(e);
            },
        };
        proof {
            lemma_wav_bytes_len(self.samples@, self.sample_rate, self.channels);
        }
        if wav.len() > usize::MAX / 4 {
            return Err(
                CaptureError::EncodeError(
                    String::from_str("Failed to finalize WAV data: container too large"),
                ),
            );
        }
        Ok(base64_encode(&wav))
    }
}

/// A copy of the recent display levels, oldest first.
pub fn get_recent_levels(state: &AudioCaptureState) -> (r: Vec<u16>)
    ensures
        r@ == state.recent_levels@,
{
    state.recent_levels.to_vec()
}

} // verus!
