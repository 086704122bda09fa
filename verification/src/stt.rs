//! The decision core of the transcription engine: voice-activity detection
//! over incoming audio chunks, when an utterance is closed, and whether it is
//! long enough to be transcribed.
//!
//! The engine does not hold the samples themselves: it tracks how many are
//! buffered and tells its caller, chunk by chunk, what to do with the buffer.
use vstd::prelude::*;
use crate::text::chars_eq_str;

verus! {

broadcast use vstd::string::group_string_axioms;

/// Sample rate of the audio the engine is fed, in samples per second.
pub const SAMPLE_RATE: usize = 16000;

/// The longest utterance, in samples, before it is closed regardless of
/// silence: thirty seconds.
pub const MAX_UTTERANCE_SAMPLES: usize = SAMPLE_RATE * 30;

/// Where voice-activity detection stands.
#[derive(Clone, Copy, Debug, PartialEq, Eq, Structural)]
pub enum VadState {
    /// Waiting for speech.
    Idle,
    /// An utterance is under way and being buffered.
    Speech,
    /// The utterance has just ended; it is closed within the same step.
    SilenceAfterSpeech,
}

/// How loud a chunk is against the energy threshold of the microphone preset.
#[derive(Clone, Copy, Debug, PartialEq, Eq, Structural)]
pub enum EnergyLevel {
    /// Its energy is above the threshold.
    Above,
    /// Its energy is below the threshold.
    Below,
    /// Neither above nor below it.
    AtThreshold,
}

/// How a closed utterance ends.
#[derive(Clone, Copy, Debug, PartialEq, Eq, Structural)]
pub enum Closing {
    /// Fewer samples than the preset's minimum: the buffer is dropped.
    TooShort,
    /// The buffer is taken for transcription and emptied.
    Transcribe,
}

/// What the caller does after feeding a chunk: whether the chunk joins the
/// utterance buffer (before anything else), and whether the utterance closes.
#[derive(Clone, Copy, Debug, PartialEq, Eq, Structural)]
pub struct AudioStep {
    pub keep_chunk: bool,
    pub closing: Option<Closing>,
}

/// The engine's state as the contracts see it.
pub struct SttModel {
    pub vad_state: VadState,
    pub silence_frames_count: int,
    pub buffered: int,
    pub silence_frames_needed: int,
    pub min_speech_samples: int,
    pub max_utterance_samples: int,
}

/// How the buffer of `m` ends when the utterance closes.
pub open spec fn closing_of(m: SttModel) -> Closing {
    if m.buffered < m.min_speech_samples {
        Closing::TooShort
    } else {
        Closing::Transcribe
    }
}

/// The state after a chunk of `len` samples at `level`, before an ended
/// utterance is closed, and whether the chunk is buffered.
pub open spec fn detect(m: SttModel, len: int, level: EnergyLevel) -> (SttModel, bool) {
    match m.vad_state {
        VadState::Idle => if level == EnergyLevel::Above {
            (SttModel { vad_state: VadState::Speech, silence_frames_count: 0, buffered: m.buffered + len, ..m }, true)
        } else {
            (m, false)
        },
        VadState::Speech => {
            let buffered = m.buffered + len;
            let silence = if level == EnergyLevel::Below { m.silence_frames_count + 1 } else { 0 };
            let ended = silence >= m.silence_frames_needed || buffered >= m.max_utterance_samples;
            (SttModel {
                vad_state: if ended { VadState::SilenceAfterSpeech } else { VadState::Speech },
                silence_frames_count: silence,
                buffered,
                ..m
            }, true)
        },
        VadState::SilenceAfterSpeech => (m, false),
    }
}

/// One chunk of audio: detection, then, when the utterance has ended, its
/// closing, which empties the buffer and puts the detector back to idle.
pub open spec fn audio_step(m: SttModel, len: int, level: EnergyLevel) -> (SttModel, AudioStep) {
    let (d, keep) = detect(m, len, level);
    if d.vad_state == VadState::SilenceAfterSpeech {
        (
            SttModel { vad_state: VadState::Idle, buffered: 0, ..d },
            AudioStep { keep_chunk: keep, closing: Some(closing_of(d)) },
        )
    } else {
        (d, AudioStep { keep_chunk: keep, closing: None })
    }
}

/// Flushing at the end of a recording: nothing when the buffer is empty,
/// otherwise the buffer closes as an utterance does; detection is left as it was.
pub open spec fn flush_step(m: SttModel) -> (SttModel, Option<Closing>) {
    if m.buffered == 0 {
        (m, None)
    } else {
        (SttModel { buffered: 0, ..m }, Some(closing_of(m)))
    }
}

/// Resetting at the start of a recording: empty buffer, idle, no silence counted.
pub open spec fn reset_model(m: SttModel) -> SttModel {
    SttModel { vad_state: VadState::Idle, silence_frames_count: 0, buffered: 0, ..m }
}

/// The beam width used for transcription: the preset's, at least one.
pub open spec fn effective_beam_size(beam_size: i32) -> i32 {
    if beam_size < 1 { 1 } else { beam_size }
}

/// The number of threads used for transcription: the available parallelism
/// capped at eight, four when it is unknown, and at least one.
pub open spec fn thread_count_for(available: Option<usize>) -> i32 {
    match available {
        Some(n) => if n == 0 { 1 } else if n > 8 { 8 } else { n as i32 },
        None => 4,
    }
}

/// The number of threads to use for transcription.
pub fn thread_count(available: Option<usize>) -> (r: i32)
    ensures
        r == thread_count_for(available),
{
    let n: i32 = match available {
        Some(n) => if n > 8 { 8 } else { n as i32 },
        None => 4,
    };
    if n < 1 { 1 } else { n }
}

/// Which compute back ends the engine was built with, and whether the GPU is used.
pub struct AccelerationProbe {
    pub use_gpu: bool,
    /// Names of the back ends built in, for the log.
    pub backends: Vec<String>,
}

/// The back ends built in: OpenMP always, then CUDA and Vulkan when built.
pub open spec fn backend_names(cuda_built: bool, vulkan_built: bool) -> Seq<Seq<char>> {
    let base = seq!["OpenMP"@];
    let with_cuda = if cuda_built { base.push("CUDA"@) } else { base };
    if vulkan_built { with_cuda.push("Vulkan"@) } else { with_cuda }
}

/// Decides on GPU use from which GPU back ends were built in and which GPU
/// drivers are installed: the GPU is used when a back end was built and the
/// driver of a built back end is present.
pub fn detect_acceleration(
    cuda_built: bool,
    vulkan_built: bool,
    cuda_driver: bool,
    vulkan_driver: bool,
) -> (p: AccelerationProbe)
    ensures
        p.use_gpu == ((cuda_built || vulkan_built) && ((cuda_built && cuda_driver) || (vulkan_built
            && vulkan_driver))),
        p.backends@.map_values(|b: String| b@) == backend_names(cuda_built, vulkan_built),
{
    let mut backends: Vec<String> = Vec::new();
    backends.push(String::from_str("OpenMP"));
    if cuda_built {
        backends.push(String::from_str("CUDA"));
    }
    if vulkan_built {
        backends.push(String::from_str("Vulkan"));
    }
    assert(backends@.map_values(|b: String| b@) =~= backend_names(cuda_built, vulkan_built));
    let gpu_built = cuda_built || vulkan_built;
    let gpu_driver = (cuda_built && cuda_driver) || (vulkan_built && vulkan_driver);
    AccelerationProbe { use_gpu: gpu_built && gpu_driver, backends }
}

/// The decision core of the speech-to-text engine.
pub struct SttEngine {
    language: String,
    n_threads: i32,
    beam_size: i32,
    vad_state: VadState,
    silence_frames_needed: usize,
    silence_frames_count: usize,
    buffered: usize,
    min_speech_samples: usize,
    max_utterance_samples: usize,
}

impl View for SttEngine {
    type V = SttModel;

    closed spec fn view(&self) -> SttModel {
        SttModel {
            vad_state: self.vad_state,
            silence_frames_count: self.silence_frames_count as int,
            buffered: self.buffered as int,
            silence_frames_needed: self.silence_frames_needed as int,
            min_speech_samples: self.min_speech_samples as int,
            max_utterance_samples: self.max_utterance_samples as int,
        }
    }
}

/// The states the engine rests in between calls: never in the middle of
/// closing an utterance, an empty buffer while idle, and a silence count below
/// the preset's threshold while speech is under way.
pub open spec fn resting(m: SttModel) -> bool {
    &&& m.vad_state != VadState::SilenceAfterSpeech
    &&& m.vad_state == VadState::Idle ==> m.buffered == 0
    &&& m.vad_state == VadState::Speech ==> (m.silence_frames_count < m.silence_frames_needed
        || m.silence_frames_count == 0)
}

impl SttEngine {
    #[verifier::type_invariant]
    closed spec fn inv(&self) -> bool {
        resting(self@)
    }

    /// The transcription language, as configured.
    pub closed spec fn spec_language(&self) -> Seq<char> {
        self.language@
    }

    /// The number of transcription threads.
    pub closed spec fn spec_n_threads(&self) -> i32 {
        self.n_threads
    }

    /// The beam width for transcription.
    pub closed spec fn spec_beam_size(&self) -> i32 {
        self.beam_size
    }

    /// A fresh engine for `language`, with the integer settings of a
    /// microphone preset and the machine's available parallelism.
    pub fn new(
        language: &str,
        beam_size: i32,
        silence_frames_needed: usize,
        min_speech_samples: usize,
        available_parallelism: Option<usize>,
    ) -> (e: SttEngine)
        ensures
            e@ == (SttModel {
                vad_state: VadState::Idle,
                silence_frames_count: 0,
                buffered: 0,
                silence_frames_needed: silence_frames_needed as int,
                min_speech_samples: min_speech_samples as int,
                max_utterance_samples: MAX_UTTERANCE_SAMPLES as int,
            }),
            e.spec_language() == language@,
            e.spec_beam_size() == effective_beam_size(beam_size),
            e.spec_n_threads() == thread_count_for(available_parallelism),
    {
        SttEngine {
            language: String::from_str(language),
            n_threads: thread_count(available_parallelism),
            beam_size: if beam_size < 1 { 1 } else { beam_size },
            vad_state: VadState::Idle,
            silence_frames_needed,
            silence_frames_count: 0,
            buffered: 0,
            min_speech_samples,
            max_utterance_samples: MAX_UTTERANCE_SAMPLES,
        }
    }

    /// Feeds one chunk of `len` samples whose energy stands at `level`
    /// against the preset's threshold.
    pub fn process_audio(&mut self, len: usize, level: EnergyLevel) -> (step: AudioStep)
        requires
            old(self)@.buffered + len <= usize::MAX,
        ensures
            (final(self)@, step) == audio_step(old(self)@, len as int, level),
            resting(final(self)@),
            final(self).spec_language() == old(self).spec_language(),
            final(self).spec_beam_size() == old(self).spec_beam_size(),
            final(self).spec_n_threads() == old(self).spec_n_threads(),
    {
        proof {
            use_type_invariant(&*self);
        }
        let mut keep = false;
        let mut state = self.vad_state;
        let mut silence = self.silence_frames_count;
        let mut buffered = self.buffered;
        match self.vad_state {
            VadState::Idle => {
                if level == EnergyLevel::Above {
                    state = VadState::Speech;
                    silence = 0;
                    buffered = buffered + len;
                    keep = true;
                }
            },
            VadState::Speech => {
                buffered = buffered + len;
                keep = true;
                if level == EnergyLevel::Below {
                    silence = silence + 1;
                } else {
                    silence = 0;
                }
                if silence >= self.silence_frames_needed {
                    state = VadState::SilenceAfterSpeech;
                }
                if buffered >= self.max_utterance_samples {
                    state = VadState::SilenceAfterSpeech;
                }
            },
            VadState::SilenceAfterSpeech => {},
        }
        if state == VadState::SilenceAfterSpeech {
            let closing = if buffered < self.min_speech_samples {
                Closing::TooShort
            } else {
                Closing::Transcribe
            };
            self.buffered = 0;
            self.vad_state = VadState::Idle;
            self.silence_frames_count = silence;
            AudioStep { keep_chunk: keep, closing: Some(closing) }
        } else {
            self.silence_frames_count = silence;
            self.vad_state = state;
            self.buffered = buffered;
            AudioStep { keep_chunk: keep, closing: None }
        }
    }

    /// Closes whatever is buffered when recording stops.
    pub fn flush(&mut self) -> (closing: Option<Closing>)
        ensures
            (final(self)@, closing) == flush_step(old(self)@),
            resting(final(self)@),
            final(self).spec_language() == old(self).spec_language(),
            final(self).spec_beam_size() == old(self).spec_beam_size(),
            final(self).spec_n_threads() == old(self).spec_n_threads(),
    {
        proof {
            use_type_invariant(&*self);
        }
        if self.buffered == 0 {
            return None;
        }
        let closing = if self.buffered < self.min_speech_samples {
            Closing::TooShort
        } else {
            Closing::Transcribe
        };
        self.buffered = 0;
        Some(closing)
    }

    /// Drops the buffer and returns to waiting for speech.
    pub fn reset(&mut self)
        ensures
            final(self)@ == reset_model(old(self)@),
            final(self).spec_language() == old(self).spec_language(),
            final(self).spec_beam_size() == old(self).spec_beam_size(),
            final(self).spec_n_threads() == old(self).spec_n_threads(),
    {
        proof {
            use_type_invariant(&*self);
        }
        self.buffered = 0;
        self.vad_state = VadState::Idle;
        self.silence_frames_count = 0;
    }

    /// Where voice-activity detection stands.
    pub fn vad_state(&self) -> (r: VadState)
        ensures
            r == self@.vad_state,
    {
        self.vad_state
    }

    /// How many samples the utterance buffer holds.
    pub fn buffered(&self) -> (r: usize)
        ensures
            r == self@.buffered,
    {
        self.buffered
    }

    /// The beam width for transcription.
    pub fn beam_size(&self) -> (r: i32)
        ensures
            r == self.spec_beam_size(),
    {
        self.beam_size
    }

    /// The number of threads for transcription.
    pub fn n_threads(&self) -> (r: i32)
        ensures
            r == self.spec_n_threads(),
    {
        self.n_threads
    }

    /// The language to ask the model for: `None` when it is `"auto"`, which
    /// asks the model to detect the language itself.
    pub fn language_setting(&self) -> (r: Option<String>)
        ensures
            match r {
                Some(l) => self.spec_language() != "auto"@ && l@ == self.spec_language(),
                None => self.spec_language() == "auto"@,
            },
    {
        let v = crate::text::chars_of(self.language.as_str());
        if chars_eq_str(&v, "auto") {
            None
        } else {
            Some(self.language.clone())
        }
    }
}

/// Every step leaves the engine resting: it never stays in the middle of
/// closing an utterance, and the buffer is empty whenever it is idle.
pub proof fn law_steps_keep_engine_resting(m: SttModel, len: int, level: EnergyLevel)
    requires
        resting(m),
        len >= 0,
    ensures
        resting(audio_step(m, len, level).0),
        resting(flush_step(m).0),
        resting(reset_model(m)),
{
}

/// Quiet audio before speech is never buffered: an idle engine given a chunk
/// that is not above the threshold keeps nothing and does not change.
pub proof fn law_idle_ignores_quiet_audio(m: SttModel, len: int, level: EnergyLevel)
    requires
        m.vad_state == VadState::Idle,
        level != EnergyLevel::Above,
    ensures
        audio_step(m, len, level) == (m, AudioStep { keep_chunk: false, closing: None }),
{
}

/// Closing an utterance always empties the buffer, and asks for a
/// transcription exactly when the buffer held at least the preset's minimum.
pub proof fn law_closing_empties_buffer(m: SttModel, len: int, level: EnergyLevel)
    requires
        resting(m),
        len >= 0,
    ensures
        audio_step(m, len, level).1.closing is Some ==> audio_step(m, len, level).0.buffered == 0
            && audio_step(m, len, level).0.vad_state == VadState::Idle,
        audio_step(m, len, level).1.closing == Some(Closing::Transcribe) ==> m.buffered + len
            >= m.min_speech_samples,
        flush_step(m).1 is Some ==> flush_step(m).0.buffered == 0,
        flush_step(m).1 == Some(Closing::Transcribe) ==> m.buffered >= m.min_speech_samples,
{
}

/// An utterance never grows past the preset's maximum: a chunk that brings
/// the buffer to the maximum closes the utterance.
pub proof fn law_utterance_length_capped(m: SttModel, len: int, level: EnergyLevel)
    requires
        resting(m),
        m.vad_state == VadState::Speech,
        len >= 0,
        m.buffered + len >= m.max_utterance_samples,
    ensures
        audio_step(m, len, level).1.closing is Some,
{
}

/// A pause as long as the preset asks for ends the utterance: in speech, once
/// the number of consecutive quiet chunks reaches the threshold, the utterance closes.
pub proof fn law_silence_ends_utterance(m: SttModel, len: int)
    requires
        m.vad_state == VadState::Speech,
        m.silence_frames_count + 1 >= m.silence_frames_needed,
    ensures
        audio_step(m, len, EnergyLevel::Below).1.closing is Some,
{
}

/// After a reset nothing is left to flush.
pub proof fn law_reset_then_flush_is_empty(m: SttModel)
    ensures
        flush_step(reset_model(m)).1 is None,
        flush_step(reset_model(m)).0 == reset_model(m),
{
}

/// Flushing twice closes at most once: a second flush finds nothing.
pub proof fn law_flush_is_idempotent(m: SttModel)
    ensures
        flush_step(flush_step(m).0).1 is None,
        flush_step(flush_step(m).0).0 == flush_step(m).0,
{
}

/// The pause that ends an utterance is a run of consecutive quiet chunks: in
/// speech, a chunk that is not below the threshold sets the count of quiet
/// chunks back to zero.
pub proof fn law_loud_chunk_resets_pause(m: SttModel, len: int)
    requires
        resting(m),
        m.vad_state == VadState::Speech,
        len >= 0,
    ensures
        audio_step(m, len, EnergyLevel::Above).0.silence_frames_count == 0,
        audio_step(m, len, EnergyLevel::AtThreshold).0.silence_frames_count == 0,
{
}

/// After a loud chunk in speech, one quiet chunk ends the utterance only when
/// the preset asks for at most one quiet chunk, or the buffer reaches the
/// maximum length.
pub proof fn law_one_quiet_chunk_after_speech(m: SttModel, loud_len: int, quiet_len: int)
    requires
        resting(m),
        m.vad_state == VadState::Speech,
        loud_len >= 0,
        quiet_len >= 0,
    ensures
        ({
            let after_loud = audio_step(m, loud_len, EnergyLevel::Above).0;
            after_loud.vad_state == VadState::Speech ==> (audio_step(
                after_loud,
                quiet_len,
                EnergyLevel::Below,
            ).1.closing is Some <==> (after_loud.silence_frames_needed <= 1 || after_loud.buffered
                + quiet_len >= after_loud.max_utterance_samples))
        }),
{
}

/// A quiet chunk in speech counts one more quiet chunk than before.
pub proof fn law_quiet_chunk_counts_one_more(m: SttModel, len: int)
    requires
        resting(m),
        m.vad_state == VadState::Speech,
        len >= 0,
    ensures
        detect(m, len, EnergyLevel::Below).0.silence_frames_count == m.silence_frames_count + 1,
        audio_step(m, len, EnergyLevel::Below).0.silence_frames_count == m.silence_frames_count + 1,
{
}

/// Speech starts on a loud chunk: an idle engine given a chunk above the
/// threshold keeps it and enters speech with that chunk alone buffered and no
/// quiet chunk counted; the maximum length is checked from the next chunk on.
pub proof fn law_loud_chunk_starts_speech(m: SttModel, len: int)
    requires
        resting(m),
        m.vad_state == VadState::Idle,
        len >= 0,
    ensures
        audio_step(m, len, EnergyLevel::Above).1 == (AudioStep { keep_chunk: true, closing: None }),
        audio_step(m, len, EnergyLevel::Above).0.vad_state == VadState::Speech,
        audio_step(m, len, EnergyLevel::Above).0.buffered == len,
        audio_step(m, len, EnergyLevel::Above).0.silence_frames_count == 0,
{
}

/// During speech every chunk joins the buffer, and the utterance goes on
/// unless the pause reaches the preset's count or the buffer reaches the
/// maximum length.
pub proof fn law_speech_keeps_chunks_until_pause_or_cap(m: SttModel, len: int, level: EnergyLevel)
    requires
        resting(m),
        m.vad_state == VadState::Speech,
        len >= 0,
    ensures
        audio_step(m, len, level).1.keep_chunk,
        audio_step(m, len, level).1.closing is Some <==> ((level == EnergyLevel::Below
            && m.silence_frames_count + 1 >= m.silence_frames_needed) || (level != EnergyLevel::Below
            && m.silence_frames_needed <= 0) || m.buffered + len >= m.max_utterance_samples),
        audio_step(m, len, level).1.closing is None ==> audio_step(m, len, level).0.buffered
            == m.buffered + len && audio_step(m, len, level).0.vad_state == VadState::Speech,
{
}

/// A closed utterance is transcribed exactly when it holds at least the
/// preset's minimum number of samples, and dropped otherwise.
pub proof fn law_closing_kind_follows_length(m: SttModel, len: int, level: EnergyLevel)
    requires
        resting(m),
        m.vad_state == VadState::Speech,
        len >= 0,
    ensures
        audio_step(m, len, level).1.closing == Some(Closing::Transcribe) <==> (audio_step(
            m,
            len,
            level,
        ).1.closing is Some && m.buffered + len >= m.min_speech_samples),
        audio_step(m, len, level).1.closing == Some(Closing::TooShort) <==> (audio_step(
            m,
            len,
            level,
        ).1.closing is Some && m.buffered + len < m.min_speech_samples),
{
}

/// Flushing hands on the buffered samples, transcribed when there are at
/// least the preset's minimum and dropped when fewer; it does nothing on an
/// empty buffer, and never changes where detection stands.
pub proof fn law_flush_outcome(m: SttModel)
    requires
        resting(m),
        m.buffered >= 0,
    ensures
        flush_step(m).1 is None <==> m.buffered == 0,
        flush_step(m).1 == Some(Closing::Transcribe) <==> (m.buffered > 0 && m.buffered
            >= m.min_speech_samples),
        flush_step(m).1 == Some(Closing::TooShort) <==> (m.buffered > 0 && m.buffered
            < m.min_speech_samples),
        flush_step(m).0.vad_state == m.vad_state,
        flush_step(m).0.silence_frames_count == m.silence_frames_count,
        flush_step(m).0.buffered == 0,
{
}

/// A reset empties the buffer, returns to waiting for speech and forgets the
/// quiet chunks counted, keeping the preset's settings.
pub proof fn law_reset_outcome(m: SttModel)
    ensures
        reset_model(m).vad_state == VadState::Idle,
        reset_model(m).buffered == 0,
        reset_model(m).silence_frames_count == 0,
        reset_model(m).silence_frames_needed == m.silence_frames_needed,
        reset_model(m).min_speech_samples == m.min_speech_samples,
        reset_model(m).max_utterance_samples == m.max_utterance_samples,
{
}

/// The transcription threads: the available parallelism, at least one and at
/// most eight, or four when it is unknown; the beam width is at least one and
/// otherwise the preset's.
pub proof fn law_transcription_settings(available: Option<usize>, beam_size: i32)
    ensures
        1 <= thread_count_for(available) <= 8,
        available is None ==> thread_count_for(available) == 4,
        forall|n: usize| available == Some(n) && 1 <= n <= 8 ==> thread_count_for(available) == n,
        forall|n: usize| available == Some(n) && n > 8 ==> thread_count_for(available) == 8,
        effective_beam_size(beam_size) >= 1,
        beam_size >= 1 ==> effective_beam_size(beam_size) == beam_size,
{
}

} // verus!
