use simplestt::stt::{
    detect_acceleration, thread_count, AudioStep, Closing, EnergyLevel, SttEngine, VadState,
    MAX_UTTERANCE_SAMPLES,
};

fn engine(needed: usize, min: usize) -> SttEngine {
    SttEngine::new("es", 5, needed, min, Some(4))
}

#[test]
fn quiet_audio_before_speech_is_ignored() {
    let mut e = engine(3, 10);
    let step = e.process_audio(100, EnergyLevel::Below);
    assert_eq!(step, AudioStep { keep_chunk: false, closing: None });
    let step = e.process_audio(100, EnergyLevel::AtThreshold);
    assert_eq!(step, AudioStep { keep_chunk: false, closing: None });
    assert_eq!(e.vad_state(), VadState::Idle);
    assert_eq!(e.buffered(), 0);
}

#[test]
fn pause_after_speech_requests_transcription() {
    let mut e = engine(2, 150);
    assert_eq!(e.process_audio(100, EnergyLevel::Above), AudioStep { keep_chunk: true, closing: None });
    assert_eq!(e.vad_state(), VadState::Speech);
    assert_eq!(e.process_audio(100, EnergyLevel::Below), AudioStep { keep_chunk: true, closing: None });
    assert_eq!(e.buffered(), 200);
    let step = e.process_audio(100, EnergyLevel::Below);
    assert_eq!(step, AudioStep { keep_chunk: true, closing: Some(Closing::Transcribe) });
    assert_eq!(e.vad_state(), VadState::Idle);
    assert_eq!(e.buffered(), 0);
}

#[test]
fn loud_or_level_chunk_resets_the_pause() {
    let mut e = engine(2, 0);
    e.process_audio(10, EnergyLevel::Above);
    e.process_audio(10, EnergyLevel::Below);
    assert_eq!(e.process_audio(10, EnergyLevel::AtThreshold).closing, None);
    assert_eq!(e.process_audio(10, EnergyLevel::Below).closing, None);
    assert_eq!(e.process_audio(10, EnergyLevel::Below).closing, Some(Closing::Transcribe));
}

#[test]
fn short_utterance_is_dropped() {
    let mut e = engine(1, 1000);
    e.process_audio(100, EnergyLevel::Above);
    let step = e.process_audio(100, EnergyLevel::Below);
    assert_eq!(step, AudioStep { keep_chunk: true, closing: Some(Closing::TooShort) });
    assert_eq!(e.buffered(), 0);
}

#[test]
fn long_utterance_is_cut_at_thirty_seconds() {
    assert_eq!(MAX_UTTERANCE_SAMPLES, 16000 * 30);
    let mut e = engine(1000, 8000);
    e.process_audio(16000, EnergyLevel::Above);
    let mut closed = None;
    let mut chunks = 0;
    while closed.is_none() {
        closed = e.process_audio(16000, EnergyLevel::Above).closing;
        chunks += 1;
    }
    assert_eq!(chunks, 29);
    assert_eq!(closed, Some(Closing::Transcribe));
}

#[test]
fn flush_closes_what_is_buffered_once() {
    let mut e = engine(100, 50);
    assert_eq!(e.flush(), None);
    e.process_audio(80, EnergyLevel::Above);
    assert_eq!(e.flush(), Some(Closing::Transcribe));
    assert_eq!(e.flush(), None);
    assert_eq!(e.vad_state(), VadState::Speech);
    e.process_audio(20, EnergyLevel::Above);
    assert_eq!(e.flush(), Some(Closing::TooShort));
}

#[test]
fn reset_leaves_nothing_to_flush() {
    let mut e = engine(100, 10);
    e.process_audio(80, EnergyLevel::Above);
    e.reset();
    assert_eq!(e.vad_state(), VadState::Idle);
    assert_eq!(e.buffered(), 0);
    assert_eq!(e.flush(), None);
}

#[test]
fn engine_settings() {
    let e = SttEngine::new("auto", 0, 60, 8000, None);
    assert_eq!(e.beam_size(), 1);
    assert_eq!(e.n_threads(), 4);
    assert_eq!(e.language_setting(), None);
    let e = SttEngine::new("es", 7, 60, 8000, Some(16));
    assert_eq!(e.beam_size(), 7);
    assert_eq!(e.n_threads(), 8);
    assert_eq!(e.language_setting(), Some("es".to_string()));
}

#[test]
fn thread_counts() {
    assert_eq!(thread_count(Some(1)), 1);
    assert_eq!(thread_count(Some(6)), 6);
    assert_eq!(thread_count(Some(64)), 8);
    assert_eq!(thread_count(Some(0)), 1);
    assert_eq!(thread_count(None), 4);
}

#[test]
fn acceleration_needs_a_built_backend_and_its_driver() {
    let p = detect_acceleration(false, false, true, true);
    assert!(!p.use_gpu);
    assert_eq!(p.backends, vec!["OpenMP".to_string()]);
    let p = detect_acceleration(true, false, true, false);
    assert!(p.use_gpu);
    assert_eq!(p.backends, vec!["OpenMP".to_string(), "CUDA".to_string()]);
    let p = detect_acceleration(true, true, false, true);
    assert!(p.use_gpu);
    assert_eq!(p.backends.len(), 3);
    let p = detect_acceleration(false, true, true, false);
    assert!(!p.use_gpu);
}
