use simplestt::audio::{looks_like_loopback, select_input_device, DeviceChoice, DeviceError};
use simplestt::config::{
    default_model_path, is_model_file_name, AudioConfig, HotkeyConfig, ModelFile, UiConfig,
};
use simplestt::session::worker_phase;

fn names(list: &[&str]) -> Vec<String> {
    list.iter().map(|s| s.to_string()).collect()
}

#[test]
fn loopback_names() {
    assert!(looks_like_loopback("Stereo Mix (Realtek Audio)"));
    assert!(looks_like_loopback("What U Hear (Sound Blaster)"));
    assert!(looks_like_loopback("Monitor LOOPBACK"));
    assert!(looks_like_loopback("Wave Out Mix"));
    assert!(looks_like_loopback("Mixer"));
    assert!(!looks_like_loopback("Microphone (USB Audio)"));
    assert!(!looks_like_loopback(""));
}

#[test]
fn first_microphone_is_chosen() {
    let list = names(&["Stereo Mix", "Headset Microphone", "Webcam Mic"]);
    assert_eq!(select_input_device(&list, true, None), Ok(DeviceChoice::Listed(1)));
}

#[test]
fn preferred_fragment_is_matched_case_insensitively() {
    let list = names(&["Headset Microphone", "Webcam Mic"]);
    assert_eq!(select_input_device(&list, true, Some("  WEBCAM ")), Ok(DeviceChoice::Listed(1)));
    assert_eq!(select_input_device(&list, true, Some("   ")), Ok(DeviceChoice::Listed(0)));
}

#[test]
fn microphone_only_refuses_loopback() {
    let list = names(&["Stereo Mix", "Headset Microphone"]);
    let r = select_input_device(&list, true, Some("studio"));
    assert_eq!(r, Err(DeviceError::NoMicrophone));
    assert_eq!(
        DeviceError::NoMicrophone.message(),
        "no valid microphone input found (only loopback-like devices were detected)"
    );
}

#[test]
fn loopback_fallback_and_default() {
    let list = names(&["Headset", "Stereo Mix", "What U Hear"]);
    assert_eq!(select_input_device(&list, false, Some("studio")), Ok(DeviceChoice::LoopbackFallback(1)));
    assert_eq!(select_input_device(&names(&[]), false, None), Ok(DeviceChoice::SystemDefault));
    assert_eq!(select_input_device(&names(&["Headset"]), false, Some("studio")), Ok(DeviceChoice::SystemDefault));
    assert_eq!(select_input_device(&names(&[]), true, None), Err(DeviceError::NoMicrophone));
}

#[test]
fn defaults() {
    assert_eq!(HotkeyConfig::default().start_stop, "F9");
    let ui = UiConfig::default();
    assert_eq!((ui.opacity, ui.size), (220, 48));
    let audio = AudioConfig::default();
    assert!(audio.microphone_only);
    assert_eq!(audio.preferred_input_device, "");
    assert_eq!(audio.worker_sleep_ms, 10);
}

#[test]
fn audio_settings_for_the_worker() {
    let mut audio = AudioConfig::default();
    assert_eq!(audio.preferred_device(), None);
    audio.preferred_input_device = " \t".to_string();
    assert_eq!(audio.preferred_device(), None);
    audio.preferred_input_device = " USB ".to_string();
    assert_eq!(audio.preferred_device(), Some(" USB ".to_string()));
    assert_eq!(audio.worker_sleep(), 10);
    audio.worker_sleep_ms = 0;
    assert_eq!(audio.worker_sleep(), 1);
}

#[test]
fn worker_phases() {
    let p = worker_phase(false, true);
    assert!(p.start_capture && !p.finish_recording && p.capture);
    let p = worker_phase(true, false);
    assert!(!p.start_capture && p.finish_recording && !p.capture);
    let p = worker_phase(true, true);
    assert!(!p.start_capture && !p.finish_recording && p.capture);
    let p = worker_phase(false, false);
    assert!(!p.start_capture && !p.finish_recording && !p.capture);
}

#[test]
fn model_file_names() {
    assert!(is_model_file_name("ggml-base.bin"));
    assert!(is_model_file_name("..bin"));
    assert!(!is_model_file_name(".bin"));
    assert!(!is_model_file_name("model.bin.txt"));
    assert!(!is_model_file_name("model.BIN"));
    assert!(!is_model_file_name("bin"));
}

#[test]
fn default_model_is_first_bin_file() {
    let file = |name: &str, path: Option<&str>| ModelFile {
        file_name: name.to_string(),
        path: path.map(|p| p.to_string()),
    };
    let files = vec![
        file("readme.txt", Some("models/readme.txt")),
        file("odd.bin", None),
        file("ggml-base.bin", Some("models/ggml-base.bin")),
        file("ggml-small.bin", Some("models/ggml-small.bin")),
    ];
    assert_eq!(default_model_path(&files), "models/ggml-base.bin");
    assert_eq!(default_model_path(&vec![]), "models/ggml-large-v3-turbo.bin");
    assert_eq!(
        default_model_path(&vec![file(".bin", Some("models/.bin"))]),
        "models/ggml-large-v3-turbo.bin"
    );
}
