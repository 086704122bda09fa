# simplestt

A push-to-talk speech-to-text tool for Windows: press a global hot key (F9 by
default), speak, and each utterance is typed into the focused window.

`src/` is the verified core, checked with Verus:

- `text` — character-level helpers: trimming, word splitting, decimal parsing.
- `hotkey` — parsing hot-key descriptions such as `Ctrl+Alt+F9`.
- `stt` — voice-activity detection: when an utterance starts, ends, and is
  long enough to transcribe.
- `transcript` — joining recognised segments and refusing filler phrases.
- `injection` — spacing between typed utterances, key scan codes.
- `audio` — choosing a microphone over loopback devices.
- `config`, `session`, `overlay` — settings and their defaults, the audio
  worker's per-poll decisions, and the floating button's behaviour.

`app/` holds the program around it: audio capture, the speech model, the
Win32 window, hot-key registration, key injection and the configuration file.
