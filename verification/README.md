# piggyback

The logic of a voice-driven learning app for children: a parent or kid says
"Hey Jarvis", asks for videos, assigns them, and answers comprehension
questions about what they watched.

`src/` is a Verus library. Every function in it is verified against its
`requires`/`ensures` contract:

- `text/` — characters, words, trimming, normalisation, noise detection,
  substring search and replacement, decimal forms, spoken names.
- `voice/` — intents and the keyword classifier, wake-word detection,
  command resolution, the session state, the enrollment state machine,
  utterance chunking from voice-activity decisions, the routing of
  transcripts in the capture loop, and the speech-to-text bookkeeping.
- `handlers/` — answer matching, kid resolution and interest extraction,
  question segments and rows, search results and subtitles, frame
  timestamps and scene times, tag names.
- `utils/` — voice-key hex and AES-256-GCM sealing, gaze events, the
  question prompt and frame sampling, the embed server's responses, and
  downloaded-video records.
- `commands/` — the screening of an utterance sent by the frontend.

Calls into outside crates (`aes-gcm`, `hex`, `rand`, `base64`) and into std
functions without a vstd specification stand behind small trusted wrappers
whose doc comments say what their contracts assume.

`app/` is the desktop application around the library (Tauri commands, the
database, microphone and camera loops, model inference, external processes).
It is ordinary Rust and is not verified.

`tests/` runs the library on concrete inputs.
