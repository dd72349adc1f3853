# nelfie

The verified core of Nelfie, a Discord bot that chats through a language
model, runs tools for it, and reads messages aloud with VOICEVOX.

- `src/` is a Verus library: every function has a contract that Verus proves,
  and the laws of the library are public proof functions (`lemma_*`). It
  holds the speech-text pipeline (markup, kana reading, dictionary, shaping,
  segmentation), the voice catalog, the WAV panning, the order of segment
  synthesis and playback, the settings, the per-user store and its saved form,
  the conversation context, the tool argument readers, schemas, request plans and
  answers, the rounds of a streamed model reply, the Gemini schema rewrite, the
  reading of a Gemini reply and the `gemini-auto` failover, the start-up
  decisions of the VOICEVOX runtime (artifacts, release, version filter), and
  the decisions of the Discord handlers and commands. Calls into other crates (`regex`, `chrono`, `chrono-tz`,
  `serde_json`, `base64`, `dashmap`, `async-openai` types) go through a few trusted
  wrappers whose contracts are stated next to them.
- `app/` is the program around it: environment, the Discord client and its
  commands (`poise`/`serenity`), the requests to the model APIs
  (`async-openai` streaming, `reqwest` for Gemini), the Discord requests the
  tools make, the user file, and the float parts of the audio path.
- `tests/` exercises the library on concrete values.
