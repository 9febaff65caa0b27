# speakflow

A local-first speaking coach. A language model on your own machine proposes an
exercise, you answer it aloud, the answer is transcribed locally, a few follow-up
questions are asked, and then you get feedback that rests on measured delivery.

- `src/` is the verified library: what the coach decides. It holds the session as a
  state machine, reads replies and transcripts, counts pauses and filler words, and
  keeps personas and past sessions. What is outside, such as the microphone, the
  model and the screen, is reached through actions that each step returns.
- `app/` draws the window and does what the library asks for.
- `tests/` runs the library.

## Modules

| module | what it holds |
| --- | --- |
| `app` | the session, its stages and the actions |
| `workers` | steps when a reply, a recording, a transcript or a measurement comes in |
| `screens` | steps of a session when something is pressed or time runs out |
| `manage` | steps on the screens for past sessions, personas and the configuration |
| `labels` | texts on the screens |
| `coach` | prompts for the model, and reading its replies |
| `llm` | messages, and the stream of a reply |
| `analysis` | loudness, pauses, filler words and metrics |
| `stt`, `tts`, `tools` | the programs for transcripts and speech, and playback |
| `audio` | the microphone and the layout of its samples |
| `personas`, `draft` | personas, and editing them |
| `history`, `rows`, `calendar` | past sessions, their log and their dates |
| `text` | white space, lines, words and numbers |
