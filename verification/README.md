# echo

Wake-word listening and the Qwen3-ASR engine of the Echo dictation app. Every
decision is made by verified code in `src/`; `app/` performs what it decides.

**Wake listening**

- `detector`: is the wake phrase the prefix of a transcript, and what follows it
- `machine`: the states `Off`, `Armed`, `Capturing`, `Transcribing`, `Activated`
- `session`: one queue for hotkey, audio, transcripts and timers
- `settings`: the settings and the commands that change them

**Qwen3-ASR**

- `runtime`, `install`, `download`, `installer`: the pinned runtime, the steps of
  its install, its verified downloads, and both together
- `sidecar`, `transcription`, `language`: the worker process, its requests and
  responses, and one transcription
- `json`, `digest`, `text`: JSON values, SHA-256, and text by characters

The machines are functions from a state and an event to a state and an action.
A `step` (or `transition`) specifies each, the executable methods are proved to
follow it, and the functions named `law_...` state what holds of all of them.
What is taken on trust stands in `json`, `digest` and `text`: each such function
makes one call to `serde_json`, `sha2` or the standard library, and says what it
claims of it.
