# FnType

Push-to-talk dictation for macOS: hold Fn, speak, release, and the transcript is pasted into the
app in front.

`src/` is a library verified with Verus. It holds the decisions of the app and no I/O:

| Module | What it decides |
| --- | --- |
| `text` | Trimming, words, lines, joining, searching |
| `dictionary` | Recognition bias and whole-word replacements |
| `transcript` | Transcript accumulation and when Return may be pressed |
| `audio` | The capture gate, PCM framing, the capture loop |
| `microphone`, `sys_audio` | Which microphone to use, and keeping playback in high quality |
| `ws`, `link` | The realtime connection: request, buffering, heartbeat, reconnecting |
| `coordinator` | A dictation from the press of Fn to the paste |
| `safety` | What holds of every dictation: what is inserted, where, and what never is |
| `keychain`, `config`, `cli`, `menu`, `inject`, `overlay`, `fn_monitor`, `events` | The rest |

The state machines (`Link`, `Coordinator`, `Protection`) take what happened and say what to do;
their contracts give the next state and the actions exactly, over a model of the state. Laws that
relate several functions are the public proof functions whose names begin with `law_`.

`app/` performs the actions: event tap, microphone, socket, windows, files, the polling and
connection time limits, and the floating-point signal processing.

`tests/` runs the library on concrete values.
