# turbo_capture

The decisions behind a live-capture pipeline, written in Verus: which window is captured, how a
configuration is validated and replaced, what a viewer is sent and when, how H.264 output is split,
framed and decoded again, how messages are relayed and replayed, how workers are launched, watched
and restarted, and how strings and presets are kept.

Everything under `src/` is verified. Each public function states what it returns or changes over a
mathematical model of its arguments. Properties that span several functions are public proof
functions whose names begin with `law_`.

| Modules | Subject |
| --- | --- |
| `config`, `selector`, `profiles`, `patterns`, `presets` | configurations and window selection |
| `service`, `status`, `events`, `strings`, `metadata` | what viewers and clients are told |
| `video`, `h264`, `avcc`, `wire`, `encoder` | H.264 units, access units and their framing |
| `media`, `frame`, `preview`, `publisher`, `capture`, `source` | one capture session |
| `texture`, `shared_texture`, `device`, `observation` | facts about devices and windows |
| `relay`, `stream`, `youtube_music`, `launch`, `restart`, `proof_run` | processes of a stream |
| `foreground`, `swap`, `audio`, `args` | the remaining workers |
| `names`, `text`, `bytes`, `geometry` | shared vocabulary |

Calls into `std` and into outside crates that the proofs rest on stand in small functions marked
`#[verifier::external_body]`; the comment above each says what is claimed of the call.

`app/` is the program around the library: command line, HTTP and WebSocket endpoints, files, child
processes and threads. It reaches windows, GPU devices and audio endpoints through the traits in
`app/platform.rs`. Computations in floating point stand in `app/floating.rs`.

`tests/` runs the library from outside.
