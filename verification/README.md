# doubao-asr

Client, command-line program and OpenAI-compatible server for Doubao IME speech
recognition. The decisions, formats and protocols are a library that Verus
proves against the contracts written beside the code; input and output are
ordinary Rust around it.

The provider endpoints are undocumented and may change without notice.

## Layout

- `src/` — the verified library:
  - `text`, `json`, `error` — texts, JSON strings, failures
  - `sami` — the wire format of the recognition service
  - `audio` — Opus packets out of Ogg pages, and the converter's arguments and exit
  - `identity`, `clock`, `urls` — random identifiers, the time of day, URLs
  - `credentials`, `enrollment`, `config` — the device identity, how it is
    registered and given a token, session settings
  - `storage` — files that are replaced as a whole
  - `provider` — one recognition session: routing, collecting text, uploading
  - `client`, `flow` — options, the credentials in use, the course of a
    transcription with its recovery from rejections
  - `server` — requests, answers, audio input and settings of the HTTP server
- `tests/` — tests of the library
- `app/` — the programs: sockets, files, processes, timers

## How the library is used

Nothing in `src/` waits or touches a file. A `Session`, a `TranscriptionFlow`, an
`Upkeep`, a `ChatFlow` or an `AtomicSave` says what is to be done next; the caller
does it and reports how it went. `OggPacketReader` and `LimitedBody` are handed
bytes as they arrive.

The laws of the library are public proof functions whose names begin with `law_`.
What the library takes on trust from other crates is stated in the doc comments
of the items marked `external_body`, `external_type_specification` and
`assume_specification`.

## Running

`ffmpeg` with the `libopus` encoder has to be in `PATH`. Started as
`doubao-asr-server` the program is the server, under any other name the
command-line program. `--help` lists the options of each.
