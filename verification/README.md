# Diagnostic Triage

The logic of a diagnostic triage tool, written in Rust and verified with Verus: what a diagnostic
provider may be sent and may answer, how a child process is kept within its limits, what becomes of
untrusted text before it reaches an issue draft, and how a report is rendered.

## Layout

- `src/` is the library. Every function in it is verified against its contract.
  - `sanitize`: untrusted text, neutralized and with secrets and private paths taken out.
  - `process`: child processes as state machines. A step says what has to be done next; what came
    of it is handed back.
  - `config`, `orchestration`, `execution`, `command`: configurations, plans, and what their runs
    come to.
  - `reporters`: canonical JSON, tab-separated values, annotations and issue drafts.
  - `python`, `rust`: the two providers, from the request to the last line of the answer.
  - `protocol`, `model`: the records.
  - `json`, `identifier`, `numeral`, `order`, `path`, `text`, `time`, `utf8`: what the rest rests on.
- `app/` surrounds the library with processes, files, standard streams and configuration files. The
  record contracts and the engine are handed to it through traits.
- `tests/` runs the library on concrete values, against scripted children.

Properties that relate several functions are stated and proved as `law_` functions next to what
they speak of.

## What is trusted

The library rests on what it states of a few functions that it does not define: the character
classes and `String::push` of the standard library, `str::from_utf8`, `url::Url::parse`,
`camino::Utf8Path::starts_with`, `serde_json::to_string` on text, and what `serde_json` says of bytes:
that they are no JSON, or which text an object in them has under a name.
Each of these statements stands above the call that it is about.
