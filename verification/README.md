# seam_probe

A generic, manifest-driven NDJSON probe for embedded-runtime seams, with
its decision logic written in Verus and proved against its contracts.

* `src/` — the verified library:
  * `hex` — hex digits, lowercase encoding, the whitespace-tolerant decoder.
  * `text` — UTF-8 reading, blank-line detection, the JSON-text check.
  * `output` — the NDJSON lines as values and the outbox collecting them.
  * `manifest` — the FFI manifest and its acceptance rule.
  * `stdin` — the stdin loop shared by both transports.
  * `ffi` — callback slot binding, callback events, op dispatch, shutdown grace.
  * `varint` — LEB128 length prefixes and the varint frame splitter.
  * `socket` — payload building, framing and frame splitting, send and inbound reports.
  * `inspect` — the exported-symbol listing of a shared library.
* `app/` — the `seam-probe` binary: command line, stdin/stdout, `dlopen`,
  C trampolines, the Unix socket and the clock.
* `tests/` — tests of the library on concrete values.
