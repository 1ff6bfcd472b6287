# jsnabber-core

A sandbox harness for behavioural analysis of untrusted JavaScript, written
in Verus. A script is scanned for suspicious patterns, then run in an
embedded QuickJS engine under instruction, memory and wall-clock budgets,
with its calls to sensitive APIs recorded in a bounded circular log; the
recorded events are counted by name and, together with entropy measures,
lead to an obfuscation level and a classification.

Layout:

- `src/` — the verified library: limits, environments, the circular event
  log, the pattern scan and its risk score, feature extraction and the
  classification rules, the sandbox and its comparison of runs across
  environments, and the QuickJS engine (`engine/`), whose calls into
  `rquickjs`, `regex`, `base64` and `rand_pcg` stand behind small trusted
  wrappers.
- `tests/` — tests of the library on concrete inputs.
- `app/` — ordinary Rust around the library: entropy (floating point),
  serialisable copies of the library's types, the module stubs of the native
  engine, and, on WebAssembly, the `quickjs-wasm-rs` engine and the
  Cloudflare Worker.
