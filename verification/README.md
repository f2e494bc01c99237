# dwctl

The rules of a control layer for model inference, as a verified library: what
streamed responses are turned into, how secrets and key names are hashed and
kept, what database failures mean, which queries list models and files, how
credits cross zero, how a declared model catalog is applied.

## Layout

- `src/` is the library. Every function states in `requires` and `ensures` what it
  does, and Verus proves it. Laws that relate several functions are public proof
  functions whose names begin with `law_`.
- `app/` is the database access around it: statements, rows, files and metrics.
  It turns rows into values of the library and does what the library decides.
- `tests/` runs the library on concrete values.

## What is believed without proof

Calls into other crates stand behind small functions, each with a contract that
says what is believed of the call:

- `json.rs`: `serde_json` documents, spoken of as trees.
- `crypto.rs`: AES-GCM, SHA-256, base64, hex, random bytes.
- `amount.rs`: comparing and printing `rust_decimal` numbers.
- `ids.rs`: printing a UUID.
- `text.rs`: lower case and quoting, as the standard library has them.
- `rewrap.rs`: the bytes of a `bytes::Bytes`.

Identifiers are 128-bit integers, moments are seconds and nanoseconds, and amounts
are decimal mantissas with a scale. What a database stores in floating point
passes through the library as it is.
