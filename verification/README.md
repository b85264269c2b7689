# traffic-replayer

Replays HTTP traffic from NDJSON logs to a target service: it filters the recorded
requests, removes personal data from them, sends them and counts what comes back.

- `src/` is the library. It is written in Verus, and every function in it but the calls
  into other crates is proved against its contract.
- `app/` is the command-line program around it: flags, files, S3, the HTTP client, the
  asynchronous loop, and the output.
- `tests/` run the library on concrete values.

## The library

| Module | What it holds |
|---|---|
| `cli`, `config`, `input` | flags, the validated configuration, the choice of a source |
| `filters` | which records are replayed |
| `sanitize` | what is removed from headers, query and JSON body, and the request that is left |
| `replay::pipeline` | how a run goes from one line to the next, and how lines are counted |
| `replay::sender`, `replay::client` | what is sent, with which settings, and what comes of it |
| `stats`, `latency`, `counts` | counters, latency percentiles, kinds of errors |
| `summary` | the lines of the summary and the exit code |
| `json`, `headers`, `models`, `error`, `keys`, `text` | the data that the others work on |

Calls into other crates (`serde_json`, `indexmap`, `http`, `bytes`, `base64`,
`hdrhistogram`, `reqwest`) stand in small functions marked
`#[verifier::external_body]`. What is believed of each is in its contract, and in words
in the comment above it.

## What is proved beyond single functions

- Sanitizing a query keeps its pairs, their order and their keys, leaves no sensitive
  value, changes nothing harmless, and is idempotent.
- Redacting a JSON value leaves nothing sensitive at any depth outside exempt fields,
  changes nothing that is clean, and is idempotent.
- No request carries a sensitive header, or a sensitive query parameter, that is not
  exempt. Records that differ only in sensitive values are sent as the same request.
- A chain of filters lets through what all of its filters let through.
- Every outcome is counted once, as a success or as a failure, in whatever order the
  outcomes arrive.
- Every line that is read is counted once, by the way it ends, and a run never exceeds
  its limit of records.
