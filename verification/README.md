# cantrip

Client library and command-line program for the Cantrip daemon, verified
with Verus.

- `src/` is the verified library: the commands (`cli`), the request envelope
  each command sends (`request`, over the flag table in `flags`), the rules
  that pick the daemon URL, the API key and the default project
  (`credentials`), the reading of the daemon's replies from their text
  (`reply`), the JSON model with the calls into `serde_json` that parse and
  print it (`json`), the human and Markdown renderings (`output`) and the
  text forms of the meter replies (`meter`), character-level string
  operations (`text`), and properties that span these (`laws`).
- `app/` is the program: argument parsing, the credential file, HTTP, the
  password prompt and printing.
- `tests/` exercise the library on concrete values.
