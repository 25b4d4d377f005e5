# datasurgeon

Extracts e-mail addresses, IP and MAC addresses, URLs, hashes, credit card and
social security numbers, AWS keys and more from text, line by line.

- `src/` is the verified library:
  - `pattern.rs`: regular expressions through the `regex` crate, and the names
    under which the contracts speak of what the crate computes;
  - `rules.rs`: the built-in rules and which of them a command line selects;
  - `scan.rs`: what one line yields (as a specification) and its laws;
  - `message.rs`: report and CSV header layouts, and the header/row law;
  - `surgeon.rs`: the run state (settings, current file, line count) and its
    operations;
  - `arguments.rs`, `text.rs`: the command line as plain values, decimal text.
- `app/main.rs` is the command-line program: argument parsing (`clap`), file,
  directory (`walkdir`) and standard-input reading, printing and writing.
- `tests/` runs the library on concrete lines.
