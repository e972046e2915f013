# caesar

Verified core of the caesar terminal tools (the `veni` file manager and the
`vidi` viewer), written in Verus.

- `src/` — the library. Every function has a contract proved by Verus,
  except four small `#[verifier::external_body]` wrappers around outside
  calls (`String::push`, `str::to_lowercase`, `Path::parent` and ratatui's
  `Layout::split`), whose contracts are believed without proof, beside two
  declared outside types (`std::io::Error`, `std::time::SystemTime`) and
  three names for outside results (`lowercase_of`, `parent_of` and
  `split_parts`), of which the contracts say only what the wrappers give. The
  library covers theme resolution (`theme`), multiplexer detection (`terminal`), pane
  listing order and navigation (`pane`), the text the file manager draws
  (`ui`), its screen layout (`layout`), viewer launch decisions (`launcher`),
  and the error types with their messages (`error`).
- `app/` — the `veni` program: command line, file-system reads, environment
  lookups, terminal drawing with ratatui and child processes.
- `tests/` — tests of the library.
