# sshdash

The core of a terminal dashboard for many SSH sessions, with an SFTP file browser.

- `src/` is the library. Its functions are verified with Verus against the contracts in their
  headers, but for the items below; the `law_` proof functions state what holds across functions.
  - `dashboard`, `session`, `metrics`: the grid of sessions, focus mode and its panels.
  - `file_browser`: the browser's state, the requests it makes and what it does with the replies.
  - `listing`, `order`: what of a reported directory is shown, and in which order.
  - `paths`, `text`, `size_text`: paths, strings and sizes.
- `app/` runs the library: shared sessions on a tokio runtime, and the requests over SFTP.
- `tests/` runs the library on concrete values.

The library never waits. Where a server has to be asked, a function returns the request, and its
`complete_` counterpart takes the reply.

## What is not proved

The proofs rest on these contracts for code outside the library, each of which is believed as its
doc comment states it:

- `listing::reports_directory`, which asks `russh_sftp` whether permission bits are a directory's.
- `text::decode_lossy`, which calls `String::from_utf8_lossy`, and the name `text::lossy_text` for
  its result.
- The specifications of `String::push`, `String::clear` and `str::to_lowercase` in `text`, and the
  name `text::lowercase` for the result of the last.
- The specification of `vt100::Parser::new` in `session`, the declaration of `vt100::Parser` there,
  and the name `session::blank_screen` for a new parser.
