# codex-akram front-end core

The verified core of codex-akram's terminal front end, written in Verus.

- `src/versions.rs`: release-tag and `--version` parsing, and semantic-version
  comparison through the `semver` crate.
- `src/viewport.rs`: the conversation viewport of the owned full screen, as a
  state machine over the shown cells, the pager's items and the live tail, and
  the rows of a user's message wrapped through the `textwrap` crate.
- `src/welcome.rs`, `src/geometry.rs`, `src/keys.rs`: the welcome's layout,
  key labels and noise.
- `src/owned_screen.rs`: the frame layout and the welcome-or-conversation choice.
- `src/identity.rs`: the fork's names, version, directories and release addresses.
- `src/text.rs`: whitespace, words and lines of text, as `str` finds them.
- `app/`: drawing with ratatui, the update loop, and `anyhow` errors.
