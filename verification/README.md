# cargo-wipe

A keyboard-driven terminal UI that finds the `target/` directories of Cargo
workspaces and reclaims the disk space they take, built around a library whose
behaviour is proved with [Verus](https://github.com/verus-lang/verus).

## Layout

`src/` is the library. Verus checks every function in it against its contract,
except for the four functions named in the last section.

| Module | What it holds |
|---|---|
| `path` | paths as bytes: components, parent, file name |
| `manifest` | what a `Cargo.toml` declares |
| `scan` | what the walk enters, which manifests are roots, what is listed |
| `workspace` | the list of workspaces and its order |
| `delete` | which paths may be deleted, and what came of it |
| `app` | the state: list, highlight, selection, mode |
| `poll` | what the messages of a scan do to the state |
| `purge` | what a deletion pass does to the state |
| `keys`, `input` | what keys and the clock do to the state |
| `layout`, `screen`, `text` | what the screen shows, and where |
| `start` | where a scan starts |
| `laws`, `scan_laws` | what holds across operations |

`app/` is the program around it: the terminal, the walk over the file system, the
scan thread and the removal of directories. It hands the library plain values and
does what the library answers.

`tests/` runs the library.

## What is taken on trust

Four small functions call code that is not verified, and state what is believed
of it: `path::lossy_text` (`String::from_utf8_lossy`), `text::size_text`
(`bytesize`), `keys::holds_control` (`crossterm`) and `layout::split`
(`ratatui`).
