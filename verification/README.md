# mimirdlp

The decisions behind MimirDLP, a desktop front end for yt-dlp, as a verified library.

- `src/` is the library. Every function has a contract that Verus proves, but for the few small
  wrappers around OpenPGP, SHA-256 and the standard library (marked `external_body` or
  `assume_specification`), whose contracts are believed. Nothing in it touches the disk, the network
  or the window: what those have to do comes out as plain values, and what they answer goes back in
  as plain values.
  - `provision/`: which tools are installed, where they come from, which checksum file is believed,
    and the steps of an installation and of an update check.
  - `process`: when a running tool is waited for, killed and read.
  - `metadata`: what is asked of yt-dlp about a link, and what is made of the answer.
  - `config`: the settings.
  - `gui/`: the Download and Settings pages, as states that answer messages and as descriptions of
    what is shown; `gui/laws.rs` holds what is true of the queue whatever happens.
  - `text`, `seqs`, `log`: what the rest is written with.
- `tests/` runs the compiled library, with the real OpenPGP and SHA-256 crates behind it.
- `app/` is the ordinary Rust around it: processes, files and the window.
