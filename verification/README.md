# zed_languages

Language support for the Zed editor: which languages it knows, how their
language servers are found, installed and cached, and how their diagnostics and
completions are presented.

- `src/` is the library. It decides and computes, and is verified with
  Verus; what is relied upon of outside code stands at the calls into it.
  - `languages`: the languages, their files and their servers.
  - `release`: the latest version of a server, from GitHub's description.
  - `install`: the installation of a version, as a machine that asks for
    actions and is told how they went.
  - `cache`: the binary to use when none can be fetched.
  - `diagnostics`: mends the code spans in the messages of rust-analyzer.
  - `completion`: lays out the completions of rust-analyzer.
  - `replace`: pattern replacement, through the `regex` crate.
  - `text`: searching and measuring text.
- `app/` connects the library to an editor, the network and the file system.
- `tests/` runs the library on concrete values.
