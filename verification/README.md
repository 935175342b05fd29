# codex_sandbox

Verified decision logic for two parts of the Codex sandbox tooling:

* which Container Device Interface (CDI) devices a sandboxed command gets, and what bubblewrap
  applies of the edits that their specs ask for;
* how the secure devcontainer profile is written into a workspace and launched.

The library in `src/` is written in [Verus](https://github.com/verus-lang/verus). It reads no files
and starts no programs. What only the host can tell comes in as a value; what the host has to do
goes out as one. The CDI part is for Linux, as
bubblewrap is. The devcontainer part leaves the spelling of paths to the host and depends on no
operating system. `app/` is the ordinary Rust around it: the CDI cache, device nodes, files,
programs, the command line and the terminal.

| Module | Content |
| --- | --- |
| `cdi`, `bwrap` | device policy, translation of edits for bubblewrap |
| `cdi_resolver` | what the CDI specs of the selected devices ask for |
| `devcontainer_cmd` | a devcontainer run as a sequence of requests and answers |
| `pattern`, `text`, `os_text`, `model`, `error` | what the above are built from |
| `*_laws` | properties that relate several functions |

Three small functions are trusted rather than proved, and say so where they stand: `wild_match`
(the `wildmatch` crate), `is_whitespace` and `from_utf8_lossy` (the standard library).

Tests are in `tests/`; the devcontainer ones run on a host in memory.
