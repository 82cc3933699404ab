# herdr_windows

The Windows client of the herdr terminal multiplexer, with a core that is verified with
Verus.

- `src/` is the core: it computes and decides, and every function of it carries a
  contract. Functions named `law_..` are proofs of what holds of several functions
  together.
- `app/` is ordinary Rust around the core: system calls, ssh and curl processes, files,
  sockets and JSON.
- `tests/` runs the core on concrete values.

| Modules | What they are about |
| --- | --- |
| `process_tree`, `foreground`, `process` | the processes of a pane, and single ones |
| `dib`, `clipboard` | clipboard bitmaps and text |
| `commands` | custom commands, the editor, opening addresses |
| `args` | the options of a remote session |
| `shell`, `ssh` | quoting, ssh commands and their configuration, the bridge |
| `host`, `discovery`, `prepare` | finding or installing a binary on a host |
| `manifest`, `install` | released binaries, and putting one in place |
| `server`, `readiness` | the server on a host, and making it ready |
| `text`, `utf16`, `table`, `report` | texts, maps, errors |

Work that alternates between the host, the user and decisions is written as a stage, a
request that the stage makes, and a function from a stage and an event to the next stage
(`discovery`, `prepare`, `readiness`). A loop outside of the core performs the requests.
