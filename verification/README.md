# cpu-mode

A command-line client for [cpu.mode](https://cpu.mattstuchlik.com), a benchmark judge for tiny
systems-code challenges.

- `src/` is the library, in Verus: the requests that the commands stand for, what is shown of
  their answers, the login, the waiting for jobs, the token and where it comes from. What holds
  of the library as a whole is stated and proved in `src/properties.rs`.
- `app/` is the program: the command line, the network and the files.
- `tests/` runs the library.

What the library takes on trust of other crates stands beside the calls: `src/wire.rs` and
`src/json.rs` (JSON), `src/client.rs` (URLs), `src/request.rs` (percent-encoding), `src/text.rs`
(`String::push`).

A run uses the token in `CPU_MODE_TOKEN`, or else the one in the file that `CPU_MODE_TOKEN_FILE`
names, or else the one that `cpu-mode auth login` stored.
