# oh_my_sftp

The logic of an SSH/SFTP terminal tool, verified with Verus: the
`~/.ssh/config` parser, merging saved connections, Unix path handling, the
keyboard state machine of the interface and its built-in commands, the
transfer queue, the steps of SSH authentication, and reading the outputs of
remote resource commands.

Layout:

- `src/text.rs` — whitespace, trimming, lines, words, decimal numbers.
- `src/path.rs` — `join`, `file_name`, `parent`, home expansion, shortened paths.
- `src/connection.rs` — connections, transfers, panels, config entries.
- `src/ssh_config.rs` — the line-by-line `~/.ssh/config` parser.
- `src/config.rs` — settings, the saved configuration, merging.
- `src/sftp.rs` — directory entries and the transfer queue.
- `src/app.rs`, `src/event.rs` — interface state and key handling.
- `src/resource.rs` — the outputs of the resource commands.
- `src/ssh.rs` — stored passwords and the authentication steps.
- `src/trusted.rs` — the calls into outside crates, with their believed contracts.
- `app/` — the terminal program: files, network, pseudo-terminal, drawing.
