# sourcetrait_backup

The verified core of the SourceTrait backup tools, written in Verus.

- `bak`: ad hoc `.bak` copies of single files. `src/bak/rotation.rs` plans
  the rotation of copies (`FILE.bak`, `FILE.bak.N`) from a listing of the
  directory; `src/bak/laws.rs` proves what a rotation keeps; `mirror.rs`
  computes where copies go in the tool's data directory; `session.rs` holds
  the decisions of the `list`, `wipe` and `diff` commands.
- `backup`: the rotational backup system. `src/backup/layout.rs` is the
  storage layout, `setup.rs` the preparation and setup of storage
  directories (locally and on remotes, as a state machine), `ssh.rs` the
  remote commands, `archive.rs` and `sync.rs` the steps of the archive and
  synchronization jobs, `laws.rs` the laws of the layout.
- `cross`: the platform layer's errors and per-platform decisions.
- `text`, `path`, `order`: characters, Unix paths and their orders. Text
  follows `str`; paths follow `std::path` on components, and are written in
  normal form (rendered from their components, so `a/./b` is `a/b`).

The library decides; the caller performs the file and process operations.
`app/` is the `bak` program around it. `app/storage.rs` carries out the
setup plans of the backup storage layout; the backup program's command line
is not among these sources, so nothing calls it yet.
