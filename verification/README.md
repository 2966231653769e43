# hmm

`hmm` runs a command in a workspace: a copy-on-write clone of the working
directory that the command may change as it likes, while the working
directory and the rest of the system stay as they are. Its commands are
`run`, `ls`, `diff`, `apply`, `merge` and `rm`.

## Layout

- `src/` is the library, verified with Verus: every decision `hmm` makes,
  stated in contracts over mathematical models and proved.
  - `workspace.rs`: finding a workspace by name, ID or the start of an ID,
    the latest of a directory's, making one, and listing them oldest first.
  - `name.rs`: workspace names and IDs, and commit IDs.
  - `path.rs`, `text.rs`: paths and text as sequences of characters.
  - `components.rs`: paths taken by their components, as they are compared
    and as `hmm ls` writes the home directory as `~`.
  - `making.rs`: making a workspace (a step function), and how to find what
    changed in one.
  - `invocation.rs`: commands to run, as values.
  - `git.rs`: the git commands that record a directory and a workspace as
    trees, and what their output means.
  - `sandbox.rs`: the Seatbelt profile that confines a command on macOS.
  - `landlock.rs`: the rights a Landlock ruleset handles and grants on Linux.
  - `cmd/`: each command's decisions. `apply` and `merge` are step functions
    from what the last step found to what to do next.
  - `error.rs`: the errors and what `hmm` says of them.
- `app/` is the program around it: the command line, the file system, the
  processes it runs, and the system calls that clone directories and
  confine commands. It does what the library decides.
- `tests/` checks the library on concrete values.
