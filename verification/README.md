# ferrite

Git status tracking and runtime diagnostics of an editor, verified with Verus.

- `src/vcs/status.rs`: the status of a file, from the flags that `git2` reports, and how
  statuses rank.
- `src/vcs/cache.rs`: what a status scan leaves, one status for each path.
- `src/vcs/git.rs`: the service: which repository is open, what has to be asked of it, and
  what follows from the answers.
- `src/vcs/relative.rs`: where a path lies below the repository root, under any spelling.
- `src/vcs/auto_refresh.rs`: when the cache is refreshed.
- `src/vcs/laws.rs`: what holds of the service across its operations.
- `src/diag.rs`, `src/frames.rs`: the runtime diagnostics, and how long frames take.
- `src/paths.rs`, `src/text.rs`, `src/clock.rs`: paths as components, text, clock readings.
- `app/`: repositories, files, the environment, and the text of times.

Believed without proof: the flag tests of `git2::Status` (`src/vcs/status.rs`), and that the
time between two readings of `std::time::Instant` is a function of the two (`src/clock.rs`);
nothing is claimed of the readings themselves.
