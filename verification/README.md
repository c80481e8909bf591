# commitward

A deterministic, fail-open human-sign-off gate for high-stakes commits, with its logic
proved in Verus.

A commit's diff is matched against a registry of checkpoints. The commit is held back
(exit 2) only when a checkpoint fires and no `HITL-ACK: <name> <reason>` line of its
message acknowledges it. Everything that goes wrong on the way lets the commit through
and is said on standard error.

| Exit code | Meaning |
|---|---|
| `0` | nothing fired, or the run failed open |
| `1` | something fired, and all of it is acknowledged |
| `2` | something fired that is not acknowledged |
| `64` | usage error |

## Layout

- `src/` is the verified library. `registry`, `compiled` and `pattern` hold the
  checkpoints, `gitdiff` the parsers of `git diff` output, `detect` and `anchor` what
  fires, `ack` and `verdict` what acknowledging does, `run` and `gate` the two ways in,
  `cli`, `git` and `report` what surrounds a run.
- `src/laws/` holds what is promised of all of it together: that only an
  unacknowledged fire blocks, that failures allow and are said, that the repository's
  registry wins over the global one, that the anchor fires whatever checkpoints run,
  that a run and a request agree.
- `app/` is the program: files, git, YAML and JSON.
- `tests/` runs the library against the real `regex` crate.

## What is trusted

What a regular expression matches is decided by the `regex` crate. Its answers carry
names in `pattern`, and the acknowledgement line's pattern has a contract in `ack`. The
library is proved for whatever the answers are.

## Registry

```yaml
version: "1"
checkpoints:
  - name: agent-instructions
    summary: "Editing the instructions of agents"
    paths: ["(^|/)AGENTS\\.md$"]
  - name: destructive-ops
    summary: "A destructive shell command was added"
    content: ["\\brm\\s+-rf\\b"]
    content_exempt_paths: ["(^|/)docs/"]
  - name: checkpoint-removed
    summary: "A checkpoint was removed"
    semantic: checkpoint_removed
```

A checkpoint sets exactly one of `paths`, `content` and `semantic`. Patterns ignore case
and match anywhere. A repository's checkpoints in `.commitward/checkpoints.yaml` replace
global ones of the same name.
