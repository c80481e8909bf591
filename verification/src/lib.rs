//! A deterministic, fail-open human-sign-off gate for high-stakes commits.
//!
//! A commit's diff is matched against a registry of checkpoints. The commit is held
//! back only when a checkpoint fires and no `HITL-ACK:` line of its message
//! acknowledges it.

pub mod ack;
pub mod anchor;
pub mod baseline;
pub mod cli;
pub mod compiled;
pub mod detect;
pub mod gate;
pub mod git;
pub mod gitdiff;
pub mod laws;
pub mod pattern;
pub mod registry;
pub mod report;
pub mod run;
pub mod seqs;
pub mod text;
pub mod verdict;

pub use crate::ack::{exit_class, extract_acks, partition_ack, Ack};
pub use crate::compiled::{compile, CompiledCheckpoint, Mode, SemanticKind};
pub use crate::detect::{detect, Fired};
pub use crate::gate::{gate, GateBody, GateInput, GateReply, GateRequest};
pub use crate::gitdiff::{AddedLines, FileEntry};
pub use crate::registry::{
    extract_checkpoint_names, load_checkpoints, merge, Checkpoint, CheckpointError, FileRead,
    RegistrySource,
};
pub use crate::run::{run, RunInputs, RunResult};
pub use crate::verdict::Verdict;
