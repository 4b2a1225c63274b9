//! One run of the build runner as a state machine.
//!
//! The machine decides; its caller acts.  Each step takes the stage the run
//! is in and the event that ended the action in flight, and gives the next
//! stage and the next action to perform.
use crate::command::{configured_tokens, BuildCommand, BuildResult, ConfigError};
use crate::digest::ContentDigest;
use crate::fileset::{canonical_order, entry_paths, tracked_paths, FileSet, WalkEntry};
use crate::fingerprint::{
    aggregate, baseline_or_empty, baseline_text, differs, digest_texts, is_changed, join_lines,
};
use vstd::prelude::*;

verus! {

/// Why a run was aborted.
#[derive(Debug, PartialEq, Eq)]
pub enum RunError {
    /// A tracked file could not be read while hashing.
    FileRead { path: String },
    /// The build command could not be had from its configuration.
    Config { error: ConfigError },
    /// The build could not be started or did not report success.
    BuildFailed,
    /// The digests handed back do not match the files handed out.
    DigestCount,
    /// An event arrived that does not answer the action in flight.
    UnexpectedEvent,
}

/// `RunError` over mathematical text.
pub enum RunErrorModel {
    FileRead { path: Seq<char> },
    Config { error: ConfigError },
    BuildFailed,
    DigestCount,
    UnexpectedEvent,
}

impl View for RunError {
    type V = RunErrorModel;

    open spec fn view(&self) -> RunErrorModel {
        match *self {
            RunError::FileRead { path } => RunErrorModel::FileRead { path: path@ },
            RunError::Config { error } => RunErrorModel::Config { error },
            RunError::BuildFailed => RunErrorModel::BuildFailed,
            RunError::DigestCount => RunErrorModel::DigestCount,
            RunError::UnexpectedEvent => RunErrorModel::UnexpectedEvent,
        }
    }
}

/// The process exit code that reports `error`: nonzero, and a different one
/// for each kind of failure.
pub open spec fn exit_code_of(error: RunErrorModel) -> u8 {
    match error {
        RunErrorModel::FileRead { .. } => 2,
        RunErrorModel::Config { error: ConfigError::Missing } => 3,
        RunErrorModel::Config { error: ConfigError::NoTokens } => 4,
        RunErrorModel::BuildFailed => 5,
        RunErrorModel::DigestCount => 6,
        RunErrorModel::UnexpectedEvent => 7,
    }
}

/// The message that reports `error`: the stage that failed, then what went
/// wrong there.
pub open spec fn message_of(error: RunErrorModel) -> Seq<char> {
    match error {
        RunErrorModel::FileRead { path } => "hashing: cannot read "@ + path,
        RunErrorModel::Config { error: ConfigError::Missing } =>
            "build: the build command file is missing"@,
        RunErrorModel::Config { error: ConfigError::NoTokens } =>
            "build: the build command is empty"@,
        RunErrorModel::BuildFailed => "build: the build command failed"@,
        RunErrorModel::DigestCount => "hashing: the digests do not match the files"@,
        RunErrorModel::UnexpectedEvent => "run: an event arrived out of turn"@,
    }
}

impl RunError {
    /// The process exit code for this failure.
    pub fn exit_code(&self) -> (code: u8)
        ensures
            code == exit_code_of(self@),
            code != 0,
    {
        match self {
            RunError::FileRead { .. } => 2,
            RunError::Config { error: ConfigError::Missing } => 3,
            RunError::Config { error: ConfigError::NoTokens } => 4,
            RunError::BuildFailed => 5,
            RunError::DigestCount => 6,
            RunError::UnexpectedEvent => 7,
        }
    }

    /// A message naming the stage that failed and the failure.
    pub fn message(&self) -> (message: String)
        ensures
            message@ == message_of(self@),
    {
        match self {
            RunError::FileRead { path } => {
                let mut message = "hashing: cannot read ".to_owned();
                message.append(path.as_str());
                message
            },
            RunError::Config { error: ConfigError::Missing } =>
                "build: the build command file is missing".to_owned(),
            RunError::Config { error: ConfigError::NoTokens } =>
                "build: the build command is empty".to_owned(),
            RunError::BuildFailed => "build: the build command failed".to_owned(),
            RunError::DigestCount => "hashing: the digests do not match the files".to_owned(),
            RunError::UnexpectedEvent => "run: an event arrived out of turn".to_owned(),
        }
    }
}

/// Two failures of different kinds are reported by different exit codes.
pub proof fn lemma_exit_codes_distinct(first: RunErrorModel, second: RunErrorModel)
    requires
        exit_code_of(first) == exit_code_of(second),
    ensures
        first is FileRead <==> second is FileRead,
        first is Config <==> second is Config,
        first is Config ==> first->Config_error == second->Config_error,
        first is BuildFailed <==> second is BuildFailed,
        first is DigestCount <==> second is DigestCount,
        first is UnexpectedEvent <==> second is UnexpectedEvent,
{
}

/// Where a run stands.
#[derive(Debug, PartialEq, Eq)]
pub enum Stage {
    /// The walk over the source tree is in flight.
    Scanning,
    /// The hashing of `files` files is in flight.
    Hashing { files: usize },
    /// The fingerprint is known; the read of the baseline is in flight.
    Comparing { fingerprint: String },
    /// The tree changed.  Until `spawned`, the read of the build command is
    /// in flight; after it, the build itself.
    Building { fingerprint: String, spawned: bool },
    /// The artifact is running.
    Running { fingerprint: String },
    /// The write of the new baseline is in flight.
    Persisting,
    /// The run completed.
    Done,
    /// The run was aborted; nothing was persisted.
    Aborted { error: RunError },
}

/// `Stage` over mathematical text.
pub enum StageModel {
    Scanning,
    Hashing { files: nat },
    Comparing { fingerprint: Seq<char> },
    Building { fingerprint: Seq<char>, spawned: bool },
    Running { fingerprint: Seq<char> },
    Persisting,
    Done,
    Aborted { error: RunErrorModel },
}

impl View for Stage {
    type V = StageModel;

    open spec fn view(&self) -> StageModel {
        match *self {
            Stage::Scanning => StageModel::Scanning,
            Stage::Hashing { files } => StageModel::Hashing { files: files as nat },
            Stage::Comparing { fingerprint } => StageModel::Comparing {
                fingerprint: fingerprint@,
            },
            Stage::Building { fingerprint, spawned } => StageModel::Building {
                fingerprint: fingerprint@,
                spawned,
            },
            Stage::Running { fingerprint } => StageModel::Running { fingerprint: fingerprint@ },
            Stage::Persisting => StageModel::Persisting,
            Stage::Done => StageModel::Done,
            Stage::Aborted { error } => StageModel::Aborted { error: error@ },
        }
    }
}

/// What ended the action in flight.
#[derive(Debug, PartialEq, Eq)]
pub enum Event {
    /// The walk reported these entries, in the order it visited them.
    Collected { entries: Vec<WalkEntry> },
    /// Every file was hashed; the digests stand in the order of the files.
    Hashed { digests: Vec<ContentDigest> },
    /// The file at `path` could not be read.
    HashFailed { path: String },
    /// The baseline store held `stored`, or nothing.
    BaselineRead { stored: Option<String> },
    /// The build configuration held `config`, or was absent.
    CommandRead { config: Option<String> },
    /// The build ended.
    BuildFinished { result: BuildResult },
    /// The artifact ended and its output was relayed.
    ArtifactFinished,
    /// The baseline was written.
    Persisted,
}

/// `Event` over mathematical text.
pub enum EventModel {
    Collected { entries: Seq<Option<Seq<char>>> },
    Hashed { digests: Seq<Seq<char>> },
    HashFailed { path: Seq<char> },
    BaselineRead { stored: Option<Seq<char>> },
    CommandRead { config: Option<Seq<char>> },
    BuildFinished { success: bool },
    ArtifactFinished,
    Persisted,
}

/// An optional string as optional text.
pub open spec fn option_text(s: Option<String>) -> Option<Seq<char>> {
    match s {
        Some(text) => Some(text@),
        None => None,
    }
}

impl View for Event {
    type V = EventModel;

    open spec fn view(&self) -> EventModel {
        match *self {
            Event::Collected { entries } => EventModel::Collected {
                entries: entry_paths(entries@),
            },
            Event::Hashed { digests } => EventModel::Hashed { digests: digest_texts(digests@) },
            Event::HashFailed { path } => EventModel::HashFailed { path: path@ },
            Event::BaselineRead { stored } => EventModel::BaselineRead {
                stored: option_text(stored),
            },
            Event::CommandRead { config } => EventModel::CommandRead {
                config: option_text(config),
            },
            Event::BuildFinished { result } => EventModel::BuildFinished {
                success: result.success,
            },
            Event::ArtifactFinished => EventModel::ArtifactFinished,
            Event::Persisted => EventModel::Persisted,
        }
    }
}

/// What the caller is to do next.
#[derive(Debug, PartialEq, Eq)]
pub enum Action {
    /// Walk the source tree and report every entry met.
    CollectFiles,
    /// Hash each of `files`, in this order.
    HashFiles { files: FileSet },
    /// Read the stored baseline.
    ReadBaseline,
    /// Read the build configuration.
    ReadCommand,
    /// Run the build command and wait for it to end.
    Spawn { command: BuildCommand },
    /// Run the artifact and relay its output.
    RunArtifact,
    /// Store `fingerprint` as the new baseline.
    Persist { fingerprint: String },
    /// Nothing is left to do: the run completed.
    Finish,
    /// Nothing is left to do: the run was aborted.
    Abort,
}

/// `Action` over mathematical text.
pub enum ActionModel {
    CollectFiles,
    HashFiles { files: Seq<Seq<char>> },
    ReadBaseline,
    ReadCommand,
    Spawn { command: Seq<Seq<char>> },
    RunArtifact,
    Persist { fingerprint: Seq<char> },
    Finish,
    Abort,
}

impl View for Action {
    type V = ActionModel;

    open spec fn view(&self) -> ActionModel {
        match *self {
            Action::CollectFiles => ActionModel::CollectFiles,
            Action::HashFiles { files } => ActionModel::HashFiles { files: files@ },
            Action::ReadBaseline => ActionModel::ReadBaseline,
            Action::ReadCommand => ActionModel::ReadCommand,
            Action::Spawn { command } => ActionModel::Spawn { command: command@ },
            Action::RunArtifact => ActionModel::RunArtifact,
            Action::Persist { fingerprint } => ActionModel::Persist { fingerprint: fingerprint@ },
            Action::Finish => ActionModel::Finish,
            Action::Abort => ActionModel::Abort,
        }
    }
}

/// The stage and action with which an aborted run ends.
pub open spec fn aborted(error: RunErrorModel) -> (StageModel, ActionModel) {
    (StageModel::Aborted { error }, ActionModel::Abort)
}

/// The stage that follows `stage` on `event`, and the action to perform
/// next.
///
/// A run walks the tree, keeps the regular files it finds, hashes them in
/// canonical order, and compares
/// the fingerprint with the baseline.  An unchanged tree goes straight to
/// running the artifact; a changed one is built first, and a build that
/// cannot be configured, started or completed aborts the run.  The
/// fingerprint is persisted only after the artifact ran, so an aborted run
/// leaves the baseline as it was.
pub open spec fn next(stage: StageModel, event: EventModel) -> (StageModel, ActionModel) {
    match stage {
        StageModel::Scanning => match event {
            EventModel::Collected { entries } => (
                StageModel::Hashing { files: tracked_paths(entries).len() },
                ActionModel::HashFiles { files: canonical_order(tracked_paths(entries)) },
            ),
            _ => aborted(RunErrorModel::UnexpectedEvent),
        },
        StageModel::Hashing { files } => match event {
            EventModel::Hashed { digests } => if digests.len() == files {
                (
                    StageModel::Comparing { fingerprint: join_lines(digests) },
                    ActionModel::ReadBaseline,
                )
            } else {
                aborted(RunErrorModel::DigestCount)
            },
            EventModel::HashFailed { path } => aborted(RunErrorModel::FileRead { path }),
            _ => aborted(RunErrorModel::UnexpectedEvent),
        },
        StageModel::Comparing { fingerprint } => match event {
            EventModel::BaselineRead { stored } => if differs(fingerprint, baseline_text(stored)) {
                (StageModel::Building { fingerprint, spawned: false }, ActionModel::ReadCommand)
            } else {
                (StageModel::Running { fingerprint }, ActionModel::RunArtifact)
            },
            _ => aborted(RunErrorModel::UnexpectedEvent),
        },
        StageModel::Building { fingerprint, spawned } => match event {
            EventModel::CommandRead { config } => if spawned {
                aborted(RunErrorModel::UnexpectedEvent)
            } else {
                match configured_tokens(config) {
                    Ok(command) => (
                        StageModel::Building { fingerprint, spawned: true },
                        ActionModel::Spawn { command },
                    ),
                    Err(error) => aborted(RunErrorModel::Config { error }),
                }
            },
            EventModel::BuildFinished { success } => if !spawned {
                aborted(RunErrorModel::UnexpectedEvent)
            } else if success {
                (StageModel::Running { fingerprint }, ActionModel::RunArtifact)
            } else {
                aborted(RunErrorModel::BuildFailed)
            },
            _ => aborted(RunErrorModel::UnexpectedEvent),
        },
        StageModel::Running { fingerprint } => match event {
            EventModel::ArtifactFinished => (
                StageModel::Persisting,
                ActionModel::Persist { fingerprint },
            ),
            _ => aborted(RunErrorModel::UnexpectedEvent),
        },
        StageModel::Persisting => match event {
            EventModel::Persisted => (StageModel::Done, ActionModel::Finish),
            _ => aborted(RunErrorModel::UnexpectedEvent),
        },
        StageModel::Done => (StageModel::Done, ActionModel::Finish),
        StageModel::Aborted { error } => aborted(error),
    }
}

/// Ends a run with `error`.
fn abort(error: RunError) -> (out: (Stage, Action))
    ensures
        (out.0@, out.1@) == aborted(error@),
{
    (Stage::Aborted { error }, Action::Abort)
}

/// Begins a run: the walk over the source tree comes first.
pub fn start() -> (out: (Stage, Action))
    ensures
        out.0@ == StageModel::Scanning,
        out.1@ == ActionModel::CollectFiles,
{
    (Stage::Scanning, Action::CollectFiles)
}

/// Takes one step of a run: from the stage it is in and the event that
/// ended the action in flight to the next stage and the next action.
pub fn step(stage: Stage, event: Event) -> (out: (Stage, Action))
    ensures
        (out.0@, out.1@) == next(stage@, event@),
{
    match stage {
        Stage::Scanning => match event {
            Event::Collected { entries } => {
                let files = FileSet::from_entries(entries);
                (Stage::Hashing { files: files.len() }, Action::HashFiles { files })
            },
            _ => abort(RunError::UnexpectedEvent),
        },
        Stage::Hashing { files } => match event {
            Event::Hashed { digests } => {
                if digests.len() == files {
                    let fingerprint = aggregate(&digests);
                    (Stage::Comparing { fingerprint }, Action::ReadBaseline)
                } else {
                    abort(RunError::DigestCount)
                }
            },
            Event::HashFailed { path } => abort(RunError::FileRead { path }),
            _ => abort(RunError::UnexpectedEvent),
        },
        Stage::Comparing { fingerprint } => match event {
            Event::BaselineRead { stored } => {
                let baseline = baseline_or_empty(stored);
                if is_changed(&fingerprint, &baseline) {
                    (Stage::Building { fingerprint, spawned: false }, Action::ReadCommand)
                } else {
                    (Stage::Running { fingerprint }, Action::RunArtifact)
                }
            },
            _ => abort(RunError::UnexpectedEvent),
        },
        Stage::Building { fingerprint, spawned } => match event {
            Event::CommandRead { config } => {
                if spawned {
                    abort(RunError::UnexpectedEvent)
                } else {
                    let parsed = match &config {
                        Some(line) => BuildCommand::from_config(Some(line.as_str())),
                        None => BuildCommand::from_config(None),
                    };
                    match parsed {
                        Ok(command) => (
                            Stage::Building { fingerprint, spawned: true },
                            Action::Spawn { command },
                        ),
                        Err(error) => abort(RunError::Config { error }),
                    }
                }
            },
            Event::BuildFinished { result } => {
                if !spawned {
                    abort(RunError::UnexpectedEvent)
                } else if result.success {
                    (Stage::Running { fingerprint }, Action::RunArtifact)
                } else {
                    abort(RunError::BuildFailed)
                }
            },
            _ => abort(RunError::UnexpectedEvent),
        },
        Stage::Running { fingerprint } => match event {
            Event::ArtifactFinished => (Stage::Persisting, Action::Persist { fingerprint }),
            _ => abort(RunError::UnexpectedEvent),
        },
        Stage::Persisting => match event {
            Event::Persisted => (Stage::Done, Action::Finish),
            _ => abort(RunError::UnexpectedEvent),
        },
        Stage::Done => (Stage::Done, Action::Finish),
        Stage::Aborted { error } => abort(error),
    }
}

} // verus!
