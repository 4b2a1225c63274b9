//! Whole runs, played against a model of what surrounds them.
//!
//! The model answers every action the way the surroundings would: the walk
//! reports the files of the tree, hashing gives the digest of each file's
//! content, the stores give what they hold, and the build succeeds or fails
//! as the model says.  Persisting is the only action that changes it.
use crate::command::configured_tokens;
use crate::digest::digest_text;
use crate::fileset::{
    canonical_order, lemma_canonical_order_ignores_visit_order, lemma_tracked_paths_of_files,
};
use crate::fingerprint::{baseline_text, differs};
use crate::run::{next, ActionModel, EventModel, RunErrorModel, StageModel};
use crate::tree::{
    lemma_first_run_is_changed, lemma_tree_digests_shape, tree_digests, tree_fingerprint,
};
use vstd::prelude::*;

verus! {

/// What surrounds a run.
pub struct World {
    /// The tracked files, in the order in which a walk visits them.
    pub found: Seq<Seq<char>>,
    /// The content of each file, by path.
    pub content: Map<Seq<char>, Seq<u8>>,
    /// The stored baseline, if there is one.
    pub baseline: Option<Seq<char>>,
    /// The build configuration, if there is one.
    pub config: Option<Seq<char>>,
    /// Whether a build that is started reports success.
    pub build_succeeds: bool,
}

/// What became of a run.
pub struct Outcome {
    /// The surroundings after the run.
    pub world: World,
    /// The stage the run ended in.
    pub stage: StageModel,
    /// How many times the build was started.
    pub builds: nat,
    /// How many times the artifact was run.
    pub artifact_runs: nat,
}

/// The surroundings after `action`, and the event that answers it.
/// `Finish` and `Abort` ask for nothing; a run that has ended is not played
/// any further, so what stands for their answer is never looked at.
pub open spec fn respond(world: World, action: ActionModel) -> (World, EventModel) {
    match action {
        ActionModel::CollectFiles => (
            world,
            EventModel::Collected { entries: world.found.map_values(|p: Seq<char>| Some(p)) },
        ),
        ActionModel::HashFiles { files } => (
            world,
            EventModel::Hashed {
                digests: files.map_values(|path: Seq<char>| digest_text(world.content[path])),
            },
        ),
        ActionModel::ReadBaseline => (world, EventModel::BaselineRead { stored: world.baseline }),
        ActionModel::ReadCommand => (world, EventModel::CommandRead { config: world.config }),
        ActionModel::Spawn { command } => (
            world,
            EventModel::BuildFinished { success: world.build_succeeds },
        ),
        ActionModel::RunArtifact => (world, EventModel::ArtifactFinished),
        ActionModel::Persist { fingerprint } => (
            World { baseline: Some(fingerprint), ..world },
            EventModel::Persisted,
        ),
        ActionModel::Finish => (world, EventModel::Persisted),
        ActionModel::Abort => (world, EventModel::Persisted),
    }
}

/// How many steps a run in `stage` can still take.
pub open spec fn steps_left(stage: StageModel) -> nat {
    match stage {
        StageModel::Scanning => 7,
        StageModel::Hashing { .. } => 6,
        StageModel::Comparing { .. } => 5,
        StageModel::Building { spawned, .. } => if spawned {
            3
        } else {
            4
        },
        StageModel::Running { .. } => 2,
        StageModel::Persisting => 1,
        StageModel::Done => 0,
        StageModel::Aborted { .. } => 0,
    }
}

/// Every step of a run that has not ended brings it closer to its end.
pub proof fn lemma_step_makes_progress(stage: StageModel, event: EventModel)
    requires
        steps_left(stage) > 0,
    ensures
        steps_left(next(stage, event).0) < steps_left(stage),
{
}

/// Plays a run from `stage`, with `action` in flight, to its end.
pub open spec fn play(world: World, stage: StageModel, action: ActionModel) -> Outcome
    decreases steps_left(stage),
    via play_decreases
{
    if steps_left(stage) == 0 {
        Outcome { world, stage, builds: 0, artifact_runs: 0 }
    } else {
        let answered = respond(world, action);
        let stepped = next(stage, answered.1);
        let rest = play(answered.0, stepped.0, stepped.1);
        Outcome {
            builds: rest.builds + if action is Spawn {
                1nat
            } else {
                0nat
            },
            artifact_runs: rest.artifact_runs + if action is RunArtifact {
                1nat
            } else {
                0nat
            },
            ..rest
        }
    }
}

#[via_fn]
proof fn play_decreases(world: World, stage: StageModel, action: ActionModel) {
    if steps_left(stage) > 0 {
        lemma_step_makes_progress(stage, respond(world, action).1);
    }
}

/// Plays one whole run in `world`.
pub open spec fn run(world: World) -> Outcome {
    play(world, StageModel::Scanning, ActionModel::CollectFiles)
}

/// The fingerprint of the tree in `world`.
pub open spec fn world_fingerprint(world: World) -> Seq<char> {
    tree_fingerprint(world.found, world.content)
}

/// Whether a run in `world` sees a changed tree.
pub open spec fn world_changed(world: World) -> bool {
    differs(world_fingerprint(world), baseline_text(world.baseline))
}

/// What a run in `world` comes to, by cases: an unchanged tree skips the
/// build; a changed one is built, and the run goes on only if the build can
/// be configured and succeeds.  The fingerprint becomes the baseline exactly
/// when the run completes.
pub open spec fn run_outcome(world: World) -> Outcome {
    let completed = World { baseline: Some(world_fingerprint(world)), ..world };
    if !world_changed(world) {
        Outcome { world: completed, stage: StageModel::Done, builds: 0, artifact_runs: 1 }
    } else {
        match configured_tokens(world.config) {
            Err(error) => Outcome {
                world,
                stage: StageModel::Aborted { error: RunErrorModel::Config { error } },
                builds: 0,
                artifact_runs: 0,
            },
            Ok(_) => if world.build_succeeds {
                Outcome { world: completed, stage: StageModel::Done, builds: 1, artifact_runs: 1 }
            } else {
                Outcome {
                    world,
                    stage: StageModel::Aborted { error: RunErrorModel::BuildFailed },
                    builds: 1,
                    artifact_runs: 0,
                }
            },
        }
    }
}

/// Playing a run step by step comes to what `run_outcome` says.
pub proof fn lemma_run_outcome(world: World)
    ensures
        run(world) == run_outcome(world),
{
    let fingerprint = world_fingerprint(world);
    lemma_tree_digests_shape(world.found, world.content);
    lemma_tracked_paths_of_files(world.found);
    let hashing = StageModel::Hashing { files: world.found.len() };
    let hash = ActionModel::HashFiles { files: canonical_order(world.found) };
    assert(run(world) == play(world, hashing, hash));
    assert(respond(world, hash).1 == EventModel::Hashed {
        digests: tree_digests(world.found, world.content),
    });
    let comparing = StageModel::Comparing { fingerprint };
    assert(play(world, hashing, hash) == play(world, comparing, ActionModel::ReadBaseline));
    let completed = World { baseline: Some(fingerprint), ..world };
    let running = StageModel::Running { fingerprint };
    let persist = ActionModel::Persist { fingerprint };
    assert(play(completed, StageModel::Done, ActionModel::Finish) == Outcome {
        world: completed,
        stage: StageModel::Done,
        builds: 0,
        artifact_runs: 0,
    });
    assert(play(world, StageModel::Persisting, persist) == play(
        completed,
        StageModel::Done,
        ActionModel::Finish,
    ));
    assert(play(world, running, ActionModel::RunArtifact) == Outcome {
        world: completed,
        stage: StageModel::Done,
        builds: 0,
        artifact_runs: 1,
    });
    if world_changed(world) {
        let configuring = StageModel::Building { fingerprint, spawned: false };
        assert(play(world, comparing, ActionModel::ReadBaseline) == play(
            world,
            configuring,
            ActionModel::ReadCommand,
        ));
        match configured_tokens(world.config) {
            Err(error) => {
                let stage = StageModel::Aborted { error: RunErrorModel::Config { error } };
                assert(play(world, configuring, ActionModel::ReadCommand) == play(
                    world,
                    stage,
                    ActionModel::Abort,
                ));
            },
            Ok(command) => {
                let building = StageModel::Building { fingerprint, spawned: true };
                let spawn = ActionModel::Spawn { command };
                assert(play(world, configuring, ActionModel::ReadCommand) == play(
                    world,
                    building,
                    spawn,
                ));
                if world.build_succeeds {
                    let rest = play(world, running, ActionModel::RunArtifact);
                    assert(play(world, building, spawn) == Outcome {
                        builds: rest.builds + 1,
                        ..rest
                    });
                } else {
                    let stage = StageModel::Aborted { error: RunErrorModel::BuildFailed };
                    let rest = play(world, stage, ActionModel::Abort);
                    assert(play(world, building, spawn) == Outcome {
                        builds: rest.builds + 1,
                        ..rest
                    });
                }
            },
        }
    } else {
        assert(play(world, comparing, ActionModel::ReadBaseline) == play(
            world,
            running,
            ActionModel::RunArtifact,
        ));
    }
}

/// A build that fails leaves the baseline as it was, so the next run over
/// the same tree sees the same change and starts the build again.
pub proof fn lemma_failed_build_is_retried(world: World)
    requires
        run(world).builds == 1,
        !world.build_succeeds,
    ensures
        run(world).world.baseline == world.baseline,
        run(world).artifact_runs == 0,
        world_changed(run(world).world),
        run(run(world).world).builds == 1,
{
    lemma_run_outcome(world);
    lemma_run_outcome(run(world).world);
}

/// Over a tree that matches the baseline, a run starts no build and runs the
/// artifact once; so does the run after it, in whatever order its walk
/// visits the same files.
pub proof fn lemma_unchanged_tree_is_not_rebuilt(world: World, revisited: Seq<Seq<char>>)
    requires
        !world_changed(world),
        revisited.to_multiset() == world.found.to_multiset(),
    ensures
        run(world).builds == 0,
        run(world).artifact_runs == 1,
        run(World { found: revisited, ..run(world).world }).builds == 0,
        run(World { found: revisited, ..run(world).world }).artifact_runs == 1,
{
    lemma_run_outcome(world);
    let again = World { found: revisited, ..run(world).world };
    lemma_canonical_order_ignores_visit_order(revisited, world.found);
    lemma_run_outcome(again);
}

/// After a run that completed, the next run over the same tree starts no
/// build and runs the artifact once.
pub proof fn lemma_completed_run_is_not_repeated(world: World, revisited: Seq<Seq<char>>)
    requires
        run(world).stage == StageModel::Done,
        revisited.to_multiset() == world.found.to_multiset(),
    ensures
        run(world).world.baseline == Some(world_fingerprint(world)),
        run(World { found: revisited, ..run(world).world }).builds == 0,
        run(World { found: revisited, ..run(world).world }).artifact_runs == 1,
{
    lemma_run_outcome(world);
    let again = World { found: revisited, ..run(world).world };
    lemma_canonical_order_ignores_visit_order(revisited, world.found);
    lemma_run_outcome(again);
}

/// A run that does not complete leaves its surroundings as they were: only
/// a completed run persists anything.
pub proof fn lemma_aborted_run_persists_nothing(world: World)
    requires
        run(world).stage != StageModel::Done,
    ensures
        run(world).world == world,
        run(world).artifact_runs == 0,
{
    lemma_run_outcome(world);
}

/// With nothing stored yet, a run over a tree that tracks at least one file
/// sees a change: it reads the build command and, if there is one, starts
/// the build.
pub proof fn lemma_first_run_builds(world: World)
    requires
        world.baseline is None,
        world.found.len() > 0,
    ensures
        world_changed(world),
        configured_tokens(world.config) is Ok ==> run(world).builds == 1,
{
    lemma_first_run_is_changed(world.found, world.content);
    lemma_run_outcome(world);
}

} // verus!
