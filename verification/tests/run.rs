use rebuild::command::{BuildResult, ConfigError, Elapsed, ProcessOutcome};
use rebuild::digest::{content_digest, ContentDigest};
use rebuild::fileset::WalkEntry;
use rebuild::run::{start, step, Action, Event, RunError, Stage};

/// An in-memory stand-in for the file system and the build.
struct World {
    files: Vec<(String, Vec<u8>)>,
    unreadable: Option<String>,
    baseline: Option<String>,
    config: Option<String>,
    build_succeeds: bool,
    builds: Vec<Vec<String>>,
    artifact_runs: usize,
    reads_of_command: usize,
}

fn world(files: &[(&str, &str)]) -> World {
    World {
        files: files.iter().map(|(p, c)| (p.to_string(), c.as_bytes().to_vec())).collect(),
        unreadable: None,
        baseline: None,
        config: Some(String::from("cc -o build/main src/main.c")),
        build_succeeds: true,
        builds: Vec::new(),
        artifact_runs: 0,
        reads_of_command: 0,
    }
}

fn answer(world: &mut World, action: Action) -> Option<Event> {
    match action {
        Action::CollectFiles => {
            let mut entries = vec![WalkEntry::Other];
            for (path, _) in &world.files {
                entries.push(WalkEntry::File { path: path.clone() });
                entries.push(WalkEntry::Failed);
            }
            Some(Event::Collected { entries })
        }
        Action::HashFiles { files } => {
            let mut digests: Vec<ContentDigest> = Vec::new();
            for path in files.paths() {
                if world.unreadable.as_ref() == Some(path) {
                    return Some(Event::HashFailed { path: path.clone() });
                }
                let content = &world.files.iter().find(|(p, _)| p == path).expect("a file").1;
                digests.push(content_digest(content));
            }
            Some(Event::Hashed { digests })
        }
        Action::ReadBaseline => Some(Event::BaselineRead { stored: world.baseline.clone() }),
        Action::ReadCommand => {
            world.reads_of_command += 1;
            Some(Event::CommandRead { config: world.config.clone() })
        }
        Action::Spawn { command } => {
            world.builds.push(command.tokens().clone());
            let outcome = ProcessOutcome::Exited { success: world.build_succeeds };
            let elapsed = Elapsed { secs: 1, nanos: 0 };
            Some(Event::BuildFinished { result: BuildResult::from_outcome(outcome, elapsed) })
        }
        Action::RunArtifact => {
            world.artifact_runs += 1;
            Some(Event::ArtifactFinished)
        }
        Action::Persist { fingerprint } => {
            world.baseline = Some(fingerprint);
            Some(Event::Persisted)
        }
        Action::Finish | Action::Abort => None,
    }
}

fn run(world: &mut World) -> Stage {
    let (mut stage, mut action) = start();
    for _ in 0..16 {
        match answer(world, action) {
            Some(event) => {
                let (next_stage, next_action) = step(stage, event);
                stage = next_stage;
                action = next_action;
            }
            None => return stage,
        }
    }
    panic!("the run did not end");
}

fn fingerprint_of(contents: &[&str]) -> String {
    let digests: Vec<String> =
        contents.iter().map(|c| content_digest(c.as_bytes()).as_str().to_string()).collect();
    digests.join("\n")
}

#[test]
fn run_starts_with_the_walk() {
    let (stage, action) = start();
    assert_eq!(stage, Stage::Scanning);
    assert_eq!(action, Action::CollectFiles);
}

#[test]
fn three_runs_build_skip_and_rebuild() {
    let mut w = world(&[("b.txt", "world"), ("a.txt", "hello")]);
    let d1 = fingerprint_of(&["hello", "world"]);

    assert_eq!(run(&mut w), Stage::Done);
    assert_eq!(w.builds.len(), 1);
    assert_eq!(w.artifact_runs, 1);
    assert_eq!(w.baseline.as_deref(), Some(d1.as_str()));

    assert_eq!(run(&mut w), Stage::Done);
    assert_eq!(w.builds.len(), 1);
    assert_eq!(w.artifact_runs, 2);
    assert_eq!(w.baseline.as_deref(), Some(d1.as_str()));

    w.files[1].1 = b"hellox".to_vec();
    let d2 = fingerprint_of(&["hellox", "world"]);
    assert_ne!(d1, d2);
    assert_eq!(run(&mut w), Stage::Done);
    assert_eq!(w.builds.len(), 2);
    assert_eq!(w.artifact_runs, 3);
    assert_eq!(w.baseline.as_deref(), Some(d2.as_str()));
}

#[test]
fn first_run_is_treated_as_changed() {
    let mut w = world(&[("a.txt", "hello")]);
    assert_eq!(run(&mut w), Stage::Done);
    assert_eq!(w.builds, vec![vec!["cc", "-o", "build/main", "src/main.c"]]);
}

#[test]
fn failed_build_leaves_baseline_and_is_retried() {
    let mut w = world(&[("a.txt", "hello"), ("b.txt", "world")]);
    w.baseline = Some(String::from("stale"));
    w.build_succeeds = false;
    let aborted = Stage::Aborted { error: RunError::BuildFailed };

    assert_eq!(run(&mut w), aborted);
    assert_eq!(w.baseline.as_deref(), Some("stale"));
    assert_eq!(w.builds.len(), 1);
    assert_eq!(w.artifact_runs, 0);

    assert_eq!(run(&mut w), aborted);
    assert_eq!(w.baseline.as_deref(), Some("stale"));
    assert_eq!(w.builds.len(), 2);
    assert_eq!(w.artifact_runs, 0);

    w.build_succeeds = true;
    assert_eq!(run(&mut w), Stage::Done);
    assert_eq!(w.builds.len(), 3);
    assert_eq!(w.artifact_runs, 1);
    assert_eq!(w.baseline, Some(fingerprint_of(&["hello", "world"])));
}

#[test]
fn failed_first_build_leaves_no_baseline() {
    let mut w = world(&[("a.txt", "hello")]);
    w.build_succeeds = false;
    assert_eq!(run(&mut w), Stage::Aborted { error: RunError::BuildFailed });
    assert_eq!(w.baseline, None);
}

#[test]
fn unchanged_runs_never_build() {
    let mut w = world(&[("a.txt", "hello"), ("b.txt", "world")]);
    w.baseline = Some(fingerprint_of(&["hello", "world"]));
    w.config = None;
    assert_eq!(run(&mut w), Stage::Done);
    assert_eq!(run(&mut w), Stage::Done);
    assert!(w.builds.is_empty());
    assert_eq!(w.reads_of_command, 0);
    assert_eq!(w.artifact_runs, 2);
}

#[test]
fn visit_order_does_not_matter() {
    let mut w = world(&[("c", "3"), ("a", "1"), ("b", "2")]);
    assert_eq!(run(&mut w), Stage::Done);
    let first = w.baseline.clone();
    w.files.reverse();
    assert_eq!(run(&mut w), Stage::Done);
    assert_eq!(w.builds.len(), 1);
    assert_eq!(w.baseline, first);
    assert_eq!(first, Some(fingerprint_of(&["1", "2", "3"])));
}

#[test]
fn added_and_removed_files_trigger_a_build() {
    let mut w = world(&[("a", "1"), ("b", "2")]);
    assert_eq!(run(&mut w), Stage::Done);
    w.files.push((String::from("c"), Vec::new()));
    assert_eq!(run(&mut w), Stage::Done);
    assert_eq!(w.builds.len(), 2);
    w.files.remove(0);
    assert_eq!(run(&mut w), Stage::Done);
    assert_eq!(w.builds.len(), 3);
    assert_eq!(run(&mut w), Stage::Done);
    assert_eq!(w.builds.len(), 3);
}

#[test]
fn empty_tree_without_baseline_is_unchanged() {
    let mut w = world(&[]);
    assert_eq!(run(&mut w), Stage::Done);
    assert!(w.builds.is_empty());
    assert_eq!(w.artifact_runs, 1);
    assert_eq!(w.baseline.as_deref(), Some(""));
}

#[test]
fn missing_configuration_aborts() {
    let mut w = world(&[("a", "1")]);
    w.config = None;
    let error = RunError::Config { error: ConfigError::Missing };
    assert_eq!(run(&mut w), Stage::Aborted { error });
    assert_eq!(w.baseline, None);
    assert_eq!(w.artifact_runs, 0);
    assert!(w.builds.is_empty());
}

#[test]
fn blank_configuration_aborts() {
    let mut w = world(&[("a", "1")]);
    w.config = Some(String::from("  \n"));
    let error = RunError::Config { error: ConfigError::NoTokens };
    assert_eq!(run(&mut w), Stage::Aborted { error });
    assert_eq!(run(&mut w), Stage::Aborted { error: RunError::Config { error: ConfigError::NoTokens } });
    assert_eq!(w.baseline, None);
    assert_eq!(w.reads_of_command, 2);
}

#[test]
fn unreadable_file_aborts() {
    let mut w = world(&[("a", "1"), ("b", "2")]);
    w.unreadable = Some(String::from("b"));
    let error = RunError::FileRead { path: String::from("b") };
    assert_eq!(run(&mut w), Stage::Aborted { error });
    assert_eq!(w.baseline, None);
    assert!(w.builds.is_empty());
    assert_eq!(w.artifact_runs, 0);
}

#[test]
fn hand_out_is_sorted() {
    let (stage, _) = start();
    let entries = vec![
        WalkEntry::Other,
        WalkEntry::File { path: String::from("z") },
        WalkEntry::File { path: String::from("m") },
        WalkEntry::Failed,
        WalkEntry::Other,
        WalkEntry::File { path: String::from("a") },
    ];
    let (stage, action) = step(stage, Event::Collected { entries });
    assert_eq!(stage, Stage::Hashing { files: 3 });
    match action {
        Action::HashFiles { files } => assert_eq!(files.paths(), &["a", "m", "z"]),
        other => panic!("unexpected action {:?}", other),
    }
}

#[test]
fn digests_must_match_files() {
    let stage = Stage::Hashing { files: 2 };
    let (stage, action) = step(stage, Event::Hashed { digests: vec![content_digest(b"1")] });
    assert_eq!(stage, Stage::Aborted { error: RunError::DigestCount });
    assert_eq!(action, Action::Abort);
}

#[test]
fn comparing_decides_between_building_and_running() {
    let fingerprint = fingerprint_of(&["hello"]);
    let same = Event::BaselineRead { stored: Some(fingerprint.clone()) };
    let (stage, action) = step(Stage::Comparing { fingerprint: fingerprint.clone() }, same);
    assert_eq!(stage, Stage::Running { fingerprint: fingerprint.clone() });
    assert_eq!(action, Action::RunArtifact);

    let other = Event::BaselineRead { stored: Some(format!("{}\n", fingerprint)) };
    let (stage, action) = step(Stage::Comparing { fingerprint: fingerprint.clone() }, other);
    assert_eq!(stage, Stage::Building { fingerprint: fingerprint.clone(), spawned: false });
    assert_eq!(action, Action::ReadCommand);

    let none = Event::BaselineRead { stored: None };
    let (stage, action) = step(Stage::Comparing { fingerprint: fingerprint.clone() }, none);
    assert_eq!(stage, Stage::Building { fingerprint, spawned: false });
    assert_eq!(action, Action::ReadCommand);
}

#[test]
fn spawn_failure_is_a_build_failure() {
    let stage = Stage::Building { fingerprint: String::from("f"), spawned: true };
    let result =
        BuildResult::from_outcome(ProcessOutcome::SpawnFailed, Elapsed { secs: 0, nanos: 0 });
    let (stage, action) = step(stage, Event::BuildFinished { result });
    assert_eq!(stage, Stage::Aborted { error: RunError::BuildFailed });
    assert_eq!(action, Action::Abort);
}

#[test]
fn persist_follows_the_artifact() {
    let (stage, action) =
        step(Stage::Running { fingerprint: String::from("f") }, Event::ArtifactFinished);
    assert_eq!(stage, Stage::Persisting);
    assert_eq!(action, Action::Persist { fingerprint: String::from("f") });
    let (stage, action) = step(stage, Event::Persisted);
    assert_eq!(stage, Stage::Done);
    assert_eq!(action, Action::Finish);
}

#[test]
fn events_out_of_turn_abort() {
    let unexpected = Stage::Aborted { error: RunError::UnexpectedEvent };
    assert_eq!(step(Stage::Scanning, Event::Persisted).0, unexpected);
    assert_eq!(step(Stage::Hashing { files: 0 }, Event::ArtifactFinished).0, unexpected);
    assert_eq!(
        step(Stage::Comparing { fingerprint: String::new() }, Event::Persisted).0,
        unexpected
    );
    let result = BuildResult::from_outcome(
        ProcessOutcome::Exited { success: true },
        Elapsed { secs: 0, nanos: 0 },
    );
    let waiting = Stage::Building { fingerprint: String::new(), spawned: false };
    assert_eq!(step(waiting, Event::BuildFinished { result }).0, unexpected);
    let building = Stage::Building { fingerprint: String::new(), spawned: true };
    assert_eq!(step(building, Event::CommandRead { config: None }).0, unexpected);
    assert_eq!(step(Stage::Running { fingerprint: String::new() }, Event::Persisted).0, unexpected);
    assert_eq!(step(Stage::Persisting, Event::ArtifactFinished).0, unexpected);
}

#[test]
fn ended_runs_stay_ended() {
    assert_eq!(step(Stage::Done, Event::Persisted), (Stage::Done, Action::Finish));
    let (stage, action) = step(Stage::Aborted { error: RunError::BuildFailed }, Event::Persisted);
    assert_eq!(stage, Stage::Aborted { error: RunError::BuildFailed });
    assert_eq!(action, Action::Abort);
}

#[test]
fn exit_codes_are_nonzero_and_distinct() {
    let errors = [
        RunError::FileRead { path: String::from("p") },
        RunError::Config { error: ConfigError::Missing },
        RunError::Config { error: ConfigError::NoTokens },
        RunError::BuildFailed,
        RunError::DigestCount,
        RunError::UnexpectedEvent,
    ];
    let codes: Vec<u8> = errors.iter().map(|e| e.exit_code()).collect();
    assert_eq!(codes, [2, 3, 4, 5, 6, 7]);
}

#[test]
fn messages_name_the_stage() {
    assert_eq!(
        RunError::FileRead { path: String::from("src/a.rs") }.message(),
        "hashing: cannot read src/a.rs"
    );
    assert_eq!(
        RunError::Config { error: ConfigError::Missing }.message(),
        "build: the build command file is missing"
    );
    assert_eq!(
        RunError::Config { error: ConfigError::NoTokens }.message(),
        "build: the build command is empty"
    );
    assert_eq!(RunError::BuildFailed.message(), "build: the build command failed");
    assert_eq!(RunError::DigestCount.message(), "hashing: the digests do not match the files");
    assert_eq!(RunError::UnexpectedEvent.message(), "run: an event arrived out of turn");
}
