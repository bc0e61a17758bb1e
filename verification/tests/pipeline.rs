use xtask::ci::{Ci, CiAction, CiEvent, CiStage};
use xtask::command::Cmd;
use xtask::dry_run::{set_dry_run, DryRun};
use xtask::error::XtaskError;
use xtask::manifest::CargoToml;
use xtask::publish::{PublishAction, PublishAll, PublishStage, PROBE_ATTEMPTS, PROBE_WAIT_SECS};

fn line(c: &Cmd) -> String {
    let mut v = vec![c.program.clone()];
    v.extend(c.args.iter().cloned());
    v.join(" ")
}

/// Drives a publishing run; `outcome` says whether the n-th command succeeds.
fn drive_publish(dirs: &[&str], dry: bool, outcome: impl Fn(usize, &str) -> bool) -> (Vec<String>, bool) {
    let mut flag = DryRun::new();
    set_dry_run(&mut flag, dry);
    let mut run = PublishAll::new(dirs.iter().map(|d| d.to_string()).collect(), "tok".to_string(), &flag);
    let mut log = Vec::new();
    loop {
        match run.next_action() {
            PublishAction::WaitThenRun { secs, cmd } => {
                assert_eq!(secs, PROBE_WAIT_SECS);
                let l = line(&cmd);
                let ok = outcome(log.len(), &l);
                log.push(format!("wait {l}"));
                run.record(ok);
            }
            PublishAction::Run { cmd } => {
                let l = line(&cmd);
                let ok = outcome(log.len(), &l);
                log.push(l);
                run.record(ok);
            }
            PublishAction::Done => return (log, true),
            PublishAction::Abort => return (log, false),
        }
    }
}

#[test]
fn publish_all_in_dry_run_does_nothing() {
    let (log, ok) = drive_publish(&["a", "b"], true, |_, _| true);
    assert!(log.is_empty());
    assert!(ok);
}

#[test]
fn publish_all_without_directories_does_nothing() {
    let (log, ok) = drive_publish(&[], false, |_, _| true);
    assert!(log.is_empty());
    assert!(ok);
}

#[test]
fn publish_all_rehearses_then_publishes_each_directory() {
    let (log, ok) = drive_publish(&["a", "b"], false, |_, _| true);
    assert!(ok);
    assert_eq!(
        log,
        [
            "wait cargo publish --manifest-path a/Cargo.toml --token tok --dry-run",
            "cargo publish --manifest-path a/Cargo.toml --token tok",
            "wait cargo publish --manifest-path b/Cargo.toml --token tok --dry-run",
            "cargo publish --manifest-path b/Cargo.toml --token tok",
        ]
    );
}

#[test]
fn publish_all_retries_rehearsals_until_one_succeeds() {
    let (log, ok) = drive_publish(&["a"], false, |n, _| n >= 3);
    assert!(ok);
    assert_eq!(log.len(), 5);
    assert!(log[..4].iter().all(|l| l.ends_with("--dry-run")));
    assert_eq!(log[4], "cargo publish --manifest-path a/Cargo.toml --token tok");
}

#[test]
fn publish_all_publishes_after_the_last_failed_rehearsal() {
    let (log, ok) = drive_publish(&["a"], false, |_, l| !l.ends_with("--dry-run"));
    assert!(ok);
    assert_eq!(log.len(), PROBE_ATTEMPTS + 1);
    assert_eq!(log[PROBE_ATTEMPTS], "cargo publish --manifest-path a/Cargo.toml --token tok");
}

#[test]
fn publish_all_stops_at_a_failed_publish() {
    let (log, ok) = drive_publish(&["a", "b"], false, |_, l| l.ends_with("--dry-run"));
    assert!(!ok);
    assert_eq!(log.len(), 2);
}

#[test]
fn publish_stage_starts_probing() {
    let flag = DryRun::new();
    let run = PublishAll::new(vec!["a".to_string()], "t".to_string(), &flag);
    assert!(matches!(run.stage(), PublishStage::Probing { dir: 0, attempt: 0 }));
}

/// What the outside world answers during a pipeline run.
struct World {
    args: Option<&'static str>,
    manifest: &'static str,
    ci: bool,
    tags: &'static str,
    branch: &'static str,
    fail_on: Option<&'static str>,
}

#[derive(Debug, PartialEq)]
enum Outcome {
    Succeeded,
    Failed { usage: bool, message: String },
    Panicked,
    Aborted { close_group: bool },
}

fn drive_ci(w: &World) -> (Vec<String>, Outcome) {
    let mut ci = Ci::new();
    let mut log = Vec::new();
    let mut ev = CiEvent::Args { subcommand: w.args.map(|a| a.to_string()) };
    loop {
        assert!(ci.awaits(&ev));
        if let Some(last) = log.last() {
            if w.fail_on.map_or(false, |f| last == f) && !matches!(ev, CiEvent::Failed) {
                ev = CiEvent::Failed;
                assert!(ci.awaits(&ev));
            }
        }
        ev = match ci.step(ev) {
            CiAction::Abort { close_group } => {
                if close_group {
                    log.push("leave".to_string());
                }
                return (log, Outcome::Aborted { close_group });
            }
            CiAction::Fail { usage, error } => {
                return (log, Outcome::Failed { usage, message: error.message() })
            }
            CiAction::Panic => return (log, Outcome::Panicked),
            CiAction::ReadManifest => CiEvent::Manifest {
                manifest: CargoToml::new("Cargo.toml".to_string(), w.manifest.to_string()),
            },
            CiAction::ReadVar { name } => {
                log.push(format!("env {name}"));
                let value = match name {
                    "CI" => w.ci.then(|| "true".to_string()),
                    _ => None,
                };
                CiEvent::Var { value }
            }
            CiAction::Read { cmd } => {
                let l = line(&cmd);
                let text = if l == "git tag --list" { w.tags } else { w.branch };
                log.push(format!("read {l}"));
                CiEvent::Output { text: text.to_string() }
            }
            CiAction::Run { cmd } => {
                log.push(format!("run {}", line(&cmd)));
                CiEvent::Ack
            }
            CiAction::EnterSection { name } => {
                log.push(format!("enter {name}"));
                CiEvent::Ack
            }
            CiAction::LeaveSection => {
                log.push("leave".to_string());
                CiEvent::Ack
            }
            CiAction::Done => return (log, Outcome::Succeeded),
        };
    }
}

const MANIFEST: &str = "[package]\nname = \"xtask\"\nversion = \"0.1.0\"\n";

fn tests_part() -> Vec<String> {
    vec![
        "enter TEST".to_string(),
        "run cargo test --workspace -- --nocapture".to_string(),
        "run cargo test --release --workspace -- --nocapture".to_string(),
        "leave".to_string(),
        "env CI".to_string(),
    ]
}

#[test]
fn ci_rejects_other_subcommands() {
    for args in [None, Some("test"), Some("CI")] {
        let w = World { args, manifest: MANIFEST, ci: true, tags: "", branch: "master", fail_on: None };
        let (log, out) = drive_ci(&w);
        assert!(log.is_empty());
        assert_eq!(out, Outcome::Failed { usage: true, message: "invalid arguments".to_string() });
    }
}

#[test]
fn ci_off_ci_is_a_dry_run() {
    let w = World { args: Some("ci"), manifest: MANIFEST, ci: false, tags: "", branch: "master", fail_on: None };
    let (log, out) = drive_ci(&w);
    assert_eq!(out, Outcome::Succeeded);
    let mut expected = tests_part();
    expected.extend([
        "enter PUBLISH".to_string(),
        "env CRATES_IO_TOKEN".to_string(),
        "run cargo publish --token no token --dry-run".to_string(),
        "leave".to_string(),
    ]);
    assert_eq!(log, expected);
}

#[test]
fn ci_release_on_master_tags_and_pushes() {
    let w = World { args: Some("ci"), manifest: MANIFEST, ci: true, tags: "v0.0.9\n", branch: "master", fail_on: None };
    let (log, out) = drive_ci(&w);
    assert_eq!(out, Outcome::Succeeded);
    let mut expected = tests_part();
    expected.extend([
        "read git tag --list".to_string(),
        "read git branch --show-current".to_string(),
        "enter PUBLISH".to_string(),
        "env CRATES_IO_TOKEN".to_string(),
        "run cargo publish --token no token".to_string(),
        "run git tag v0.1.0".to_string(),
        "run git push --tags".to_string(),
        "leave".to_string(),
    ]);
    assert_eq!(log, expected);
}

#[test]
fn ci_with_existing_tag_is_a_dry_run() {
    let w = World { args: Some("ci"), manifest: MANIFEST, ci: true, tags: "v0.0.9\nv0.1.0", branch: "master", fail_on: None };
    let (log, out) = drive_ci(&w);
    assert_eq!(out, Outcome::Succeeded);
    assert!(!log.iter().any(|l| l.contains("branch")));
    assert!(log.contains(&"run cargo publish --token no token --dry-run".to_string()));
    assert!(!log.iter().any(|l| l.starts_with("run git")));
}

#[test]
fn ci_on_another_branch_is_a_dry_run() {
    let w = World { args: Some("ci"), manifest: MANIFEST, ci: true, tags: "", branch: "feature", fail_on: None };
    let (log, out) = drive_ci(&w);
    assert_eq!(out, Outcome::Succeeded);
    assert!(log.contains(&"run cargo publish --token no token --dry-run".to_string()));
    assert!(!log.iter().any(|l| l.starts_with("run git")));
}

#[test]
fn ci_without_version_fails_after_tests() {
    let w = World { args: Some("ci"), manifest: "[package]\n", ci: true, tags: "", branch: "master", fail_on: None };
    let (log, out) = drive_ci(&w);
    assert_eq!(log.len(), 4);
    assert_eq!(
        out,
        Outcome::Failed { usage: false, message: "can't find `version` in Cargo.toml".to_string() }
    );
}

#[test]
fn ci_with_unquoted_version_stops() {
    let w = World { args: Some("ci"), manifest: "version = 1\n", ci: true, tags: "", branch: "master", fail_on: None };
    let (_, out) = drive_ci(&w);
    assert_eq!(out, Outcome::Panicked);
}

#[test]
fn ci_stages_advance() {
    let mut ci = Ci::new();
    assert_eq!(ci.stage(), CiStage::Start);
    assert!(!ci.awaits(&CiEvent::Ack));
    let a = ci.step(CiEvent::Args { subcommand: Some("ci".to_string()) });
    assert!(matches!(a, CiAction::ReadManifest));
    assert_eq!(ci.stage(), CiStage::AwaitManifest);
    let _ = XtaskError::InvalidArguments;
}

fn group_lines_balance(log: &[String]) -> bool {
    let mut open = false;
    for l in log {
        if l.starts_with("enter ") {
            if open {
                return false;
            }
            open = true;
        } else if l == "leave" {
            if !open {
                return false;
            }
            open = false;
        }
    }
    !open
}

#[test]
fn ci_failed_test_closes_the_test_group() {
    let w = World {
        args: Some("ci"),
        manifest: MANIFEST,
        ci: true,
        tags: "",
        branch: "master",
        fail_on: Some("run cargo test --workspace -- --nocapture"),
    };
    let (log, out) = drive_ci(&w);
    assert_eq!(out, Outcome::Aborted { close_group: true });
    assert_eq!(
        log,
        ["enter TEST", "run cargo test --workspace -- --nocapture", "leave"]
    );
    assert!(group_lines_balance(&log));
}

#[test]
fn ci_failed_branch_read_has_no_group_to_close() {
    let w = World {
        args: Some("ci"),
        manifest: MANIFEST,
        ci: true,
        tags: "",
        branch: "master",
        fail_on: Some("read git branch --show-current"),
    };
    let (log, out) = drive_ci(&w);
    assert_eq!(out, Outcome::Aborted { close_group: false });
    assert!(group_lines_balance(&log));
}

#[test]
fn ci_failed_tagging_closes_the_publish_group() {
    let w = World {
        args: Some("ci"),
        manifest: MANIFEST,
        ci: true,
        tags: "",
        branch: "master",
        fail_on: Some("run git tag v0.1.0"),
    };
    let (log, out) = drive_ci(&w);
    assert_eq!(out, Outcome::Aborted { close_group: true });
    assert_eq!(log.last().map(String::as_str), Some("leave"));
    assert!(!log.iter().any(|l| l == "run git push --tags"));
    assert!(group_lines_balance(&log));
}

#[test]
fn ci_groups_balance_on_every_successful_path() {
    for (ci, tags, branch) in [(false, "", "master"), (true, "v0.1.0", "master"), (true, "", "dev"), (true, "", "master")] {
        let w = World { args: Some("ci"), manifest: MANIFEST, ci, tags, branch, fail_on: None };
        let (log, out) = drive_ci(&w);
        assert_eq!(out, Outcome::Succeeded);
        assert!(group_lines_balance(&log));
    }
}
