use xtask::command::{crates_io_token, output_text, publish_command, publish_dir_command, test_command, trimmed_output, Cmd};
use xtask::dry_run::{dry_run, set_dry_run, DryRun};

fn line(c: &Cmd) -> Vec<String> {
    let mut v = vec![c.program.clone()];
    v.extend(c.args.iter().cloned());
    v
}

#[test]
fn dry_run_starts_off_and_follows_the_last_setting() {
    let mut flag = DryRun::new();
    assert_eq!(dry_run(&flag), None);
    set_dry_run(&mut flag, true);
    assert_eq!(dry_run(&flag), Some("--dry-run"));
    set_dry_run(&mut flag, false);
    assert_eq!(dry_run(&flag), None);
}

#[test]
fn token_defaults_when_unset() {
    assert_eq!(crates_io_token(None), "no token");
    assert_eq!(crates_io_token(Some("SECRET-REDACTED".to_string())), "SECRET-REDACTED");
}

#[test]
fn publish_rehearses_in_dry_run() {
    let mut flag = DryRun::new();
    assert_eq!(line(&publish_command("tok", &flag)), ["cargo", "publish", "--token", "tok"]);
    set_dry_run(&mut flag, true);
    assert_eq!(
        line(&publish_command("tok", &flag)),
        ["cargo", "publish", "--token", "tok", "--dry-run"]
    );
}

#[test]
fn publish_of_a_directory() {
    assert_eq!(
        line(&publish_dir_command("crates/a", "tok", true)),
        ["cargo", "publish", "--manifest-path", "crates/a/Cargo.toml", "--token", "tok", "--dry-run"]
    );
    assert_eq!(
        line(&publish_dir_command("crates/a", "tok", false)),
        ["cargo", "publish", "--manifest-path", "crates/a/Cargo.toml", "--token", "tok"]
    );
}

#[test]
fn tests_run_in_both_modes() {
    assert_eq!(line(&test_command(false)), ["cargo", "test", "--workspace", "--", "--nocapture"]);
    assert_eq!(
        line(&test_command(true)),
        ["cargo", "test", "--release", "--workspace", "--", "--nocapture"]
    );
}

#[test]
fn output_is_decoded_and_trimmed_at_the_end() {
    assert_eq!(output_text(b"master\n"), "master");
    assert_eq!(output_text(b"  v1\nv2 \r\n\n"), "  v1\nv2");
    assert_eq!(output_text(b""), "");
    assert_eq!(output_text(b"a\xffb\n"), "a\u{fffd}b");
    assert_eq!(trimmed_output("x \u{3000}"), "x");
}
