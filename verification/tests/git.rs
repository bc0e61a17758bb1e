use xtask::dry_run::{set_dry_run, DryRun};
use xtask::git::{current_branch_command, has_tag, parse_tag_list, push_tags_command, tag_command, tag_list_command};

#[test]
fn tag_list_is_one_trimmed_tag_per_line() {
    assert_eq!(parse_tag_list("v0.1.0\n  v0.2.0 \r\nv1.0.0"), ["v0.1.0", "v0.2.0", "v1.0.0"]);
    assert!(parse_tag_list("").is_empty());
    assert_eq!(parse_tag_list("\n"), [""]);
}

#[test]
fn has_tag_finds_exact_tags() {
    let tags = parse_tag_list("v0.1.0\nv0.2.0");
    assert!(has_tag(&tags, "v0.2.0"));
    assert!(!has_tag(&tags, "v0.2"));
    assert!(!has_tag(&tags, "v0.3.0"));
    assert!(!has_tag(&Vec::new(), "v0.1.0"));
}

#[test]
fn git_commands() {
    let c = current_branch_command();
    assert_eq!((c.program.as_str(), c.args.clone()), ("git", vec!["branch".to_string(), "--show-current".to_string()]));
    let c = tag_list_command();
    assert_eq!((c.program.as_str(), c.args.clone()), ("git", vec!["tag".to_string(), "--list".to_string()]));
}

#[test]
fn tagging_and_pushing_skip_dry_runs() {
    let mut flag = DryRun::new();
    let c = tag_command("v1.2.3", &flag).expect("a real run tags");
    assert_eq!(c.args, ["tag", "v1.2.3"]);
    let c = push_tags_command(&flag).expect("a real run pushes");
    assert_eq!(c.args, ["push", "--tags"]);
    set_dry_run(&mut flag, true);
    assert!(tag_command("v1.2.3", &flag).is_none());
    assert!(push_tags_command(&flag).is_none());
}
