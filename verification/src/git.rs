//! The git side of a release: the commands that read the branch and the tags
//! and that tag and push, and the reading of their output.

use vstd::prelude::*;
use vstd::string::*;

use crate::command::{command, push_arg, texts, Cmd};
use crate::dry_run::DryRun;
use crate::text::{chars_of, line_spans, lines, spans_view, spans_within, trim, trim_span};

verus! {

/// `git branch --show-current`, which prints the current branch.
pub fn current_branch_command() -> (r: Cmd)
    ensures
        r@ == ("git"@, seq!["branch"@, "--show-current"@]),
{
    let mut args: Vec<String> = Vec::new();
    push_arg(&mut args, "branch");
    push_arg(&mut args, "--show-current");
    command("git", args)
}

/// `git tag --list`, which prints the tags, one per line.
pub fn tag_list_command() -> (r: Cmd)
    ensures
        r@ == ("git"@, seq!["tag"@, "--list"@]),
{
    let mut args: Vec<String> = Vec::new();
    push_arg(&mut args, "tag");
    push_arg(&mut args, "--list");
    command("git", args)
}

/// The command that tags the current commit with `tag`; none in a dry run.
pub fn tag_command(tag: &str, flag: &DryRun) -> (r: Option<Cmd>)
    ensures
        r is None <==> flag@,
        r matches Some(c) ==> c@ == ("git"@, seq!["tag"@, tag@]),
{
    if crate::dry_run::dry_run(flag).is_some() {
        return None;
    }
    let mut args: Vec<String> = Vec::new();
    push_arg(&mut args, "tag");
    push_arg(&mut args, tag);
    Some(command("git", args))
}

/// The command that pushes the tags; none in a dry run.
pub fn push_tags_command(flag: &DryRun) -> (r: Option<Cmd>)
    ensures
        r is None <==> flag@,
        r matches Some(c) ==> c@ == ("git"@, seq!["push"@, "--tags"@]),
{
    if crate::dry_run::dry_run(flag).is_some() {
        return None;
    }
    let mut args: Vec<String> = Vec::new();
    push_arg(&mut args, "push");
    push_arg(&mut args, "--tags");
    Some(command("git", args))
}

/// The tags that the output of `git tag --list` names: each line without
/// surrounding whitespace.
pub open spec fn listed_tags(output: Seq<char>) -> Seq<Seq<char>> {
    lines(output).map_values(|l: Seq<char>| trim(l))
}

/// The tags in the output of `git tag --list`, in order.
pub fn parse_tag_list(output: &str) -> (r: Vec<String>)
    ensures
        texts(r@) == listed_tags(output@),
{
    let cs = chars_of(output);
    let ls = line_spans(&cs);
    let ghost all = lines(cs@);
    let mut tags: Vec<String> = Vec::new();
    let n = ls.len();
    for i in 0..n
        invariant
            n == ls@.len(),
            cs@ == output@,
            all == spans_view(cs@, ls@),
            spans_within(ls@, 0, cs@.len() as int),
            texts(tags@) == all.take(i as int).map_values(|l: Seq<char>| trim(l)),
    {
        let (lo, hi) = ls[i];
        assert(all[i as int] == cs@.subrange(lo as int, hi as int));
        let (a, b) = trim_span(&cs, lo, hi);
        let t = String::from_str(output.substring_char(a, b));
        let ghost before = tags@;
        tags.push(t);
        assert(texts(tags@) =~= texts(before).push(trim(all[i as int])));
        assert(all.take(i + 1) =~= all.take(i as int).push(all[i as int]));
        assert(all.take(i + 1).map_values(|l: Seq<char>| trim(l)) =~= all.take(
            i as int,
        ).map_values(|l: Seq<char>| trim(l)).push(trim(all[i as int])));
    }
    assert(all.take(n as int) =~= all);
    tags
}

/// Whether `tag` is among `tags`.
pub fn has_tag(tags: &Vec<String>, tag: &str) -> (r: bool)
    ensures
        r == texts(tags@).contains(tag@),
{
    let wanted = String::from_str(tag);
    let n = tags.len();
    for i in 0..n
        invariant
            n == tags@.len(),
            wanted@ == tag@,
            forall|k: int| 0 <= k < i ==> tags@[k]@ != tag@,
    {
        if tags[i] == wanted {
            assert(texts(tags@)[i as int] == tag@);
            return true;
        }
    }
    assert forall|k: int| 0 <= k < texts(tags@).len() implies texts(tags@)[k] != tag@ by {
        assert(texts(tags@)[k] == tags@[k]@);
    }
    false
}

/// A tag is found in the output of `git tag --list` exactly when some line of
/// it, without surrounding whitespace, is the tag.
pub proof fn lemma_has_tag_iff_listed_line(output: Seq<char>, tag: Seq<char>)
    ensures
        listed_tags(output).contains(tag) <==> exists|k: int|
            0 <= k < lines(output).len() && trim(#[trigger] lines(output)[k]) == tag,
{
    let ls = lines(output);
    let ts = listed_tags(output);
    if ts.contains(tag) {
        let k = choose|k: int| 0 <= k < ts.len() && ts[k] == tag;
        assert(trim(ls[k]) == tag);
    }
    if exists|k: int| 0 <= k < ls.len() && trim(#[trigger] ls[k]) == tag {
        let k = choose|k: int| 0 <= k < ls.len() && trim(#[trigger] ls[k]) == tag;
        assert(ts[k] == tag);
    }
}

} // verus!
