//! The external commands that the release pipeline runs, as values: the
//! program and its arguments. Running them is left to the caller.

use vstd::prelude::*;
use vstd::string::*;
use vstd::utf8::{decode_utf8, valid_utf8};

use crate::dry_run::{dry_run, dry_run_args, DryRun};
use crate::text::{chars_of, trim_end, trim_end_span};

verus! {

/// A command line: the program and its arguments.
#[derive(Debug)]
pub struct Cmd {
    pub program: String,
    pub args: Vec<String>,
}

/// The texts of a list of strings.
pub open spec fn texts(v: Seq<String>) -> Seq<Seq<char>> {
    v.map_values(|s: String| s@)
}

impl View for Cmd {
    type V = (Seq<char>, Seq<Seq<char>>);

    open spec fn view(&self) -> (Seq<char>, Seq<Seq<char>>) {
        (self.program@, texts(self.args@))
    }
}

/// A command of `program` with the arguments `args`.
pub fn command(program: &str, args: Vec<String>) -> (r: Cmd)
    ensures
        r@ == (program@, texts(args@)),
{
    Cmd { program: String::from_str(program), args }
}

/// Appends `a` to the argument list.
pub fn push_arg(args: &mut Vec<String>, a: &str)
    ensures
        texts(final(args)@) == texts(old(args)@).push(a@),
{
    let ghost before = args@;
    args.push(String::from_str(a));
    assert(texts(args@) =~= texts(before).push(a@));
}

/// Appends the arguments that the dry-run setting asks for.
pub fn push_dry_run_arg(args: &mut Vec<String>, flag: &DryRun)
    ensures
        texts(final(args)@) == texts(old(args)@) + dry_run_args(flag@),
{
    match dry_run(flag) {
        Some(a) => push_arg(args, a),
        None => {
            assert(texts(args@) =~= texts(args@) + Seq::<Seq<char>>::empty());
        },
    }
}

/// The token for crates.io when none is set.
pub open spec fn missing_token() -> Seq<char> {
    "no token"@
}

/// The token for crates.io: the value of the variable that holds it, or a
/// placeholder when it is not set.
pub fn crates_io_token(var: Option<String>) -> (r: String)
    ensures
        r@ == (match var {
            Some(t) => t@,
            None => missing_token(),
        }),
{
    match var {
        Some(t) => t,
        None => String::from_str("no token"),
    }
}

/// The arguments of `cargo publish` for the package in the current directory.
pub open spec fn publish_args(token: Seq<char>, dry: bool) -> Seq<Seq<char>> {
    seq!["publish"@, "--token"@, token] + dry_run_args(dry)
}

/// `cargo publish` for the package in the current directory, rehearsed when
/// the dry-run setting is on.
pub fn publish_command(token: &str, flag: &DryRun) -> (r: Cmd)
    ensures
        r@ == ("cargo"@, publish_args(token@, flag@)),
{
    let mut args: Vec<String> = Vec::new();
    push_arg(&mut args, "publish");
    push_arg(&mut args, "--token");
    push_arg(&mut args, token);
    assert(texts(args@) =~= seq!["publish"@, "--token"@, token@]);
    push_dry_run_arg(&mut args, flag);
    command("cargo", args)
}

/// The manifest of the package in `dir`.
pub open spec fn manifest_in(dir: Seq<char>) -> Seq<char> {
    dir + "/Cargo.toml"@
}

/// The arguments of `cargo publish` for the package in `dir`, a rehearsal
/// when `rehearse` holds.
pub open spec fn publish_dir_args(dir: Seq<char>, token: Seq<char>, rehearse: bool) -> Seq<
    Seq<char>,
> {
    seq!["publish"@, "--manifest-path"@, manifest_in(dir), "--token"@, token] + if rehearse {
        seq!["--dry-run"@]
    } else {
        Seq::empty()
    }
}

/// `cargo publish` for the package in `dir`; a rehearsal when `rehearse`
/// holds.
pub fn publish_dir_command(dir: &str, token: &str, rehearse: bool) -> (r: Cmd)
    ensures
        r@ == ("cargo"@, publish_dir_args(dir@, token@, rehearse)),
{
    let mut args: Vec<String> = Vec::new();
    push_arg(&mut args, "publish");
    push_arg(&mut args, "--manifest-path");
    let mut path = String::from_str(dir);
    path.append("/Cargo.toml");
    let ghost before = args@;
    args.push(path);
    assert(texts(args@) =~= texts(before).push(manifest_in(dir@)));
    push_arg(&mut args, "--token");
    push_arg(&mut args, token);
    if rehearse {
        push_arg(&mut args, "--dry-run");
    }
    assert(texts(args@) =~= publish_dir_args(dir@, token@, rehearse));
    command("cargo", args)
}

/// The arguments of `cargo test` for the whole workspace, with output shown,
/// in release mode when `release` holds.
pub open spec fn test_args(release: bool) -> Seq<Seq<char>> {
    seq!["test"@] + (if release {
        seq!["--release"@]
    } else {
        Seq::empty()
    }) + seq!["--workspace"@, "--"@, "--nocapture"@]
}

/// `cargo test` for the whole workspace, in release mode when `release`
/// holds.
pub fn test_command(release: bool) -> (r: Cmd)
    ensures
        r@ == ("cargo"@, test_args(release)),
{
    let mut args: Vec<String> = Vec::new();
    push_arg(&mut args, "test");
    if release {
        push_arg(&mut args, "--release");
    }
    push_arg(&mut args, "--workspace");
    push_arg(&mut args, "--");
    push_arg(&mut args, "--nocapture");
    assert(texts(args@) =~= test_args(release));
    command("cargo", args)
}

/// The text that a decoder gives for bytes that may not be UTF-8, with each
/// invalid sequence replaced by U+FFFD.
pub uninterp spec fn utf8_lossy(bytes: Seq<u8>) -> Seq<char>;

/// Calls `String::from_utf8_lossy`. Claimed: the result is a function of the
/// bytes alone, and on valid UTF-8 it is the text the bytes encode.
#[verifier::external_body]
fn decode_lossy(bytes: &[u8]) -> (r: String)
    ensures
        r@ == utf8_lossy(bytes@),
        valid_utf8(bytes@) ==> r@ == decode_utf8(bytes@),
{
    String::from_utf8_lossy(bytes).into_owned()
}

/// `text` without its trailing whitespace.
pub fn trimmed_output(text: &str) -> (r: String)
    ensures
        r@ == trim_end(text@),
{
    let cs = chars_of(text);
    let b = trim_end_span(&cs, 0, cs.len());
    assert(cs@.subrange(0, cs@.len() as int) =~= text@);
    String::from_str(text.substring_char(0, b))
}

/// What a command wrote to its standard output, as text, without trailing
/// whitespace.
pub fn output_text(stdout: &[u8]) -> (r: String)
    ensures
        r@ == trim_end(utf8_lossy(stdout@)),
        valid_utf8(stdout@) ==> r@ == trim_end(decode_utf8(stdout@)),
{
    let text = decode_lossy(stdout);
    trimmed_output(text.as_str())
}

} // verus!
