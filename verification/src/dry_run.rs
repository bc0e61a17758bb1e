//! The dry-run setting: when it is on, publishing only rehearses and the
//! repository is left untouched.

use vstd::prelude::*;

verus! {

/// The argument that asks `cargo publish` for a rehearsal.
pub open spec fn dry_run_arg() -> Seq<char> {
    "--dry-run"@
}

/// The arguments that the setting adds to `cargo publish`.
pub open spec fn dry_run_args(on: bool) -> Seq<Seq<char>> {
    if on {
        seq![dry_run_arg()]
    } else {
        Seq::empty()
    }
}

/// The dry-run setting. It starts off.
#[derive(Debug)]
pub struct DryRun {
    on: bool,
}

impl View for DryRun {
    type V = bool;

    closed spec fn view(&self) -> bool {
        self.on
    }
}

impl DryRun {
    /// The setting as a run starts: off.
    pub fn new() -> (r: DryRun)
        ensures
            !r@,
    {
        DryRun { on: false }
    }
}

/// Turns the dry-run setting on or off.
pub fn set_dry_run(flag: &mut DryRun, yes: bool)
    ensures
        final(flag)@ == yes,
    no_unwind
{
    flag.on = yes;
}

/// The extra argument that the setting asks of `cargo publish`: `--dry-run`
/// when it is on, none when it is off.
pub fn dry_run(flag: &DryRun) -> (r: Option<&'static str>)
    ensures
        r is Some <==> flag@,
        r matches Some(a) ==> a@ == dry_run_arg(),
        dry_run_args(flag@) == (match r {
            Some(a) => seq![a@],
            None => Seq::<Seq<char>>::empty(),
        }),
{
    if flag.on {
        Some("--dry-run")
    } else {
        None
    }
}

} // verus!
