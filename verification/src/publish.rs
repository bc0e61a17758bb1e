//! Publishing the packages of several directories, one after the other.
//!
//! Before each real publish the package is rehearsed with
//! `cargo publish --dry-run`, after a pause, until a rehearsal succeeds or
//! the attempts run out; then it is published for real. A failed real publish
//! ends the run. In a dry run nothing is published at all.
//!
//! The decisions stand here as a state machine: the caller asks for the next
//! action, performs it, and reports whether the command succeeded.

use vstd::prelude::*;

use crate::command::{publish_dir_args, publish_dir_command, texts, Cmd};
use crate::dry_run::{dry_run, DryRun};

verus! {

/// How many rehearsals a package gets before it is published regardless.
pub const PROBE_ATTEMPTS: usize = 20;

/// How long to wait before each rehearsal, in seconds.
pub const PROBE_WAIT_SECS: u64 = 10;

/// Where a run of publishing stands.
#[derive(Clone, Copy, Debug)]
pub enum PublishStage {
    /// Rehearsing the package in `dirs[dir]`; `attempt` rehearsals failed.
    Probing { dir: usize, attempt: usize },
    /// Publishing the package in `dirs[dir]` for real.
    Publishing { dir: usize },
    /// Every package is published, or nothing was to be.
    Finished,
    /// A real publish failed.
    Aborted,
}

/// What the caller does next.
pub enum PublishAction {
    /// Wait `secs` seconds, then run `cmd` (a rehearsal).
    WaitThenRun { secs: u64, cmd: Cmd },
    /// Run `cmd` (a real publish).
    Run { cmd: Cmd },
    /// The run succeeded.
    Done,
    /// The run failed with the error of the last command.
    Abort,
}

/// A run of publishing the packages in a list of directories.
pub struct PublishAll {
    dirs: Vec<String>,
    token: String,
    stage: PublishStage,
}

impl View for PublishAll {
    /// The directories, the token, and the stage.
    type V = (Seq<Seq<char>>, Seq<char>, PublishStage);

    closed spec fn view(&self) -> (Seq<Seq<char>>, Seq<char>, PublishStage) {
        (texts(self.dirs@), self.token@, self.stage)
    }
}

/// The stage points at an existing directory, with attempts left.
pub open spec fn stage_wf(stage: PublishStage, n: nat) -> bool {
    match stage {
        PublishStage::Probing { dir, attempt } => dir < n && attempt < PROBE_ATTEMPTS,
        PublishStage::Publishing { dir } => dir < n,
        _ => true,
    }
}

/// The stage that follows `stage` when its command succeeded (`ok`) or failed.
pub open spec fn next_stage(stage: PublishStage, n: nat, ok: bool) -> PublishStage {
    match stage {
        PublishStage::Probing { dir, attempt } => if ok || attempt + 1 == PROBE_ATTEMPTS {
            PublishStage::Publishing { dir }
        } else {
            PublishStage::Probing { dir, attempt: (attempt + 1) as usize }
        },
        PublishStage::Publishing { dir } => if !ok {
            PublishStage::Aborted
        } else if dir + 1 == n {
            PublishStage::Finished
        } else {
            PublishStage::Probing { dir: (dir + 1) as usize, attempt: 0 }
        },
        s => s,
    }
}

/// An upper bound on the commands still to run.
pub open spec fn commands_left(stage: PublishStage, n: nat) -> int {
    match stage {
        PublishStage::Probing { dir, attempt } => (n - dir) * (PROBE_ATTEMPTS + 1) - attempt,
        PublishStage::Publishing { dir } => (n - dir) * (PROBE_ATTEMPTS + 1) - PROBE_ATTEMPTS,
        _ => 0,
    }
}

/// Whether the stage still has a command to run.
pub open spec fn is_running(stage: PublishStage) -> bool {
    stage is Probing || stage is Publishing
}

/// The action that `stage` asks for.
pub open spec fn action_matches(
    dirs: Seq<Seq<char>>,
    token: Seq<char>,
    stage: PublishStage,
    a: PublishAction,
) -> bool {
    match stage {
        PublishStage::Probing { dir, .. } => a matches PublishAction::WaitThenRun { secs, cmd }
            && secs == PROBE_WAIT_SECS && cmd@ == ("cargo"@, publish_dir_args(
            dirs[dir as int],
            token,
            true,
        )),
        PublishStage::Publishing { dir } => a matches PublishAction::Run { cmd } && cmd@ == (
            "cargo"@,
            publish_dir_args(dirs[dir as int], token, false),
        ),
        PublishStage::Finished => a is Done,
        PublishStage::Aborted => a is Abort,
    }
}

impl PublishAll {
    #[verifier::type_invariant]
    spec fn inv(self) -> bool {
        stage_wf(self.stage, self.dirs@.len())
    }

    /// A run over `dirs` with `token`: it starts by rehearsing the first
    /// package, and is finished at once in a dry run or without directories.
    pub fn new(dirs: Vec<String>, token: String, flag: &DryRun) -> (r: PublishAll)
        ensures
            r@.0 == texts(dirs@),
            r@.1 == token@,
            r@.2 == (if flag@ || dirs@.len() == 0 {
                PublishStage::Finished
            } else {
                PublishStage::Probing { dir: 0, attempt: 0 }
            }),
            stage_wf(r@.2, r@.0.len()),
    {
        let stage = if dry_run(flag).is_some() || dirs.len() == 0 {
            PublishStage::Finished
        } else {
            PublishStage::Probing { dir: 0, attempt: 0 }
        };
        PublishAll { dirs, token, stage }
    }

    /// Where the run stands.
    pub fn stage(&self) -> (r: PublishStage)
        ensures
            r == self@.2,
    {
        self.stage
    }

    /// What the caller does next.
    pub fn next_action(&self) -> (r: PublishAction)
        ensures
            stage_wf(self@.2, self@.0.len()),
            action_matches(self@.0, self@.1, self@.2, r),
    {
        proof {
            use_type_invariant(self);
        }
        match self.stage {
            PublishStage::Probing { dir, .. } => {
                assert(self.dirs@[dir as int]@ == self@.0[dir as int]);
                let cmd = publish_dir_command(self.dirs[dir].as_str(), self.token.as_str(), true);
                PublishAction::WaitThenRun { secs: PROBE_WAIT_SECS, cmd }
            },
            PublishStage::Publishing { dir } => {
                assert(self.dirs@[dir as int]@ == self@.0[dir as int]);
                let cmd = publish_dir_command(self.dirs[dir].as_str(), self.token.as_str(), false);
                PublishAction::Run { cmd }
            },
            PublishStage::Finished => PublishAction::Done,
            PublishStage::Aborted => PublishAction::Abort,
        }
    }

    /// Takes in whether the command of the last action succeeded.
    pub fn record(&mut self, ok: bool)
        ensures
            stage_wf(old(self)@.2, old(self)@.0.len()),
            final(self)@.0 == old(self)@.0,
            final(self)@.1 == old(self)@.1,
            final(self)@.2 == next_stage(old(self)@.2, old(self)@.0.len(), ok),
            stage_wf(final(self)@.2, final(self)@.0.len()),
            is_running(old(self)@.2) ==> 0 <= commands_left(final(self)@.2, final(self)@.0.len())
                < commands_left(old(self)@.2, old(self)@.0.len()),
    {
        proof {
            use_type_invariant(&*self);
        }
        let n = self.dirs.len();
        self.stage = match self.stage {
            PublishStage::Probing { dir, attempt } => if ok || attempt + 1 == PROBE_ATTEMPTS {
                PublishStage::Publishing { dir }
            } else {
                PublishStage::Probing { dir, attempt: attempt + 1 }
            },
            PublishStage::Publishing { dir } => if !ok {
                PublishStage::Aborted
            } else if dir + 1 == n {
                PublishStage::Finished
            } else {
                PublishStage::Probing { dir: dir + 1, attempt: 0 }
            },
            s => s,
        };
    }
}

/// A failed rehearsal of any package, with attempts left, is followed by
/// another rehearsal of the same package.
pub proof fn lemma_failed_rehearsal_is_retried(dir: usize, attempt: usize, n: nat)
    requires
        dir < n,
        attempt + 1 < PROBE_ATTEMPTS,
    ensures
        next_stage(PublishStage::Probing { dir, attempt }, n, false) == (PublishStage::Probing {
            dir,
            attempt: (attempt + 1) as usize,
        }),
{
}

/// A package is published for real only right after one of its own
/// rehearsals that succeeded, or after the last rehearsal allowed.
pub proof fn lemma_publish_follows_rehearsal(stage: PublishStage, n: nat, ok: bool)
    requires
        next_stage(stage, n, ok) is Publishing,
    ensures
        stage matches PublishStage::Probing { dir, attempt } && next_stage(stage, n, ok)
            == (PublishStage::Publishing { dir }) && (ok || attempt + 1 == PROBE_ATTEMPTS),
{
}

/// After a real publish succeeds, the next package, if any, starts with its
/// first rehearsal; after the last one the run is finished.
pub proof fn lemma_next_package_after_publish(dir: usize, n: nat)
    requires
        dir < n,
    ensures
        next_stage(PublishStage::Publishing { dir }, n, true) == (if dir + 1 == n {
            PublishStage::Finished
        } else {
            PublishStage::Probing { dir: (dir + 1) as usize, attempt: 0 }
        }),
        next_stage(PublishStage::Publishing { dir }, n, false) == PublishStage::Aborted,
{
}

} // verus!
