//! The continuous-integration pipeline of a release: check the command line,
//! read the manifest, run the tests in debug and release mode, decide whether
//! this is a rehearsal, then publish, tag and push.
//!
//! A run is a dry run unless it happens on CI, for a version that has no tag
//! yet, on the branch `master`.
//!
//! The decisions stand here as a state machine: the caller performs each
//! action and reports what came of it. A failure of a command or of a read
//! ends the run: the open output group, if any, is closed, and the caller
//! reports the failure.

use vstd::prelude::*;
use vstd::string::*;

use crate::command::{
    crates_io_token, missing_token, publish_args, publish_command, test_args, test_command, Cmd,
};
use crate::dry_run::{set_dry_run, DryRun};
use crate::error::XtaskError;
use crate::git::{
    current_branch_command, has_tag, listed_tags, parse_tag_list, push_tags_command, tag_command,
    tag_list_command,
};
use crate::git::lemma_has_tag_iff_listed_line;
use crate::manifest::{field_readable, raw_field_value, unquote, CargoToml};
use crate::text::{lines, trim};

verus! {

/// Where a run of the pipeline stands: the action last asked for, whose
/// outcome is awaited.
#[derive(Clone, Copy, Debug, PartialEq, Eq, Structural)]
pub enum CiStage {
    /// Nothing asked yet; the command line is awaited.
    Start,
    /// Reading the manifest.
    AwaitManifest,
    /// Opening the test group.
    EnterTests,
    /// Running the tests in debug mode.
    TestDebug,
    /// Running the tests in release mode.
    TestRelease,
    /// Closing the test group.
    LeaveTests,
    /// Reading the CI variable.
    AwaitCiVar,
    /// Listing the tags.
    AwaitTags,
    /// Reading the current branch.
    AwaitBranch,
    /// Opening the publish group.
    EnterPublish,
    /// Reading the crates.io token.
    AwaitToken,
    /// Publishing the package.
    Publishing,
    /// Tagging the release.
    Tagging,
    /// Pushing the tags.
    Pushing,
    /// Closing the publish group.
    LeavePublish,
    /// The run succeeded.
    Finished,
    /// The run ended with an error.
    Failed,
}

/// What the caller reports back.
pub enum CiEvent {
    /// The first argument of the command line.
    Args { subcommand: Option<String> },
    /// The manifest of the package.
    Manifest { manifest: CargoToml },
    /// The action was carried out.
    Ack,
    /// The value of the environment variable asked for, if it is set.
    Var { value: Option<String> },
    /// What the command asked for printed, without trailing whitespace.
    Output { text: String },
    /// The action failed.
    Failed,
}

/// What the caller does next.
pub enum CiAction {
    /// End the run with `error`, after printing the usage when `usage` holds.
    Fail { usage: bool, error: XtaskError },
    /// The manifest's version is not a quoted value: stop as on a broken
    /// assertion.
    Panic,
    /// Read the package manifest.
    ReadManifest,
    /// Read the environment variable `name`.
    ReadVar { name: &'static str },
    /// Run `cmd` and report what it printed.
    Read { cmd: Cmd },
    /// Run `cmd`.
    Run { cmd: Cmd },
    /// Open the output group `name`, timing it.
    EnterSection { name: &'static str },
    /// Close the open output group.
    LeaveSection,
    /// The run succeeded.
    Done,
    /// The last action failed: close the open output group when
    /// `close_group` holds, then end the run with that failure.
    Abort { close_group: bool },
}

/// A run of the pipeline.
pub struct Ci {
    stage: CiStage,
    manifest: Option<CargoToml>,
    tag: String,
    flag: DryRun,
    on_ci: Ghost<bool>,
    tagged: Ghost<bool>,
    branch: Ghost<Seq<char>>,
}

/// The state of a run, as the contracts see it.
pub struct CiState {
    pub stage: CiStage,
    /// The manifest's path and text, once read.
    pub manifest: Option<(Seq<char>, Seq<char>)>,
    /// The tag of the release, once known.
    pub tag: Seq<char>,
    /// The dry-run setting.
    pub dry: bool,
    /// Whether the CI variable was found set.
    pub on_ci: bool,
    /// Whether the release tag was found among the tags.
    pub tagged: bool,
    /// The current branch, once read.
    pub branch: Seq<char>,
}

impl View for Ci {
    type V = CiState;

    closed spec fn view(&self) -> CiState {
        CiState {
            stage: self.stage,
            manifest: match self.manifest {
                Some(m) => Some(m@),
                None => None,
            },
            tag: self.tag@,
            dry: self.flag@,
            on_ci: self.on_ci@,
            tagged: self.tagged@,
            branch: self.branch@,
        }
    }
}

/// The subcommand that runs the pipeline.
pub open spec fn ci_subcommand() -> Seq<char> {
    "ci"@
}

/// The tag of a release of `version`.
pub open spec fn release_tag(version: Seq<char>) -> Seq<char> {
    "v"@ + version
}

/// The branch that releases are made from.
pub open spec fn release_branch() -> Seq<char> {
    "master"@
}

/// Whether a run is a rehearsal: off CI, for a version already tagged, or on
/// another branch than the release branch.
pub open spec fn is_dry_run(on_ci: bool, tagged: bool, branch: Seq<char>) -> bool {
    !on_ci || tagged || branch != release_branch()
}

/// Which event each stage awaits. Every stage of a run that has not ended
/// also takes the failure of its action.
pub open spec fn awaits(stage: CiStage, ev: CiEvent) -> bool {
    match stage {
        CiStage::Finished | CiStage::Failed => false,
        _ if ev is Failed => true,
        CiStage::Start => ev is Args,
        CiStage::AwaitManifest => ev is Manifest,
        CiStage::AwaitCiVar | CiStage::AwaitToken => ev is Var,
        CiStage::AwaitTags | CiStage::AwaitBranch => ev is Output,
        _ => ev is Ack,
    }
}

/// The state keeps what its stage needs: the manifest once it has been
/// read, and a real run while tagging.
pub open spec fn ci_wf(s: CiState) -> bool {
    &&& !(s.stage == CiStage::Start || s.stage == CiStage::AwaitManifest || s.stage
        == CiStage::Failed) ==> s.manifest is Some
    &&& s.stage == CiStage::Tagging ==> !s.dry
    &&& s.stage == CiStage::AwaitTags ==> s.on_ci
    &&& s.stage == CiStage::AwaitBranch ==> s.on_ci && !s.tagged
    &&& decided(s.stage) ==> s.dry == is_dry_run(s.on_ci, s.tagged, s.branch)
    &&& knows_version(s.stage) ==> (manifest_version(s) matches Some(v) && s.tag == release_tag(
        unquote(v),
    ))
}

/// The raw version in the manifest that the run read, if any.
pub open spec fn manifest_version(s: CiState) -> Option<Seq<char>> {
    match s.manifest {
        Some(m) => raw_field_value(m.1, "version"@),
        None => None,
    }
}

/// The stages that come after the dry-run decision.
pub open spec fn decided(stage: CiStage) -> bool {
    match stage {
        CiStage::EnterPublish | CiStage::AwaitToken | CiStage::Publishing | CiStage::Tagging
        | CiStage::Pushing | CiStage::LeavePublish | CiStage::Finished => true,
        _ => false,
    }
}

/// The stages that come after the version was read.
pub open spec fn knows_version(stage: CiStage) -> bool {
    match stage {
        CiStage::Start | CiStage::AwaitManifest | CiStage::EnterTests | CiStage::TestDebug
        | CiStage::TestRelease | CiStage::LeaveTests | CiStage::Failed => false,
        _ => true,
    }
}

/// The error for a manifest at `path` without a version.
pub open spec fn version_missing(e: XtaskError, path: Seq<char>) -> bool {
    e matches XtaskError::FieldNotFound { field, path: p } && field@ == "version"@ && p@ == path
}

/// Deciding, from what `u` observed, whether this is a dry run, and opening
/// the publish group.
pub open spec fn enters_publish(u: CiState, t: CiState, a: CiAction) -> bool {
    &&& t == CiState {
        stage: CiStage::EnterPublish,
        dry: is_dry_run(u.on_ci, u.tagged, u.branch),
        ..u
    }
    &&& a matches CiAction::EnterSection { name } && name@ == "PUBLISH"@
}

/// A step of the pipeline: from `s`, on the event `ev`, the run moves to `t`
/// and asks for `a`.
pub open spec fn ci_transition(s: CiState, ev: CiEvent, t: CiState, a: CiAction) -> bool {
    if ev is Failed {
        &&& !(s.stage == CiStage::Finished || s.stage == CiStage::Failed)
        &&& t == CiState { stage: CiStage::Failed, ..s }
        &&& a matches CiAction::Abort { close_group } && close_group == group_open(s.stage)
    } else {
        ci_transition_on(s, ev, t, a)
    }
}

/// A step of the pipeline on an event that is not a failure.
pub open spec fn ci_transition_on(s: CiState, ev: CiEvent, t: CiState, a: CiAction) -> bool {
    match s.stage {
        CiStage::Start => match ev {
            CiEvent::Args { subcommand } => if subcommand matches Some(c) && c@ == ci_subcommand() {
                t == CiState { stage: CiStage::AwaitManifest, ..s } && a is ReadManifest
            } else {
                &&& t == CiState { stage: CiStage::Failed, ..s }
                &&& a matches CiAction::Fail { usage, error } && usage
                    && error is InvalidArguments
            },
            _ => false,
        },
        CiStage::AwaitManifest => match ev {
            CiEvent::Manifest { manifest } => {
                &&& t == CiState { stage: CiStage::EnterTests, manifest: Some(manifest@), ..s }
                &&& a matches CiAction::EnterSection { name } && name@ == "TEST"@
            },
            _ => false,
        },
        CiStage::EnterTests => {
            &&& t == CiState { stage: CiStage::TestDebug, ..s }
            &&& a matches CiAction::Run { cmd } && cmd@ == ("cargo"@, test_args(false))
        },
        CiStage::TestDebug => {
            &&& t == CiState { stage: CiStage::TestRelease, ..s }
            &&& a matches CiAction::Run { cmd } && cmd@ == ("cargo"@, test_args(true))
        },
        CiStage::TestRelease => t == CiState { stage: CiStage::LeaveTests, ..s } && a is LeaveSection,
        CiStage::LeaveTests => {
            let m = s.manifest.unwrap();
            if !field_readable(m.1, "version"@) {
                t == CiState { stage: CiStage::Failed, ..s } && a is Panic
            } else {
                match raw_field_value(m.1, "version"@) {
                    Some(v) => {
                        &&& t == CiState {
                            stage: CiStage::AwaitCiVar,
                            tag: release_tag(unquote(v)),
                            ..s
                        }
                        &&& a matches CiAction::ReadVar { name } && name@ == "CI"@
                    },
                    None => {
                        &&& t == CiState { stage: CiStage::Failed, ..s }
                        &&& a matches CiAction::Fail { usage, error } && !usage
                            && version_missing(error, m.0)
                    },
                }
            }
        },
        CiStage::AwaitCiVar => match ev {
            CiEvent::Var { value } => if value is None {
                enters_publish(CiState { on_ci: false, ..s }, t, a)
            } else {
                &&& t == CiState { stage: CiStage::AwaitTags, on_ci: true, ..s }
                &&& a matches CiAction::Read { cmd } && cmd@ == ("git"@, seq!["tag"@, "--list"@])
            },
            _ => false,
        },
        CiStage::AwaitTags => match ev {
            CiEvent::Output { text } => if listed_tags(text@).contains(s.tag) {
                enters_publish(CiState { tagged: true, ..s }, t, a)
            } else {
                &&& t == CiState { stage: CiStage::AwaitBranch, tagged: false, ..s }
                &&& a matches CiAction::Read { cmd } && cmd@ == (
                    "git"@,
                    seq!["branch"@, "--show-current"@],
                )
            },
            _ => false,
        },
        CiStage::AwaitBranch => match ev {
            CiEvent::Output { text } => enters_publish(CiState { branch: text@, ..s }, t, a),
            _ => false,
        },
        CiStage::EnterPublish => {
            &&& t == CiState { stage: CiStage::AwaitToken, ..s }
            &&& a matches CiAction::ReadVar { name } && name@ == "CRATES_IO_TOKEN"@
        },
        CiStage::AwaitToken => match ev {
            CiEvent::Var { value } => {
                let token = match value {
                    Some(v) => v@,
                    None => missing_token(),
                };
                &&& t == CiState { stage: CiStage::Publishing, ..s }
                &&& a matches CiAction::Run { cmd } && cmd@ == ("cargo"@, publish_args(token, s.dry))
            },
            _ => false,
        },
        CiStage::Publishing => if s.dry {
            t == CiState { stage: CiStage::LeavePublish, ..s } && a is LeaveSection
        } else {
            &&& t == CiState { stage: CiStage::Tagging, ..s }
            &&& a matches CiAction::Run { cmd } && cmd@ == ("git"@, seq!["tag"@, s.tag])
        },
        CiStage::Tagging => {
            &&& t == CiState { stage: CiStage::Pushing, ..s }
            &&& a matches CiAction::Run { cmd } && cmd@ == ("git"@, seq!["push"@, "--tags"@])
        },
        CiStage::Pushing => t == CiState { stage: CiStage::LeavePublish, ..s } && a is LeaveSection,
        CiStage::LeavePublish => t == CiState { stage: CiStage::Finished, ..s } && a is Done,
        CiStage::Finished | CiStage::Failed => false,
    }
}

impl Ci {
    #[verifier::type_invariant]
    spec fn inv(self) -> bool {
        ci_wf(self@)
    }

    /// A run that has not started: it awaits the command line.
    pub fn new() -> (r: Ci)
        ensures
            r@ == (CiState {
                stage: CiStage::Start,
                manifest: None,
                tag: Seq::empty(),
                dry: false,
                on_ci: false,
                tagged: false,
                branch: Seq::empty(),
            }),
            ci_wf(r@),
    {
        Ci {
            stage: CiStage::Start,
            manifest: None,
            tag: String::new(),
            flag: DryRun::new(),
            on_ci: Ghost(false),
            tagged: Ghost(false),
            branch: Ghost(Seq::empty()),
        }
    }

    /// Where the run stands.
    pub fn stage(&self) -> (r: CiStage)
        ensures
            r == self@.stage,
    {
        self.stage
    }

    /// Whether the run awaits `ev` now.
    pub fn awaits(&self, ev: &CiEvent) -> (r: bool)
        ensures
            r == awaits(self@.stage, *ev),
    {
        match self.stage {
            CiStage::Finished | CiStage::Failed => false,
            _ if matches!(ev, CiEvent::Failed) => true,
            CiStage::Start => matches!(ev, CiEvent::Args { .. }),
            CiStage::AwaitManifest => matches!(ev, CiEvent::Manifest { .. }),
            CiStage::AwaitCiVar | CiStage::AwaitToken => matches!(ev, CiEvent::Var { .. }),
            CiStage::AwaitTags | CiStage::AwaitBranch => matches!(ev, CiEvent::Output { .. }),
            _ => matches!(ev, CiEvent::Ack),
        }
    }

    /// Takes in the outcome of the last action and asks for the next one.
    pub fn step(&mut self, ev: CiEvent) -> (a: CiAction)
        requires
            awaits(old(self)@.stage, ev),
        ensures
            ci_wf(old(self)@),
            ci_wf(final(self)@),
            ci_transition(old(self)@, ev, final(self)@, a),
    {
        proof {
            use_type_invariant(&*self);
        }
        match ev {
            CiEvent::Failed => {
                let close_group = stage_group_open(self.stage);
                self.stage = CiStage::Failed;
                CiAction::Abort { close_group }
            },
            CiEvent::Args { subcommand } => {
                let ok = match subcommand {
                    Some(c) => c == String::from_str("ci"),
                    None => false,
                };
                if ok {
                    self.stage = CiStage::AwaitManifest;
                    CiAction::ReadManifest
                } else {
                    self.stage = CiStage::Failed;
                    CiAction::Fail { usage: true, error: XtaskError::InvalidArguments }
                }
            },
            CiEvent::Manifest { manifest } => {
                self.manifest = Some(manifest);
                self.stage = CiStage::EnterTests;
                CiAction::EnterSection { name: "TEST" }
            },
            CiEvent::Var { value } => {
                if self.stage == CiStage::AwaitCiVar {
                    match value {
                        None => {
                            self.on_ci = Ghost(false);
                            self.enter_publish(true)
                        },
                        Some(_) => {
                            self.on_ci = Ghost(true);
                            self.stage = CiStage::AwaitTags;
                            CiAction::Read { cmd: tag_list_command() }
                        },
                    }
                } else {
                    let token = crates_io_token(value);
                    self.stage = CiStage::Publishing;
                    CiAction::Run { cmd: publish_command(token.as_str(), &self.flag) }
                }
            },
            CiEvent::Output { text } => {
                if self.stage == CiStage::AwaitTags {
                    let tags = parse_tag_list(text.as_str());
                    let tagged = has_tag(&tags, self.tag.as_str());
                    self.tagged = Ghost(tagged);
                    if tagged {
                        self.enter_publish(true)
                    } else {
                        self.stage = CiStage::AwaitBranch;
                        CiAction::Read { cmd: current_branch_command() }
                    }
                } else {
                    let on_branch = text == String::from_str("master");
                    self.branch = Ghost(text@);
                    self.enter_publish(!on_branch)
                }
            },
            CiEvent::Ack => self.acknowledged(),
        }
    }

    /// Sets the dry-run setting and opens the publish group.
    fn enter_publish(&mut self, dry: bool) -> (a: CiAction)
        requires
            old(self)@.stage == CiStage::AwaitCiVar || old(self)@.stage == CiStage::AwaitTags
                || old(self)@.stage == CiStage::AwaitBranch,
            dry == is_dry_run(old(self)@.on_ci, old(self)@.tagged, old(self)@.branch),
        ensures
            enters_publish(old(self)@, final(self)@, a),
    {
        proof {
            use_type_invariant(&*self);
        }
        set_dry_run(&mut self.flag, dry);
        self.stage = CiStage::EnterPublish;
        CiAction::EnterSection { name: "PUBLISH" }
    }

    /// The step after an action that reports nothing but its success.
    fn acknowledged(&mut self) -> (a: CiAction)
        requires
            ci_wf(old(self)@),
            awaits(old(self)@.stage, CiEvent::Ack),
        ensures
            ci_wf(final(self)@),
            ci_transition(old(self)@, CiEvent::Ack, final(self)@, a),
    {
        match self.stage {
            CiStage::EnterTests => {
                self.stage = CiStage::TestDebug;
                CiAction::Run { cmd: test_command(false) }
            },
            CiStage::TestDebug => {
                self.stage = CiStage::TestRelease;
                CiAction::Run { cmd: test_command(true) }
            },
            CiStage::TestRelease => {
                self.stage = CiStage::LeaveTests;
                CiAction::LeaveSection
            },
            CiStage::LeaveTests => self.read_version(),
            CiStage::EnterPublish => {
                self.stage = CiStage::AwaitToken;
                CiAction::ReadVar { name: "CRATES_IO_TOKEN" }
            },
            CiStage::Publishing => match tag_command(self.tag.as_str(), &self.flag) {
                Some(cmd) => {
                    self.stage = CiStage::Tagging;
                    CiAction::Run { cmd }
                },
                None => {
                    self.stage = CiStage::LeavePublish;
                    CiAction::LeaveSection
                },
            },
            CiStage::Tagging => {
                let cmd = push_tags_command(&self.flag);
                self.stage = CiStage::Pushing;
                match cmd {
                    Some(cmd) => CiAction::Run { cmd },
                    None => CiAction::LeaveSection,
                }
            },
            CiStage::Pushing => {
                self.stage = CiStage::LeavePublish;
                CiAction::LeaveSection
            },
            _ => {
                self.stage = CiStage::Finished;
                CiAction::Done
            },
        }
    }

    /// Reads the version from the manifest and derives the release tag.
    fn read_version(&mut self) -> (a: CiAction)
        requires
            old(self)@.stage == CiStage::LeaveTests,
            ci_wf(old(self)@),
        ensures
            ci_wf(final(self)@),
            ci_transition(old(self)@, CiEvent::Ack, final(self)@, a),
    {
        let m = match &self.manifest {
            Some(m) => m,
            None => {
                return CiAction::Panic;
            },
        };
        if !m.can_get("version") {
            self.stage = CiStage::Failed;
            return CiAction::Panic;
        }
        match m.version() {
            Ok(v) => {
                let mut tag = String::from_str("v");
                tag.append(v);
                self.tag = tag;
                self.stage = CiStage::AwaitCiVar;
                CiAction::ReadVar { name: "CI" }
            },
            Err(e) => {
                self.stage = CiStage::Failed;
                CiAction::Fail { usage: false, error: e }
            },
        }
    }
}

/// In a dry run the repository is left alone: the only commands run are
/// cargo's.
pub proof fn lemma_dry_run_leaves_repository_alone(s: CiState, ev: CiEvent, t: CiState, a: CiAction)
    requires
        ci_wf(s),
        s.dry,
        ci_transition(s, ev, t, a),
    ensures
        a matches CiAction::Run { cmd } ==> cmd@.0 == "cargo"@,
{
}

/// A run becomes a real release only on the release branch, after the CI
/// variable was found set and the version found untagged.
pub proof fn lemma_real_run_only_from_release_branch(
    s: CiState,
    ev: CiEvent,
    t: CiState,
    a: CiAction,
)
    requires
        ci_transition(s, ev, t, a),
        t.stage == CiStage::EnterPublish,
        !t.dry,
    ensures
        s.stage == CiStage::AwaitBranch,
        ev matches CiEvent::Output { text } && text@ == release_branch(),
{
}

/// The tag that a real release puts on the commit is `v` followed by the
/// version in the manifest.
pub proof fn lemma_tag_names_manifest_version(s: CiState, ev: CiEvent, t: CiState, a: CiAction)
    requires
        ci_wf(s),
        ci_transition(s, ev, t, a),
        a matches CiAction::Run { cmd } && cmd@.0 == "git"@,
    ensures
        manifest_version(s) is Some,
        s.tag == release_tag(unquote(manifest_version(s).unwrap())),
        a matches CiAction::Run { cmd } && (cmd@.1 == seq!["tag"@, s.tag] || cmd@.1 == seq![
            "push"@,
            "--tags"@,
        ]),
{
    broadcast use vstd::string::group_string_axioms;

    reveal_strlit("cargo");
    reveal_strlit("git");
    assert("cargo"@.len() != "git"@.len());
}

/// A command line without the subcommand `ci` ends the run at once, before
/// any command, with the usage and the error for invalid arguments.
pub proof fn lemma_other_subcommand_fails(s: CiState, sub: Option<String>, t: CiState, a: CiAction)
    requires
        s.stage == CiStage::Start,
        !(sub matches Some(c) && c@ == ci_subcommand()),
        ci_transition(s, CiEvent::Args { subcommand: sub }, t, a),
    ensures
        t.stage == CiStage::Failed,
        a matches CiAction::Fail { usage, error } && usage && error is InvalidArguments,
{
}

/// Once the run has decided, it is a dry run exactly when it is off CI, or
/// the version is already tagged, or the branch is not the release branch;
/// the three are what the run observed.
pub proof fn lemma_dry_run_decision(s: CiState)
    requires
        ci_wf(s),
        decided(s.stage),
    ensures
        s.dry <==> !s.on_ci || s.tagged || s.branch != release_branch(),
{
}

/// Whether an output group is open at `stage`: after its opening was asked
/// for and before its closing was.
pub open spec fn group_open(stage: CiStage) -> bool {
    match stage {
        CiStage::EnterTests | CiStage::TestDebug | CiStage::TestRelease | CiStage::EnterPublish
        | CiStage::AwaitToken | CiStage::Publishing | CiStage::Tagging | CiStage::Pushing => true,
        _ => false,
    }
}

/// An action that ends the run.
pub open spec fn ends_run(a: CiAction) -> bool {
    a is Done || a is Fail || a is Panic || a is Abort
}

/// Whether an output group is open at `stage`.
fn stage_group_open(stage: CiStage) -> (b: bool)
    ensures
        b == group_open(stage),
{
    match stage {
        CiStage::EnterTests | CiStage::TestDebug | CiStage::TestRelease | CiStage::EnterPublish
        | CiStage::AwaitToken | CiStage::Publishing | CiStage::Tagging | CiStage::Pushing => true,
        _ => false,
    }
}

/// How many groups the actions opened, less how many they closed.
pub open spec fn group_depth(actions: Seq<CiAction>) -> int
    decreases actions.len(),
{
    if actions.len() == 0 {
        0
    } else {
        group_depth(actions.drop_last()) + match actions.last() {
            CiAction::EnterSection { .. } => 1int,
            CiAction::LeaveSection => -1int,
            CiAction::Abort { close_group } => if close_group {
                -1int
            } else {
                0int
            },
            _ => 0int,
        }
    }
}

/// A run of the pipeline from its start: each state moves to the next on the
/// event reported, asking for the action at the same position.
pub open spec fn is_run(states: Seq<CiState>, events: Seq<CiEvent>, actions: Seq<CiAction>) -> bool {
    &&& states.len() == events.len() + 1
    &&& actions.len() == events.len()
    &&& states[0].stage == CiStage::Start
    &&& forall|i: int|
        0 <= i < events.len() ==> ci_transition(
            states[i],
            #[trigger] events[i],
            states[i + 1],
            actions[i],
        )
}

/// One step opens a group only when none is open, closes one only when one
/// is open, leaves the groups alone otherwise, and ends the run only when no
/// group is open.
pub proof fn lemma_group_step(s: CiState, ev: CiEvent, t: CiState, a: CiAction)
    requires
        ci_transition(s, ev, t, a),
    ensures
        a is EnterSection ==> !group_open(s.stage) && group_open(t.stage),
        a is LeaveSection ==> group_open(s.stage) && !group_open(t.stage),
        a matches CiAction::Abort { close_group } ==> close_group == group_open(s.stage),
        !(a is EnterSection || a is LeaveSection || a is Abort) ==> group_open(t.stage)
            == group_open(s.stage),
        (a is Done || a is Fail || a is Panic) ==> !group_open(s.stage),
        ends_run(a) ==> !group_open(t.stage),
{
}

/// Over a whole run, the openings and closings of output groups alternate,
/// starting with an opening: at every point at most one group is open, it is
/// open exactly when the stage says so, an opening comes only when none is
/// open, a closing only when one is, and the run ends, whether it succeeds or
/// fails, with every group closed.
pub proof fn lemma_groups_alternate(
    states: Seq<CiState>,
    events: Seq<CiEvent>,
    actions: Seq<CiAction>,
)
    requires
        is_run(states, events, actions),
    ensures
        forall|k: int|
            0 <= k <= actions.len() ==> 0 <= #[trigger] group_depth(actions.take(k)) <= 1 && (
            group_depth(actions.take(k)) == 1) == group_open(states[k].stage),
        forall|i: int|
            0 <= i < actions.len() ==> (#[trigger] actions[i] is EnterSection ==> group_depth(
                actions.take(i),
            ) == 0) && (actions[i] is LeaveSection ==> group_depth(actions.take(i)) == 1) && (
            ends_run(actions[i]) ==> group_depth(actions.take(i + 1)) == 0),
{
    assert forall|k: int| 0 <= k <= actions.len() implies 0 <= #[trigger] group_depth(
        actions.take(k),
    ) <= 1 && (group_depth(actions.take(k)) == 1) == group_open(states[k].stage) by {
        lemma_depth_prefix(states, events, actions, k);
    }
    assert forall|i: int| 0 <= i < actions.len() implies (#[trigger] actions[i] is EnterSection
        ==> group_depth(actions.take(i)) == 0) && (actions[i] is LeaveSection ==> group_depth(
        actions.take(i),
    ) == 1) && (ends_run(actions[i]) ==> group_depth(actions.take(i + 1)) == 0) by {
        lemma_depth_prefix(states, events, actions, i);
        lemma_depth_prefix(states, events, actions, i + 1);
        assert(ci_transition(states[i], events[i], states[i + 1], actions[i]));
        lemma_group_step(states[i], events[i], states[i + 1], actions[i]);
    }
}

proof fn lemma_depth_prefix(
    states: Seq<CiState>,
    events: Seq<CiEvent>,
    actions: Seq<CiAction>,
    k: int,
)
    requires
        is_run(states, events, actions),
        0 <= k <= actions.len(),
    ensures
        0 <= group_depth(actions.take(k)) <= 1,
        (group_depth(actions.take(k)) == 1) == group_open(states[k].stage),
    decreases k,
{
    if k == 0 {
        assert(actions.take(0) =~= Seq::<CiAction>::empty());
    } else {
        lemma_depth_prefix(states, events, actions, k - 1);
        assert(actions.take(k).drop_last() =~= actions.take(k - 1));
        assert(actions.take(k).last() == actions[k - 1]);
        assert(ci_transition(states[k - 1], events[k - 1], states[k], actions[k - 1]));
        lemma_group_step(states[k - 1], events[k - 1], states[k], actions[k - 1]);
    }
}

/// At the token stage the real or rehearsed publish carries the value of
/// the token variable whenever it is set, and the placeholder only when it
/// is not: `cargo publish --token <value>`, followed by `--dry-run` in a dry
/// run.
pub proof fn lemma_publish_carries_the_token(
    s: CiState,
    value: Option<String>,
    t: CiState,
    a: CiAction,
)
    requires
        s.stage == CiStage::AwaitToken,
        ci_transition(s, CiEvent::Var { value }, t, a),
    ensures
        a matches CiAction::Run { cmd } && cmd@.0 == "cargo"@ && cmd@.1 == seq![
            "publish"@,
            "--token"@,
            match value {
                Some(v) => v@,
                None => "no token"@,
            },
        ] + (if s.dry {
            seq!["--dry-run"@]
        } else {
            Seq::empty()
        }),
        t.stage == CiStage::Publishing,
        t.dry == s.dry,
{
    assert(crate::dry_run::dry_run_args(s.dry) == (if s.dry {
        seq!["--dry-run"@]
    } else {
        Seq::<Seq<char>>::empty()
    }));
}

/// At the CI-variable stage the run is on CI exactly when the variable is
/// set, whatever its text: a set variable goes on to list the tags, and only
/// an unset one makes the run a dry run here.
pub proof fn lemma_ci_variable_set_means_on_ci(
    s: CiState,
    value: Option<String>,
    t: CiState,
    a: CiAction,
)
    requires
        s.stage == CiStage::AwaitCiVar,
        ci_transition(s, CiEvent::Var { value }, t, a),
    ensures
        t.on_ci == (value is Some),
        value is Some ==> t.stage == CiStage::AwaitTags && t.dry == s.dry && (a matches CiAction::Read {
            cmd
        } && cmd@ == ("git"@, seq!["tag"@, "--list"@])),
        value is None ==> t.stage == CiStage::EnterPublish && t.dry,
{
}

/// At the tag stage the release counts as tagged exactly when some line of
/// the tag listing, wherever it stands, is the release tag once trimmed; a
/// tagged release becomes a dry run at once, an untagged one goes on to read
/// the branch.
pub proof fn lemma_tagged_anywhere_in_listing(s: CiState, text: String, t: CiState, a: CiAction)
    requires
        s.stage == CiStage::AwaitTags,
        ci_transition(s, CiEvent::Output { text }, t, a),
    ensures
        t.tagged == exists|k: int|
            0 <= k < lines(text@).len() && trim(#[trigger] lines(text@)[k]) == s.tag,
        t.tagged ==> t.stage == CiStage::EnterPublish && t.dry,
        !t.tagged ==> t.stage == CiStage::AwaitBranch && t.dry == s.dry && (a matches CiAction::Read {
            cmd
        } && cmd@ == ("git"@, seq!["branch"@, "--show-current"@])),
{
    lemma_has_tag_iff_listed_line(text@, s.tag);
}

/// The subcommand `ci` starts the run by reading the manifest.
pub proof fn lemma_ci_subcommand_starts(s: CiState, sub: String, t: CiState, a: CiAction)
    requires
        s.stage == CiStage::Start,
        sub@ == "ci"@,
        ci_transition(s, CiEvent::Args { subcommand: Some(sub) }, t, a),
    ensures
        t.stage == CiStage::AwaitManifest,
        a is ReadManifest,
{
}

/// At the branch stage (reached on CI, for an untagged version) the run is a
/// real release exactly when the branch read is `master`.
pub proof fn lemma_branch_decides(s: CiState, text: String, t: CiState, a: CiAction)
    requires
        ci_wf(s),
        s.stage == CiStage::AwaitBranch,
        ci_transition(s, CiEvent::Output { text }, t, a),
    ensures
        t.stage == CiStage::EnterPublish,
        t.dry == (text@ != "master"@),
        t.branch == text@,
        a matches CiAction::EnterSection { name } && name@ == "PUBLISH"@,
{
}

} // verus!
