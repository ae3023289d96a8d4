//! A run of a sandbox, step by step: the lifecycle prepare, validate, set up,
//! run, clean up, and the laws it keeps.
use crate::cgroup::ResourceLimits;
use crate::cli::option_view;
use crate::decimal::{i32_to_decimal, signed_decimal};
use crate::error::JarError;
use crate::sandbox::needs_cgroup;
use crate::text::concat_text;
use vstd::prelude::*;

verus! {

/// How far a run of a sandbox has come.
#[derive(Debug, Clone, Copy, PartialEq, Eq, Structural)]
pub enum RunStage {
    Start,
    /// Announced that the run is being prepared; the configuration is checked next.
    Preparing,
    /// Announced the program.
    Announced,
    /// Announced that cgroup limits are being applied.
    CgroupAnnounced,
    /// The cgroup is being set up.
    SettingUpCgroup,
    /// Announced that the overlay is being set up.
    OverlayAnnounced,
    /// The overlay is being set up.
    SettingUpOverlay,
    /// Announced that the process is being started.
    StartAnnounced,
    /// The program runs.
    Running,
    /// The overlay is being removed.
    CleaningUp,
    /// Announced the program's exit code.
    Reporting,
    /// The cgroup is being removed; the run ends next.
    RemovingCgroup,
    Finished,
}

/// What came of the last action of a run.
#[derive(Debug)]
pub enum RunEvent {
    /// It succeeded (or, at the start, nothing was done yet).
    Done,
    /// It failed with this error.
    Failed(JarError),
    /// The program ended with this exit code.
    Exited(i32),
}

/// What a run does next.
#[derive(Debug)]
pub enum RunAction {
    /// Print this line.
    Announce(String),
    /// Create the sandbox's cgroup and apply these limits.
    SetUpCgroup(ResourceLimits),
    /// Lay an overlay over this root file system.
    SetUpOverlay(String),
    /// Run the program and report its exit code.
    Execute,
    /// Unmount the overlay and remove its directories.
    CleanUpOverlay,
    /// Remove the sandbox's cgroup, if it was created.
    RemoveCgroup,
    /// Stop, with this result.
    Finish(Result<i32, JarError>),
}

/// The line that announces the start of a run.
pub open spec fn preparing_notice() -> Seq<char> {
    "[jar] preparing execution"@
}

/// The line that announces the program.
pub open spec fn executable_notice(executable: Seq<char>) -> Seq<char> {
    "[jar] executable: "@ + executable
}

/// The line that announces cgroup limits.
pub open spec fn cgroup_notice() -> Seq<char> {
    "[jar] applying cgroups v2 resource limits"@
}

/// The line that announces the overlay.
pub open spec fn overlay_notice() -> Seq<char> {
    "[jar] setting up OverlayFS copy-on-write filesystem layer"@
}

/// The line that announces the start of the process.
pub open spec fn started_notice() -> Seq<char> {
    "[jar] process started in isolated user/mount/PID namespaces"@
}

/// The line that announces the program's exit code.
pub open spec fn exited_notice(code: int) -> Seq<char> {
    "[jar] process exited: "@ + signed_decimal(code)
}

/// The kind of an action of a run.
#[derive(Debug, Clone, Copy, PartialEq, Eq, Structural)]
pub enum ActionTag {
    Announce,
    SetUpCgroup,
    SetUpOverlay,
    Execute,
    CleanUpOverlay,
    RemoveCgroup,
    Finish,
}

/// The kind of an event of a run.
#[derive(Debug, Clone, Copy, PartialEq, Eq, Structural)]
pub enum EventTag {
    Done,
    Failed,
    Exited,
}

/// The kind of an action.
pub open spec fn action_tag(a: RunAction) -> ActionTag {
    match a {
        RunAction::Announce(_) => ActionTag::Announce,
        RunAction::SetUpCgroup(_) => ActionTag::SetUpCgroup,
        RunAction::SetUpOverlay(_) => ActionTag::SetUpOverlay,
        RunAction::Execute => ActionTag::Execute,
        RunAction::CleanUpOverlay => ActionTag::CleanUpOverlay,
        RunAction::RemoveCgroup => ActionTag::RemoveCgroup,
        RunAction::Finish(_) => ActionTag::Finish,
    }
}

/// The kind of an event.
pub open spec fn event_tag(e: RunEvent) -> EventTag {
    match e {
        RunEvent::Done => EventTag::Done,
        RunEvent::Failed(_) => EventTag::Failed,
        RunEvent::Exited(_) => EventTag::Exited,
    }
}

/// What shapes a run: whether the program's path is given, whether a cgroup
/// and an overlay are set up.
pub struct RunShape {
    pub has_program: bool,
    pub cgroup: bool,
    pub overlay: bool,
}

/// How a run that is to end with a result goes on, by kind: when it set up a
/// cgroup, it removes it first, carrying whether the result is an exit code
/// (`ok`); else it ends, and the flag stays as it was.
pub open spec fn ending(shape: RunShape, exited: bool, ok: bool) -> (RunStage, bool, ActionTag) {
    if shape.cgroup {
        (RunStage::RemovingCgroup, ok, ActionTag::RemoveCgroup)
    } else {
        (RunStage::Finished, exited, ActionTag::Finish)
    }
}

/// One step of a run, by kind: from a stage (and, while the overlay or the
/// cgroup is being removed, whether the run's result is an exit code) and the
/// kind of the last event, to the next stage, the same flag, and the kind of
/// action.
pub open spec fn tag_step(shape: RunShape, stage: RunStage, exited: bool, ev: EventTag) -> (
    RunStage,
    bool,
    ActionTag,
) {
    match stage {
        RunStage::Start => (RunStage::Preparing, exited, ActionTag::Announce),
        RunStage::Preparing => if shape.has_program {
            (RunStage::Announced, exited, ActionTag::Announce)
        } else {
            (RunStage::Finished, exited, ActionTag::Finish)
        },
        RunStage::Announced => if shape.cgroup {
            (RunStage::CgroupAnnounced, exited, ActionTag::Announce)
        } else if shape.overlay {
            (RunStage::OverlayAnnounced, exited, ActionTag::Announce)
        } else {
            (RunStage::StartAnnounced, exited, ActionTag::Announce)
        },
        RunStage::CgroupAnnounced => (RunStage::SettingUpCgroup, exited, ActionTag::SetUpCgroup),
        RunStage::SettingUpCgroup => if ev is Failed {
            ending(shape, exited, false)
        } else if shape.overlay {
            (RunStage::OverlayAnnounced, exited, ActionTag::Announce)
        } else {
            (RunStage::StartAnnounced, exited, ActionTag::Announce)
        },
        RunStage::OverlayAnnounced => (RunStage::SettingUpOverlay, exited, ActionTag::SetUpOverlay),
        RunStage::SettingUpOverlay => if ev is Failed {
            ending(shape, exited, false)
        } else {
            (RunStage::StartAnnounced, exited, ActionTag::Announce)
        },
        RunStage::StartAnnounced => (RunStage::Running, exited, ActionTag::Execute),
        RunStage::Running => if ev is Done {
            (RunStage::Running, exited, ActionTag::Execute)
        } else if shape.overlay {
            (RunStage::CleaningUp, ev is Exited, ActionTag::CleanUpOverlay)
        } else if ev is Exited {
            (RunStage::Reporting, exited, ActionTag::Announce)
        } else {
            ending(shape, exited, false)
        },
        RunStage::CleaningUp => if exited {
            (RunStage::Reporting, false, ActionTag::Announce)
        } else {
            ending(shape, false, false)
        },
        RunStage::Reporting => ending(shape, exited, true),
        RunStage::RemovingCgroup => (RunStage::Finished, false, ActionTag::Finish),
        RunStage::Finished => (RunStage::Finished, exited, ActionTag::Finish),
    }
}

/// The exit code an event reports, if it reports one.
pub open spec fn event_code(e: RunEvent) -> Option<i32> {
    match e {
        RunEvent::Exited(c) => Some(c),
        _ => None,
    }
}

/// The exit code an action ends the run with, if it ends it with one.
pub open spec fn finish_code(a: RunAction) -> Option<i32> {
    match a {
        RunAction::Finish(Ok(c)) => Some(c),
        _ => None,
    }
}

/// One step of a run: from a stage, the flag of `tag_step`, the exit code the
/// run carries and the last event, to the next stage, flag and code, the kind
/// of the next action and the exit code that action ends the run with, if any.
pub open spec fn run_step(shape: RunShape, stage: RunStage, exited: bool, code: i32, ev: RunEvent) -> (
    RunStage,
    bool,
    i32,
    ActionTag,
    Option<i32>,
) {
    let (next, next_exited, action) = tag_step(shape, stage, exited, event_tag(ev));
    let next_code = match ev {
        RunEvent::Exited(c) => if stage is Running {
            c
        } else {
            code
        },
        _ => code,
    };
    let finish = if (stage is Reporting && !shape.cgroup) || (stage is RemovingCgroup && exited) {
        Some(code)
    } else {
        None
    };
    (next, next_exited, next_code, action, finish)
}

#[verifier::opaque]
/// The actions of a run from a state on, each by its kind and the exit code it
/// ends the run with, given the events that answer them, up to and with the
/// first `Finish`.
pub open spec fn run_trace(
    shape: RunShape,
    stage: RunStage,
    exited: bool,
    code: i32,
    events: Seq<RunEvent>,
) -> Seq<(ActionTag, Option<i32>)>
    decreases events.len(),
{
    if events.len() == 0 {
        Seq::empty()
    } else {
        let (next, next_exited, next_code, action, finish) = run_step(
            shape,
            stage,
            exited,
            code,
            events[0],
        );
        if action is Finish {
            seq![(action, finish)]
        } else {
            seq![(action, finish)] + run_trace(shape, next, next_exited, next_code, events.drop_first())
        }
    }
}

/// Every `Finish` of the actions `t` that comes after an action of kind
/// `first` has an action of kind `between` strictly between them.
pub open spec fn always_between(t: Seq<(ActionTag, Option<i32>)>, first: ActionTag, between: ActionTag) -> bool {
    forall|i: int, j: int|
        0 <= i < j < t.len() && (#[trigger] t[i]).0 == first && (#[trigger] t[j]).0
            == ActionTag::Finish ==> occurs_between(t, i, j, between)
}

/// Some action strictly between the `i`th and the `j`th is of kind `a`.
pub open spec fn occurs_between(t: Seq<(ActionTag, Option<i32>)>, i: int, j: int, a: ActionTag) -> bool {
    exists|k: int| i < k < j && (#[trigger] t[k]).0 == a
}

/// Some action before the `j`th runs the program, and the program's run is
/// answered with the exit code `c`.
pub open spec fn exited_before(t: Seq<(ActionTag, Option<i32>)>, events: Seq<RunEvent>, j: int, c: i32) -> bool {
    exists|i: int|
        0 <= i < j && (#[trigger] t[i]).0 == ActionTag::Execute && event_code(events[i + 1]) == Some(c)
}

proof fn lemma_trace_end(shape: RunShape, stage: RunStage, exited: bool, code: i32, events: Seq<RunEvent>)
    requires
        events.len() == 0 || run_step(shape, stage, exited, code, events[0]).3 is Finish,
    ensures
        events.len() == 0 ==> run_trace(shape, stage, exited, code, events).len() == 0,
        events.len() > 0 ==> run_trace(shape, stage, exited, code, events) == seq![
            (ActionTag::Finish, run_step(shape, stage, exited, code, events[0]).4),
        ],
{
    reveal(run_trace);
}

proof fn lemma_trace_step(shape: RunShape, stage: RunStage, exited: bool, code: i32, events: Seq<RunEvent>)
    requires
        events.len() > 0,
        !(run_step(shape, stage, exited, code, events[0]).3 is Finish),
    ensures
        ({
            let (next, next_exited, next_code, action, finish) = run_step(
                shape,
                stage,
                exited,
                code,
                events[0],
            );
            let t = run_trace(shape, stage, exited, code, events);
            let t2 = run_trace(shape, next, next_exited, next_code, events.drop_first());
            &&& t.len() == t2.len() + 1
            &&& t[0] == (action, finish)
            &&& forall|i: int| 0 < i < t.len() ==> #[trigger] t[i] == t2[i - 1]
        }),
{
    reveal(run_trace);
}

proof fn lemma_trace_len(shape: RunShape, stage: RunStage, exited: bool, code: i32, events: Seq<RunEvent>)
    ensures
        run_trace(shape, stage, exited, code, events).len() <= events.len(),
    decreases events.len(),
{
    if events.len() == 0 || run_step(shape, stage, exited, code, events[0]).3 is Finish {
        lemma_trace_end(shape, stage, exited, code, events);
    } else {
        let (next, next_exited, next_code, _, _) = run_step(shape, stage, exited, code, events[0]);
        lemma_trace_step(shape, stage, exited, code, events);
        lemma_trace_len(shape, next, next_exited, next_code, events.drop_first());
    }
}

proof fn lemma_trace_from_running(shape: RunShape, exited: bool, code: i32, events: Seq<RunEvent>)
    requires
        shape.overlay,
    ensures
        forall|j: int|
            0 <= j < run_trace(shape, RunStage::Running, exited, code, events).len() && (
            #[trigger] run_trace(shape, RunStage::Running, exited, code, events)[j]).0
                == ActionTag::Finish ==> exists|k: int|
                0 <= k < j && (#[trigger] run_trace(
                    shape,
                    RunStage::Running,
                    exited,
                    code,
                    events,
                )[k]).0 == ActionTag::CleanUpOverlay,
    decreases events.len(),
{
    let t = run_trace(shape, RunStage::Running, exited, code, events);
    if events.len() == 0 {
        lemma_trace_end(shape, RunStage::Running, exited, code, events);
    } else {
        let (next, next_exited, next_code, action, _) = run_step(
            shape,
            RunStage::Running,
            exited,
            code,
            events[0],
        );
        lemma_trace_step(shape, RunStage::Running, exited, code, events);
        let t2 = run_trace(shape, next, next_exited, next_code, events.drop_first());
        if action is Execute {
            lemma_trace_from_running(shape, next_exited, next_code, events.drop_first());
            assert forall|j: int| 0 <= j < t.len() && (#[trigger] t[j]).0 == ActionTag::Finish implies exists|
                k: int,
            | 0 <= k < j && (#[trigger] t[k]).0 == ActionTag::CleanUpOverlay by {
                assert(t2[j - 1].0 == ActionTag::Finish);
                let k2 = choose|k: int| 0 <= k < j - 1 && (#[trigger] t2[k]).0 == ActionTag::CleanUpOverlay;
                assert(t[k2 + 1].0 == ActionTag::CleanUpOverlay);
            }
        } else {
            assert(t[0].0 == ActionTag::CleanUpOverlay);
        }
    }
}

proof fn lemma_cleanup_pair(
    shape: RunShape,
    stage: RunStage,
    exited: bool,
    code: i32,
    events: Seq<RunEvent>,
    i: int,
    j: int,
)
    requires
        shape.overlay,
        0 <= i < j < run_trace(shape, stage, exited, code, events).len(),
        run_trace(shape, stage, exited, code, events)[i].0 == ActionTag::Execute,
        run_trace(shape, stage, exited, code, events)[j].0 == ActionTag::Finish,
    ensures
        occurs_between(run_trace(shape, stage, exited, code, events), i, j, ActionTag::CleanUpOverlay),
    decreases events.len(),
{
    let t = run_trace(shape, stage, exited, code, events);
    if events.len() == 0 || run_step(shape, stage, exited, code, events[0]).3 is Finish {
        lemma_trace_end(shape, stage, exited, code, events);
    } else {
        let (next, next_exited, next_code, action, _) = run_step(shape, stage, exited, code, events[0]);
        let rest = events.drop_first();
        let t2 = run_trace(shape, next, next_exited, next_code, rest);
        lemma_trace_step(shape, stage, exited, code, events);
        assert(t2[j - 1].0 == ActionTag::Finish);
        if i == 0 {
            assert(action is Execute);
            assert(next is Running);
            lemma_trace_from_running(shape, next_exited, next_code, rest);
            let k2 = choose|k: int| 0 <= k < j - 1 && (#[trigger] t2[k]).0 == ActionTag::CleanUpOverlay;
            assert(t[k2 + 1].0 == ActionTag::CleanUpOverlay);
            assert(occurs_between(t, i, j, ActionTag::CleanUpOverlay));
        } else {
            assert(t2[i - 1].0 == ActionTag::Execute);
            lemma_cleanup_pair(shape, next, next_exited, next_code, rest, i - 1, j - 1);
            let k2 = choose|k: int| i - 1 < k < j - 1 && (#[trigger] t2[k]).0 == ActionTag::CleanUpOverlay;
            assert(t[k2 + 1].0 == ActionTag::CleanUpOverlay);
            assert(occurs_between(t, i, j, ActionTag::CleanUpOverlay));
        }
    }
}

/// A run that lays an overlay removes it after the program has run, before
/// the run ends, whatever the program's result and whatever the host answers.
pub proof fn lemma_overlay_removed_after_execution(shape: RunShape, events: Seq<RunEvent>)
    requires
        shape.overlay,
    ensures
        always_between(
            run_trace(shape, RunStage::Start, false, 0, events),
            ActionTag::Execute,
            ActionTag::CleanUpOverlay,
        ),
{
    let t = run_trace(shape, RunStage::Start, false, 0, events);
    assert forall|i: int, j: int|
        0 <= i < j < t.len() && (#[trigger] t[i]).0 == ActionTag::Execute && (#[trigger] t[j]).0
            == ActionTag::Finish implies occurs_between(t, i, j, ActionTag::CleanUpOverlay) by {
        lemma_cleanup_pair(shape, RunStage::Start, false, 0, events, i, j);
    }
}

/// The stages at which a run has set up its cgroup, or is setting it up, and
/// has not yet removed it.
spec fn holds_cgroup(stage: RunStage) -> bool {
    ||| stage is SettingUpCgroup
    ||| stage is OverlayAnnounced
    ||| stage is SettingUpOverlay
    ||| stage is StartAnnounced
    ||| stage is Running
    ||| stage is CleaningUp
    ||| stage is Reporting
}

proof fn lemma_removal_before_finish(
    shape: RunShape,
    stage: RunStage,
    exited: bool,
    code: i32,
    events: Seq<RunEvent>,
)
    requires
        shape.cgroup,
        holds_cgroup(stage),
    ensures
        forall|j: int|
            0 <= j < run_trace(shape, stage, exited, code, events).len() && (
            #[trigger] run_trace(shape, stage, exited, code, events)[j]).0 == ActionTag::Finish
                ==> exists|k: int|
                0 <= k < j && (#[trigger] run_trace(shape, stage, exited, code, events)[k]).0
                    == ActionTag::RemoveCgroup,
    decreases events.len(),
{
    let t = run_trace(shape, stage, exited, code, events);
    if events.len() == 0 {
        lemma_trace_end(shape, stage, exited, code, events);
    } else {
        let (next, next_exited, next_code, action, _) = run_step(shape, stage, exited, code, events[0]);
        lemma_trace_step(shape, stage, exited, code, events);
        let t2 = run_trace(shape, next, next_exited, next_code, events.drop_first());
        if action is RemoveCgroup {
            assert(t[0].0 == ActionTag::RemoveCgroup);
        } else {
            lemma_removal_before_finish(shape, next, next_exited, next_code, events.drop_first());
            assert forall|j: int| 0 <= j < t.len() && (#[trigger] t[j]).0 == ActionTag::Finish implies exists|
                k: int,
            | 0 <= k < j && (#[trigger] t[k]).0 == ActionTag::RemoveCgroup by {
                assert(t2[j - 1].0 == ActionTag::Finish);
                let k2 = choose|k: int| 0 <= k < j - 1 && (#[trigger] t2[k]).0 == ActionTag::RemoveCgroup;
                assert(t[k2 + 1].0 == ActionTag::RemoveCgroup);
            }
        }
    }
}

proof fn lemma_removal_pair(
    shape: RunShape,
    stage: RunStage,
    exited: bool,
    code: i32,
    events: Seq<RunEvent>,
    i: int,
    j: int,
)
    requires
        shape.cgroup,
        0 <= i < j < run_trace(shape, stage, exited, code, events).len(),
        run_trace(shape, stage, exited, code, events)[i].0 == ActionTag::SetUpCgroup,
        run_trace(shape, stage, exited, code, events)[j].0 == ActionTag::Finish,
    ensures
        occurs_between(run_trace(shape, stage, exited, code, events), i, j, ActionTag::RemoveCgroup),
    decreases events.len(),
{
    let t = run_trace(shape, stage, exited, code, events);
    if events.len() == 0 || run_step(shape, stage, exited, code, events[0]).3 is Finish {
        lemma_trace_end(shape, stage, exited, code, events);
    } else {
        let (next, next_exited, next_code, action, _) = run_step(shape, stage, exited, code, events[0]);
        let rest = events.drop_first();
        let t2 = run_trace(shape, next, next_exited, next_code, rest);
        lemma_trace_step(shape, stage, exited, code, events);
        assert(t2[j - 1].0 == ActionTag::Finish);
        if i == 0 {
            assert(action is SetUpCgroup);
            assert(next is SettingUpCgroup);
            lemma_removal_before_finish(shape, next, next_exited, next_code, rest);
            let k2 = choose|k: int| 0 <= k < j - 1 && (#[trigger] t2[k]).0 == ActionTag::RemoveCgroup;
            assert(t[k2 + 1].0 == ActionTag::RemoveCgroup);
            assert(occurs_between(t, i, j, ActionTag::RemoveCgroup));
        } else {
            assert(t2[i - 1].0 == ActionTag::SetUpCgroup);
            lemma_removal_pair(shape, next, next_exited, next_code, rest, i - 1, j - 1);
            let k2 = choose|k: int| i - 1 < k < j - 1 && (#[trigger] t2[k]).0 == ActionTag::RemoveCgroup;
            assert(t[k2 + 1].0 == ActionTag::RemoveCgroup);
            assert(occurs_between(t, i, j, ActionTag::RemoveCgroup));
        }
    }
}

/// A run that sets up a cgroup removes it before it ends, whether setting it
/// up, the overlay or the program failed or not, and whatever the host answers.
pub proof fn lemma_cgroup_removed_before_end(shape: RunShape, events: Seq<RunEvent>)
    requires
        shape.cgroup,
    ensures
        always_between(
            run_trace(shape, RunStage::Start, false, 0, events),
            ActionTag::SetUpCgroup,
            ActionTag::RemoveCgroup,
        ),
{
    let t = run_trace(shape, RunStage::Start, false, 0, events);
    assert forall|i: int, j: int|
        0 <= i < j < t.len() && (#[trigger] t[i]).0 == ActionTag::SetUpCgroup && (#[trigger] t[j]).0
            == ActionTag::Finish implies occurs_between(t, i, j, ActionTag::RemoveCgroup) by {
        lemma_removal_pair(shape, RunStage::Start, false, 0, events, i, j);
    }
}

/// At this state the run already owes the exit code `c`, or `first`, the
/// answer to the program's run, gives it.
spec fn owes_exit_code(stage: RunStage, exited: bool, code: i32, first: RunEvent, c: i32) -> bool {
    ||| stage is Reporting && code == c
    ||| stage is CleaningUp && exited && code == c
    ||| stage is RemovingCgroup && exited && code == c
    ||| stage is Running && event_code(first) == Some(c)
}

proof fn lemma_finish_code(
    shape: RunShape,
    stage: RunStage,
    exited: bool,
    code: i32,
    events: Seq<RunEvent>,
    j: int,
    c: i32,
)
    requires
        0 <= j < run_trace(shape, stage, exited, code, events).len(),
        run_trace(shape, stage, exited, code, events)[j].0 == ActionTag::Finish,
    ensures
        run_trace(shape, stage, exited, code, events)[j].1 == Some(c) <==> (owes_exit_code(
            stage,
            exited,
            code,
            events[0],
            c,
        ) || exited_before(run_trace(shape, stage, exited, code, events), events, j, c)),
    decreases events.len(),
{
    let t = run_trace(shape, stage, exited, code, events);
    lemma_trace_len(shape, stage, exited, code, events);
    let (next, next_exited, next_code, action, finish) = run_step(
        shape,
        stage,
        exited,
        code,
        events[0],
    );
    if action is Finish {
        lemma_trace_end(shape, stage, exited, code, events);
        assert(j == 0);
    } else {
        lemma_trace_step(shape, stage, exited, code, events);
        let rest = events.drop_first();
        let t2 = run_trace(shape, next, next_exited, next_code, rest);
        lemma_trace_len(shape, next, next_exited, next_code, rest);
        assert(j > 0);
        assert(t2[j - 1] == t[j]);
        lemma_finish_code(shape, next, next_exited, next_code, rest, j - 1, c);
        if exited_before(t2, rest, j - 1, c) {
            let i = choose|i: int|
                0 <= i < j - 1 && (#[trigger] t2[i]).0 == ActionTag::Execute && event_code(rest[i + 1])
                    == Some(c);
            assert(t[i + 1] == t2[i]);
            assert(events[i + 2] == rest[i + 1]);
            assert(exited_before(t, events, j, c));
        }
        if exited_before(t, events, j, c) {
            let i = choose|i: int|
                0 <= i < j && (#[trigger] t[i]).0 == ActionTag::Execute && event_code(events[i + 1])
                    == Some(c);
            assert(events[i + 1] == rest[i]);
            if i > 0 {
                assert(t2[i - 1] == t[i]);
                assert(exited_before(t2, rest, j - 1, c));
            } else {
                assert(next is Running);
            }
        }
    }
}

/// A run ends with an exit code exactly when it has run the program and the
/// program exited with that code: the run's `Finish(Ok(c))` comes only after
/// an `Execute` answered by `Exited(c)`, and a run in which an `Execute` is
/// answered by `Exited(c)` ends, if it ends, with `Ok(c)`.
pub proof fn lemma_run_ends_with_program_exit_code(
    shape: RunShape,
    events: Seq<RunEvent>,
    j: int,
    c: i32,
)
    requires
        0 <= j < run_trace(shape, RunStage::Start, false, 0, events).len(),
        run_trace(shape, RunStage::Start, false, 0, events)[j].0 == ActionTag::Finish,
    ensures
        run_trace(shape, RunStage::Start, false, 0, events)[j].1 == Some(c) <==> exited_before(
            run_trace(shape, RunStage::Start, false, 0, events),
            events,
            j,
            c,
        ),
{
    lemma_finish_code(shape, RunStage::Start, false, 0, events, j, c);
}


/// `r`, after which the run is at `stage` and carries `pending`, ends the run
/// with `result`: at once, or, when the run set up a cgroup (its limits need
/// one), by removing the cgroup first.
pub open spec fn ends_with(
    limits: ResourceLimits,
    stage: RunStage,
    pending: Option<Result<i32, JarError>>,
    r: RunAction,
    result: Result<i32, JarError>,
) -> bool {
    if needs_cgroup(limits) {
        stage is RemovingCgroup && r is RemoveCgroup && pending == Some(result)
    } else {
        stage is Finished && r == RunAction::Finish(result)
    }
}

/// A run of a sandbox, step by step: the host does each action and reports
/// what came of it; this decides the next action.
pub struct SandboxRun {
    stage: RunStage,
    executable: String,
    limits: ResourceLimits,
    rootfs: Option<String>,
    pending: Option<Result<i32, JarError>>,
    exit_code: i32,
}

impl SandboxRun {
    /// A run, not yet started, of the program `executable` under `limits`,
    /// with an overlay over `rootfs` if there is one.
    pub(crate) fn new(executable: String, limits: ResourceLimits, rootfs: Option<String>) -> (r:
        Self)
        ensures
            r.stage() is Start,
            r.executable() == executable@,
            r.limits() == limits,
            r.rootfs() == option_view(rootfs),
            !r.exited(),
            r.code() == 0,
    {
        SandboxRun { stage: RunStage::Start, executable, limits, rootfs, pending: None, exit_code: 0 }
    }

    #[verifier::type_invariant]
    spec fn well_formed(self) -> bool {
        &&& (self.stage is CleaningUp || self.stage is RemovingCgroup) ==> self.pending is Some
        &&& (self.stage is OverlayAnnounced || self.stage is SettingUpOverlay) ==> self.rootfs is Some
    }

    /// How far the run has come.
    pub closed spec fn stage(&self) -> RunStage {
        self.stage
    }

    /// The program's path.
    pub closed spec fn executable(&self) -> Seq<char> {
        self.executable@
    }

    /// The limits of the run.
    pub closed spec fn limits(&self) -> ResourceLimits {
        self.limits
    }

    /// The root file system to lay an overlay on, if any.
    pub closed spec fn rootfs(&self) -> Option<Seq<char>> {
        option_view(self.rootfs)
    }

    /// The run's result, while the overlay or the cgroup is being removed.
    pub closed spec fn pending(&self) -> Option<Result<i32, JarError>> {
        self.pending
    }

    /// The exit code last stored.
    spec fn reported_code(&self) -> i32 {
        self.exit_code
    }

    /// The exit code the run carries: the program's, from the moment it is
    /// known, while the overlay is removed, while it is reported and while the
    /// cgroup is removed.
    pub closed spec fn code(&self) -> i32 {
        match (self.stage, self.pending) {
            (RunStage::CleaningUp, Some(Ok(c))) => c,
            (RunStage::RemovingCgroup, Some(Ok(c))) => c,
            _ => self.exit_code,
        }
    }

    /// The run's result, while the overlay or the cgroup is being removed, is
    /// an exit code.
    pub closed spec fn exited(&self) -> bool {
        self.pending matches Some(Ok(_))
    }

    /// The shape of the run.
    pub open spec fn shape(&self) -> RunShape {
        RunShape {
            has_program: self.executable().len() > 0,
            cgroup: needs_cgroup(self.limits()),
            overlay: self.rootfs() is Some,
        }
    }

    /// Whether the run has finished.
    pub fn is_finished(&self) -> (r: bool)
        ensures
            r == (self.stage() is Finished),
    {
        match self.stage {
            RunStage::Finished => true,
            _ => false,
        }
    }

    /// Announces the overlay when there is a root file system, else the start.
    fn after_cgroup(&mut self) -> (r: RunAction)
        ensures
            final(self).executable() == old(self).executable(),
            final(self).limits() == old(self).limits(),
            final(self).rootfs() == old(self).rootfs(),
            final(self).pending() == old(self).pending(),
            final(self).reported_code() == old(self).reported_code(),
            old(self).rootfs() is Some ==> (final(self).stage() is OverlayAnnounced && (
            r matches RunAction::Announce(m) && m@ == overlay_notice())),
            old(self).rootfs() is None ==> (final(self).stage() is StartAnnounced && (
            r matches RunAction::Announce(m) && m@ == started_notice())),
    {
        if self.rootfs.is_some() {
            self.stage = RunStage::OverlayAnnounced;
            RunAction::Announce(
                String::from_str("[jar] setting up OverlayFS copy-on-write filesystem layer"),
            )
        } else {
            self.stage = RunStage::StartAnnounced;
            RunAction::Announce(
                String::from_str("[jar] process started in isolated user/mount/PID namespaces"),
            )
        }
    }

    /// Ends the run with `result`, removing the cgroup first when one was set up.
    fn end(&mut self, result: Result<i32, JarError>) -> (r: RunAction)
        ensures
            final(self).executable() == old(self).executable(),
            final(self).limits() == old(self).limits(),
            final(self).rootfs() == old(self).rootfs(),
            final(self).reported_code() == old(self).reported_code(),
            ends_with(old(self).limits(), final(self).stage(), final(self).pending(), r, result),
            !needs_cgroup(old(self).limits()) ==> final(self).pending() == old(self).pending(),
    {
        proof {
            use_type_invariant(&*self);
        }
        if self.limits.memory_max_bytes.is_some() || self.limits.pids_max.is_some() {
            self.pending = Some(result);
            self.stage = RunStage::RemovingCgroup;
            RunAction::RemoveCgroup
        } else {
            self.stage = RunStage::Finished;
            RunAction::Finish(result)
        }
    }

    /// Goes on with the program's result: an exit code is announced; an error
    /// ends the run.
    fn report(&mut self, result: Result<i32, JarError>) -> (r: RunAction)
        ensures
            final(self).executable() == old(self).executable(),
            final(self).limits() == old(self).limits(),
            final(self).rootfs() == old(self).rootfs(),
            result matches Ok(c) ==> (final(self).stage() is Reporting && final(self).reported_code()
                == c && final(self).pending() == old(self).pending() && (
            r matches RunAction::Announce(m) && m@ == exited_notice(c as int))),
            result is Err ==> final(self).reported_code() == old(self).reported_code(),
            result is Err ==> ends_with(
                old(self).limits(),
                final(self).stage(),
                final(self).pending(),
                r,
                result,
            ),
            result is Err ==> (!needs_cgroup(old(self).limits()) ==> final(self).pending()
                == old(self).pending()),
    {
        match result {
            Ok(code) => {
                self.stage = RunStage::Reporting;
                self.exit_code = code;
                let digits = i32_to_decimal(code);
                RunAction::Announce(concat_text("[jar] process exited: ", digits.as_str()))
            },
            Err(e) => self.end(Err(e)),
        }
    }

    /// Takes what came of the last action and gives the next one.
    pub fn step(&mut self, event: RunEvent) -> (r: RunAction)
        requires
            !(old(self).stage() is Finished),
        ensures
            final(self).executable() == old(self).executable(),
            final(self).limits() == old(self).limits(),
            final(self).rootfs() == old(self).rootfs(),
            run_step(old(self).shape(), old(self).stage(), old(self).exited(), old(self).code(), event)
                == (
                final(self).stage(),
                final(self).exited(),
                final(self).code(),
                action_tag(r),
                finish_code(r),
            ),
            old(self).stage() is Start ==> (final(self).stage() is Preparing && (r matches RunAction::Announce(
                m,
            ) && m@ == preparing_notice())),
            old(self).stage() is Preparing ==> (old(self).executable().len() == 0 ==> (
            final(self).stage() is Finished && (r matches RunAction::Finish(
                Err(JarError::Validation(m)),
            ) && m@ == "Executable path cannot be empty"@))),
            old(self).stage() is Preparing ==> (old(self).executable().len() > 0 ==> (
            final(self).stage() is Announced && (r matches RunAction::Announce(m) && m@
                == executable_notice(old(self).executable())))),
            old(self).stage() is Announced ==> (needs_cgroup(old(self).limits()) ==> (
            final(self).stage() is CgroupAnnounced && (r matches RunAction::Announce(m) && m@
                == cgroup_notice()))),
            old(self).stage() is Announced ==> (!needs_cgroup(old(self).limits()) ==> (
            old(self).rootfs() is Some ==> (final(self).stage() is OverlayAnnounced && (
            r matches RunAction::Announce(m) && m@ == overlay_notice())))),
            old(self).stage() is Announced ==> (!needs_cgroup(old(self).limits()) ==> (
            old(self).rootfs() is None ==> (final(self).stage() is StartAnnounced && (
            r matches RunAction::Announce(m) && m@ == started_notice())))),
            old(self).stage() is CgroupAnnounced ==> (final(self).stage() is SettingUpCgroup && (
            r matches RunAction::SetUpCgroup(l) && l == old(self).limits())),
            old(self).stage() is SettingUpCgroup ==> (event matches RunEvent::Failed(e) ==> ends_with(
                old(self).limits(),
                final(self).stage(),
                final(self).pending(),
                r,
                Err(e),
            )),
            old(self).stage() is SettingUpCgroup ==> (!(event is Failed) ==> (old(self).rootfs() is Some
                ==> (final(self).stage() is OverlayAnnounced && (r matches RunAction::Announce(m)
                && m@ == overlay_notice())))),
            old(self).stage() is SettingUpCgroup ==> (!(event is Failed) ==> (old(self).rootfs() is None
                ==> (final(self).stage() is StartAnnounced && (r matches RunAction::Announce(m) && m@
                == started_notice())))),
            old(self).stage() is OverlayAnnounced ==> (final(self).stage() is SettingUpOverlay && (
            r matches RunAction::SetUpOverlay(l) && old(self).rootfs() == Some(l@))),
            old(self).stage() is SettingUpOverlay ==> (event matches RunEvent::Failed(e) ==> ends_with(
                old(self).limits(),
                final(self).stage(),
                final(self).pending(),
                r,
                Err(e),
            )),
            old(self).stage() is SettingUpOverlay ==> (!(event is Failed) ==> (final(self).stage() is StartAnnounced
                && (r matches RunAction::Announce(m) && m@ == started_notice()))),
            old(self).stage() is StartAnnounced ==> (final(self).stage() is Running && r is Execute),
            old(self).stage() is Running ==> (event is Done ==> (final(self).stage() is Running
                && r is Execute)),
            old(self).stage() is Running ==> (event matches RunEvent::Exited(c) ==> (
            old(self).rootfs() is Some ==> (final(self).stage() is CleaningUp && r is CleanUpOverlay
                && final(self).pending() == Some(Ok::<i32, JarError>(c))))),
            old(self).stage() is Running ==> (event matches RunEvent::Failed(e) ==> (
            old(self).rootfs() is Some ==> (final(self).stage() is CleaningUp && r is CleanUpOverlay
                && final(self).pending() == Some(Err::<i32, JarError>(e))))),
            old(self).stage() is Running ==> (event matches RunEvent::Exited(c) ==> (
            old(self).rootfs() is None ==> (final(self).stage() is Reporting && final(self).code()
                == c && (r matches RunAction::Announce(m) && m@ == exited_notice(c as int))))),
            old(self).stage() is Running ==> (event matches RunEvent::Failed(e) ==> (
            old(self).rootfs() is None ==> ends_with(
                old(self).limits(),
                final(self).stage(),
                final(self).pending(),
                r,
                Err(e),
            ))),
            old(self).stage() is CleaningUp ==> (old(self).pending() matches Some(Ok(c)) ==> (
            final(self).stage() is Reporting && final(self).code() == c && (
            r matches RunAction::Announce(m) && m@ == exited_notice(c as int)))),
            old(self).stage() is CleaningUp ==> (old(self).pending() matches Some(Err(e)) ==> ends_with(
                old(self).limits(),
                final(self).stage(),
                final(self).pending(),
                r,
                Err(e),
            )),
            old(self).stage() is Reporting ==> ends_with(
                old(self).limits(),
                final(self).stage(),
                final(self).pending(),
                r,
                Ok(old(self).code()),
            ),
            old(self).stage() is RemovingCgroup ==> (final(self).stage() is Finished && (
            old(self).pending() matches Some(x) && r == RunAction::Finish(x))),
    {
        proof {
            use_type_invariant(&*self);
        }
        match self.stage {
            RunStage::Start => {
                self.stage = RunStage::Preparing;
                RunAction::Announce(String::from_str("[jar] preparing execution"))
            },
            RunStage::Preparing => {
                if self.executable.unicode_len() == 0 {
                    self.stage = RunStage::Finished;
                    RunAction::Finish(
                        Err(JarError::Validation(String::from_str("Executable path cannot be empty"))),
                    )
                } else {
                    self.stage = RunStage::Announced;
                    RunAction::Announce(concat_text("[jar] executable: ", self.executable.as_str()))
                }
            },
            RunStage::Announced => {
                if self.limits.memory_max_bytes.is_some() || self.limits.pids_max.is_some() {
                    self.stage = RunStage::CgroupAnnounced;
                    RunAction::Announce(String::from_str("[jar] applying cgroups v2 resource limits"))
                } else {
                    self.after_cgroup()
                }
            },
            RunStage::CgroupAnnounced => {
                self.stage = RunStage::SettingUpCgroup;
                RunAction::SetUpCgroup(self.limits)
            },
            RunStage::SettingUpCgroup => {
                match event {
                    RunEvent::Failed(e) => self.end(Err(e)),
                    _ => self.after_cgroup(),
                }
            },
            RunStage::OverlayAnnounced => {
                self.stage = RunStage::SettingUpOverlay;
                let lower = self.rootfs.clone().unwrap();
                RunAction::SetUpOverlay(lower)
            },
            RunStage::SettingUpOverlay => {
                match event {
                    RunEvent::Failed(e) => self.end(Err(e)),
                    _ => {
                        self.stage = RunStage::StartAnnounced;
                        RunAction::Announce(
                            String::from_str(
                                "[jar] process started in isolated user/mount/PID namespaces",
                            ),
                        )
                    },
                }
            },
            RunStage::StartAnnounced => {
                self.stage = RunStage::Running;
                RunAction::Execute
            },
            RunStage::Running => {
                let result = match event {
                    RunEvent::Done => {
                        return RunAction::Execute;
                    },
                    RunEvent::Exited(c) => Ok(c),
                    RunEvent::Failed(e) => Err(e),
                };
                if self.rootfs.is_some() {
                    self.pending = Some(result);
                    self.stage = RunStage::CleaningUp;
                    RunAction::CleanUpOverlay
                } else {
                    self.report(result)
                }
            },
            RunStage::CleaningUp => {
                self.stage = RunStage::Finished;
                let mut pending: Option<Result<i32, JarError>> = None;
                std::mem::swap(&mut pending, &mut self.pending);
                let result = pending.unwrap();
                self.report(result)
            },
            RunStage::Reporting => {
                let code = self.exit_code;
                self.end(Ok(code))
            },
            RunStage::RemovingCgroup => {
                self.stage = RunStage::Finished;
                let mut pending: Option<Result<i32, JarError>> = None;
                std::mem::swap(&mut pending, &mut self.pending);
                let result = pending.unwrap();
                if let Ok(code) = result {
                    self.exit_code = code;
                }
                RunAction::Finish(result)
            },
            RunStage::Finished => RunAction::Finish(Ok(self.exit_code)),
        }
    }
}

} // verus!
