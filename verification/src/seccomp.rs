//! The default seccomp profile: deny every system call with `EPERM` but those
//! that running a program needs.
use crate::error::JarError;
use crate::text::concat_text;
use vstd::prelude::*;

verus! {

/// The default seccomp profile.
pub struct SeccompFilter;

/// The system calls that the default profile allows, by name, in the order
/// their rules are added.
pub open spec fn default_allowed_syscalls() -> Seq<Seq<char>> {
    seq![
        "read"@,
        "write"@,
        "openat"@,
        "close"@,
        "fstat"@,
        "lseek"@,
        "mmap"@,
        "mprotect"@,
        "munmap"@,
        "brk"@,
        "rt_sigaction"@,
        "rt_sigprocmask"@,
        "rt_sigreturn"@,
        "ioctl"@,
        "pread64"@,
        "pwrite64"@,
        "readv"@,
        "writev"@,
        "access"@,
        "pipe2"@,
        "select"@,
        "sched_yield"@,
        "dup"@,
        "dup2"@,
        "dup3"@,
        "fcntl"@,
        "getpid"@,
        "gettid"@,
        "getuid"@,
        "getgid"@,
        "geteuid"@,
        "getegid"@,
        "sigaltstack"@,
        "exit"@,
        "exit_group"@,
        "futex"@,
        "execve"@,
        "arch_prctl"@,
        "set_tid_address"@,
        "set_robust_list"@,
        "getrandom"@,
        "clock_gettime"@,
    ]
}

/// The error number `EPERM`.
///
/// Reads `libc::EPERM`, which the libc source defines as 1 on Linux.
#[verifier::external_body]
fn eperm() -> (r: i32)
    ensures
        r == 1,
{
    libc::EPERM
}

impl SeccompFilter {
    /// The error number that denied system calls fail with: `EPERM`.
    pub fn denied_errno() -> (r: i32)
        ensures
            r == 1,
    {
        eperm()
    }

    /// The names of the system calls that the default profile allows, in the
    /// order their rules are added. A name the host does not know is skipped.
    pub fn allowed_syscalls() -> (r: Vec<&'static str>)
        ensures
            r@.map_values(|s: &str| s@) == default_allowed_syscalls(),
    {
        let v = vec![
            "read",
            "write",
            "openat",
            "close",
            "fstat",
            "lseek",
            "mmap",
            "mprotect",
            "munmap",
            "brk",
            "rt_sigaction",
            "rt_sigprocmask",
            "rt_sigreturn",
            "ioctl",
            "pread64",
            "pwrite64",
            "readv",
            "writev",
            "access",
            "pipe2",
            "select",
            "sched_yield",
            "dup",
            "dup2",
            "dup3",
            "fcntl",
            "getpid",
            "gettid",
            "getuid",
            "getgid",
            "geteuid",
            "getegid",
            "sigaltstack",
            "exit",
            "exit_group",
            "futex",
            "execve",
            "arch_prctl",
            "set_tid_address",
            "set_robust_list",
            "getrandom",
            "clock_gettime",
        ];
        assert(v@.map_values(|s: &str| s@) =~= default_allowed_syscalls());
        v
    }

    /// The error of a filter that could not be created.
    pub fn init_failure(detail: &str) -> (r: JarError)
        ensures
            r matches JarError::Execution(m) && m@ == "Failed to init seccomp context: "@ + detail@,
    {
        JarError::Execution(concat_text("Failed to init seccomp context: ", detail))
    }

    /// The error of a system call that could not be allowed.
    pub fn rule_failure(name: &str, detail: &str) -> (r: JarError)
        ensures
            r matches JarError::Execution(m) && m@ == "Failed to allow syscall "@ + name@ + ": "@
                + detail@,
    {
        let mut m = concat_text("Failed to allow syscall ", name);
        m.append(": ");
        m.append(detail);
        JarError::Execution(m)
    }

    /// The error of a filter that could not be loaded.
    pub fn load_failure(detail: &str) -> (r: JarError)
        ensures
            r matches JarError::Execution(m) && m@ == "Failed to load seccomp BPF filter: "@
                + detail@,
    {
        JarError::Execution(concat_text("Failed to load seccomp BPF filter: ", detail))
    }
}

/// How far applying the default profile has come.
#[derive(Debug, Clone, Copy, PartialEq, Eq, Structural)]
pub enum ProfileStage {
    /// Nothing done yet.
    Start,
    /// The filter is being created.
    Creating,
    /// The allowed system call with this index is being looked up by name.
    Resolving(usize),
    /// The allowed system call with this index, which the host knows, is being added.
    Adding(usize),
    /// The filter is being loaded into the calling process.
    Loading,
    /// Done, one way or the other.
    Finished,
}

/// What came of the last action.
#[derive(Debug)]
pub enum ProfileEvent {
    /// It succeeded (or, at the start, nothing was done yet).
    Done,
    /// It failed, with this text.
    Failed(String),
    /// The host knows the system call that was looked up, or not.
    Known(bool),
}

/// What to do next to apply the default profile.
#[derive(Debug)]
pub enum ProfileAction {
    /// Create a filter that fails every system call with this error number.
    CreateFilter(i32),
    /// Look up the system call of this name on the native architecture.
    Resolve(&'static str),
    /// Add the native architecture, ignoring how that goes, and a rule that
    /// allows the system call just looked up, which has this name.
    Allow(&'static str),
    /// Load the filter into the calling process.
    Load,
    /// Stop, with this result.
    Finish(Result<(), JarError>),
}

/// The kind of an event of a profile run.
#[derive(Debug, Clone, Copy, PartialEq, Eq, Structural)]
pub enum ProfileSignal {
    Done,
    Failed,
    Known,
    Unknown,
}

/// The kind of an event.
pub open spec fn signal_of(e: ProfileEvent) -> ProfileSignal {
    match e {
        ProfileEvent::Done => ProfileSignal::Done,
        ProfileEvent::Failed(_) => ProfileSignal::Failed,
        ProfileEvent::Known(true) => ProfileSignal::Known,
        ProfileEvent::Known(false) => ProfileSignal::Unknown,
    }
}

/// The stage a profile run goes to from `stage` on an event of kind `sig`.
pub open spec fn profile_next(stage: ProfileStage, sig: ProfileSignal) -> ProfileStage {
    match stage {
        ProfileStage::Start => ProfileStage::Creating,
        ProfileStage::Creating => if sig is Failed {
            ProfileStage::Finished
        } else {
            ProfileStage::Resolving(0)
        },
        ProfileStage::Resolving(i) => if sig is Known {
            ProfileStage::Adding(i)
        } else {
            after_syscall(i as int)
        },
        ProfileStage::Adding(i) => if sig is Failed {
            ProfileStage::Finished
        } else {
            after_syscall(i as int)
        },
        ProfileStage::Loading => ProfileStage::Finished,
        ProfileStage::Finished => ProfileStage::Finished,
    }
}

/// The stages a profile run goes through from `stage` on, one for each event.
pub open spec fn profile_stages(stage: ProfileStage, sigs: Seq<ProfileSignal>) -> Seq<ProfileStage>
    decreases sigs.len(),
{
    if sigs.len() == 0 {
        Seq::empty()
    } else {
        let next = profile_next(stage, sigs[0]);
        seq![next] + profile_stages(next, sigs.drop_first())
    }
}

/// The allowed system call `m` is looked up before the `j`th stage.
pub open spec fn resolved_before(t: Seq<ProfileStage>, m: int, j: int) -> bool {
    exists|p: int| 0 <= p < j && #[trigger] t[p] == ProfileStage::Resolving(m as usize)
}

/// The first allowed system call that a run from `stage` still has to look up.
pub open spec fn first_unresolved(stage: ProfileStage) -> int {
    match stage {
        ProfileStage::Start => 0,
        ProfileStage::Creating => 0,
        ProfileStage::Resolving(i) => i + 1,
        ProfileStage::Adding(i) => i + 1,
        _ => default_allowed_syscalls().len() as int,
    }
}

proof fn lemma_finished_stays(stage: ProfileStage, sigs: Seq<ProfileSignal>)
    requires
        stage is Loading || stage is Finished,
    ensures
        forall|k: int|
            0 <= k < profile_stages(stage, sigs).len() ==> (#[trigger] profile_stages(stage, sigs)[k]) is Finished,
    decreases sigs.len(),
{
    if sigs.len() > 0 {
        let next = profile_next(stage, sigs[0]);
        lemma_finished_stays(next, sigs.drop_first());
        let t = profile_stages(stage, sigs);
        let t2 = profile_stages(next, sigs.drop_first());
        assert(t == seq![next] + t2);
        assert forall|k: int| 0 <= k < t.len() implies (#[trigger] t[k]) is Finished by {
            if k > 0 {
                assert(t[k] == t2[k - 1]);
            }
        }
    }
}

proof fn lemma_resolved_before_load(
    stage: ProfileStage,
    sigs: Seq<ProfileSignal>,
    j: int,
    m: int,
)
    requires
        0 <= j < profile_stages(stage, sigs).len(),
        profile_stages(stage, sigs)[j] is Loading,
        first_unresolved(stage) <= m < default_allowed_syscalls().len(),
        stage matches ProfileStage::Resolving(i) ==> i < default_allowed_syscalls().len(),
        stage matches ProfileStage::Adding(i) ==> i < default_allowed_syscalls().len(),
    ensures
        resolved_before(profile_stages(stage, sigs), m, j),
    decreases sigs.len(),
{
    let t = profile_stages(stage, sigs);
    let next = profile_next(stage, sigs[0]);
    let rest = sigs.drop_first();
    let t2 = profile_stages(next, rest);
    assert(t == seq![next] + t2);
    assert(default_allowed_syscalls().len() == 42);
    if next == ProfileStage::Resolving(m as usize) {
        assert(j > 0);
        assert(t[0] == ProfileStage::Resolving(m as usize));
    } else {
        assert(j > 0);
        assert(t2[j - 1] is Loading);
        if next is Loading || next is Finished {
            lemma_finished_stays(next, rest);
            assert(false);
        }
        lemma_resolved_before_load(next, rest, j - 1, m);
        let p = choose|p: int| 0 <= p < j - 1 && #[trigger] t2[p] == ProfileStage::Resolving(m as usize);
        assert(t[p + 1] == ProfileStage::Resolving(m as usize));
    }
}

/// A profile run loads the filter only after it has looked up every allowed
/// system call, whatever the host answers.
pub proof fn lemma_every_syscall_resolved_before_load(sigs: Seq<ProfileSignal>)
    ensures
        forall|j: int, m: int|
            0 <= j < profile_stages(ProfileStage::Start, sigs).len() && (#[trigger] profile_stages(
                ProfileStage::Start,
                sigs,
            )[j]) is Loading && 0 <= m < default_allowed_syscalls().len() ==> #[trigger] resolved_before(
                profile_stages(ProfileStage::Start, sigs),
                m,
                j,
            ),
{
    assert forall|j: int, m: int|
        0 <= j < profile_stages(ProfileStage::Start, sigs).len() && (#[trigger] profile_stages(
            ProfileStage::Start,
            sigs,
        )[j]) is Loading && 0 <= m < default_allowed_syscalls().len() implies #[trigger] resolved_before(
            profile_stages(ProfileStage::Start, sigs),
            m,
            j,
        ) by {
        lemma_resolved_before_load(ProfileStage::Start, sigs, j, m);
    }
}

proof fn lemma_stage_at(stage: ProfileStage, sigs: Seq<ProfileSignal>, p: int)
    requires
        0 <= p < sigs.len(),
    ensures
        profile_stages(stage, sigs).len() == sigs.len(),
        profile_stages(stage, sigs)[p] == profile_next(
            if p == 0 {
                stage
            } else {
                profile_stages(stage, sigs)[p - 1]
            },
            sigs[p],
        ),
    decreases sigs.len(),
{
    let next = profile_next(stage, sigs[0]);
    let t = profile_stages(stage, sigs);
    let t2 = profile_stages(next, sigs.drop_first());
    assert(t == seq![next] + t2);
    if sigs.len() > 1 {
        lemma_stage_at(next, sigs.drop_first(), if p > 0 { p - 1 } else { 0 });
    } else {
        assert(t2.len() == 0);
    }
    if p > 0 {
        lemma_stage_at(next, sigs.drop_first(), p - 1);
        assert(t[p] == t2[p - 1]);
        if p > 1 {
            assert(t[p - 1] == t2[p - 2]);
        }
    }
}

/// A profile run adds a rule for an allowed system call exactly when the
/// host answered its look-up that it knows it: the run is at `Adding(m)`,
/// whose action allows the `m`th allowed system call, just when it was at
/// `Resolving(m)` and the answer was `Known`.
pub proof fn lemma_rules_for_known_syscalls(sigs: Seq<ProfileSignal>, p: int, m: int)
    requires
        0 <= p < sigs.len(),
        0 <= m < default_allowed_syscalls().len(),
    ensures
        profile_stages(ProfileStage::Start, sigs)[p] == ProfileStage::Adding(m as usize) <==> (p > 0
            && profile_stages(ProfileStage::Start, sigs)[p - 1] == ProfileStage::Resolving(
            m as usize,
        ) && sigs[p] is Known),
{
    lemma_stage_at(ProfileStage::Start, sigs, p);
}

/// Applies the default profile step by step: the host does each action and
/// reports what came of it; this decides the next action.
pub struct ProfileRun {
    stage: ProfileStage,
    names: Vec<&'static str>,
}

/// The stage after the allowed system call `i` is dealt with.
pub open spec fn after_syscall(i: int) -> ProfileStage {
    if i + 1 < default_allowed_syscalls().len() {
        ProfileStage::Resolving((i + 1) as usize)
    } else {
        ProfileStage::Loading
    }
}

impl ProfileRun {
    #[verifier::type_invariant]
    spec fn well_formed(self) -> bool {
        &&& self.names@.map_values(|s: &str| s@) == default_allowed_syscalls()
        &&& self.stage matches ProfileStage::Resolving(i) ==> i < self.names@.len()
        &&& self.stage matches ProfileStage::Adding(i) ==> i < self.names@.len()
    }

    /// How far the run has come.
    pub closed spec fn stage(&self) -> ProfileStage {
        self.stage
    }

    /// A run that has not started.
    pub fn new() -> (r: Self)
        ensures
            r.stage() == ProfileStage::Start,
    {
        ProfileRun { stage: ProfileStage::Start, names: SeccompFilter::allowed_syscalls() }
    }

    /// The action the stage `stage` leads to.
    fn action_for(&self, stage: ProfileStage) -> (r: ProfileAction)
        requires
            stage matches ProfileStage::Resolving(i) ==> i < self.names@.len(),
            stage is Loading || stage is Resolving,
        ensures
            stage is Loading ==> r is Load,
            stage matches ProfileStage::Resolving(i) ==> (r matches ProfileAction::Resolve(n) && n@
                == default_allowed_syscalls()[i as int]),
    {
        proof {
            use_type_invariant(self);
        }
        match stage {
            ProfileStage::Resolving(i) => {
                assert(self.names@[i as int]@ == default_allowed_syscalls()[i as int]);
                ProfileAction::Resolve(self.names[i])
            },
            _ => ProfileAction::Load,
        }
    }

    /// Takes what came of the last action and gives the next one.
    pub fn step(&mut self, event: ProfileEvent) -> (r: ProfileAction)
        ensures
            final(self).stage() == profile_next(old(self).stage(), signal_of(event)),
            old(self).stage() is Start ==> (final(self).stage() is Creating && (r matches ProfileAction::CreateFilter(
                e,
            ) && e == 1)),
            old(self).stage() is Creating ==> (event matches ProfileEvent::Failed(d) ==> (
            final(self).stage() is Finished && (r matches ProfileAction::Finish(
                Err(JarError::Execution(m)),
            ) && m@ == "Failed to init seccomp context: "@ + d@))),
            old(self).stage() is Creating ==> (!(event is Failed) ==> (final(self).stage()
                == ProfileStage::Resolving(0) && (r matches ProfileAction::Resolve(n) && n@
                == default_allowed_syscalls()[0]))),
            old(self).stage() matches ProfileStage::Resolving(i) ==> (event matches ProfileEvent::Known(
                true,
            ) ==> (final(self).stage() == ProfileStage::Adding(i) && (r matches ProfileAction::Allow(n)
                && n@ == default_allowed_syscalls()[i as int]))),
            old(self).stage() matches ProfileStage::Resolving(i) ==> (!(event matches ProfileEvent::Known(
                true,
            )) ==> (final(self).stage() == after_syscall(i as int) && (after_syscall(i as int) is Loading
                ==> r is Load) && (after_syscall(i as int) matches ProfileStage::Resolving(j) ==> (
            r matches ProfileAction::Resolve(n) && n@ == default_allowed_syscalls()[j as int])))),
            old(self).stage() matches ProfileStage::Adding(i) ==> (event matches ProfileEvent::Failed(d)
                ==> (final(self).stage() is Finished && (r matches ProfileAction::Finish(
                Err(JarError::Execution(m)),
            ) && m@ == "Failed to allow syscall "@ + default_allowed_syscalls()[i as int] + ": "@
                + d@))),
            old(self).stage() matches ProfileStage::Adding(i) ==> (!(event is Failed) ==> (
            final(self).stage() == after_syscall(i as int) && (after_syscall(i as int) is Loading ==> r is Load)
                && (after_syscall(i as int) matches ProfileStage::Resolving(j) ==> (
            r matches ProfileAction::Resolve(n) && n@ == default_allowed_syscalls()[j as int])))),
            old(self).stage() is Loading ==> (event matches ProfileEvent::Failed(d) ==> (
            final(self).stage() is Finished && (r matches ProfileAction::Finish(
                Err(JarError::Execution(m)),
            ) && m@ == "Failed to load seccomp BPF filter: "@ + d@))),
            old(self).stage() is Loading ==> (!(event is Failed) ==> (final(self).stage() is Finished
                && r matches ProfileAction::Finish(Ok(())))),
            old(self).stage() is Finished ==> (final(self).stage() is Finished
                && r matches ProfileAction::Finish(Ok(()))),
    {
        proof {
            use_type_invariant(&*self);
        }
        let ghost n = default_allowed_syscalls();
        assert(self.names@.len() == n.len());
        assert(n.len() == 42);
        match self.stage {
            ProfileStage::Start => {
                self.stage = ProfileStage::Creating;
                ProfileAction::CreateFilter(SeccompFilter::denied_errno())
            },
            ProfileStage::Creating => {
                match event {
                    ProfileEvent::Failed(d) => {
                        self.stage = ProfileStage::Finished;
                        ProfileAction::Finish(Err(SeccompFilter::init_failure(d.as_str())))
                    },
                    _ => {
                        self.stage = ProfileStage::Resolving(0);
                        self.action_for(ProfileStage::Resolving(0))
                    },
                }
            },
            ProfileStage::Resolving(i) => {
                let known = match event {
                    ProfileEvent::Known(b) => b,
                    _ => false,
                };
                if known {
                    self.stage = ProfileStage::Adding(i);
                    assert(self.names@[i as int]@ == n[i as int]);
                    ProfileAction::Allow(self.names[i])
                } else {
                    let next = if i + 1 < self.names.len() {
                        ProfileStage::Resolving(i + 1)
                    } else {
                        ProfileStage::Loading
                    };
                    self.stage = next;
                    self.action_for(next)
                }
            },
            ProfileStage::Adding(i) => {
                match event {
                    ProfileEvent::Failed(d) => {
                        self.stage = ProfileStage::Finished;
                        assert(self.names@[i as int]@ == n[i as int]);
                        ProfileAction::Finish(
                            Err(SeccompFilter::rule_failure(self.names[i], d.as_str())),
                        )
                    },
                    _ => {
                        let next = if i + 1 < self.names.len() {
                            ProfileStage::Resolving(i + 1)
                        } else {
                            ProfileStage::Loading
                        };
                        self.stage = next;
                        self.action_for(next)
                    },
                }
            },
            ProfileStage::Loading => {
                self.stage = ProfileStage::Finished;
                match event {
                    ProfileEvent::Failed(d) => ProfileAction::Finish(
                        Err(SeccompFilter::load_failure(d.as_str())),
                    ),
                    _ => ProfileAction::Finish(Ok(())),
                }
            },
            ProfileStage::Finished => ProfileAction::Finish(Ok(())),
        }
    }
}

/// The default profile lets the sandboxed process run its program and end:
/// `execve`, `exit` and `exit_group` are allowed.
pub proof fn lemma_profile_allows_exec_and_exit()
    ensures
        default_allowed_syscalls().contains("execve"@),
        default_allowed_syscalls().contains("exit"@),
        default_allowed_syscalls().contains("exit_group"@),
{
    assert(default_allowed_syscalls()[36] == "execve"@);
    assert(default_allowed_syscalls()[33] == "exit"@);
    assert(default_allowed_syscalls()[34] == "exit_group"@);
}

} // verus!
