//! The sandboxed process: what it runs, the steps of its start, its user
//! namespace's ID maps, and the exit code reported for it.
use crate::cli::string_views;
use crate::decimal::{decimal, i32_to_decimal, signed_decimal, u64_to_decimal};
use crate::overlay::OverlayManager;
use crate::error::{errno_display_text, JarError};
use crate::text::{concat_text, contains_char};
use vstd::prelude::*;

verus! {

/// What the sandboxed process runs, and the isolation it runs under.
#[derive(Debug)]
pub struct ProcessSpec {
    pub executable: String,
    pub args: Vec<String>,
    pub rootfs: Option<String>,
    pub overlay: Option<OverlayManager>,
    pub enable_seccomp: bool,
    pub drop_capabilities: bool,
}

/// Starts and waits for the sandboxed process.
pub struct ProcessExecutor;

/// How the sandboxed process ended, as `waitpid` reported it.
#[derive(Debug, Clone, Copy, PartialEq, Eq, Structural)]
pub enum ChildStatus {
    /// It exited with this status.
    Exited(i32),
    /// A signal with this number ended it.
    Signaled(i32),
    /// Any other report.
    Other,
}

/// A step the sandboxed process takes, in its new namespaces, before it runs
/// the program.
#[derive(Debug, Clone, Copy, PartialEq, Eq, Structural)]
pub enum ChildStep {
    MountOverlay,
    DropCapabilities,
    ApplySeccomp,
    Exec,
}

/// A file to write, and what to write to it.
pub struct FileWrite {
    pub path: String,
    pub content: String,
}

/// The files that map the new user namespace's root to the invoking user.
pub struct UserMappings {
    /// Denies `setgroups`; failing to write it is no error.
    pub setgroups: FileWrite,
    pub uid_map: FileWrite,
    pub gid_map: FileWrite,
}

/// The exit code reported for a process that ended with `status`: its own
/// exit status, 128 plus the number of the signal that ended it, or 1.
pub open spec fn spec_exit_code(status: ChildStatus) -> int {
    match status {
        ChildStatus::Exited(s) => s as int,
        ChildStatus::Signaled(sig) => 128 + sig,
        ChildStatus::Other => 1,
    }
}

/// The file `/proc/<pid>/<name>`.
pub open spec fn proc_file(pid: int, name: Seq<char>) -> Seq<char> {
    "/proc/"@ + signed_decimal(pid) + seq!['/'] + name
}

/// The line that maps ID 0 of the new namespace to `id` of the host.
pub open spec fn root_map_line(id: nat) -> Seq<char> {
    "0 "@ + decimal(id) + " 1\n"@
}

/// The steps of the sandboxed process: mount the overlay when there is one,
/// drop capabilities when asked to, load the seccomp filter when asked to,
/// then run the program.
pub open spec fn spec_child_steps(has_overlay: bool, drop_caps: bool, seccomp: bool) -> Seq<
    ChildStep,
> {
    (if has_overlay {
        seq![ChildStep::MountOverlay]
    } else {
        Seq::empty()
    }) + (if drop_caps {
        seq![ChildStep::DropCapabilities]
    } else {
        Seq::empty()
    }) + (if seccomp {
        seq![ChildStep::ApplySeccomp]
    } else {
        Seq::empty()
    }) + seq![ChildStep::Exec]
}

/// The user ID of this process.
///
/// Calls `nix::unistd::getuid().as_raw()`; the result depends on the process
/// and nothing is stated of it.
#[verifier::external_body]
fn current_uid() -> (r: UserId) {
    UserId(nix::unistd::getuid().as_raw())
}

/// The group ID of this process.
///
/// Calls `nix::unistd::getgid().as_raw()`; the result depends on the process
/// and nothing is stated of it.
#[verifier::external_body]
fn current_gid() -> (r: GroupId) {
    GroupId(nix::unistd::getgid().as_raw())
}

/// A user ID of the host, as `getuid` gives it.
pub struct UserId(pub u32);

/// A group ID of the host, as `getgid` gives it.
pub struct GroupId(pub u32);

/// The files that map root of the user namespace of process `pid` to the
/// user `user` and the group `group`: a user ID goes to `uid_map` only, a
/// group ID to `gid_map` only.
fn id_mappings(pid: i32, user: UserId, group: GroupId) -> (r: UserMappings)
    ensures
        r.setgroups.path@ == proc_file(pid as int, "setgroups"@),
        r.setgroups.content@ == "deny"@,
        r.uid_map.path@ == proc_file(pid as int, "uid_map"@),
        r.uid_map.content@ == root_map_line(user.0 as nat),
        r.gid_map.path@ == proc_file(pid as int, "gid_map"@),
        r.gid_map.content@ == root_map_line(group.0 as nat),
{
    ProcessExecutor::user_mappings(pid, user.0, group.0)
}

fn proc_file_path(pid: i32, name: &str) -> (r: String)
    ensures
        r@ == proc_file(pid as int, name@),
{
    proof {
        reveal_strlit("/");
    }
    let mut p = String::from_str("/proc/");
    let digits = i32_to_decimal(pid);
    p.append(digits.as_str());
    p.append("/");
    p.append(name);
    p
}

fn root_map(id: u32) -> (r: String)
    ensures
        r@ == root_map_line(id as nat),
{
    let digits = u64_to_decimal(id as u64);
    let mut line = concat_text("0 ", digits.as_str());
    line.append(" 1\n");
    line
}

impl ProcessExecutor {
    /// The exit code reported for a process that ended with `status`.
    pub fn exit_code(status: ChildStatus) -> (r: i32)
        requires
            status matches ChildStatus::Signaled(sig) ==> sig <= i32::MAX - 128,
        ensures
            r as int == spec_exit_code(status),
    {
        match status {
            ChildStatus::Exited(s) => s,
            ChildStatus::Signaled(sig) => 128 + sig,
            ChildStatus::Other => 1,
        }
    }

    /// The files that map root of the user namespace of process `pid` to the
    /// host user `uid` and group `gid`.
    pub fn user_mappings(pid: i32, uid: u32, gid: u32) -> (r: UserMappings)
        ensures
            r.setgroups.path@ == proc_file(pid as int, "setgroups"@),
            r.setgroups.content@ == "deny"@,
            r.uid_map.path@ == proc_file(pid as int, "uid_map"@),
            r.uid_map.content@ == root_map_line(uid as nat),
            r.gid_map.path@ == proc_file(pid as int, "gid_map"@),
            r.gid_map.content@ == root_map_line(gid as nat),
    {
        UserMappings {
            setgroups: FileWrite {
                path: proc_file_path(pid, "setgroups"),
                content: String::from_str("deny"),
            },
            uid_map: FileWrite { path: proc_file_path(pid, "uid_map"), content: root_map(uid) },
            gid_map: FileWrite { path: proc_file_path(pid, "gid_map"), content: root_map(gid) },
        }
    }

    /// The files that map root of the user namespace of process `pid` to the
    /// user and group that run this process.
    pub fn host_user_mappings(pid: i32) -> (r: UserMappings)
        ensures
            r.setgroups.path@ == proc_file(pid as int, "setgroups"@),
            r.setgroups.content@ == "deny"@,
            r.uid_map.path@ == proc_file(pid as int, "uid_map"@),
            r.gid_map.path@ == proc_file(pid as int, "gid_map"@),
            exists|uid: u32, gid: u32|
                r.uid_map.content@ == root_map_line(uid as nat) && r.gid_map.content@
                    == root_map_line(gid as nat),
    {
        id_mappings(pid, current_uid(), current_gid())
    }

    /// The argument vector of the program: its path, then its arguments.
    pub fn argv(spec: &ProcessSpec) -> (r: Vec<String>)
        ensures
            string_views(r@) == seq![spec.executable@] + string_views(spec.args@),
    {
        let mut v: Vec<String> = Vec::new();
        v.push(spec.executable.clone());
        let n = spec.args.len();
        let mut i: usize = 0;
        while i < n
            invariant
                i <= n,
                n == spec.args@.len(),
                string_views(v@) =~= seq![spec.executable@] + string_views(
                    spec.args@.subrange(0, i as int),
                ),
            decreases n - i,
        {
            let ghost before = v@;
            v.push(spec.args[i].clone());
            assert(string_views(v@) =~= string_views(before).push(spec.args@[i as int]@));
            assert(spec.args@.subrange(0, i + 1) =~= spec.args@.subrange(0, i as int).push(
                spec.args@[i as int],
            ));
            i = i + 1;
        }
        assert(spec.args@.subrange(0, n as int) =~= spec.args@);
        v
    }

    /// The steps the sandboxed process takes before and to run the program.
    pub fn child_steps(spec: &ProcessSpec) -> (r: Vec<ChildStep>)
        ensures
            r@ == spec_child_steps(
                spec.overlay is Some,
                spec.drop_capabilities,
                spec.enable_seccomp,
            ),
    {
        let mut steps: Vec<ChildStep> = Vec::new();
        if spec.overlay.is_some() {
            steps.push(ChildStep::MountOverlay);
        }
        if spec.drop_capabilities {
            steps.push(ChildStep::DropCapabilities);
        }
        if spec.enable_seccomp {
            steps.push(ChildStep::ApplySeccomp);
        }
        steps.push(ChildStep::Exec);
        assert(steps@ =~= spec_child_steps(
            spec.overlay is Some,
            spec.drop_capabilities,
            spec.enable_seccomp,
        ));
        steps
    }
}

/// From the `i`th on, the index of the first word of `words` that holds a
/// NUL character, which no word handed to `execvp` may hold.
pub open spec fn first_nul_word(words: Seq<Seq<char>>, i: int) -> Option<int>
    decreases words.len() - i,
{
    if i < 0 || i >= words.len() {
        None
    } else if words[i].contains('\0') {
        Some(i)
    } else {
        first_nul_word(words, i + 1)
    }
}

/// The exit status of the sandboxed process whose steps all succeeded (`ok`)
/// or one of which failed.
pub open spec fn child_status(ok: bool) -> i32 {
    if ok {
        0
    } else {
        1
    }
}

/// The message of a word of the argument vector that holds a NUL character:
/// the program's path is an invalid path, any other word an invalid argument.
pub open spec fn nul_word_text(index: int, detail: Seq<char>) -> Seq<char> {
    if index == 0 {
        "Invalid path: "@ + detail
    } else {
        "Invalid arg: "@ + detail
    }
}

impl ProcessExecutor {
    /// The argument vector of the program, when no word of it holds a NUL
    /// character; else the index of the first word that does.
    pub fn checked_argv(spec: &ProcessSpec) -> (r: Result<Vec<String>, usize>)
        ensures
            first_nul_word(seq![spec.executable@] + string_views(spec.args@), 0) matches Some(i) ==> r
                == Err::<Vec<String>, usize>(i as usize),
            first_nul_word(seq![spec.executable@] + string_views(spec.args@), 0) is None ==> (
            r matches Ok(v) && string_views(v@) == seq![spec.executable@] + string_views(spec.args@)),
    {
        let argv = Self::argv(spec);
        let ghost words = seq![spec.executable@] + string_views(spec.args@);
        let n = argv.len();
        let mut i: usize = 0;
        while i < n
            invariant
                i <= n,
                n == argv@.len(),
                string_views(argv@) == words,
                words == seq![spec.executable@] + string_views(spec.args@),
                first_nul_word(words, 0) == first_nul_word(words, i as int),
            decreases n - i,
        {
            assert(words[i as int] == argv@[i as int]@);
            if contains_char(argv[i].as_str(), '\0') {
                assert(words[i as int].contains('\0'));
                assert(first_nul_word(words, i as int) == Some(i as int));
                return Err(i);
            }
            i = i + 1;
        }
        Ok(argv)
    }

    /// The error of the word `index` of the argument vector, which holds a NUL
    /// character, with the text of the failure.
    pub fn nul_word_failure(index: usize, detail: &str) -> (r: JarError)
        ensures
            r matches JarError::Execution(m) && m@ == nul_word_text(index as int, detail@),
    {
        if index == 0 {
            JarError::Execution(concat_text("Invalid path: ", detail))
        } else {
            JarError::Execution(concat_text("Invalid arg: ", detail))
        }
    }

    /// The exit status of the sandboxed process when its steps end as
    /// `outcome`: 0, or 1 when a step failed (a successful exec never returns).
    pub fn child_exit_status(outcome: &Result<(), JarError>) -> (r: i32)
        ensures
            r == child_status(outcome is Ok),
    {
        match outcome {
            Ok(()) => 0,
            Err(_) => 1,
        }
    }

    /// The line the sandboxed process reports a failed step with.
    pub fn child_error_line(e: &JarError) -> (r: String)
        ensures
            e matches JarError::InvalidArgs(m) ==> r@ == "[jar child error]: "@ + "Argument error: "@ + m@,
            e matches JarError::Validation(m) ==> r@ == "[jar child error]: "@ + "Validation error: "@ + m@,
            e matches JarError::Execution(m) ==> r@ == "[jar child error]: "@ + "Execution error: "@ + m@,
            e is Io ==> exists|t: Seq<char>| r@ == "[jar child error]: "@ + "IO error: "@ + t,
            e is Syscall ==> exists|c: i32|
                r@ == "[jar child error]: "@ + "Syscall error: "@ + #[trigger] errno_display_text(c),
    {
        let m = e.message();
        let r = concat_text("[jar child error]: ", m.as_str());
        proof {
            if e is Io {
                let t = choose|t: Seq<char>| m@ == "IO error: "@ + t;
                assert(r@ =~= "[jar child error]: "@ + "IO error: "@ + t);
            }
            if e is Syscall {
                let c = choose|c: i32| m@ == "Syscall error: "@ + errno_display_text(c);
                assert(r@ =~= "[jar child error]: "@ + "Syscall error: "@ + errno_display_text(c));
            }
        }
        r
    }
}

/// The program runs last, once, after every isolation step; the seccomp
/// filter, when there is one, is loaded just before it, after the overlay is
/// mounted and the capabilities dropped.
pub proof fn lemma_program_runs_last(has_overlay: bool, drop_caps: bool, seccomp: bool)
    ensures
        spec_child_steps(has_overlay, drop_caps, seccomp).len() > 0,
        spec_child_steps(has_overlay, drop_caps, seccomp).last() == ChildStep::Exec,
        !spec_child_steps(has_overlay, drop_caps, seccomp).drop_last().contains(ChildStep::Exec),
        seccomp ==> spec_child_steps(has_overlay, drop_caps, seccomp).drop_last().last()
            == ChildStep::ApplySeccomp,
{
    let s = spec_child_steps(has_overlay, drop_caps, seccomp);
    let before = s.drop_last();
    assert(before =~= (if has_overlay {
        seq![ChildStep::MountOverlay]
    } else {
        Seq::empty()
    }) + (if drop_caps {
        seq![ChildStep::DropCapabilities]
    } else {
        Seq::empty()
    }) + (if seccomp {
        seq![ChildStep::ApplySeccomp]
    } else {
        Seq::empty()
    }));
    assert forall|i: int| 0 <= i < before.len() implies before[i] != ChildStep::Exec by {}
}

/// A sandboxed process one of whose steps failed (dropping capabilities,
/// loading the seccomp filter or the exec) exits with status 1, which is
/// reported as exit code 1.
pub proof fn lemma_failed_step_reports_one()
    ensures
        spec_exit_code(ChildStatus::Exited(child_status(false))) == 1,
        spec_exit_code(ChildStatus::Exited(child_status(true))) == 0,
{
}

/// A program that a signal ended is reported with 128 plus the signal's
/// number, whatever the signal; one that exited is reported with its own exit
/// status; any other end is reported as 1. Two signals are reported alike
/// only when they are the same signal, and a signal's report exceeds 128.
pub proof fn lemma_exit_code_of_status(status: ChildStatus, other: ChildStatus)
    ensures
        status matches ChildStatus::Signaled(sig) ==> spec_exit_code(status) == 128 + sig,
        status matches ChildStatus::Exited(s) ==> spec_exit_code(status) == s,
        status is Other ==> spec_exit_code(status) == 1,
        status matches ChildStatus::Signaled(sig) ==> (sig >= 1 ==> spec_exit_code(status) > 128),
        (status is Signaled && other is Signaled && spec_exit_code(status) == spec_exit_code(other))
            ==> status == other,
{
}

} // verus!
