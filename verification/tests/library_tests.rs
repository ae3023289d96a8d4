use jar::capabilities::{CapabilityManager, CapabilitySet};
use jar::cgroup::{CgroupManager, ResourceLimits};
use jar::cli::{parse_args, Command, RunOptions};
use jar::decimal::{i32_to_decimal, parse_u64, u64_to_decimal};
use jar::error::{IoFailure, JarError};
use jar::image::ImageUnpacker;
use jar::overlay::{OverlayManager, OverlayMount};
use jar::probe::{is_probe_invocation, is_reported_status_line};
use jar::process::{ChildStep, ProcessExecutor, ProcessSpec};
use jar::run::{RunAction, RunEvent};
use jar::sandbox::{Sandbox, SandboxConfig};
use jar::seccomp::{ProfileAction, ProfileEvent, ProfileRun, SeccompFilter};
use jar::text::{concat_text, ends_with, join_path, starts_with, starts_with_char, str_eq};

/// Drives a run of `sandbox` against a simulated host: every set-up succeeds
/// unless told otherwise, and the program ends with `outcome`. Gives the log
/// of actions and the run's result.
fn drive(
    sandbox: &Sandbox,
    cgroup_fails: bool,
    overlay_fails: bool,
    outcome: Result<i32, &str>,
) -> (Vec<String>, Result<i32, JarError>) {
    let mut run = sandbox.run();
    let mut log = Vec::new();
    let mut event = RunEvent::Done;
    loop {
        event = match run.step(event) {
            RunAction::Announce(line) => {
                log.push(line);
                RunEvent::Done
            }
            RunAction::SetUpCgroup(limits) => {
                log.push(format!("cgroup {:?} {:?}", limits.memory_max_bytes, limits.pids_max));
                if cgroup_fails {
                    RunEvent::Failed(JarError::Execution("no cgroup".to_string()))
                } else {
                    RunEvent::Done
                }
            }
            RunAction::SetUpOverlay(lower) => {
                log.push(format!("overlay {}", lower));
                if overlay_fails {
                    RunEvent::Failed(JarError::Validation("no overlay".to_string()))
                } else {
                    RunEvent::Done
                }
            }
            RunAction::Execute => {
                log.push("execute".to_string());
                match outcome {
                    Ok(code) => RunEvent::Exited(code),
                    Err(m) => RunEvent::Failed(JarError::Execution(m.to_string())),
                }
            }
            RunAction::CleanUpOverlay => {
                log.push("cleanup".to_string());
                RunEvent::Done
            }
            RunAction::RemoveCgroup => {
                log.push("remove cgroup".to_string());
                RunEvent::Done
            }
            RunAction::Finish(result) => {
                assert!(run.is_finished());
                return (log, result);
            }
        };
    }
}

fn words(ws: &[&str]) -> Vec<String> {
    ws.iter().map(|s| s.to_string()).collect()
}

fn parsed(ws: &[&str]) -> RunOptions {
    match parse_args(words(ws)) {
        Ok(Command::Run(o)) => o,
        Err(e) => panic!("refused: {}", e.message()),
    }
}

fn refusal(ws: &[&str]) -> String {
    match parse_args(words(ws)) {
        Err(JarError::InvalidArgs(m)) => m,
        Err(e) => panic!("wrong error: {}", e.message()),
        Ok(c) => panic!("accepted: {:?}", c),
    }
}

fn failure(detail: &str) -> IoFailure {
    IoFailure { permission_denied: false, message: detail.to_string() }
}

fn denied() -> IoFailure {
    IoFailure { permission_denied: true, message: "Permission denied (os error 13)".to_string() }
}

// ---- decimal ----

#[test]
fn parse_u64_accepts_digits_and_one_plus() {
    assert_eq!(parse_u64("0"), Some(0));
    assert_eq!(parse_u64("536870912"), Some(536870912));
    assert_eq!(parse_u64("+7"), Some(7));
    assert_eq!(parse_u64("007"), Some(7));
    assert_eq!(parse_u64("18446744073709551615"), Some(u64::MAX));
}

#[test]
fn parse_u64_refuses_what_str_parse_refuses() {
    for s in ["", "+", "-1", "-0", "++1", "1a", " 1", "1 ", "18446744073709551616", "99999999999999999999x", "１"] {
        assert_eq!(parse_u64(s), None, "{:?}", s);
        assert!(s.parse::<u64>().is_err());
    }
}

#[test]
fn parse_u64_agrees_with_str_parse() {
    for s in ["0", "1", "42", "+42", "000", "4294967296", "18446744073709551615"] {
        assert_eq!(parse_u64(s), s.parse::<u64>().ok(), "{:?}", s);
    }
}

#[test]
fn decimal_texts() {
    assert_eq!(u64_to_decimal(0), "0");
    assert_eq!(u64_to_decimal(10), "10");
    assert_eq!(u64_to_decimal(u64::MAX), u64::MAX.to_string());
    assert_eq!(i32_to_decimal(-1), "-1");
    assert_eq!(i32_to_decimal(i32::MIN), i32::MIN.to_string());
    assert_eq!(i32_to_decimal(4242), "4242");
}

#[test]
fn decimal_round_trip() {
    for n in [0u64, 1, 9, 10, 99, 100, 536870912, u64::MAX] {
        assert_eq!(parse_u64(&u64_to_decimal(n)), Some(n));
    }
    for s in ["0", "5", "10", "123456"] {
        assert_eq!(u64_to_decimal(parse_u64(s).unwrap()), s);
    }
}

// ---- text ----

#[test]
fn text_operations() {
    assert!(str_eq("run", "run"));
    assert!(!str_eq("run", "ru"));
    assert!(!str_eq("run", "rum"));
    assert_eq!(concat_text("a", "bc"), "abc");
    assert!(starts_with_char("-x", '-'));
    assert!(!starts_with_char("", '-'));
    assert!(starts_with("Seccomp: 2", "Seccomp:"));
    assert!(!starts_with("Sec", "Seccomp:"));
    assert!(ends_with("img.tgz", ".tgz"));
    assert!(!ends_with("gz", ".gz"));
}

#[test]
fn paths_join_as_path_join_does() {
    for (base, comp) in [("/a", "b"), ("/a/", "b"), ("/a", "/b"), ("", "b"), ("/a", "")] {
        let expected = std::path::Path::new(base).join(comp);
        assert_eq!(join_path(base, comp), expected.to_str().unwrap(), "{:?} {:?}", base, comp);
    }
}

// ---- command line ----

#[test]
fn parse_defaults() {
    let o = parsed(&["jar", "run", "/bin/true"]);
    assert_eq!(o.executable, "/bin/true");
    assert!(o.args.is_empty());
    assert_eq!(o.rootfs, None);
    assert_eq!(o.image, None);
    assert_eq!(o.limits, ResourceLimits::default());
    assert!(o.enable_seccomp);
    assert!(o.drop_capabilities);
}

#[test]
fn parse_all_options() {
    let o = parsed(&[
        "jar", "run", "--rootfs", "/r", "--image", "img.tgz", "--memory", "+10", "--pids", "5",
        "--no-seccomp", "--no-caps-drop", "prog", "--memory", "x",
    ]);
    assert_eq!(o.rootfs.as_deref(), Some("/r"));
    assert_eq!(o.image.as_deref(), Some("img.tgz"));
    assert_eq!(o.limits.memory_max_bytes, Some(10));
    assert_eq!(o.limits.pids_max, Some(5));
    assert_eq!(o.limits.cpu_max_quota_us, None);
    assert_eq!(o.limits.cpu_max_period_us, None);
    assert!(!o.enable_seccomp);
    assert!(!o.drop_capabilities);
    assert_eq!(o.executable, "prog");
    assert_eq!(o.args, words(&["--memory", "x"]));
}

#[test]
fn later_option_overrides_earlier() {
    let o = parsed(&["jar", "run", "--memory", "1", "--memory", "2", "--rootfs", "/a", "--rootfs", "/b", "p"]);
    assert_eq!(o.limits.memory_max_bytes, Some(2));
    assert_eq!(o.rootfs.as_deref(), Some("/b"));
}

#[test]
fn separator_lets_program_begin_with_dash() {
    let o = parsed(&["jar", "run", "--", "-weird", "--no-seccomp"]);
    assert_eq!(o.executable, "-weird");
    assert_eq!(o.args, words(&["--no-seccomp"]));
    assert!(o.enable_seccomp);
}

#[test]
fn trailing_words_reach_program() {
    let a = parsed(&["jar", "run", "--pids", "3", "prog", "x"]);
    let b = parsed(&["jar", "run", "--pids", "3", "prog", "x", "--pids", "y"]);
    assert_eq!(b.executable, a.executable);
    assert_eq!(b.limits, a.limits);
    assert_eq!(b.args, words(&["x", "--pids", "y"]));
}

#[test]
fn empty_word_is_a_program() {
    let o = parsed(&["jar", "run", ""]);
    assert_eq!(o.executable, "");
    let sandbox = Sandbox::new(SandboxConfig::from(o));
    match sandbox.validate() {
        Err(JarError::Validation(m)) => assert_eq!(m, "Executable path cannot be empty"),
        other => panic!("unexpected: {:?}", other),
    }
    let (log, result) = drive(&sandbox, false, false, Ok(0));
    assert_eq!(log, words(&["[jar] preparing execution"]));
    match result {
        Err(JarError::Validation(m)) => assert_eq!(m, "Executable path cannot be empty"),
        other => panic!("unexpected: {:?}", other),
    }
}

#[test]
fn parse_refusals() {
    assert_eq!(refusal(&[]), "Missing command. Usage: jar run [OPTIONS] <program> [args...]");
    assert_eq!(refusal(&["jar"]), "Missing command. Usage: jar run [OPTIONS] <program> [args...]");
    assert_eq!(refusal(&["jar", "go"]), "Unknown command: go");
    assert_eq!(refusal(&["jar", "run"]), "Missing executable path. Usage: jar run [OPTIONS] <program> [args...]");
    assert_eq!(refusal(&["jar", "run", "--"]), "Missing executable path. Usage: jar run [OPTIONS] <program> [args...]");
    assert_eq!(refusal(&["jar", "run", "--rootfs"]), "Missing path for --rootfs option");
    assert_eq!(refusal(&["jar", "run", "--image"]), "Missing path for --image option");
    assert_eq!(refusal(&["jar", "run", "--memory"]), "Missing value for --memory option");
    assert_eq!(refusal(&["jar", "run", "--pids"]), "Missing value for --pids option");
    assert_eq!(refusal(&["jar", "run", "--memory", "1G", "p"]), "Invalid memory byte limit: 1G");
    assert_eq!(refusal(&["jar", "run", "--pids", "-1", "p"]), "Invalid pids max limit: -1");
    assert_eq!(refusal(&["jar", "run", "--verbose", "p"]), "Unknown option: --verbose");
    assert_eq!(refusal(&["jar", "run", "-", "p"]), "Unknown option: -");
}

// ---- errors ----

#[test]
fn error_messages() {
    assert_eq!(JarError::InvalidArgs("x".to_string()).message(), "Argument error: x");
    assert_eq!(JarError::Validation("y".to_string()).message(), "Validation error: y");
    assert_eq!(JarError::Execution("z".to_string()).message(), "Execution error: z");
    let io = std::io::Error::new(std::io::ErrorKind::Other, "boom");
    assert_eq!(JarError::Io(io).message(), "IO error: boom");
    assert_eq!(
        JarError::Syscall(nix::errno::Errno::EPERM).message(),
        "Syscall error: EPERM: Operation not permitted"
    );
}

#[test]
fn errors_convert() {
    let e: JarError = std::io::Error::new(std::io::ErrorKind::Other, "x").into();
    assert!(matches!(e, JarError::Io(_)));
    let e: JarError = nix::errno::Errno::ENOENT.into();
    assert!(matches!(e, JarError::Syscall(nix::errno::Errno::ENOENT)));
}

// ---- cgroup ----

#[test]
fn cgroup_paths() {
    assert_eq!(CgroupManager::hierarchy_root(), "/sys/fs/cgroup");
    assert_eq!(CgroupManager::cgroup_path_for("box"), "/sys/fs/cgroup/jar/box");
    let cg = CgroupManager::new("box", true, Ok(())).unwrap();
    assert_eq!(cg.cgroup_path(), "/sys/fs/cgroup/jar/box");
    assert!(!cg.creation_skipped());
    assert!(cg.creation_warning().is_none());
    assert_eq!(cg.file_path("pids.max"), "/sys/fs/cgroup/jar/box/pids.max");
}

#[test]
fn cgroup_creation_outcomes() {
    match CgroupManager::new("box", false, Ok(())) {
        Err(JarError::Validation(m)) => {
            assert_eq!(m, "Cgroups v2 unified hierarchy (/sys/fs/cgroup) is not mounted on host")
        }
        _ => panic!("mounted hierarchy assumed"),
    }
    let cg = CgroupManager::new("box", true, Err(denied())).unwrap();
    assert!(cg.creation_skipped());
    assert_eq!(
        cg.creation_warning().as_deref(),
        Some("[jar warning] cgroup creation skipped due to unprivileged permissions")
    );
    match CgroupManager::new("box", true, Err(failure("disk on fire"))) {
        Err(JarError::Execution(m)) => assert_eq!(m, "Failed to create cgroup dir: disk on fire"),
        _ => panic!("failure ignored"),
    }
}

#[test]
fn cgroup_settings_for_limits() {
    let cg = CgroupManager::new("b", true, Ok(())).unwrap();
    assert!(cg.apply_limits(&ResourceLimits::default()).is_empty());
    let all = ResourceLimits {
        memory_max_bytes: Some(1024),
        cpu_max_quota_us: Some(50000),
        cpu_max_period_us: Some(100000),
        pids_max: Some(64),
    };
    let s = cg.apply_limits(&all);
    let got: Vec<(String, String, String)> =
        s.into_iter().map(|s| (s.file_name, s.path, s.content)).collect();
    assert_eq!(
        got,
        vec![
            ("memory.max".into(), "/sys/fs/cgroup/jar/b/memory.max".into(), "1024".into()),
            ("cpu.max".into(), "/sys/fs/cgroup/jar/b/cpu.max".into(), "50000 100000".into()),
            ("pids.max".into(), "/sys/fs/cgroup/jar/b/pids.max".into(), "64".into()),
        ]
    );
    let quota_only = ResourceLimits { cpu_max_quota_us: Some(1), ..ResourceLimits::default() };
    assert!(cg.apply_limits(&quota_only).is_empty());
}

#[test]
fn cgroup_attach_process() {
    let cg = CgroupManager::new("b", true, Ok(())).unwrap();
    let s = cg.attach_process(31337);
    assert_eq!(s.file_name, "cgroup.procs");
    assert_eq!(s.path, "/sys/fs/cgroup/jar/b/cgroup.procs");
    assert_eq!(s.content, "31337");
}

#[test]
fn cgroup_write_outcomes() {
    let cg = CgroupManager::new("b", true, Ok(())).unwrap();
    assert_eq!(cg.write_outcome("pids.max", Ok(())).unwrap(), None);
    assert_eq!(
        cg.write_outcome("pids.max", Err(denied())).unwrap().as_deref(),
        Some("[jar warning] cgroup setting 'pids.max' skipped: permission denied in unprivileged container")
    );
    match cg.write_outcome("pids.max", Err(failure("No such file or directory (os error 2)"))) {
        Err(JarError::Execution(m)) => assert_eq!(
            m,
            "Failed to open cgroup file \"/sys/fs/cgroup/jar/b/pids.max\": No such file or directory (os error 2)"
        ),
        other => panic!("unexpected: {:?}", other),
    }
}

// ---- overlay ----

#[test]
fn overlay_warning_text() {
    assert_eq!(
        OverlayManager::skipped_warning("EPERM: Operation not permitted"),
        "[jar warning] OverlayFS mount skipped (EPERM: Operation not permitted); proceeding with base filesystem"
    );
}

#[test]
fn overlay_mount_failure_is_no_error() {
    let o = OverlayManager::new("t", "/", Ok("/".to_string())).unwrap();
    let nowhere = OverlayManager {
        merged_dir: "/nonexistent/jar/merged".to_string(),
        ..o
    };
    match nowhere.mount_overlay() {
        OverlayMount::Skipped(w) => {
            assert!(w.starts_with("[jar warning] OverlayFS mount skipped ("));
            assert!(w.ends_with("); proceeding with base filesystem"));
        }
        OverlayMount::Mounted => panic!("mounted on a missing directory"),
    }
}

#[test]
fn overlay_mount_outcomes() {
    assert!(matches!(OverlayManager::mount_outcome(Ok(())), OverlayMount::Mounted));
    match OverlayManager::mount_outcome(Err("EPERM: Operation not permitted".to_string())) {
        OverlayMount::Skipped(w) => assert_eq!(
            w,
            "[jar warning] OverlayFS mount skipped (EPERM: Operation not permitted); proceeding with base filesystem"
        ),
        OverlayMount::Mounted => panic!("a failed mount reported as mounted"),
    }
}

// ---- image ----

#[test]
fn image_plans() {
    assert_eq!(ImageUnpacker::target_dir_for("s"), "/tmp/jar_images/s");
    assert!(ImageUnpacker::is_compressed("a.tar.gz"));
    assert!(ImageUnpacker::is_compressed("a.tgz"));
    assert!(!ImageUnpacker::is_compressed("a.tar"));
    let p = ImageUnpacker::plan("x.tgz", "s", true).unwrap();
    assert_eq!(p.target_dir, "/tmp/jar_images/s");
    assert!(p.compressed);
    match ImageUnpacker::plan("x.tar", "s", false) {
        Err(JarError::Validation(m)) => assert_eq!(m, "Image tarball not found: x.tar"),
        _ => panic!("missing tarball accepted"),
    }
    match ImageUnpacker::open_failure("d") {
        JarError::Execution(m) => assert_eq!(m, "Failed to open image tarball: d"),
        _ => panic!(),
    }
    match ImageUnpacker::unpack_failure(true, "d") {
        JarError::Execution(m) => assert_eq!(m, "Failed to unpack compressed tarball: d"),
        _ => panic!(),
    }
    match ImageUnpacker::unpack_failure(false, "d") {
        JarError::Execution(m) => assert_eq!(m, "Failed to unpack image tarball: d"),
        _ => panic!(),
    }
}

// ---- process ----

#[test]
fn child_steps_follow_the_flags() {
    let spec = |seccomp: bool, caps: bool| ProcessSpec {
        executable: "p".to_string(),
        args: vec![],
        rootfs: None,
        overlay: None,
        enable_seccomp: seccomp,
        drop_capabilities: caps,
    };
    assert_eq!(ProcessExecutor::child_steps(&spec(false, false)), vec![ChildStep::Exec]);
    assert_eq!(
        ProcessExecutor::child_steps(&spec(true, false)),
        vec![ChildStep::ApplySeccomp, ChildStep::Exec]
    );
    assert_eq!(
        ProcessExecutor::child_steps(&spec(false, true)),
        vec![ChildStep::DropCapabilities, ChildStep::Exec]
    );
}

#[test]
fn host_user_mappings_use_this_process_ids() {
    let maps = ProcessExecutor::host_user_mappings(7);
    let uid = nix::unistd::getuid().as_raw();
    let gid = nix::unistd::getgid().as_raw();
    assert_eq!(maps.uid_map.content, format!("0 {} 1\n", uid));
    assert_eq!(maps.gid_map.content, format!("0 {} 1\n", gid));
    assert_eq!(maps.setgroups.path, "/proc/7/setgroups");
}

#[test]
fn argv_is_program_then_words() {
    let spec = ProcessSpec {
        executable: "/bin/sh".to_string(),
        args: words(&["-c", "exit 42"]),
        rootfs: Some("/r".to_string()),
        overlay: None,
        enable_seccomp: true,
        drop_capabilities: true,
    };
    assert_eq!(ProcessExecutor::argv(&spec), words(&["/bin/sh", "-c", "exit 42"]));
}

#[test]
fn sandbox_plan_and_spec() {
    let o = parsed(&["jar", "run", "--pids", "9", "--no-caps-drop", "/bin/x", "a"]);
    let sandbox = Sandbox::new(SandboxConfig::from(o));
    let (log, _) = drive(&sandbox, false, false, Ok(3));
    assert!(log.contains(&"cgroup None Some(9)".to_string()));
    let spec = sandbox.process_spec(None);
    assert_eq!(spec.executable, "/bin/x");
    assert_eq!(spec.args, words(&["a"]));
    assert!(spec.enable_seccomp);
    assert!(!spec.drop_capabilities);
}

#[test]
fn run_failures_end_the_run() {
    let sandbox = Sandbox::new(SandboxConfig::from(parsed(&[
        "jar", "run", "--memory", "1", "--rootfs", "/r", "p",
    ])));
    let (log, result) = drive(&sandbox, true, false, Ok(0));
    assert_eq!(&log[log.len() - 2..], &words(&["cgroup Some(1) None", "remove cgroup"])[..]);
    assert!(matches!(result, Err(JarError::Execution(m)) if m == "no cgroup"));

    let (log, result) = drive(&sandbox, false, true, Ok(0));
    assert_eq!(&log[log.len() - 2..], &words(&["overlay /r", "remove cgroup"])[..]);
    assert!(matches!(result, Err(JarError::Validation(m)) if m == "no overlay"));

    let (log, result) = drive(&sandbox, false, false, Err("exec failed"));
    assert_eq!(&log[log.len() - 3..], &words(&["execute", "cleanup", "remove cgroup"])[..]);
    assert!(matches!(result, Err(JarError::Execution(m)) if m == "exec failed"));

    let (log, result) = drive(&sandbox, false, false, Ok(-3));
    assert_eq!(
        &log[log.len() - 4..],
        &words(&["execute", "cleanup", "[jar] process exited: -3", "remove cgroup"])[..]
    );
    assert_eq!(result.unwrap(), -3);

    // Without limits there is no cgroup to remove.
    let plain = Sandbox::new(SandboxConfig::from(parsed(&["jar", "run", "--rootfs", "/r", "p"])));
    let (log, result) = drive(&plain, false, true, Ok(0));
    assert_eq!(log.last().map(String::as_str), Some("overlay /r"));
    assert!(matches!(result, Err(JarError::Validation(m)) if m == "no overlay"));
    let (log, result) = drive(&plain, false, false, Ok(7));
    assert!(!log.contains(&"remove cgroup".to_string()));
    assert_eq!(log.last().map(String::as_str), Some("[jar] process exited: 7"));
    assert_eq!(result.unwrap(), 7);
}

#[test]
fn cpu_limit_alone_sets_up_no_cgroup() {
    let mut opts = parsed(&["jar", "run", "p"]);
    opts.limits.cpu_max_quota_us = Some(1000);
    opts.limits.cpu_max_period_us = Some(10000);
    let sandbox = Sandbox::new(SandboxConfig::from(opts));
    let (log, _) = drive(&sandbox, false, false, Ok(0));
    assert!(!log.iter().any(|l| l.starts_with("cgroup")));
    assert_eq!(Sandbox::id(), "sandbox_exec");
}

// ---- seccomp ----

#[test]
fn seccomp_profile() {
    assert_eq!(SeccompFilter::denied_errno(), libc::EPERM);
    let names = SeccompFilter::allowed_syscalls();
    assert_eq!(names.len(), 42);
    assert_eq!(names[0], "read");
    assert_eq!(names[41], "clock_gettime");
    assert!(names.contains(&"execve"));
    assert!(names.contains(&"exit_group"));
    match SeccompFilter::rule_failure("read", "bad") {
        JarError::Execution(m) => assert_eq!(m, "Failed to allow syscall read: bad"),
        _ => panic!(),
    }
    match SeccompFilter::init_failure("bad") {
        JarError::Execution(m) => assert_eq!(m, "Failed to init seccomp context: bad"),
        _ => panic!(),
    }
    match SeccompFilter::load_failure("bad") {
        JarError::Execution(m) => assert_eq!(m, "Failed to load seccomp BPF filter: bad"),
        _ => panic!(),
    }
}

#[test]
fn seccomp_profile_run_all_known() {
    let mut run = ProfileRun::new();
    assert!(matches!(run.step(ProfileEvent::Done), ProfileAction::CreateFilter(1)));
    let mut action = run.step(ProfileEvent::Done);
    let mut resolved = Vec::new();
    loop {
        match action {
            ProfileAction::Resolve(name) => {
                resolved.push(name);
                action = run.step(ProfileEvent::Known(true));
                match action {
                    ProfileAction::Allow(n) => assert_eq!(n, name),
                    ref other => panic!("unexpected: {:?}", other),
                }
                action = run.step(ProfileEvent::Done);
            }
            ProfileAction::Load => break,
            other => panic!("unexpected: {:?}", other),
        }
    }
    assert_eq!(resolved, SeccompFilter::allowed_syscalls());
    assert!(matches!(run.step(ProfileEvent::Done), ProfileAction::Finish(Ok(()))));
    assert!(matches!(run.step(ProfileEvent::Done), ProfileAction::Finish(Ok(()))));
}

#[test]
fn seccomp_profile_run_failures() {
    let mut run = ProfileRun::new();
    run.step(ProfileEvent::Done);
    match run.step(ProfileEvent::Failed("no memory".to_string())) {
        ProfileAction::Finish(Err(JarError::Execution(m))) => {
            assert_eq!(m, "Failed to init seccomp context: no memory")
        }
        other => panic!("unexpected: {:?}", other),
    }

    let mut run = ProfileRun::new();
    run.step(ProfileEvent::Done);
    assert!(matches!(run.step(ProfileEvent::Done), ProfileAction::Resolve("read")));
    assert!(matches!(run.step(ProfileEvent::Known(false)), ProfileAction::Resolve("write")));
    assert!(matches!(run.step(ProfileEvent::Known(true)), ProfileAction::Allow("write")));
    match run.step(ProfileEvent::Failed("bad".to_string())) {
        ProfileAction::Finish(Err(JarError::Execution(m))) => {
            assert_eq!(m, "Failed to allow syscall write: bad")
        }
        other => panic!("unexpected: {:?}", other),
    }

    let mut run = ProfileRun::new();
    run.step(ProfileEvent::Done);
    let mut action = run.step(ProfileEvent::Done);
    while let ProfileAction::Resolve(_) = action {
        action = run.step(ProfileEvent::Known(false));
    }
    assert!(matches!(action, ProfileAction::Load));
    match run.step(ProfileEvent::Failed("denied".to_string())) {
        ProfileAction::Finish(Err(JarError::Execution(m))) => {
            assert_eq!(m, "Failed to load seccomp BPF filter: denied")
        }
        other => panic!("unexpected: {:?}", other),
    }
}

// ---- capabilities ----

#[test]
fn capability_failure_texts() {
    let cases = [
        (CapabilitySet::Effective, "Failed to clear effective caps: caps error: x"),
        (CapabilitySet::Permitted, "Failed to clear permitted caps: caps error: x"),
        (CapabilitySet::Inheritable, "Failed to clear inheritable caps: caps error: x"),
        (CapabilitySet::Ambient, "Failed to clear ambient caps: caps error: x"),
    ];
    for (set, text) in cases {
        match CapabilityManager::clear_failure(set, "caps error: x") {
            JarError::Execution(m) => assert_eq!(m, text),
            _ => panic!(),
        }
    }
}

#[test]
fn dropping_capabilities_succeeds_or_names_the_set() {
    match CapabilityManager::drop_all_capabilities() {
        Ok(()) => {}
        Err(JarError::Execution(m)) => {
            assert!(m.starts_with("Failed to clear "));
            assert!(m.contains(" caps: caps error: "));
        }
        Err(e) => panic!("unexpected: {}", e.message()),
    }
}

// ---- probe ----

#[test]
fn probe_lines_and_name() {
    assert!(is_reported_status_line("Seccomp:\t2"));
    assert!(is_reported_status_line("Seccomp_filters:\t1"));
    assert!(is_reported_status_line("CapEff:\t0000000000000000"));
    assert!(is_reported_status_line("NSpid:\t1"));
    assert!(!is_reported_status_line("Name:\tjar"));
    assert!(!is_reported_status_line("Cap"));
    assert!(is_probe_invocation("jar-probe"));
    assert!(is_probe_invocation("/usr/bin/jar-probe"));
    assert!(!is_probe_invocation("jar"));
    assert!(!is_probe_invocation("xjar-probe"));
}

#[test]
fn capabilities_cleared_in_plan_order() {
    assert_eq!(
        CapabilityManager::clear_plan(),
        vec![
            CapabilitySet::Effective,
            CapabilitySet::Permitted,
            CapabilitySet::Inheritable,
            CapabilitySet::Ambient,
        ]
    );
    assert!(CapabilityManager::must_clear(CapabilitySet::Effective));
    assert!(!CapabilityManager::must_clear(CapabilitySet::Ambient));
}

#[test]
fn drop_result_names_the_first_required_set_that_failed() {
    let ok = || Ok(());
    let err = |t: &str| Err(t.to_string());
    assert!(CapabilityManager::drop_result(&vec![ok(), ok(), ok(), ok()]).is_ok());
    // An ambient failure is ignored.
    assert!(CapabilityManager::drop_result(&vec![ok(), ok(), ok(), err("a")]).is_ok());
    match CapabilityManager::drop_result(&vec![ok(), err("p")]) {
        Err(JarError::Execution(m)) => assert_eq!(m, "Failed to clear permitted caps: p"),
        other => panic!("unexpected: {:?}", other),
    }
    match CapabilityManager::drop_result(&vec![err("e")]) {
        Err(JarError::Execution(m)) => assert_eq!(m, "Failed to clear effective caps: e"),
        other => panic!("unexpected: {:?}", other),
    }
    match CapabilityManager::drop_result(&vec![ok(), ok(), err("i"), ok()]) {
        Err(JarError::Execution(m)) => assert_eq!(m, "Failed to clear inheritable caps: i"),
        other => panic!("unexpected: {:?}", other),
    }
}

#[test]
fn argv_with_nul_is_refused_at_the_first_such_word() {
    let spec = |exe: &str, args: &[&str]| ProcessSpec {
        executable: exe.to_string(),
        args: words(args),
        rootfs: None,
        overlay: None,
        enable_seccomp: false,
        drop_capabilities: false,
    };
    assert_eq!(
        ProcessExecutor::checked_argv(&spec("/bin/echo", &["a", "b"])).unwrap(),
        words(&["/bin/echo", "a", "b"])
    );
    assert_eq!(ProcessExecutor::checked_argv(&spec("/bin/e\0cho", &["a\0"])), Err(0));
    assert_eq!(ProcessExecutor::checked_argv(&spec("/bin/echo", &["a", "b\0", "c\0"])), Err(2));
    match ProcessExecutor::nul_word_failure(0, "nul byte") {
        JarError::Execution(m) => assert_eq!(m, "Invalid path: nul byte"),
        _ => panic!(),
    }
    match ProcessExecutor::nul_word_failure(2, "nul byte") {
        JarError::Execution(m) => assert_eq!(m, "Invalid arg: nul byte"),
        _ => panic!(),
    }
}

#[test]
fn child_exit_status_and_error_line() {
    assert_eq!(ProcessExecutor::child_exit_status(&Ok(())), 0);
    let e = JarError::Execution("Failed to clear effective caps: caps error: x".to_string());
    assert_eq!(ProcessExecutor::child_exit_status(&Err(JarError::Validation("v".to_string()))), 1);
    assert_eq!(
        ProcessExecutor::child_error_line(&e),
        "[jar child error]: Execution error: Failed to clear effective caps: caps error: x"
    );
}

#[test]
fn overlay_mount_request() {
    let o = OverlayManager::new("t", "/lower", Ok("/lower".to_string())).unwrap();
    let req = o.mount_request();
    assert_eq!(req.source, "overlay");
    assert_eq!(req.fstype, "overlay");
    assert_eq!(req.target, "/tmp/jar_overlay/t/merged");
    assert_eq!(
        req.data,
        "lowerdir=/lower,upperdir=/tmp/jar_overlay/t/upper,workdir=/tmp/jar_overlay/t/work"
    );
}

#[test]
fn repeated_options_keep_their_last_value() {
    let o = parsed(&[
        "jar", "run", "--memory", "10", "--rootfs", "/a", "--memory", "20", "--pids", "3",
        "--rootfs", "/b", "--image", "i.tar", "--no-caps-drop", "p", "--no-seccomp",
    ]);
    assert_eq!(o.limits.memory_max_bytes, Some(20));
    assert_eq!(o.limits.pids_max, Some(3));
    assert_eq!(o.rootfs.as_deref(), Some("/b"));
    assert_eq!(o.image.as_deref(), Some("i.tar"));
    assert!(!o.drop_capabilities);
    // `--no-seccomp` after the program is one of its words, not an option.
    assert!(o.enable_seccomp);
    assert_eq!(o.args, words(&["--no-seccomp"]));
}

#[test]
fn command_line_options_reach_the_sandbox() {
    let sandbox = Sandbox::from_command_line(words(&[
        "jar", "run", "--memory", "536870912", "--pids", "100", "/bin/echo", "cgroup-limits-test",
    ]))
    .unwrap();
    let spec = sandbox.process_spec(None);
    assert_eq!(spec.executable, "/bin/echo");
    assert_eq!(spec.args, words(&["cgroup-limits-test"]));
    assert!(spec.enable_seccomp && spec.drop_capabilities);
    let (log, result) = drive(&sandbox, false, false, Ok(0));
    assert!(log.contains(&"[jar] applying cgroups v2 resource limits".to_string()));
    assert!(log.contains(&"cgroup Some(536870912) Some(100)".to_string()));
    assert_eq!(result.unwrap(), 0);
    match Sandbox::from_command_line(words(&["jar", "unknown-command"])) {
        Err(JarError::InvalidArgs(m)) => assert_eq!(m, "Unknown command: unknown-command"),
        _ => panic!("accepted an unknown command"),
    }
}
