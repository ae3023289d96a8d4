use jar::cgroup::ResourceLimits;
use jar::cli::{parse_args, Command, RunOptions};
use jar::error::{IoFailure, JarError};
use jar::overlay::OverlayManager;
use jar::process::{ChildStatus, ChildStep, ProcessExecutor};
use jar::run::{RunAction, RunEvent};
use jar::sandbox::{Sandbox, SandboxConfig};
use jar::cgroup::CgroupManager;

/// Drives a run of `sandbox` against a simulated host: every set-up succeeds
/// unless told otherwise, and the program ends with `outcome`. Gives the log
/// of actions and the run's result.
fn drive(
    sandbox: &Sandbox,
    cgroup_fails: bool,
    overlay_fails: bool,
    outcome: Result<i32, &str>,
) -> (Vec<String>, Result<i32, JarError>) {
    let mut run = sandbox.run();
    let mut log = Vec::new();
    let mut event = RunEvent::Done;
    loop {
        event = match run.step(event) {
            RunAction::Announce(line) => {
                log.push(line);
                RunEvent::Done
            }
            RunAction::SetUpCgroup(limits) => {
                log.push(format!("cgroup {:?} {:?}", limits.memory_max_bytes, limits.pids_max));
                if cgroup_fails {
                    RunEvent::Failed(JarError::Execution("no cgroup".to_string()))
                } else {
                    RunEvent::Done
                }
            }
            RunAction::SetUpOverlay(lower) => {
                log.push(format!("overlay {}", lower));
                if overlay_fails {
                    RunEvent::Failed(JarError::Validation("no overlay".to_string()))
                } else {
                    RunEvent::Done
                }
            }
            RunAction::Execute => {
                log.push("execute".to_string());
                match outcome {
                    Ok(code) => RunEvent::Exited(code),
                    Err(m) => RunEvent::Failed(JarError::Execution(m.to_string())),
                }
            }
            RunAction::CleanUpOverlay => {
                log.push("cleanup".to_string());
                RunEvent::Done
            }
            RunAction::RemoveCgroup => {
                log.push("remove cgroup".to_string());
                RunEvent::Done
            }
            RunAction::Finish(result) => {
                assert!(run.is_finished());
                return (log, result);
            }
        };
    }
}

fn words(ws: &[&str]) -> Vec<String> {
    ws.iter().map(|s| s.to_string()).collect()
}

fn run_options(ws: &[&str]) -> RunOptions {
    match parse_args(words(ws)) {
        Ok(Command::Run(opts)) => opts,
        Err(e) => panic!("refused: {}", e.message()),
    }
}

#[test]
fn test_run_valid_command() {
    let opts = run_options(&["jar", "run", "/bin/echo", "hello-jar"]);
    assert_eq!(opts.executable, "/bin/echo");
    assert_eq!(opts.args, vec!["hello-jar".to_string()]);
    let sandbox = Sandbox::new(SandboxConfig::from(opts));
    let (log, result) = drive(&sandbox, false, false, Ok(0));
    assert_eq!(
        log,
        words(&[
            "[jar] preparing execution",
            "[jar] executable: /bin/echo",
            "[jar] process started in isolated user/mount/PID namespaces",
            "execute",
            "[jar] process exited: 0",
        ])
    );
    assert_eq!(result.unwrap(), 0);
    let spec = sandbox.process_spec(None);
    assert_eq!(ProcessExecutor::argv(&spec), words(&["/bin/echo", "hello-jar"]));
    assert_eq!(ProcessExecutor::exit_code(ChildStatus::Exited(0)), 0);
}

#[test]
fn test_run_with_memory_and_pids_flags() {
    let opts = run_options(&[
        "jar",
        "run",
        "--memory",
        "536870912",
        "--pids",
        "100",
        "/bin/echo",
        "cgroup-limits-test",
    ]);
    assert_eq!(
        opts.limits,
        ResourceLimits {
            memory_max_bytes: Some(536870912),
            cpu_max_quota_us: None,
            cpu_max_period_us: None,
            pids_max: Some(100),
        }
    );
    assert_eq!(opts.args, words(&["cgroup-limits-test"]));
    let sandbox = Sandbox::new(SandboxConfig::from(opts));
    let (log, result) = drive(&sandbox, false, false, Ok(0));
    assert!(log.contains(&"[jar] applying cgroups v2 resource limits".to_string()));
    assert!(log.contains(&"cgroup Some(536870912) Some(100)".to_string()));
    assert_eq!(
        &log[log.len() - 2..],
        &words(&["[jar] process exited: 0", "remove cgroup"])[..]
    );
    assert_eq!(result.unwrap(), 0);
    let limits = ResourceLimits {
        memory_max_bytes: Some(536870912),
        pids_max: Some(100),
        ..ResourceLimits::default()
    };
    let cg = CgroupManager::new("sandbox_exec", true, Ok(())).expect("cgroup");
    let settings = cg.apply_limits(&limits);
    assert_eq!(settings.len(), 2);
    assert_eq!(settings[0].file_name, "memory.max");
    assert_eq!(settings[0].path, "/sys/fs/cgroup/jar/sandbox_exec/memory.max");
    assert_eq!(settings[0].content, "536870912");
    assert_eq!(settings[1].file_name, "pids.max");
    assert_eq!(settings[1].content, "100");
}

#[test]
fn test_overlayfs_copy_on_write_rootfs() {
    let opts = run_options(&[
        "jar",
        "run",
        "--rootfs",
        "/tmp/jar_test_rootfs",
        "/bin/echo",
        "overlay-cow-test",
    ]);
    assert_eq!(opts.rootfs.as_deref(), Some("/tmp/jar_test_rootfs"));
    let sandbox = Sandbox::new(SandboxConfig::from(opts));
    let (log, result) = drive(&sandbox, false, false, Ok(0));
    assert_eq!(
        log,
        words(&[
            "[jar] preparing execution",
            "[jar] executable: /bin/echo",
            "[jar] setting up OverlayFS copy-on-write filesystem layer",
            "overlay /tmp/jar_test_rootfs",
            "[jar] process started in isolated user/mount/PID namespaces",
            "execute",
            "cleanup",
            "[jar] process exited: 0",
        ])
    );
    assert_eq!(result.unwrap(), 0);
    let overlay = OverlayManager::new(
        "sandbox_exec",
        "/tmp/jar_test_rootfs",
        Ok("/tmp/jar_test_rootfs".to_string()),
    )
    .expect("overlay");
    assert_eq!(overlay.base_tmp_path, "/tmp/jar_overlay/sandbox_exec");
    assert_eq!(overlay.upper_dir, "/tmp/jar_overlay/sandbox_exec/upper");
    assert_eq!(overlay.work_dir, "/tmp/jar_overlay/sandbox_exec/work");
    assert_eq!(overlay.merged_dir, "/tmp/jar_overlay/sandbox_exec/merged");
    assert_eq!(
        overlay.mount_options(),
        "lowerdir=/tmp/jar_test_rootfs,upperdir=/tmp/jar_overlay/sandbox_exec/upper,workdir=/tmp/jar_overlay/sandbox_exec/work"
    );
    let spec = sandbox.process_spec(Some(overlay));
    assert_eq!(
        ProcessExecutor::child_steps(&spec),
        vec![
            ChildStep::MountOverlay,
            ChildStep::DropCapabilities,
            ChildStep::ApplySeccomp,
            ChildStep::Exec
        ]
    );
}

#[test]
fn test_user_namespace_id_mapping() {
    let maps = ProcessExecutor::user_mappings(4242, 1000, 1001);
    assert_eq!(maps.setgroups.path, "/proc/4242/setgroups");
    assert_eq!(maps.setgroups.content, "deny");
    assert_eq!(maps.uid_map.path, "/proc/4242/uid_map");
    assert_eq!(maps.uid_map.content, "0 1000 1\n");
    assert_eq!(maps.gid_map.path, "/proc/4242/gid_map");
    assert_eq!(maps.gid_map.content, "0 1001 1\n");
}

#[test]
fn test_run_missing_executable() {
    // The child exits with 1 when the program cannot be run.
    let code = ProcessExecutor::exit_code(ChildStatus::Exited(1));
    assert_ne!(code, 0);
    let opts = run_options(&["jar", "run", "/bin/does-not-exist-jar-test"]);
    assert_eq!(opts.executable, "/bin/does-not-exist-jar-test");
    assert!(opts.args.is_empty());
}

#[test]
fn test_invalid_cli_args() {
    match parse_args(words(&["jar", "unknown-command"])) {
        Err(e) => {
            assert!(matches!(e, JarError::InvalidArgs(_)));
            assert!(e.message().contains("Argument error: Unknown command"));
            assert_eq!(e.message(), "Argument error: Unknown command: unknown-command");
        }
        Ok(_) => panic!("accepted an unknown command"),
    }
}

#[test]
fn test_nonzero_exit_propagation() {
    let opts = run_options(&["jar", "run", "/bin/sh", "-c", "exit 42"]);
    assert_eq!(opts.executable, "/bin/sh");
    assert_eq!(opts.args, words(&["-c", "exit 42"]));
    assert_eq!(ProcessExecutor::exit_code(ChildStatus::Exited(42)), 42);
}

#[test]
fn exit_code_of_signal_and_other() {
    assert_eq!(ProcessExecutor::exit_code(ChildStatus::Signaled(9)), 137);
    assert_eq!(ProcessExecutor::exit_code(ChildStatus::Signaled(15)), 143);
    assert_eq!(ProcessExecutor::exit_code(ChildStatus::Other), 1);
    assert_eq!(ProcessExecutor::exit_code(ChildStatus::Exited(255)), 255);
}

#[test]
fn io_failure_turns_into_overlay_error() {
    let r = OverlayManager::new(
        "sandbox_exec",
        "/nope",
        Err(IoFailure { permission_denied: false, message: "No such file or directory (os error 2)".to_string() }),
    );
    match r {
        Err(JarError::Validation(m)) => {
            assert_eq!(m, "Invalid lowerdir path /nope: No such file or directory (os error 2)")
        }
        other => panic!("unexpected: {:?}", other),
    }
}
