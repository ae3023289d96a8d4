//! The sandbox: its configuration, its check, and what its process runs.
use crate::cgroup::ResourceLimits;
use crate::cli::{option_view, parse_args, spec_parse_args, string_views, Command, RunOptions};
use crate::error::JarError;
use crate::overlay::OverlayManager;
use crate::process::ProcessSpec;
use crate::run::{RunStage, SandboxRun};
use vstd::prelude::*;
use vstd::std_specs::convert::FromSpecImpl;

verus! {

/// What a sandbox runs, and under which isolation.
#[derive(Debug)]
pub struct SandboxConfig {
    pub executable: String,
    pub args: Vec<String>,
    pub rootfs: Option<String>,
    pub limits: ResourceLimits,
    pub enable_seccomp: bool,
    pub drop_capabilities: bool,
}

/// The configuration of a `jar run` command line; its image is not part of it.
pub open spec fn config_of(opts: RunOptions) -> SandboxConfig {
    SandboxConfig {
        executable: opts.executable,
        args: opts.args,
        rootfs: opts.rootfs,
        limits: opts.limits,
        enable_seccomp: opts.enable_seccomp,
        drop_capabilities: opts.drop_capabilities,
    }
}

impl From<RunOptions> for SandboxConfig {
    fn from(opts: RunOptions) -> (r: Self) {
        SandboxConfig {
            executable: opts.executable,
            args: opts.args,
            rootfs: opts.rootfs,
            limits: opts.limits,
            enable_seccomp: opts.enable_seccomp,
            drop_capabilities: opts.drop_capabilities,
        }
    }
}

impl FromSpecImpl<RunOptions> for SandboxConfig {
    open spec fn obeys_from_spec() -> bool {
        true
    }

    open spec fn from_spec(v: RunOptions) -> Self {
        config_of(v)
    }
}

/// A cgroup is set up when a memory or a process limit is set; a cpu limit
/// alone does not set one up.
pub open spec fn needs_cgroup(limits: ResourceLimits) -> bool {
    limits.memory_max_bytes is Some || limits.pids_max is Some
}

/// A sandbox, ready to run.
pub struct Sandbox {
    config: SandboxConfig,
}

impl Sandbox {
    /// The sandbox's configuration.
    pub closed spec fn config(&self) -> SandboxConfig {
        self.config
    }

    /// A sandbox with the configuration `config`.
    pub fn new(config: SandboxConfig) -> (r: Self)
        ensures
            r.config() == config,
    {
        Sandbox { config }
    }

    /// The sandbox that the command line `args` asks for (`args[0]` is the
    /// program's own name), with every option it gives; or the error the
    /// command line is refused with.
    pub fn from_command_line(args: Vec<String>) -> (r: Result<Self, JarError>)
        ensures
            match spec_parse_args(string_views(args@)) {
                Ok(o) => r matches Ok(sb) && {
                    &&& sb.config().executable@ == o.executable
                    &&& string_views(sb.config().args@) == o.args
                    &&& option_view(sb.config().rootfs) == o.rootfs
                    &&& sb.config().limits == o.limits
                    &&& sb.config().enable_seccomp == o.enable_seccomp
                    &&& sb.config().drop_capabilities == o.drop_capabilities
                },
                Err(m) => r matches Err(JarError::InvalidArgs(e)) && e@ == m,
            },
    {
        match parse_args(args) {
            Ok(Command::Run(opts)) => Ok(Sandbox::new(SandboxConfig::from(opts))),
            Err(e) => Err(e),
        }
    }

    /// Checks the configuration: the program's path must not be empty.
    pub fn validate(&self) -> (r: Result<(), JarError>)
        ensures
            self.config().executable@.len() > 0 ==> r is Ok,
            self.config().executable@.len() == 0 ==> (r matches Err(JarError::Validation(m)) && m@
                == "Executable path cannot be empty"@),
    {
        if self.config.executable.unicode_len() == 0 {
            return Err(JarError::Validation(String::from_str("Executable path cannot be empty")));
        }
        Ok(())
    }

    /// The name the sandbox's cgroup and overlay directories are made under.
    pub fn id() -> (r: &'static str)
        ensures
            r@ == "sandbox_exec"@,
    {
        "sandbox_exec"
    }

    /// A run of the sandbox, not yet started.
    pub fn run(&self) -> (r: SandboxRun)
        ensures
            r.stage() is Start,
            r.executable() == self.config().executable@,
            r.limits() == self.config().limits,
            r.rootfs() == option_view(self.config().rootfs),
            !r.exited(),
            r.code() == 0,
    {
        SandboxRun::new(
            self.config.executable.clone(),
            self.config.limits,
            self.config.rootfs.clone(),
        )
    }

    /// What the sandboxed process runs, with the overlay laid for it, if any.
    pub fn process_spec(&self, overlay: Option<OverlayManager>) -> (r: ProcessSpec)
        ensures
            r.executable == self.config().executable,
            r.args@ == self.config().args@,
            r.rootfs == self.config().rootfs,
            r.overlay == overlay,
            r.enable_seccomp == self.config().enable_seccomp,
            r.drop_capabilities == self.config().drop_capabilities,
    {
        ProcessSpec {
            executable: self.config.executable.clone(),
            args: self.config.args.clone(),
            rootfs: self.config.rootfs.clone(),
            overlay,
            enable_seccomp: self.config.enable_seccomp,
            drop_capabilities: self.config.drop_capabilities,
        }
    }
}

} // verus!
