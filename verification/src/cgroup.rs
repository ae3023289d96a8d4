//! Resource limits, and the cgroup v2 files that enforce them.
use crate::decimal::{decimal, i32_to_decimal, signed_decimal, u64_to_decimal};
use crate::error::{IoFailure, JarError};
use crate::text::{concat_text, join_path, path_join};
use vstd::prelude::*;

verus! {

/// The limits put on a sandboxed process; `None` leaves a resource unlimited.
#[derive(Debug, Clone, Copy, PartialEq, Eq, Structural)]
pub struct ResourceLimits {
    pub memory_max_bytes: Option<u64>,
    pub cpu_max_quota_us: Option<u64>,
    pub cpu_max_period_us: Option<u64>,
    pub pids_max: Option<u64>,
}

/// Limits that leave every resource unlimited.
pub open spec fn unlimited() -> ResourceLimits {
    ResourceLimits {
        memory_max_bytes: None,
        cpu_max_quota_us: None,
        cpu_max_period_us: None,
        pids_max: None,
    }
}

impl Default for ResourceLimits {
    fn default() -> (r: Self)
        ensures
            r == unlimited(),
    {
        ResourceLimits {
            memory_max_bytes: None,
            cpu_max_quota_us: None,
            cpu_max_period_us: None,
            pids_max: None,
        }
    }
}

/// The directory of the sandbox's cgroup: `/sys/fs/cgroup/jar/<sandbox_id>`.
pub open spec fn cgroup_dir(sandbox_id: Seq<char>) -> Seq<char> {
    path_join(path_join("/sys/fs/cgroup"@, "jar"@), sandbox_id)
}

/// How the debug form `{:?}` of a `std::path::Path` writes a path.
pub uninterp spec fn path_debug_text(path: Seq<char>) -> Seq<char>;

/// The debug form of a path.
///
/// Calls `<std::path::Path as Debug>::fmt`; its text is named, not spelled out
/// (a quoted, escaped copy of the path).
#[verifier::external_body]
fn path_debug(path: &str) -> (r: String)
    ensures
        r@ == path_debug_text(path@),
{
    format!("{:?}", std::path::Path::new(path))
}

/// One cgroup interface file to write, and what to write to it.
pub struct CgroupSetting {
    pub file_name: String,
    pub path: String,
    pub content: String,
}

/// A cgroup setting as texts: the interface file's name and its content.
pub struct SettingView {
    pub file_name: Seq<char>,
    pub content: Seq<char>,
}

impl View for CgroupSetting {
    type V = SettingView;

    open spec fn view(&self) -> SettingView {
        SettingView { file_name: self.file_name@, content: self.content@ }
    }
}

/// The `memory.max` setting, when a memory limit is set.
pub open spec fn memory_settings(limits: ResourceLimits) -> Seq<SettingView> {
    match limits.memory_max_bytes {
        Some(m) => seq![SettingView { file_name: "memory.max"@, content: decimal(m as nat) }],
        None => Seq::empty(),
    }
}

/// The `cpu.max` setting, `"<quota> <period>"`, when both are set.
pub open spec fn cpu_settings(limits: ResourceLimits) -> Seq<SettingView> {
    match (limits.cpu_max_quota_us, limits.cpu_max_period_us) {
        (Some(q), Some(p)) => seq![
            SettingView {
                file_name: "cpu.max"@,
                content: decimal(q as nat) + seq![' '] + decimal(p as nat),
            },
        ],
        _ => Seq::empty(),
    }
}

/// The `pids.max` setting, when a process limit is set.
pub open spec fn pids_settings(limits: ResourceLimits) -> Seq<SettingView> {
    match limits.pids_max {
        Some(m) => seq![SettingView { file_name: "pids.max"@, content: decimal(m as nat) }],
        None => Seq::empty(),
    }
}

/// The settings that enforce `limits`, in this order: memory, cpu, pids.
pub open spec fn limit_settings(limits: ResourceLimits) -> Seq<SettingView> {
    memory_settings(limits) + cpu_settings(limits) + pids_settings(limits)
}

/// The message of a setting that the host refused for want of permission.
pub open spec fn setting_skipped_warning(file_name: Seq<char>) -> Seq<char> {
    "[jar warning] cgroup setting '"@ + file_name
        + "' skipped: permission denied in unprivileged container"@
}

/// The cgroup v2 group of one sandbox.
pub struct CgroupManager {
    cgroup_path: String,
    creation_skipped: bool,
}

impl CgroupManager {
    /// The group's directory.
    pub closed spec fn path(&self) -> Seq<char> {
        self.cgroup_path@
    }

    /// The host refused to create the group's directory, for want of
    /// permission, and the group is used without it.
    pub closed spec fn spec_creation_skipped(&self) -> bool {
        self.creation_skipped
    }

    /// The mount point of the cgroup v2 unified hierarchy.
    pub fn hierarchy_root() -> (r: &'static str)
        ensures
            r@ == "/sys/fs/cgroup"@,
    {
        "/sys/fs/cgroup"
    }

    /// The directory of the cgroup of the sandbox `sandbox_id`.
    pub fn cgroup_path_for(sandbox_id: &str) -> (r: String)
        ensures
            r@ == cgroup_dir(sandbox_id@),
    {
        let base = join_path("/sys/fs/cgroup", "jar");
        join_path(base.as_str(), sandbox_id)
    }

    /// The group of the sandbox `sandbox_id`, from what the host said: whether
    /// the cgroup v2 hierarchy is mounted, and how creating the group's
    /// directory went (not tried when it is not mounted).
    pub fn new(
        sandbox_id: &str,
        hierarchy_mounted: bool,
        created: Result<(), IoFailure>,
    ) -> (r: Result<Self, JarError>)
        ensures
            !hierarchy_mounted ==> (r matches Err(JarError::Validation(m))
                && m@ == "Cgroups v2 unified hierarchy (/sys/fs/cgroup) is not mounted on host"@),
            hierarchy_mounted && created is Ok ==> (r matches Ok(cg) && cg.path() == cgroup_dir(
                sandbox_id@,
            ) && !cg.spec_creation_skipped()),
            created matches Err(f) ==> (hierarchy_mounted && f.permission_denied ==> (r matches Ok(
                cg,
            ) && cg.path() == cgroup_dir(sandbox_id@) && cg.spec_creation_skipped())),
            created matches Err(f) ==> (hierarchy_mounted && !f.permission_denied ==> (r matches Err(
                JarError::Execution(m),
            ) && m@ == "Failed to create cgroup dir: "@ + f.message@)),
    {
        let cgroup_path = Self::cgroup_path_for(sandbox_id);
        if !hierarchy_mounted {
            return Err(
                JarError::Validation(
                    String::from_str(
                        "Cgroups v2 unified hierarchy (/sys/fs/cgroup) is not mounted on host",
                    ),
                ),
            );
        }
        match created {
            Ok(()) => Ok(CgroupManager { cgroup_path, creation_skipped: false }),
            Err(f) => {
                if f.permission_denied {
                    Ok(CgroupManager { cgroup_path, creation_skipped: true })
                } else {
                    Err(
                        JarError::Execution(
                            concat_text("Failed to create cgroup dir: ", f.message.as_str()),
                        ),
                    )
                }
            },
        }
    }

    /// The group's directory.
    pub fn cgroup_path(&self) -> (r: &str)
        ensures
            r@ == self.path(),
    {
        self.cgroup_path.as_str()
    }

    /// Whether the group's directory could not be created for want of permission.
    pub fn creation_skipped(&self) -> (r: bool)
        ensures
            r == self.spec_creation_skipped(),
    {
        self.creation_skipped
    }

    /// The warning given when the group's directory could not be created.
    pub fn creation_warning(&self) -> (r: Option<String>)
        ensures
            self.spec_creation_skipped() ==> (r matches Some(w) && w@
                == "[jar warning] cgroup creation skipped due to unprivileged permissions"@),
            !self.spec_creation_skipped() ==> r is None,
    {
        if self.creation_skipped {
            Some(String::from_str("[jar warning] cgroup creation skipped due to unprivileged permissions"))
        } else {
            None
        }
    }

    /// The path of the group's interface file `file_name`.
    pub fn file_path(&self, file_name: &str) -> (r: String)
        ensures
            r@ == path_join(self.path(), file_name@),
    {
        join_path(self.cgroup_path.as_str(), file_name)
    }

    fn setting(&self, file_name: &str, content: String) -> (r: CgroupSetting)
        ensures
            r.file_name@ == file_name@,
            r.path@ == path_join(self.path(), file_name@),
            r.content == content,
    {
        CgroupSetting {
            file_name: String::from_str(file_name),
            path: self.file_path(file_name),
            content,
        }
    }

    /// The interface files to write, and what to write to them, so that the
    /// group enforces `limits`.
    pub fn apply_limits(&self, limits: &ResourceLimits) -> (r: Vec<CgroupSetting>)
        ensures
            r@.map_values(|s: CgroupSetting| s@) == limit_settings(*limits),
            forall|i: int|
                0 <= i < r@.len() ==> (#[trigger] r@[i]).path@ == path_join(
                    self.path(),
                    r@[i].file_name@,
                ),
    {
        let mut settings: Vec<CgroupSetting> = Vec::new();
        if let Some(mem_max) = limits.memory_max_bytes {
            settings.push(self.setting("memory.max", u64_to_decimal(mem_max)));
        }
        assert(settings@.map_values(|s: CgroupSetting| s@) =~= memory_settings(*limits));
        let ghost after_memory = settings@;
        if let (Some(quota), Some(period)) = (limits.cpu_max_quota_us, limits.cpu_max_period_us) {
            proof {
                reveal_strlit(" ");
            }
            let mut content = u64_to_decimal(quota);
            content.append(" ");
            let p = u64_to_decimal(period);
            content.append(p.as_str());
            assert(content@ =~= decimal(quota as nat) + seq![' '] + decimal(period as nat));
            settings.push(self.setting("cpu.max", content));
            assert(settings@ == after_memory.push(settings@.last()));
        }
        assert(settings@.map_values(|s: CgroupSetting| s@) =~= memory_settings(*limits)
            + cpu_settings(*limits));
        let ghost after_cpu = settings@;
        if let Some(pids_max) = limits.pids_max {
            settings.push(self.setting("pids.max", u64_to_decimal(pids_max)));
            assert(settings@ == after_cpu.push(settings@.last()));
        }
        assert(settings@.map_values(|s: CgroupSetting| s@) =~= limit_settings(*limits));
        settings
    }

    /// The interface file to write, and what to write to it, so that the
    /// process `pid` joins the group.
    pub fn attach_process(&self, pid: i32) -> (r: CgroupSetting)
        ensures
            r.file_name@ == "cgroup.procs"@,
            r.path@ == path_join(self.path(), "cgroup.procs"@),
            r.content@ == signed_decimal(pid as int),
    {
        self.setting("cgroup.procs", i32_to_decimal(pid))
    }

    /// What follows from writing the interface file `file_name`: nothing when it
    /// was opened; a warning when the host refused it for want of permission;
    /// an error otherwise. (What is written once the file is open is not checked.)
    pub fn write_outcome(&self, file_name: &str, opened: Result<(), IoFailure>) -> (r: Result<
        Option<String>,
        JarError,
    >)
        ensures
            opened is Ok ==> r == Ok::<Option<String>, JarError>(None),
            opened matches Err(f) ==> (f.permission_denied ==> (r matches Ok(Some(w)) && w@
                == setting_skipped_warning(file_name@))),
            opened matches Err(f) ==> (!f.permission_denied ==> (r matches Err(
                JarError::Execution(m),
            ) && m@ == "Failed to open cgroup file "@ + path_debug_text(
                path_join(self.path(), file_name@),
            ) + ": "@ + f.message@)),
    {
        match opened {
            Ok(()) => Ok(None),
            Err(f) => {
                if f.permission_denied {
                    let mut w = concat_text("[jar warning] cgroup setting '", file_name);
                    w.append("' skipped: permission denied in unprivileged container");
                    Ok(Some(w))
                } else {
                    let path = self.file_path(file_name);
                    let mut m = concat_text("Failed to open cgroup file ", path_debug(path.as_str()).as_str());
                    m.append(": ");
                    m.append(f.message.as_str());
                    Err(JarError::Execution(m))
                }
            },
        }
    }
}

/// The settings hold a setting of the file `file_name` with `content`.
pub open spec fn has_setting(settings: Seq<SettingView>, file_name: Seq<char>, content: Seq<char>) -> bool {
    exists|i: int|
        0 <= i < settings.len() && #[trigger] settings[i] == (SettingView { file_name, content })
}

/// No setting of the file `file_name` is among the settings.
pub open spec fn lacks_setting(settings: Seq<SettingView>, file_name: Seq<char>) -> bool {
    forall|i: int| 0 <= i < settings.len() ==> (#[trigger] settings[i]).file_name != file_name
}

proof fn lemma_limit_file_names_differ()
    ensures
        "memory.max"@ != "cpu.max"@,
        "memory.max"@ != "pids.max"@,
        "cpu.max"@ != "pids.max"@,
{
    reveal_strlit("memory.max");
    reveal_strlit("cpu.max");
    reveal_strlit("pids.max");
    assert("memory.max"@.len() != "cpu.max"@.len());
    assert("memory.max"@[0] != "pids.max"@[0]);
    assert("cpu.max"@[0] != "pids.max"@[0]);
}

/// Each limit is enforced by its own file, whatever the other limits are: a
/// memory limit `m` by `memory.max` holding `m`, a process limit `p` by
/// `pids.max` holding `p`, a cpu quota `q` over a period `t` by `cpu.max`
/// holding `"q t"`; a limit left unset writes no file of its own.
pub proof fn lemma_each_limit_has_its_file(limits: ResourceLimits)
    ensures
        limits.memory_max_bytes matches Some(m) ==> has_setting(
            limit_settings(limits),
            "memory.max"@,
            decimal(m as nat),
        ),
        limits.memory_max_bytes is None ==> lacks_setting(limit_settings(limits), "memory.max"@),
        limits.pids_max matches Some(p) ==> has_setting(
            limit_settings(limits),
            "pids.max"@,
            decimal(p as nat),
        ),
        limits.pids_max is None ==> lacks_setting(limit_settings(limits), "pids.max"@),
        limits.cpu_max_quota_us matches Some(q) ==> (limits.cpu_max_period_us matches Some(t)
            ==> has_setting(
            limit_settings(limits),
            "cpu.max"@,
            decimal(q as nat) + seq![' '] + decimal(t as nat),
        )),
        (limits.cpu_max_quota_us is None || limits.cpu_max_period_us is None) ==> lacks_setting(
            limit_settings(limits),
            "cpu.max"@,
        ),
{
    lemma_limit_file_names_differ();
    let ms = memory_settings(limits);
    let cs = cpu_settings(limits);
    let ps = pids_settings(limits);
    let all = limit_settings(limits);
    assert(all == ms + cs + ps);
    if let Some(m) = limits.memory_max_bytes {
        assert(all[0] == ms[0]);
    }
    if let (Some(q), Some(t)) = (limits.cpu_max_quota_us, limits.cpu_max_period_us) {
        assert(all[ms.len() as int] == cs[0]);
    }
    if let Some(p) = limits.pids_max {
        assert(all[all.len() - 1] == ps[0]);
    }
    assert forall|i: int| 0 <= i < all.len() implies (#[trigger] all[i]).file_name == "memory.max"@
        || all[i].file_name == "cpu.max"@ || all[i].file_name == "pids.max"@ by {
        if i < ms.len() {
            assert(all[i] == ms[i]);
        } else if i < ms.len() + cs.len() {
            assert(all[i] == cs[i - ms.len()]);
        } else {
            assert(all[i] == ps[i - ms.len() - cs.len()]);
        }
    }
    assert forall|i: int| 0 <= i < all.len() && (#[trigger] all[i]).file_name == "memory.max"@ implies limits.memory_max_bytes is Some by {
        if i >= ms.len() && i < ms.len() + cs.len() {
            assert(all[i] == cs[i - ms.len()]);
        } else if i >= ms.len() + cs.len() {
            assert(all[i] == ps[i - ms.len() - cs.len()]);
        }
    }
    assert forall|i: int| 0 <= i < all.len() && (#[trigger] all[i]).file_name == "pids.max"@ implies limits.pids_max is Some by {
        if i < ms.len() {
            assert(all[i] == ms[i]);
        } else if i < ms.len() + cs.len() {
            assert(all[i] == cs[i - ms.len()]);
        } else {
            assert(all[i] == ps[i - ms.len() - cs.len()]);
        }
    }
    assert forall|i: int| 0 <= i < all.len() && (#[trigger] all[i]).file_name == "cpu.max"@ implies (limits.cpu_max_quota_us is Some && limits.cpu_max_period_us is Some) by {
        if i < ms.len() {
            assert(all[i] == ms[i]);
        } else if i < ms.len() + cs.len() {
            assert(all[i] == cs[i - ms.len()]);
        } else {
            assert(all[i] == ps[i - ms.len() - cs.len()]);
        }
    }
}

} // verus!
