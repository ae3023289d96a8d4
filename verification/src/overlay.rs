//! The OverlayFS copy-on-write layer over a root filesystem.
use crate::error::{errno_code, errno_display_text, errno_text, IoFailure, JarError};
use crate::text::{concat_text, join_path, path_join};
use vstd::prelude::*;

verus! {

/// The directory that holds a sandbox's overlay: `/tmp/jar_overlay/<sandbox_id>`.
pub open spec fn overlay_base(sandbox_id: Seq<char>) -> Seq<char> {
    path_join(path_join("/tmp"@, "jar_overlay"@), sandbox_id)
}

/// The mount options of an overlay with these directories.
pub open spec fn overlay_options(lower: Seq<char>, upper: Seq<char>, work: Seq<char>) -> Seq<
    char,
> {
    "lowerdir="@ + lower + ",upperdir="@ + upper + ",workdir="@ + work
}

/// The warning given when the overlay could not be mounted, with the error's text.
pub open spec fn mount_skipped_warning(detail: Seq<char>) -> Seq<char> {
    "[jar warning] OverlayFS mount skipped ("@ + detail + "); proceeding with base filesystem"@
}

/// A mount to make, with no mount flags: the file system of type `fstype`
/// from `source`, on `target`, with the options `data`.
#[derive(Debug)]
pub struct MountRequest {
    pub source: String,
    pub target: String,
    pub fstype: String,
    pub data: String,
}

/// Makes the mount `req`.
///
/// Calls `nix::mount::mount(Some(source), target, Some(fstype),
/// MsFlags::empty(), Some(data))` with the fields of `req`. Nothing is stated
/// of the result: it is the kernel's answer.
#[verifier::external_body]
fn mount_filesystem(req: &MountRequest) -> (r: Result<(), nix::errno::Errno>) {
    nix::mount::mount(
        Some(req.source.as_str()),
        req.target.as_str(),
        Some(req.fstype.as_str()),
        nix::mount::MsFlags::empty(),
        Some(req.data.as_str()),
    )
}

/// How mounting the overlay went.
#[derive(Debug)]
pub enum OverlayMount {
    Mounted,
    /// Not mounted; the warning to show, after which the sandbox goes on
    /// with the base file system.
    Skipped(String),
}

/// The directories of one sandbox's overlay.
#[derive(Debug, Clone)]
pub struct OverlayManager {
    pub lower_dir: String,
    pub upper_dir: String,
    pub work_dir: String,
    pub merged_dir: String,
    pub base_tmp_path: String,
}

impl OverlayManager {
    /// The overlay of the sandbox `sandbox_id` over `lower_path`, from what the
    /// host said of `lower_path`: its canonical form, or why it has none. The
    /// upper, work and merged directories are still to be created.
    pub fn new(sandbox_id: &str, lower_path: &str, canonical: Result<String, IoFailure>) -> (r:
        Result<Self, JarError>)
        ensures
            canonical matches Err(f) ==> (r matches Err(JarError::Validation(m)) && m@
                == "Invalid lowerdir path "@ + lower_path@ + ": "@ + f.message@),
            canonical matches Ok(c) ==> (r matches Ok(o) && o.lower_dir@ == c@
                && o.base_tmp_path@ == overlay_base(sandbox_id@) && o.upper_dir@ == path_join(
                overlay_base(sandbox_id@),
                "upper"@,
            ) && o.work_dir@ == path_join(overlay_base(sandbox_id@), "work"@) && o.merged_dir@
                == path_join(overlay_base(sandbox_id@), "merged"@)),
    {
        match canonical {
            Err(f) => {
                let mut m = concat_text("Invalid lowerdir path ", lower_path);
                m.append(": ");
                m.append(f.message.as_str());
                Err(JarError::Validation(m))
            },
            Ok(lower_dir) => {
                let tmp = join_path("/tmp", "jar_overlay");
                let base_tmp_path = join_path(tmp.as_str(), sandbox_id);
                let upper_dir = join_path(base_tmp_path.as_str(), "upper");
                let work_dir = join_path(base_tmp_path.as_str(), "work");
                let merged_dir = join_path(base_tmp_path.as_str(), "merged");
                Ok(OverlayManager { lower_dir, upper_dir, work_dir, merged_dir, base_tmp_path })
            },
        }
    }

    /// The options the overlay is mounted with.
    pub fn mount_options(&self) -> (r: String)
        ensures
            r@ == overlay_options(self.lower_dir@, self.upper_dir@, self.work_dir@),
    {
        let mut o = concat_text("lowerdir=", self.lower_dir.as_str());
        o.append(",upperdir=");
        o.append(self.upper_dir.as_str());
        o.append(",workdir=");
        o.append(self.work_dir.as_str());
        o
    }

    /// The warning given when the overlay could not be mounted.
    pub fn skipped_warning(detail: &str) -> (r: String)
        ensures
            r@ == mount_skipped_warning(detail@),
    {
        let mut w = concat_text("[jar warning] OverlayFS mount skipped (", detail);
        w.append("); proceeding with base filesystem");
        w
    }

    /// What a mount that went as `mounted` says: mounted, or skipped with a
    /// warning that carries the error's text.
    pub fn mount_outcome(mounted: Result<(), String>) -> (r: OverlayMount)
        ensures
            mounted is Ok ==> r is Mounted,
            mounted matches Err(d) ==> (r matches OverlayMount::Skipped(w) && w@
                == mount_skipped_warning(d@)),
    {
        match mounted {
            Ok(()) => OverlayMount::Mounted,
            Err(d) => OverlayMount::Skipped(Self::skipped_warning(d.as_str())),
        }
    }

    /// The mount that lays the overlay: an `overlay` file system on the
    /// merged directory, with `mount_options`.
    pub fn mount_request(&self) -> (r: MountRequest)
        ensures
            r.source@ == "overlay"@,
            r.target@ == self.merged_dir@,
            r.fstype@ == "overlay"@,
            r.data@ == overlay_options(self.lower_dir@, self.upper_dir@, self.work_dir@),
    {
        MountRequest {
            source: String::from_str("overlay"),
            target: self.merged_dir.clone(),
            fstype: String::from_str("overlay"),
            data: self.mount_options(),
        }
    }

    /// Makes the mount `req`, which must be this overlay's: an `overlay` file
    /// system on the merged directory, whose lower layer is the root file
    /// system and whose upper and work layers are the sandbox's own.
    fn mount_layers(&self, req: &MountRequest) -> (r: Result<(), nix::errno::Errno>)
        requires
            req.source@ == "overlay"@,
            req.target@ == self.merged_dir@,
            req.fstype@ == "overlay"@,
            req.data@ == overlay_options(self.lower_dir@, self.upper_dir@, self.work_dir@),
    {
        mount_filesystem(req)
    }

    /// Mounts the overlay: makes the mount `mount_request` gives. A
    /// failed mount is no error: the sandbox goes on with the base file
    /// system, after a warning. Whether the mount succeeds is the kernel's
    /// answer; `mount_outcome` says what each answer gives.
    pub fn mount_overlay(&self) -> (r: OverlayMount)
        ensures
            r is Mounted || (r matches OverlayMount::Skipped(w) && exists|c: i32|
                w@ == mount_skipped_warning(#[trigger] errno_display_text(c))),
    {
        let req = self.mount_request();
        let mounted = match self.mount_layers(&req) {
            Ok(()) => Ok(()),
            Err(e) => Err(errno_text(errno_code(&e))),
        };
        Self::mount_outcome(mounted)
    }
}

} // verus!
