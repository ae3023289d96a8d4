//! Unpacking a container image tarball into a root file system cache.
use crate::error::JarError;
use crate::text::{concat_text, ends_with, has_suffix, join_path, path_join};
use vstd::prelude::*;

verus! {

/// Unpacks image tarballs.
pub struct ImageUnpacker;

/// How to unpack an image: where to, and whether the tarball is gzip-compressed.
#[derive(Debug)]
pub struct UnpackPlan {
    pub target_dir: String,
    pub compressed: bool,
}

/// The cache directory of a sandbox's image: `/tmp/jar_images/<sandbox_id>`.
pub open spec fn image_dir(sandbox_id: Seq<char>) -> Seq<char> {
    path_join(path_join("/tmp"@, "jar_images"@), sandbox_id)
}

/// A tarball is read as gzip-compressed when its name ends in `.gz` or `.tgz`.
pub open spec fn is_compressed_name(path: Seq<char>) -> bool {
    has_suffix(path, ".gz"@) || has_suffix(path, ".tgz"@)
}

impl ImageUnpacker {
    /// The cache directory of the sandbox `sandbox_id`'s image.
    pub fn target_dir_for(sandbox_id: &str) -> (r: String)
        ensures
            r@ == image_dir(sandbox_id@),
    {
        let tmp = join_path("/tmp", "jar_images");
        join_path(tmp.as_str(), sandbox_id)
    }

    /// Whether the tarball `image_path` is read as gzip-compressed.
    pub fn is_compressed(image_path: &str) -> (r: bool)
        ensures
            r == is_compressed_name(image_path@),
    {
        ends_with(image_path, ".gz") || ends_with(image_path, ".tgz")
    }

    /// How to unpack the tarball `image_path` for the sandbox `sandbox_id`,
    /// given whether the tarball exists.
    pub fn plan(image_path: &str, sandbox_id: &str, image_exists: bool) -> (r: Result<
        UnpackPlan,
        JarError,
    >)
        ensures
            !image_exists ==> (r matches Err(JarError::Validation(m)) && m@
                == "Image tarball not found: "@ + image_path@),
            image_exists ==> (r matches Ok(p) && p.target_dir@ == image_dir(sandbox_id@)
                && p.compressed == is_compressed_name(image_path@)),
    {
        if !image_exists {
            return Err(JarError::Validation(concat_text("Image tarball not found: ", image_path)));
        }
        Ok(
            UnpackPlan {
                target_dir: Self::target_dir_for(sandbox_id),
                compressed: Self::is_compressed(image_path),
            },
        )
    }

    /// The error of a tarball that could not be opened, with the I/O error's text.
    pub fn open_failure(detail: &str) -> (r: JarError)
        ensures
            r matches JarError::Execution(m) && m@ == "Failed to open image tarball: "@ + detail@,
    {
        JarError::Execution(concat_text("Failed to open image tarball: ", detail))
    }

    /// The error of a tarball that could not be unpacked, with the error's text.
    pub fn unpack_failure(compressed: bool, detail: &str) -> (r: JarError)
        ensures
            compressed ==> (r matches JarError::Execution(m) && m@
                == "Failed to unpack compressed tarball: "@ + detail@),
            !compressed ==> (r matches JarError::Execution(m) && m@
                == "Failed to unpack image tarball: "@ + detail@),
    {
        if compressed {
            JarError::Execution(concat_text("Failed to unpack compressed tarball: ", detail))
        } else {
            JarError::Execution(concat_text("Failed to unpack image tarball: ", detail))
        }
    }
}

} // verus!
