//! What a worker may reach once it is confined: an explicit list of paths and
//! a direction of access, fixed before the first untrusted byte is read.

use vstd::prelude::*;
use crate::text::{chain, trim_end_matches, trimmed};

verus! {

/// The direction of access that a policy grants.
#[derive(Clone, Copy, Debug, PartialEq, Eq, Structural)]
pub enum AccessMode {
    ReadOnly,
    ReadWrite,
}

/// The paths that a confined worker may reach, and how.
#[derive(Debug, PartialEq, Eq)]
pub struct SandboxPolicy {
    pub paths: Vec<String>,
    pub mode: AccessMode,
}

/// The paths of a list, by their characters.
pub open spec fn paths_view(paths: Seq<String>) -> Seq<Seq<char>> {
    Seq::new(paths.len(), |i: int| paths[i]@)
}

impl SandboxPolicy {
    /// The listed paths, in order.
    pub open spec fn allow_list(&self) -> Seq<Seq<char>> {
        paths_view(self.paths@)
    }

    /// Whether `path` is on the list.
    pub open spec fn lists(&self, path: Seq<char>) -> bool {
        self.allow_list().contains(path)
    }

    /// Whether `path` is on the list.
    pub fn allows(&self, path: &String) -> (b: bool)
        ensures
            b == self.lists(path@),
    {
        let mut i: usize = 0;
        while i < self.paths.len()
            invariant
                i <= self.paths.len(),
                forall|j: int| 0 <= j < i ==> self.allow_list()[j] != path@,
            decreases self.paths.len() - i,
        {
            if self.paths[i] == *path {
                assert(self.allow_list()[i as int] == path@);
                return true;
            }
            i = i + 1;
        }
        false
    }
}

/// The path of the bundle that holds only what the analysis let through:
/// the bundle's path without `.tar` at its end, then `_clean.tar`.
pub open spec fn clean_path_of(tarpath: Seq<char>) -> Seq<char> {
    trimmed(tarpath, ".tar"@) + "_clean.tar"@
}

/// The path of the clean bundle that belongs to `tarpath`.
pub fn clean_tar_path(tarpath: &str) -> (p: String)
    ensures
        p@ == clean_path_of(tarpath@),
{
    let stem = trim_end_matches(tarpath, ".tar");
    chain(stem.as_str(), "_clean.tar")
}

/// The paths that the upload worker may read: its bundle, the clean bundle
/// beside it, and the system directories it resolves libraries and
/// credentials from.
pub open spec fn uploader_allow_list(tarpath: Seq<char>) -> Seq<Seq<char>> {
    seq![
        tarpath,
        clean_path_of(tarpath),
        "/etc"@,
        "/lib"@,
        "/usr/lib/"@,
        "/var/lib/usbsas"@,
    ]
}

/// The policy that confines the upload worker for the bundle at `tarpath`:
/// read-only, on the uploader's allow-list.
pub fn uploader_policy(tarpath: &str) -> (p: SandboxPolicy)
    ensures
        p.mode == AccessMode::ReadOnly,
        p.allow_list() == uploader_allow_list(tarpath@),
{
    let mut paths: Vec<String> = Vec::new();
    paths.push(tarpath.to_owned());
    paths.push(clean_tar_path(tarpath));
    paths.push("/etc".to_owned());
    paths.push("/lib".to_owned());
    paths.push("/usr/lib/".to_owned());
    paths.push("/var/lib/usbsas".to_owned());
    let p = SandboxPolicy { paths, mode: AccessMode::ReadOnly };
    assert(p.allow_list() =~= uploader_allow_list(tarpath@));
    p
}

} // verus!
