//! Where bundles are stored, how a stored bundle is found again, and what is
//! reported of it: its size before compression and how its bytes are encoded.

use vstd::prelude::*;
use crate::text::{chain, ends_with, ends_with_seq, join, slash};

verus! {

/// A lower-case hexadecimal digit.
pub open spec fn is_lower_hex(c: char) -> bool {
    ('0' <= c && c <= '9') || ('a' <= c && c <= 'f')
}

/// The simple form of a random identifier: 32 lower-case hexadecimal digits,
/// of which the thirteenth is the version, 4, and the seventeenth holds the
/// variant.
pub open spec fn is_job_id(s: Seq<char>) -> bool {
    &&& s.len() == 32
    &&& forall|i: int| 0 <= i < 32 ==> is_lower_hex(#[trigger] s[i])
    &&& s[12] == '4'
    &&& (s[16] == '8' || s[16] == '9' || s[16] == 'a' || s[16] == 'b')
}

/// Draws a random identifier with `uuid::Uuid::new_v4` and writes it with
/// `Uuid::simple`. The contract claims the form of the text and nothing of
/// its value: the thirty-two digits come from the operating system's random
/// source, apart from the version and the variant, which `new_v4` sets. The
/// call aborts where that source cannot be read.
#[verifier::external_body]
fn random_id() -> (id: String)
    ensures
        is_job_id(id@),
{
    uuid::Uuid::new_v4().simple().to_string()
}

/// The path under which the bundle of job `id` is stored in `working_dir`.
pub open spec fn upload_path_of(working_dir: Seq<char>, id: Seq<char>) -> Seq<char> {
    working_dir + slash() + (id + ".tar"@)
}

/// The path under which the bundle of job `id` is stored in `working_dir`.
pub fn upload_path(working_dir: &str, id: &str) -> (p: String)
    ensures
        p@ == upload_path_of(working_dir@, id@),
{
    let file = chain(id, ".tar");
    join(working_dir, file.as_str())
}

/// A bundle that is about to be received: the id of its job and the path to
/// store it under.
#[derive(Debug, PartialEq, Eq)]
pub struct Upload {
    pub id: String,
    pub path: String,
}

/// Makes room for a bundle in `working_dir`: a fresh job id, and the path
/// that belongs to it.
pub fn new_upload(working_dir: &str) -> (u: Upload)
    ensures
        is_job_id(u.id@),
        u.path@ == upload_path_of(working_dir@, u.id@),
{
    let id = random_id();
    let path = upload_path(working_dir, id.as_str());
    Upload { id, path }
}

/// The name under which a bundle is looked for, without its extension.
pub open spec fn download_base_of(working_dir: Seq<char>, id: Seq<char>, bundle_id: Seq<char>) -> Seq<
    char,
> {
    working_dir + slash() + id + slash() + bundle_id
}

/// The name under which a bundle is looked for, without its extension.
pub fn download_base(working_dir: &str, id: &str, bundle_id: &str) -> (p: String)
    ensures
        p@ == download_base_of(working_dir@, id@, bundle_id@),
{
    let dir = join(working_dir, id);
    join(dir.as_str(), bundle_id)
}

/// The extensions under which a bundle may be stored, in the order in which
/// they are tried.
pub open spec fn extensions() -> Seq<Seq<char>> {
    seq!["tar"@, "tar.gz"@, "gz"@]
}

/// The `i`-th name under which the bundle `filename` may be stored.
pub open spec fn candidate_of(filename: Seq<char>, i: int) -> Seq<char> {
    filename + seq!['.'] + extensions()[i]
}

/// The names under which the bundle `filename` may be stored, in the order in
/// which they are tried.
pub fn candidates(filename: &str) -> (names: Vec<String>)
    ensures
        names@.len() == 3,
        forall|i: int| 0 <= i < 3 ==> (#[trigger] names@[i])@ == candidate_of(filename@, i),
{
    proof {
        reveal_strlit(".");
        assert("."@ =~= seq!['.']);
    }
    let stem = chain(filename, ".");
    let mut names: Vec<String> = Vec::new();
    names.push(chain(stem.as_str(), "tar"));
    names.push(chain(stem.as_str(), "tar.gz"));
    names.push(chain(stem.as_str(), "gz"));
    names
}

/// Why no artifact is served.
#[derive(Clone, Copy, Debug, PartialEq, Eq, Structural)]
pub enum ArtifactError {
    /// The bundle is stored under none of its names.
    NotFound,
}

impl ArtifactError {
    /// The text that the error is reported with.
    pub open spec fn text(self) -> Seq<char> {
        "Bundle not found"@
    }

    /// The text that the error is reported with.
    pub fn message(&self) -> (s: &'static str)
        ensures
            s@ == self.text(),
    {
        "Bundle not found"
    }
}

/// A stored bundle: its path and the size of the file.
#[derive(Debug, PartialEq, Eq)]
pub struct Stored {
    pub path: String,
    pub size: u64,
}

/// Whether the `i`-th name was found, going by what the lookups gave.
pub open spec fn found_at(sizes: Seq<Option<u64>>, i: int) -> bool {
    0 <= i < 3 && i < sizes.len() && sizes[i] is Some
}

/// The first name that was found.
pub open spec fn first_found(sizes: Seq<Option<u64>>) -> int {
    if found_at(sizes, 0) {
        0
    } else if found_at(sizes, 1) {
        1
    } else {
        2
    }
}

/// Picks the stored bundle out of what looking up its three names gave:
/// `sizes[i]` is the size of the file under the `i`-th name, or `None` where
/// there is no such file. The first name found wins; where none is found the
/// bundle is not found.
pub fn find_bundle(filename: &str, sizes: &Vec<Option<u64>>) -> (r: Result<Stored, ArtifactError>)
    ensures
        match r {
            Ok(stored) => {
                &&& found_at(sizes@, first_found(sizes@))
                &&& stored.path@ == candidate_of(filename@, first_found(sizes@))
                &&& Some(stored.size) == sizes@[first_found(sizes@)]
            },
            Err(e) => e == ArtifactError::NotFound && forall|i: int| !found_at(sizes@, i),
        },
{
    let names = candidates(filename);
    let mut i: usize = 0;
    while i < 3 && i < sizes.len()
        invariant
            i <= 3,
            names@.len() == 3,
            forall|j: int| 0 <= j < 3 ==> (#[trigger] names@[j])@ == candidate_of(filename@, j),
            forall|j: int| 0 <= j < i ==> !found_at(sizes@, j),
        decreases 3 - i,
    {
        match sizes[i] {
            Some(size) => {
                assert(found_at(sizes@, i as int));
                return Ok(Stored { path: names[i].clone(), size });
            },
            None => {},
        }
        i = i + 1;
    }
    Err(ArtifactError::NotFound)
}

/// A bundle whose path ends in `gz` is stored compressed.
pub open spec fn compressed(path: Seq<char>) -> bool {
    ends_with_seq(path, "gz"@)
}

/// Whether the bundle at `path` is stored compressed.
pub fn is_compressed(path: &str) -> (b: bool)
    ensures
        b == compressed(path@),
{
    ends_with(path, "gz")
}

/// How the bytes of a served bundle are encoded.
#[derive(Clone, Copy, Debug, PartialEq, Eq, Structural)]
pub enum Encoding {
    Identity,
    Gzip,
}

/// The encoding that the bundle at `path` is served with: gzip where it is
/// stored compressed, none otherwise.
pub fn content_encoding(path: &str) -> (e: Encoding)
    ensures
        e == if compressed(path@) {
            Encoding::Gzip
        } else {
            Encoding::Identity
        },
{
    if is_compressed(path) {
        Encoding::Gzip
    } else {
        Encoding::Identity
    }
}

/// The number that the last four bytes of a compressed file hold, least
/// significant byte first: the size of the data before compression, modulo
/// 2^32.
pub open spec fn trailer_value(t: Seq<u8>) -> int {
    t[0] + 256 * t[1] + 65536 * t[2] + 16777216 * t[3]
}

/// The size that is reported for a bundle, before compression.
pub open spec fn reported_size(path: Seq<char>, stored_size: u64, trailer: Option<[u8; 4]>) -> int {
    if compressed(path) {
        trailer_value(trailer->0@)
    } else {
        stored_size as int
    }
}

/// The size of the bundle at `path` before compression. For a bundle that is
/// not stored compressed this is the size of the file. For one that is, it is
/// read from `trailer`, the last four bytes of the file, which the caller has
/// to bring, and is right only for data of less than 4 GiB.
pub fn uncompressed_size(path: &str, stored_size: u64, trailer: Option<[u8; 4]>) -> (size: u64)
    requires
        compressed(path@) ==> trailer is Some,
    ensures
        size == reported_size(path@, stored_size, trailer),
        compressed(path@) ==> size < 0x1_0000_0000,
{
    if is_compressed(path) {
        match trailer {
            Some(t) => {
                let b0: u64 = t[0] as u64;
                let b1: u64 = t[1] as u64;
                let b2: u64 = t[2] as u64;
                let b3: u64 = t[3] as u64;
                b0 + 256 * b1 + 65536 * b2 + 16777216 * b3
            },
            None => stored_size,
        }
    } else {
        stored_size
    }
}

} // verus!
