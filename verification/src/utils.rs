//! Small helpers: access tokens, paths and payload files.

use vstd::prelude::*;
use rand::Rng;

verus! {

/// An ASCII letter or digit.
pub open spec fn is_alphanumeric_ascii(c: char) -> bool {
    ('a' <= c <= 'z') || ('A' <= c <= 'Z') || ('0' <= c <= '9')
}

/// One random ASCII letter or digit (`rand`'s `Alphanumeric` distribution, sampled from
/// the thread's generator). Trusted: the character is an ASCII letter or digit; which
/// one is chance.
#[verifier::external_body]
fn sample_alphanumeric() -> (c: char)
    ensures
        is_alphanumeric_ascii(c),
{
    char::from(rand::thread_rng().sample(rand::distributions::Alphanumeric))
}

/// A random token of `len` ASCII letters and digits.
pub fn generate_token(len: usize) -> (s: String)
    ensures
        s@.len() == len,
        forall|i: int| 0 <= i < len ==> is_alphanumeric_ascii(#[trigger] s@[i]),
{
    let mut v: Vec<char> = Vec::new();
    let mut i: usize = 0;
    while i < len
        invariant
            i <= len,
            v@.len() == i,
            forall|j: int| 0 <= j < i ==> is_alphanumeric_ascii(#[trigger] v@[j]),
        decreases len - i,
    {
        let c = sample_alphanumeric();
        v.push(c);
        i = i + 1;
    }
    crate::text::string_from_chars(v.as_slice())
}

/// Whether something exists at `path` (std's `Path::exists`). Nothing is claimed of the
/// answer: it depends on the file system at the moment of the call.
#[verifier::external_body]
fn path_exists(path: &str) -> bool {
    std::path::Path::new(path).exists()
}

/// Whether something exists at `path`; the answer is the file system's.
pub fn is_path_exits(path: &str) -> bool {
    path_exists(path)
}

/// Whether `path` begins with the whole components of `base` (std's `Path::starts_with`).
pub uninterp spec fn path_starts_with(path: Seq<char>, base: Seq<char>) -> bool;

/// Compares paths by whole components (std's `Path::starts_with`).
/// Trusted: the answer is `path_starts_with` of the two paths; the component rules are
/// not written out.
#[verifier::external_body]
fn starts_with_path(path: &str, base: &str) -> (r: bool)
    ensures
        r == path_starts_with(path@, base@),
{
    std::path::Path::new(path).starts_with(base)
}

/// The decision of a secure path join, once it is known whether the canonical joined
/// path lies within the canonical base directory: the path is used only then, and only
/// when it is not empty.
pub fn accept_confined(within_base: bool, canonical_path: &str) -> (r: Option<String>)
    ensures
        match r {
            Some(p) => p@ == canonical_path@ && within_base && canonical_path@.len() > 0,
            None => !within_base || canonical_path@.len() == 0,
        },
{
    if within_base && !canonical_path.is_empty() {
        Some(canonical_path.to_string())
    } else {
        None
    }
}

/// The decision of a secure path join, given the canonical base directory and the
/// canonical joined path; see [`accept_confined`].
pub fn confine_to_base(canonical_base: &str, canonical_path: &str) -> (r: Option<String>)
    ensures
        match r {
            Some(p) => p@ == canonical_path@ && path_starts_with(canonical_path@, canonical_base@) && canonical_path@.len() > 0,
            None => !path_starts_with(canonical_path@, canonical_base@) || canonical_path@.len() == 0,
        },
{
    let within = starts_with_path(canonical_path, canonical_base);
    accept_confined(within, canonical_path)
}

} // verus!
