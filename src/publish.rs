//! Decisions taken when a new version of a package is published.

use vstd::prelude::*;
use core::cmp::Ordering;
use crate::version::{decimal, digit_char, UnknownVersionFormat, find_latest_version, increment_version, next_version, version_order};
use crate::text::{chars_of, extend_chars, same_text, string_of};
use crate::index::{Repository, package_identifier};

verus! {

/// What sanitize-filename makes of `name` with Windows rules, truncation and
/// an empty replacement.
pub uninterp spec fn sanitized_of(name: Seq<char>) -> Seq<char>;

/// Relies on `sanitize_filename::sanitize_with_options` (Windows rules on,
/// truncation on, empty replacement): `name` with what is not safe in a file
/// name taken out.
#[verifier::external_body]
fn sanitized(name: &str) -> (r: String)
    ensures
        r@ == sanitized_of(name@),
{
    sanitize_filename::sanitize_with_options(
        name,
        sanitize_filename::Options { truncate: true, windows: true, replacement: "" },
    )
}

/// Whether `name` can serve as a file name as it is: sanitising leaves it
/// unchanged.
pub fn is_filename_safe(name: &str) -> (r: bool)
    ensures
        r == (sanitized_of(name@) == name@),
{
    let s = sanitized(name);
    same_text(s.as_str(), name)
}

/// Whether `v` is at least as late as every one of `all`.
pub open spec fn is_latest(all: Seq<&str>, v: &str) -> bool {
    forall|j: int| 0 <= j < all.len() ==> version_order(#[trigger] all[j]@, v@) != Ordering::Greater
}

/// The name of the first version of a package.
pub const FIRST_VERSION: &'static str = "0.0.1";

/// The name of the version that follows the latest of `existing`, or
/// `0.0.1` where there is none; an error where the latest name ends in no
/// digit.
pub fn next_version_name(existing: &Vec<&str>) -> (r: Result<String, UnknownVersionFormat>)
    ensures
        existing@.len() == 0 ==> (r matches Ok(s) && s@ == FIRST_VERSION@),
        existing@.len() > 0 ==> exists|i: int|
            0 <= i < existing@.len() && is_latest(existing@, #[trigger] existing@[i]) && match r {
                Ok(s) => next_version(existing@[i]@) == Some(s@),
                Err(e) => next_version(existing@[i]@) is None && e.0@ == existing@[i]@,
            },
{
    match find_latest_version(existing) {
        Some(latest) => increment_version(latest),
        None => Ok(FIRST_VERSION.to_owned()),
    }
}

fn digit_of(d: u64) -> (r: char)
    requires
        d < 10,
    ensures
        r == digit_char(d as nat),
{
    if d == 0 { '0' } else if d == 1 { '1' } else if d == 2 { '2' } else if d == 3 { '3' }
    else if d == 4 { '4' } else if d == 5 { '5' } else if d == 6 { '6' } else if d == 7 { '7' }
    else if d == 8 { '8' } else { '9' }
}

/// The decimal digits of `n`.
fn decimal_digits(n: u64) -> (r: Vec<char>)
    ensures
        r@ == decimal(n as nat),
    decreases n,
{
    if n < 10 {
        vec![digit_of(n)]
    } else {
        let mut r = decimal_digits(n / 10);
        r.push(digit_of(n % 10));
        r
    }
}

/// The name of the directory tried for a new package at attempt `attempt`:
/// the identifier itself first, then the identifier with `_1`, `_2`, ...
pub fn package_dir_candidate(identifier: &str, attempt: u64) -> (r: String)
    ensures
        attempt == 0 ==> r@ == identifier@,
        attempt > 0 ==> r@ == identifier@ + "_"@ + decimal(attempt as nat),
{
    let mut out = chars_of(identifier);
    if attempt > 0 {
        extend_chars(&mut out, &chars_of("_"));
        extend_chars(&mut out, &decimal_digits(attempt));
    }
    string_of(&out)
}

impl Repository {
    /// The index of the first package whose identifier is `identifier`.
    pub fn find_package(&self, identifier: &str) -> (r: Option<usize>)
        ensures
            match r {
                Some(i) => i < self.packages@.len() && package_identifier(self.packages@[i as int])
                    == identifier@ && forall|j: int|
                    0 <= j < i ==> package_identifier(#[trigger] self.packages@[j]) != identifier@,
                None => forall|j: int|
                    0 <= j < self.packages@.len() ==> package_identifier(#[trigger] self.packages@[j])
                        != identifier@,
            },
    {
        let mut i: usize = 0;
        while i < self.packages.len()
            invariant
                i <= self.packages@.len(),
                forall|j: int| 0 <= j < i ==> package_identifier(#[trigger] self.packages@[j]) != identifier@,
            decreases self.packages@.len() - i,
        {
            if same_text(self.packages[i].identifier().as_str(), identifier) {
                return Some(i);
            }
            i = i + 1;
        }
        None
    }
}

/// Why no name could be chosen for a new version.
#[derive(Debug)]
pub enum VersionNameError {
    /// The requested name is taken by an existing version.
    AlreadyExists(String),
    /// The latest name ends in no digit, so no next name follows from it.
    UnknownFormat(UnknownVersionFormat),
}

/// The name of a new version among `existing`: `requested` where given and
/// not taken, else the one after the latest (see `next_version_name`).
pub fn choose_version_name(existing: &Vec<&str>, requested: Option<&str>) -> (r: Result<
    String,
    VersionNameError,
>)
    ensures
        requested is Some ==> match r {
            Ok(s) => s@ == requested->0@ && forall|j: int|
                0 <= j < existing@.len() ==> (#[trigger] existing@[j])@ != requested->0@,
            Err(VersionNameError::AlreadyExists(n)) => n@ == requested->0@ && exists|j: int|
                0 <= j < existing@.len() && (#[trigger] existing@[j])@ == requested->0@,
            Err(VersionNameError::UnknownFormat(_)) => false,
        },
        requested is None && existing@.len() == 0 ==> (r matches Ok(s) && s@ == FIRST_VERSION@),
        requested is None && existing@.len() > 0 ==> exists|i: int|
            0 <= i < existing@.len() && is_latest(existing@, #[trigger] existing@[i]) && match r {
                Ok(s) => next_version(existing@[i]@) == Some(s@),
                Err(VersionNameError::UnknownFormat(e)) => next_version(existing@[i]@) is None
                    && e.0@ == existing@[i]@,
                Err(VersionNameError::AlreadyExists(_)) => false,
            },
{
    match requested {
        Some(q) => {
            let mut j: usize = 0;
            while j < existing.len()
                invariant
                    j <= existing@.len(),
                    requested == Some(q),
                    forall|k: int| 0 <= k < j ==> (#[trigger] existing@[k])@ != q@,
                decreases existing@.len() - j,
            {
                if same_text(existing[j], q) {
                    assert((existing@[j as int])@ == q@);
                    return Err(VersionNameError::AlreadyExists(string_of(&chars_of(q))));
                }
                j = j + 1;
            }
            Ok(string_of(&chars_of(q)))
        },
        None => {
            let res = next_version_name(existing);
            match res {
                Ok(s) => {
                    proof {
                        if existing@.len() > 0 {
                            let i = choose|i: int|
                                0 <= i < existing@.len() && is_latest(existing@, #[trigger] existing@[i])
                                    && next_version(existing@[i]@) == Some(s@);
                            assert(is_latest(existing@, existing@[i]));
                        }
                    }
                    Ok(s)
                },
                Err(e) => {
                    proof {
                        if existing@.len() > 0 {
                            let i = choose|i: int|
                                0 <= i < existing@.len() && is_latest(existing@, #[trigger] existing@[i])
                                    && next_version(existing@[i]@) is None && e.0@ == existing@[i]@;
                            assert(is_latest(existing@, existing@[i]));
                        }
                    }
                    Err(VersionNameError::UnknownFormat(e))
                },
            }
        },
    }
}

} // verus!
