//! Expanding `~/` to the home directory.

use crate::text::{chars_of, slice_chars, string_of};
use vstd::prelude::*;

verus! {

/// What `Path::join` gives when `rest` is joined onto `base`.
pub uninterp spec fn joined_path(base: Seq<char>, rest: Seq<char>) -> Seq<char>;

/// Calls `std::path::Path::join`; the contract names its result by
/// `joined_path` (the rules for absolute `rest` and separators are not
/// stated).
#[verifier::external_body]
fn join_path(base: &str, rest: &str) -> (res: String)
    ensures
        res@ == joined_path(base@, rest@),
{
    std::path::Path::new(base).join(rest).to_string_lossy().into_owned()
}

/// Calls `home::home_dir`, which reads the environment: nothing is promised
/// of its result. The path is turned into text as `to_string_lossy` does.
#[verifier::external_body]
fn home_dir_text() -> (res: Option<String>) {
    match home::home_dir() {
        Some(p) => Some(p.to_string_lossy().into_owned()),
        None => None,
    }
}

/// The prefix `~/`.
pub open spec fn tilde_slash() -> Seq<char> {
    seq!['~', '/']
}

/// `path` with a leading `~/` replaced by the home directory, when there is
/// one; otherwise `path` unchanged.
pub open spec fn expanded(path: Seq<char>, home: Option<Seq<char>>) -> Seq<char> {
    if tilde_slash().is_prefix_of(path) && home is Some {
        joined_path(home->0, path.skip(2))
    } else {
        path
    }
}

/// Expands `~/` in `path` against the given home directory.
pub fn expand_user_path_with_home(path: &str, home: Option<String>) -> (res: String)
    ensures
        res@ == expanded(
            path@,
            match home {
                Some(h) => Some(h@),
                None => None,
            },
        ),
{
    let p = chars_of(path);
    if p.len() >= 2 && p[0] == '~' && p[1] == '/' {
        assert(p@.take(2) =~= tilde_slash());
        match home {
            Some(h) => {
                let rest = string_of(slice_chars(&p, 2, p.len()).as_slice());
                assert(p@.subrange(2, p@.len() as int) =~= path@.skip(2));
                return join_path(h.as_str(), rest.as_str());
            },
            None => {},
        }
    } else {
        assert(!tilde_slash().is_prefix_of(path@)) by {
            if tilde_slash().is_prefix_of(path@) {
                assert(path@[0] == tilde_slash()[0]);
                assert(path@[1] == tilde_slash()[1]);
            }
        }
    }
    string_of(p.as_slice())
}

/// Expands `~/` paths to the user's home directory; returns the path
/// unchanged if it has no `~/` prefix or the home directory is not found.
pub fn expand_user_path(path: &str) -> (res: String)
    ensures
        exists|home: Option<Seq<char>>| res@ == expanded(path@, home),
{
    let home = home_dir_text();
    let ghost h = match home {
        Some(ref x) => Some(x@),
        None => None,
    };
    let res = expand_user_path_with_home(path, home);
    assert(res@ == expanded(path@, h));
    res
}

} // verus!
