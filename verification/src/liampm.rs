//! Where a dependency lives and where its archive is kept.
//!
//! A dependency is named by a path whose last two parts, separated by `/`,
//! are the owner and the repository.

use vstd::prelude::*;
use vstd::string::*;
use crate::text::to_chars;

verus! {

/// The index of the last `/` of `path` before index `before`, or -1 if
/// there is none.
pub open spec fn last_slash(path: Seq<char>, before: int) -> int
    decreases before,
{
    if before <= 0 || before > path.len() {
        -1
    } else if path[before - 1] == '/' {
        before - 1
    } else {
        last_slash(path, before - 1)
    }
}

/// The owner and the repository that `path` names: what stands between its
/// last two `/`, or before the only one, and what stands after the last.
/// A path without `/` names none.
pub open spec fn spec_repository(path: Seq<char>) -> Option<(Seq<char>, Seq<char>)> {
    let last = last_slash(path, path.len() as int);
    if last < 0 {
        None
    } else {
        Some(
            (
                path.subrange(last_slash(path, last) + 1, last),
                path.subrange(last + 1, path.len() as int),
            ),
        )
    }
}

/// A `/` is found before an index that is inside the text, and it is the
/// last one there.
pub proof fn lemma_last_slash(path: Seq<char>, before: int)
    requires
        0 <= before <= path.len(),
    ensures
        -1 <= last_slash(path, before) < before,
        last_slash(path, before) >= 0 ==> path[last_slash(path, before)] == '/',
        forall|i: int| last_slash(path, before) < i < before ==> path[i] != '/',
    decreases before,
{
    if before > 0 && path[before - 1] != '/' {
        lemma_last_slash(path, before - 1);
    }
}

/// The index of the last `/` of `chars` before index `before`, if there is one.
fn find_last_slash(chars: &Vec<char>, before: usize) -> (r: Option<usize>)
    requires
        before <= chars@.len(),
    ensures
        match r {
            Some(index) => index == last_slash(chars@, before as int),
            None => last_slash(chars@, before as int) == -1,
        },
{
    let mut i: usize = before;
    while i > 0
        invariant
            i <= before <= chars@.len(),
            last_slash(chars@, before as int) == last_slash(chars@, i as int),
        decreases i,
    {
        if chars[i - 1] == '/' {
            return Some(i - 1);
        }
        i -= 1;
    }
    None
}

/// The owner and the repository that `path` names, if it names any.
pub fn repository(path: &str) -> (r: Option<(String, String)>)
    ensures
        match spec_repository(path@) {
            Some((owner, name)) => r is Some && r->Some_0.0@ == owner && r->Some_0.1@ == name,
            None => r is None,
        },
{
    let chars = to_chars(path);
    let length: usize = chars.len();
    proof {
        lemma_last_slash(path@, length as int);
    }
    match find_last_slash(&chars, length) {
        None => None,
        Some(last) => {
            proof {
                lemma_last_slash(path@, last as int);
            }
            let start: usize = match find_last_slash(&chars, last) {
                Some(previous) => previous + 1,
                None => 0,
            };
            let owner = String::from_str(path.substring_char(start, last));
            let name = String::from_str(path.substring_char(last + 1, length));
            Some((owner, name))
        },
    }
}

/// Where the archive of `repository` is kept under `directory`.
pub fn archive_path(directory: &str, repository: &str) -> (path: String)
    ensures
        path@ == directory@ + "/"@ + repository@ + ".tar.gz"@,
{
    let mut path = String::from_str(directory);
    path.append("/");
    path.append(repository);
    path.append(".tar.gz");
    path
}

} // verus!
