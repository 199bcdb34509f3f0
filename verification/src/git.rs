//! Discovery of the target repository from a git remote URL.
//!
//! Two URL shapes are supported, with or without a trailing `.git`:
//! `https://github.com/owner/repo` and `git@github.com:owner/repo`.
//! Running git itself and reading its output belong to the unverified outer
//! layer; the parsing lives here.

use vstd::prelude::*;
use crate::error::BiaoError;
use crate::text::{ends_with, is_prefix_of, is_suffix_of, starts_with, find_char};

verus! {

/// The text with a final `.git` removed, when there is one.
pub open spec fn strip_git_suffix(s: Seq<char>) -> Seq<char> {
    if is_suffix_of(".git"@, s) {
        s.take(s.len() - ".git"@.len())
    } else {
        s
    }
}

/// The owner and repository named by the path part of a remote URL: the
/// segment before the first `/` and the segment after it. `None` when the
/// path has no `/` at all.
pub open spec fn split_owner_repo(path: Seq<char>) -> Option<(Seq<char>, Seq<char>)> {
    let t = strip_git_suffix(path);
    match t.index_of_first('/') {
        Some(i) => {
            let rest = t.skip(i + 1);
            let repo = match rest.index_of_first('/') {
                Some(j) => rest.take(j),
                None => rest,
            };
            Some((t.take(i), repo))
        },
        None => None,
    }
}

/// The owner and repository named by a remote URL, or `None` when the URL is
/// not one of the two supported shapes or its path has no `/`.
pub open spec fn spec_parse_github_url(u: Seq<char>) -> Option<(Seq<char>, Seq<char>)> {
    if is_prefix_of("https://github.com/"@, u) {
        split_owner_repo(u.skip("https://github.com/"@.len() as int))
    } else if is_prefix_of("git@github.com:"@, u) {
        split_owner_repo(u.skip("git@github.com:"@.len() as int))
    } else {
        None
    }
}

/// What an unparsable path reports.
pub open spec fn bad_path_message() -> Seq<char> {
    "Could not parse owner and repo from remote URL"@
}

/// What an unsupported URL shape reports, before the URL itself is appended.
pub open spec fn unsupported_url_message() -> Seq<char> {
    "Unsupported remote URL. Only GitHub HTTPS and SSH URLs are supported.\nRemote URL: "@
}

/// Splits the path part of a remote URL into owner and repository, dropping a
/// trailing `.git` first.
pub fn extract_owner_repo(path: &str) -> (r: Result<(String, String), BiaoError>)
    ensures
        match r {
            Ok(p) => split_owner_repo(path@) == Some((p.0@, p.1@)),
            Err(e) => split_owner_repo(path@) is None && e is InvalidInput
                && e.message_view() == bad_path_message(),
        },
{
    proof {
        reveal_strlit(".git");
    }
    let n = path.unicode_len();
    let t: &str = if n >= 4 && ends_with(path, ".git") {
        path.substring_char(0, n - 4)
    } else {
        path
    };
    proof {
        assert(t@ =~= strip_git_suffix(path@));
    }
    let tn = t.unicode_len();
    match find_char(t, '/') {
        None => Err(BiaoError::InvalidInput(String::from_str(
            "Could not parse owner and repo from remote URL",
        ))),
        Some(i) => {
            proof {
                t@.index_of_first_ensures('/');
            }
            let owner = String::from_str(t.substring_char(0, i));
            let rest = t.substring_char(i + 1, tn);
            proof {
                assert(rest@ =~= t@.skip(i + 1));
            }
            let repo = match find_char(rest, '/') {
                Some(j) => {
                    proof {
                        rest@.index_of_first_ensures('/');
                    }
                    String::from_str(rest.substring_char(0, j))
                },
                None => String::from_str(rest),
            };
            proof {
                assert(owner@ =~= t@.take(i as int));
                match rest@.index_of_first('/') {
                    Some(j) => {
                        assert(repo@ =~= rest@.take(j));
                    },
                    None => {},
                }
            }
            Ok((owner, repo))
        },
    }
}

/// Parses a GitHub remote URL into owner and repository; rejects other URL
/// shapes with `InvalidInput`.
pub fn parse_github_url(url: &str) -> (r: Result<(String, String), BiaoError>)
    ensures
        match r {
            Ok(p) => spec_parse_github_url(url@) == Some((p.0@, p.1@)),
            Err(e) => spec_parse_github_url(url@) is None && e is InvalidInput
                && e.message_view() == (if !is_prefix_of("https://github.com/"@, url@)
                    && !is_prefix_of("git@github.com:"@, url@) {
                    unsupported_url_message() + url@
                } else {
                    bad_path_message()
                }),
        },
{
    let n = url.unicode_len();
    if starts_with(url, "https://github.com/") {
        let m = "https://github.com/".unicode_len();
        let tail = url.substring_char(m, n);
        proof {
            assert(tail@ =~= url@.skip("https://github.com/"@.len() as int));
        }
        extract_owner_repo(tail)
    } else if starts_with(url, "git@github.com:") {
        let m = "git@github.com:".unicode_len();
        let tail = url.substring_char(m, n);
        proof {
            assert(tail@ =~= url@.skip("git@github.com:"@.len() as int));
        }
        extract_owner_repo(tail)
    } else {
        let mut msg = String::from_str(
            "Unsupported remote URL. Only GitHub HTTPS and SSH URLs are supported.\nRemote URL: ",
        );
        msg.append(url);
        Err(BiaoError::InvalidInput(msg))
    }
}

} // verus!
