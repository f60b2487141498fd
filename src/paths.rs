//! `~` in configured paths: expansion to and contraction from the user's
//! home directory.
use vstd::prelude::*;
use vstd::string::{StrSliceExecFns, StringExecFns};

verus! {

/// Relies on `dirs::home_dir`, read as text with `to_string_lossy`; the
/// answer depends on the environment.
#[verifier::external_body]
fn home_directory() -> (r: Option<String>) {
    match dirs::home_dir() {
        Some(p) => Some(p.to_string_lossy().into_owned()),
        None => None,
    }
}

pub open spec fn starts_with(s: Seq<char>, p: Seq<char>) -> bool {
    p.len() <= s.len() && s.subrange(0, p.len() as int) == p
}

/// `rest` appended to the directory `dir` as a path joins them: an absolute
/// `rest` stands alone, and one separator goes between the two.
pub open spec fn joined(dir: Seq<char>, rest: Seq<char>) -> Seq<char> {
    if rest.len() > 0 && rest[0] == '/' {
        rest
    } else if dir.len() == 0 {
        rest
    } else if dir.last() == '/' {
        dir + rest
    } else {
        dir + "/"@ + rest
    }
}

/// `path` with a leading `~` or `~/` replaced by the home directory `home`;
/// unchanged when there is no home directory or another user is named.
pub open spec fn expanded(path: Seq<char>, home: Option<Seq<char>>) -> Seq<char> {
    if !(path.len() > 0 && path[0] == '~') {
        path
    } else {
        match home {
            None => path,
            Some(h) => if path == "~"@ {
                h
            } else if starts_with(path, "~/"@) {
                joined(h, path.subrange(2, path.len() as int))
            } else {
                path
            },
        }
    }
}

/// `path` with the home directory `home` at its start written `~`, when
/// it is followed by nothing or by `/`.
pub open spec fn contracted(path: Seq<char>, home: Option<Seq<char>>) -> Seq<char> {
    match home {
        None => path,
        Some(h) => if starts_with(path, h) {
            let rest = path.subrange(h.len() as int, path.len() as int);
            if rest.len() == 0 {
                "~"@
            } else if rest[0] == '/' {
                "~"@ + rest
            } else {
                path
            }
        } else {
            path
        },
    }
}

fn has_prefix(s: &str, p: &str) -> (r: bool)
    ensures
        r == starts_with(s@, p@),
{
    let n = s.unicode_len();
    let m = p.unicode_len();
    if m > n {
        return false;
    }
    let mut i: usize = 0;
    while i < m
        invariant
            m == p@.len(),
            n == s@.len(),
            m <= n,
            i <= m,
            forall|j: int| 0 <= j < i ==> s@[j] == p@[j],
        decreases m - i,
    {
        if s.get_char(i) != p.get_char(i) {
            proof {
                assert(s@.subrange(0, m as int)[i as int] != p@[i as int]);
            }
            return false;
        }
        i = i + 1;
    }
    proof {
        assert(s@.subrange(0, m as int) =~= p@);
    }
    true
}

fn join_path(dir: &str, rest: &str) -> (r: String)
    ensures
        r@ == joined(dir@, rest@),
{
    let rest_len = rest.unicode_len();
    let dir_len = dir.unicode_len();
    if rest_len > 0 && rest.get_char(0) == '/' {
        String::from_str(rest)
    } else if dir_len == 0 {
        String::from_str(rest)
    } else if dir.get_char(dir_len - 1) == '/' {
        String::from_str(dir).concat(rest)
    } else {
        String::from_str(dir).concat("/").concat(rest)
    }
}

/// `path` with a leading `~` expanded against the home directory `home`.
pub fn expand_tilde_in(path: &str, home: Option<&str>) -> (r: String)
    ensures
        r@ == expanded(path@, match home {
            Some(h) => Some(h@),
            None => None,
        }),
{
    let n = path.unicode_len();
    if !(n > 0 && path.get_char(0) == '~') {
        return String::from_str(path);
    }
    match home {
        None => String::from_str(path),
        Some(h) => {
            if n == 1 {
                proof {
                    reveal_strlit("~");
                    assert(path@ =~= "~"@);
                }
                return String::from_str(h);
            }
            proof {
                reveal_strlit("~");
                assert(path@ != "~"@);
            }
            if has_prefix(path, "~/") {
                proof {
                    reveal_strlit("~/");
                }
                join_path(h, path.substring_char(2, n))
            } else {
                String::from_str(path)
            }
        },
    }
}

/// `path` with the home directory `home` at its start contracted to `~`.
pub fn contract_tilde_in(path: &str, home: Option<&str>) -> (r: String)
    ensures
        r@ == contracted(path@, match home {
            Some(h) => Some(h@),
            None => None,
        }),
{
    match home {
        None => String::from_str(path),
        Some(h) => {
            if has_prefix(path, h) {
                let n = path.unicode_len();
                let k = h.unicode_len();
                let rest = path.substring_char(k, n);
                if k == n {
                    proof {
                        assert(rest@.len() == 0);
                    }
                    String::from_str("~")
                } else if rest.get_char(0) == '/' {
                    String::from_str("~").concat(rest)
                } else {
                    String::from_str(path)
                }
            } else {
                String::from_str(path)
            }
        },
    }
}

/// `path` with a leading `~` expanded against the user's home directory.
pub fn expand_tilde(path: &str) -> (r: String)
    ensures
        exists|home: Option<Seq<char>>| r@ == expanded(path@, home),
{
    let home = home_directory();
    match &home {
        Some(h) => expand_tilde_in(path, Some(h.as_str())),
        None => expand_tilde_in(path, None),
    }
}

/// `path` with the user's home directory at its start contracted to `~`.
pub fn contract_tilde(path: &str) -> (r: String)
    ensures
        exists|home: Option<Seq<char>>| r@ == contracted(path@, home),
{
    let home = home_directory();
    match &home {
        Some(h) => contract_tilde_in(path, Some(h.as_str())),
        None => contract_tilde_in(path, None),
    }
}

} // verus!
