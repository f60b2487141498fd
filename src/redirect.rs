//! Reading the authorization code out of the redirect request that the
//! browser sends to the loopback listener.
use crate::auth::{text_eq, Cal2PromptError};
use vstd::prelude::*;
use vstd::string::{StrSliceExecFns, StringExecFns};

verus! {

/// Whether `c` is white space, as `char::is_whitespace` (Unicode `White_Space`) says.
pub uninterp spec fn is_white(c: char) -> bool;

/// The first position from `i` on whose character is not white space (the
/// length when there is none).
pub open spec fn skip_white(s: Seq<char>, i: int) -> int
    decreases s.len() - i,
{
    if i >= s.len() {
        s.len() as int
    } else if is_white(s[i]) {
        skip_white(s, i + 1)
    } else {
        i
    }
}

/// The first position from `i` on whose character is white space (the
/// length when there is none).
pub open spec fn word_end(s: Seq<char>, i: int) -> int
    decreases s.len() - i,
{
    if i >= s.len() {
        s.len() as int
    } else if !is_white(s[i]) {
        word_end(s, i + 1)
    } else {
        i
    }
}

/// The second maximal run of characters that are not white space (the
/// request target of an HTTP request line).
pub open spec fn second_word_of(line: Seq<char>) -> Option<Seq<char>> {
    let a = skip_white(line, 0);
    if a >= line.len() {
        None
    } else {
        let c = skip_white(line, word_end(line, a));
        if c >= line.len() {
            None
        } else {
            Some(line.subrange(c, word_end(line, c)))
        }
    }
}

/// The decoded query pairs of the URL `url`, in order, when it parses.
pub uninterp spec fn url_query_pairs_of(url: Seq<char>) -> Option<Seq<(Seq<char>, Seq<char>)>>;

/// Relies on `char::is_whitespace`.
#[verifier::external_body]
fn char_is_white(c: char) -> (r: bool)
    ensures
        r == is_white(c),
{
    c.is_whitespace()
}

fn skip_white_from(s: &str, n: usize, i: usize) -> (r: usize)
    requires
        n == s@.len(),
        i <= n,
    ensures
        r as int == skip_white(s@, i as int),
        i <= r <= n,
{
    let mut k = i;
    while k < n && char_is_white(s.get_char(k))
        invariant
            n == s@.len(),
            i <= k <= n,
            skip_white(s@, i as int) == skip_white(s@, k as int),
        decreases n - k,
    {
        k = k + 1;
    }
    k
}

fn word_end_from(s: &str, n: usize, i: usize) -> (r: usize)
    requires
        n == s@.len(),
        i <= n,
    ensures
        r as int == word_end(s@, i as int),
        i <= r <= n,
{
    let mut k = i;
    while k < n && !char_is_white(s.get_char(k))
        invariant
            n == s@.len(),
            i <= k <= n,
            word_end(s@, i as int) == word_end(s@, k as int),
        decreases n - k,
    {
        k = k + 1;
    }
    k
}

/// The second word of `line`, words being separated by white space.
fn second_word(line: &str) -> (r: Option<String>)
    ensures
        crate::timeline::opt_text(r) == second_word_of(line@),
{
    let n = line.unicode_len();
    let a = skip_white_from(line, n, 0);
    if a >= n {
        return None;
    }
    let b = word_end_from(line, n, a);
    let c = skip_white_from(line, n, b);
    if c >= n {
        return None;
    }
    let e = word_end_from(line, n, c);
    Some(String::from_str(line.substring_char(c, e)))
}

pub open spec fn pairs_view(v: Seq<(String, String)>) -> Seq<(Seq<char>, Seq<char>)> {
    v.map_values(|p: (String, String)| (p.0@, p.1@))
}

/// Relies on the `url` crate's `Url::parse` (re-exported by reqwest as
/// `reqwest::Url`) and `Url::query_pairs`, which percent-decodes.
#[verifier::external_body]
fn url_query_pairs(url: &str) -> (r: Option<Vec<(String, String)>>)
    ensures
        match r {
            Some(v) => url_query_pairs_of(url@) == Some(pairs_view(v@)),
            None => url_query_pairs_of(url@) is None,
        },
{
    match reqwest::Url::parse(url) {
        Ok(u) => Some(u.query_pairs().map(|(k, v)| (k.into_owned(), v.into_owned())).collect()),
        Err(_) => None,
    }
}

/// The value of the first pair whose key is `key`.
pub open spec fn first_value(pairs: Seq<(Seq<char>, Seq<char>)>, key: Seq<char>) -> Option<Seq<char>>
    decreases pairs.len(),
{
    if pairs.len() == 0 {
        None
    } else if pairs[0].0 == key {
        Some(pairs[0].1)
    } else {
        first_value(pairs.drop_first(), key)
    }
}

/// The authorization code carried by the redirect request line `line`: the
/// `code` query parameter of its request target.
pub open spec fn code_of_request(line: Seq<char>) -> Option<Seq<char>> {
    match second_word_of(line) {
        Some(target) => match url_query_pairs_of("http://localhost"@ + target) {
            Some(pairs) => first_value(pairs, "code"@),
            None => None,
        },
        None => None,
    }
}

/// The authorization code of the redirect request line `line`, or an error
/// when the line has no request target, the target does not parse, or it
/// carries no `code` parameter.
pub fn authorization_code(line: &str) -> (r: Result<String, Cal2PromptError>)
    ensures
        match code_of_request(line@) {
            Some(c) => r matches Ok(s) && s@ == c,
            None => r matches Err(Cal2PromptError::Other(_)),
        },
{
    let target = match second_word(line) {
        Some(t) => t,
        None => return Err(Cal2PromptError::Other(String::from_str("malformed redirect request"))),
    };
    let url = String::from_str("http://localhost").concat(target.as_str());
    assert(url@ == "http://localhost"@ + target@);
    let pairs = match url_query_pairs(url.as_str()) {
        Some(p) => p,
        None => return Err(Cal2PromptError::Other(String::from_str("malformed redirect target"))),
    };
    let mut i: usize = 0;
    proof {
        assert(pairs_view(pairs@).skip(0) =~= pairs_view(pairs@));
    }
    while i < pairs.len()
        invariant
            i <= pairs@.len(),
            second_word_of(line@) == Some(target@),
            url@ == "http://localhost"@ + target@,
            url_query_pairs_of(url@) == Some(pairs_view(pairs@)),
            first_value(pairs_view(pairs@), "code"@) == first_value(pairs_view(pairs@).skip(i as int), "code"@),
        decreases pairs@.len() - i,
    {
        proof {
            assert(pairs_view(pairs@).skip(i as int)[0] == (pairs@[i as int].0@, pairs@[i as int].1@));
            assert(pairs_view(pairs@).skip(i as int).drop_first() =~= pairs_view(pairs@).skip(i + 1));
        }
        if text_eq(pairs[i].0.as_str(), "code") {
            proof {
                assert(pairs_view(pairs@).skip(i as int).len() > 0);
                assert(first_value(pairs_view(pairs@).skip(i as int), "code"@) == Some(pairs@[i as int].1@));
                assert(url_query_pairs_of(url@) == Some(pairs_view(pairs@)));
                assert(code_of_request(line@) == Some(pairs@[i as int].1@));
            }
            return Ok(pairs[i].1.clone());
        }
        i = i + 1;
    }
    proof {
        assert(pairs_view(pairs@).skip(i as int).len() == 0);
    }
    Err(Cal2PromptError::Other(String::from_str("no code")))
}

} // verus!
