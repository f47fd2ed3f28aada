//! Command-line value parsing: `key=value` body pairs and URL validation.

use vstd::prelude::*;
use vstd::string::StrSliceExecFns;
use vstd::string::StringExecFns;

verus! {

/// A `key=value` body pair.
#[derive(Debug, Clone, PartialEq, Eq)]
pub struct KvPair {
    pub k: String,
    pub v: String,
}

/// The first index of `c` in `s`, or `s.len()` when it does not occur.
pub open spec fn find_char(s: Seq<char>, c: char) -> int
    decreases s.len(),
{
    if s.len() == 0 {
        0
    } else if s[0] == c {
        0
    } else {
        1 + find_char(s.drop_first(), c)
    }
}

/// What parsing a pair yields: the text before the first `=` and the text
/// between the first and second `=`; nothing when there is no `=` at all.
pub open spec fn kv_parse(s: Seq<char>) -> Option<(Seq<char>, Seq<char>)> {
    let i = find_char(s, '=');
    if i == s.len() {
        None
    } else {
        let rest = s.skip(i + 1);
        Some((s.take(i), rest.take(find_char(rest, '='))))
    }
}

proof fn lemma_find_char(s: Seq<char>, c: char, i: int)
    requires
        0 <= i <= s.len(),
        forall|j: int| 0 <= j < i ==> s[j] != c,
        i < s.len() ==> s[i] == c,
    ensures
        find_char(s, c) == i,
    decreases i,
{
    if i == 0 {
    } else {
        assert(s[0] != c);
        assert forall|j: int| 0 <= j < i - 1 implies s.drop_first()[j] != c by {
            assert(s.drop_first()[j] == s[j + 1]);
        }
        assert(i - 1 < s.drop_first().len() ==> s.drop_first()[i - 1] == c);
        lemma_find_char(s.drop_first(), c, i - 1);
    }
}

/// The first index of `=` in `s`, or the character length of `s`.
fn find_eq(s: &str) -> (r: usize)
    ensures
        r == find_char(s@, '='),
        r <= s@.len(),
{
    let n = s.unicode_len();
    let mut i: usize = 0;
    while i < n
        invariant
            i <= n == s@.len(),
            forall|j: int| 0 <= j < i ==> s@[j] != '=',
        decreases n - i,
    {
        if s.get_char(i) == '=' {
            proof {
                lemma_find_char(s@, '=', i as int);
            }
            return i;
        }
        i = i + 1;
    }
    proof {
        lemma_find_char(s@, '=', n as int);
    }
    n
}

/// Why a body argument failed to parse.
#[derive(Debug, Clone, PartialEq, Eq)]
pub struct KvParseError {
    pub input: String,
}

impl KvParseError {
    /// The human-readable report of this error.
    pub fn message(&self) -> (r: String)
        ensures
            r@ == "Failed to parse "@ + self.input@,
    {
        let mut m = String::new();
        m.append("Failed to parse ");
        m.append(self.input.as_str());
        proof {
            assert(m@ =~= "Failed to parse "@ + self.input@);
        }
        m
    }
}

/// Parses a `key=value` argument: the key is the text before the first `=`,
/// the value the text between the first and second; an argument with no `=`
/// is rejected.
pub fn parse_kv_pair(s: &str) -> (r: Result<KvPair, KvParseError>)
    ensures
        match r {
            Ok(kv) => kv_parse(s@) matches Some(p) && kv.k@ == p.0 && kv.v@ == p.1,
            Err(e) => kv_parse(s@) is None && e.input@ == s@,
        },
{
    let n = s.unicode_len();
    let i = find_eq(s);
    if i == n {
        return Err(KvParseError { input: s.to_owned() });
    }
    let k = s.substring_char(0, i).to_owned();
    let rest = s.substring_char(i + 1, n);
    proof {
        assert(rest@ =~= s@.skip(i + 1));
    }
    let j = find_eq(rest);
    let v = rest.substring_char(0, j).to_owned();
    proof {
        assert(k@ =~= s@.take(i as int));
        assert(v@ =~= s@.skip(i + 1).take(find_char(s@.skip(i + 1), '=')));
    }
    Ok(KvPair { k, v })
}

impl core::str::FromStr for KvPair {
    type Err = KvParseError;

    fn from_str(s: &str) -> Result<KvPair, KvParseError> {
        parse_kv_pair(s)
    }
}

/// Whether the url crate accepts a string; a function of the string alone.
pub uninterp spec fn url_ok(s: Seq<char>) -> bool;

/// Relies on the url crate's `Url::parse`: it accepts or rejects a string
/// deterministically; the rejection report is handed back as text.
#[verifier::external_body]
fn url_parse_check(s: &str) -> (r: Result<(), String>)
    ensures
        r is Ok <==> url_ok(s@),
{
    match url::Url::parse(s) {
        Ok(_) => Ok(()),
        Err(e) => Err(e.to_string()),
    }
}

/// Why a URL argument was rejected.
#[derive(Debug, Clone, PartialEq, Eq)]
pub struct UrlParseError {
    pub message: String,
}

/// Validates a URL argument, handing back the text itself when the url crate
/// accepts it.
pub fn parse_url(url: &str) -> (r: Result<String, UrlParseError>)
    ensures
        r is Ok <==> url_ok(url@),
        r matches Ok(u) ==> u@ == url@,
{
    match url_parse_check(url) {
        Ok(u) => Ok(url.to_owned()),
        Err(m) => Err(UrlParseError { message: m }),
    }
}

} // verus!
