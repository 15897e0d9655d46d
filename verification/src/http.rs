//! HTTP client configuration and header-argument parsing.
//!
//! The network client itself is an outside capability; this module holds
//! the plain-value configuration handed to it and the verified parsing of
//! `Key: Value` header arguments.

use vstd::prelude::*;
use vstd::string::*;
use crate::text::header_pair;
use crate::text::split_header;

verus! {

/// Configuration for the HTTP client, pass-through from the command line.
#[derive(Clone, Debug)]
pub struct HttpConfig {
    pub user_agent: String,
    /// Per-request timeout in milliseconds.
    pub timeout_ms: u64,
    /// Skip certificate validation.
    pub insecure: bool,
    /// Follow redirects instead of reporting them.
    pub follow_redirect: bool,
    /// Proxy URL, if any.
    pub proxy: Option<String>,
    /// Extra request headers.
    pub headers: Vec<(String, String)>,
    /// Value of the `Cookie` header, if any.
    pub cookies: Option<String>,
    /// Basic-auth user, if any.
    pub username: Option<String>,
    /// Basic-auth password, if any.
    pub password: Option<String>,
}

impl Default for HttpConfig {
    /// The tool's defaults: its own user agent, a 10 s timeout,
    /// certificates validated, redirects reported, and nothing else set.
    fn default() -> (c: Self)
        ensures
            c.user_agent@ == "rbuster/1.0"@,
            c.timeout_ms == 10000,
            !c.insecure,
            !c.follow_redirect,
            c.proxy is None,
            c.headers@.len() == 0,
            c.cookies is None,
            c.username is None,
            c.password is None,
    {
        HttpConfig {
            user_agent: String::from_str("rbuster/1.0"),
            timeout_ms: 10000,
            insecure: false,
            follow_redirect: false,
            proxy: None,
            headers: Vec::new(),
            cookies: None,
            username: None,
            password: None,
        }
    }
}

/// Whether the header map holds an entry with key `k`.
pub open spec fn has_key(m: Seq<(Seq<char>, Seq<char>)>, k: Seq<char>) -> bool {
    exists|i: int| 0 <= i < m.len() && (#[trigger] m[i]).0 == k
}

/// The position of the entry with key `k`.
pub open spec fn key_index(m: Seq<(Seq<char>, Seq<char>)>, k: Seq<char>) -> int {
    choose|i: int| 0 <= i < m.len() && (#[trigger] m[i]).0 == k
}

/// `m` with the pair `(k, v)` entered: an existing entry with key `k`
/// takes the new value in place; otherwise the pair is appended.
pub open spec fn upsert(m: Seq<(Seq<char>, Seq<char>)>, k: Seq<char>, v: Seq<char>) -> Seq<
    (Seq<char>, Seq<char>),
> {
    if has_key(m, k) {
        m.update(key_index(m, k), (k, v))
    } else {
        m.push((k, v))
    }
}

/// The header map the lines build up: each line's key/value pair entered
/// in order, a later line with the same key overwriting the earlier value,
/// as a map would hold them. Lines without a `':'` contribute nothing.
pub open spec fn header_map(lines: Seq<String>) -> Seq<(Seq<char>, Seq<char>)>
    decreases lines.len(),
{
    if lines.len() == 0 {
        Seq::empty()
    } else {
        let rest = header_map(lines.drop_last());
        match header_pair(lines.last()@) {
            None => rest,
            Some(p) => upsert(rest, p.0, p.1),
        }
    }
}

/// The position of the entry whose key reads `key`, if any.
fn find_key(m: &Vec<(String, String)>, key: &String) -> (r: Option<usize>)
    ensures
        match r {
            Some(i) => i < m@.len() && m@[i as int].0@ == key@,
            None => forall|i: int| 0 <= i < m@.len() ==> (#[trigger] m@[i]).0@ != key@,
        },
{
    let mut i: usize = 0;
    while i < m.len()
        invariant
            i <= m@.len(),
            forall|j: int| 0 <= j < i ==> (#[trigger] m@[j]).0@ != key@,
        decreases m@.len() - i,
    {
        if m[i].0 == *key {
            return Some(i);
        }
        i = i + 1;
    }
    None
}

/// Parses command-line headers in `Key: Value` form: each line is split at
/// its first `':'` and both sides are trimmed; lines without a `':'` are
/// dropped. The result holds one entry per key — the first occurrence
/// keeps its place, the last value wins — so the keys are pairwise
/// distinct.
pub fn parse_headers(headers: &Vec<String>) -> (r: Vec<(String, String)>)
    ensures
        r@.map_values(|p: (String, String)| (p.0@, p.1@)) == header_map(headers@),
        forall|i: int, j: int|
            0 <= i < j < r@.len() ==> (#[trigger] r@[i]).0@ != (#[trigger] r@[j]).0@,
{
    let mut r: Vec<(String, String)> = Vec::new();
    let mut k: usize = 0;
    while k < headers.len()
        invariant
            k <= headers@.len(),
            r@.map_values(|p: (String, String)| (p.0@, p.1@)) == header_map(
                headers@.subrange(0, k as int),
            ),
            forall|i: int, j: int|
                0 <= i < j < r@.len() ==> (#[trigger] r@[i]).0@ != (#[trigger] r@[j]).0@,
        decreases headers@.len() - k,
    {
        proof {
            assert(headers@.subrange(0, k + 1).drop_last() =~= headers@.subrange(0, k as int));
            assert(headers@.subrange(0, k + 1).last() == headers@[k as int]);
        }
        let ghost om = r@.map_values(|p: (String, String)| (p.0@, p.1@));
        match split_header(headers[k].as_str()) {
            Some(pair) => {
                let ghost p0 = pair.0@;
                let ghost p1 = pair.1@;
                proof {
                    assert forall|i: int| 0 <= i < om.len() implies (#[trigger] om[i]) == (
                        r@[i].0@,
                        r@[i].1@,
                    ) by {}
                }
                match find_key(&r, &pair.0) {
                    Some(i) => {
                        proof {
                            assert(om[i as int].0 == p0);
                            assert(has_key(om, p0));
                            let i0 = key_index(om, p0);
                            assert(om[i0].0 == p0);
                            assert(i0 == i);
                        }
                        r.set(i, pair);
                        proof {
                            assert(r@.map_values(|p: (String, String)| (p.0@, p.1@)) =~= om.update(
                                i as int,
                                (p0, p1),
                            ));
                            assert forall|a: int, b: int| 0 <= a < b < r@.len() implies (
                            #[trigger] r@[a]).0@ != (#[trigger] r@[b]).0@ by {}
                        }
                    },
                    None => {
                        proof {
                            assert forall|i: int| 0 <= i < om.len() implies (#[trigger] om[i]).0
                                != p0 by {
                                assert(om[i].0 == r@[i].0@);
                            }
                            assert(!has_key(om, p0));
                        }
                        r.push(pair);
                        proof {
                            assert(r@.map_values(|p: (String, String)| (p.0@, p.1@)) =~= om.push(
                                (p0, p1),
                            ));
                        }
                    },
                }
            },
            None => {},
        }
        k = k + 1;
    }
    proof {
        assert(headers@.subrange(0, headers@.len() as int) =~= headers@);
    }
    r
}

} // verus!
