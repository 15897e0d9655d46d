//! Probe target composition: the strings each mode probes.
//!
//! Directory mode joins the base URL and a path, DNS mode appends the zone
//! to the candidate, vhost mode optionally appends the domain to the host.

use vstd::prelude::*;
use vstd::string::*;

verus! {

/// `s` with every trailing `'/'` removed.
pub open spec fn strip_trailing_slashes(s: Seq<char>) -> Seq<char>
    decreases s.len(),
{
    if s.len() > 0 && s[s.len() - 1] == '/' {
        strip_trailing_slashes(s.drop_last())
    } else {
        s
    }
}

/// Stripping trailing slashes keeps exactly the prefix before the trailing
/// run of `'/'`.
proof fn lemma_strip_is_subrange(s: Seq<char>, b: int)
    requires
        0 <= b <= s.len(),
        forall|j: int| b <= j < s.len() ==> s[j] == '/',
        b == 0 || s[b - 1] != '/',
    ensures
        strip_trailing_slashes(s) == s.subrange(0, b),
    decreases s.len() - b,
{
    if b == s.len() {
        assert(s.subrange(0, b) =~= s);
    } else {
        assert(s[s.len() - 1] == '/');
        let t = s.drop_last();
        assert forall|j: int| b <= j < t.len() implies t[j] == '/' by {
            assert(t[j] == s[j]);
        }
        if b > 0 {
            assert(t[b - 1] == s[b - 1]);
        }
        lemma_strip_is_subrange(t, b);
        assert(t.subrange(0, b) =~= s.subrange(0, b));
    }
}

/// The URL directory mode probes for one candidate path: the base URL
/// without its trailing slashes, a single `'/'`, and the path.
pub fn join_url(base: &str, path: &str) -> (r: String)
    ensures
        r@ == strip_trailing_slashes(base@) + seq!['/'] + path@,
{
    let n: usize = base.unicode_len();
    let mut b: usize = n;
    while b > 0 && base.get_char(b - 1) == '/'
        invariant
            b <= n,
            n == base@.len(),
            forall|j: int| b <= j < n ==> base@[j] == '/',
        decreases b,
    {
        b = b - 1;
    }
    proof {
        lemma_strip_is_subrange(base@, b as int);
    }
    let stem = base.substring_char(0, b);
    let mut r = String::from_str(stem);
    r.append("/");
    r.append(path);
    proof {
        reveal_strlit("/");
        assert(("/")@ =~= seq!['/']);
        assert(r@ =~= strip_trailing_slashes(base@) + seq!['/'] + path@);
    }
    r
}

/// The name DNS mode resolves for one candidate: `word.zone`.
pub fn dns_target(word: &str, zone: &str) -> (r: String)
    ensures
        r@ == word@ + seq!['.'] + zone@,
{
    let mut r = String::from_str(word);
    r.append(".");
    r.append(zone);
    proof {
        reveal_strlit(".");
        assert((".")@ =~= seq!['.']);
        assert(r@ =~= word@ + seq!['.'] + zone@);
    }
    r
}

/// `s` with every occurrence of `pat` replaced by `rep`, scanning left to
/// right and never rescanning replaced text. An empty pattern replaces
/// nothing.
pub open spec fn subst(s: Seq<char>, pat: Seq<char>, rep: Seq<char>) -> Seq<char>
    decreases s.len(),
{
    if pat.len() == 0 || s.len() < pat.len() {
        s
    } else if s.subrange(0, pat.len() as int) == pat {
        rep + subst(s.skip(pat.len() as int), pat, rep)
    } else {
        seq![s[0]] + subst(s.drop_first(), pat, rep)
    }
}

/// Whether `pat` occurs in `s` starting at position `i`.
fn eq_at(s: &str, i: usize, pat: &str) -> (r: bool)
    requires
        i + pat@.len() <= s@.len(),
        s@.len() <= usize::MAX,
    ensures
        r == (s@.subrange(i as int, i + pat@.len()) == pat@),
{
    let plen = pat.unicode_len();
    let mut j: usize = 0;
    while j < plen
        invariant
            j <= plen,
            plen == pat@.len(),
            i + plen <= s@.len(),
            s@.len() <= usize::MAX,
            forall|k: int| 0 <= k < j ==> s@[i + k] == pat@[k],
        decreases plen - j,
    {
        if s.get_char(i + j) != pat.get_char(j) {
            proof {
                assert(s@.subrange(i as int, i + plen as int)[j as int] == s@[i + j]);
            }
            return false;
        }
        j = j + 1;
    }
    proof {
        assert(s@.subrange(i as int, i + plen as int) =~= pat@);
    }
    true
}

/// The URL fuzz mode requests for one candidate: every occurrence of the
/// placeholder token in the template replaced by the candidate word.
pub fn substitute(s: &str, pat: &str, rep: &str) -> (r: String)
    ensures
        r@ == subst(s@, pat@, rep@),
{
    let n: usize = s.unicode_len();
    let plen: usize = pat.unicode_len();
    if plen == 0 {
        return String::from_str(s);
    }
    let mut r = String::new();
    let mut i: usize = 0;
    proof {
        assert(s@.skip(0) =~= s@);
        assert(r@ + subst(s@, pat@, rep@) =~= subst(s@, pat@, rep@));
    }
    while i < n
        invariant
            i <= n,
            n == s@.len(),
            plen == pat@.len(),
            plen >= 1,
            r@ + subst(s@.skip(i as int), pat@, rep@) == subst(s@, pat@, rep@),
        decreases n - i,
    {
        let ghost r0 = r@;
        let ghost tail = s@.skip(i as int);
        if plen <= n - i && eq_at(s, i, pat) {
            r.append(rep);
            proof {
                assert(tail.subrange(0, plen as int) =~= s@.subrange(i as int, i + plen as int));
                assert(tail.skip(plen as int) =~= s@.skip(i + plen));
                assert(subst(tail, pat@, rep@) == rep@ + subst(tail.skip(plen as int), pat@, rep@));
                assert((r0 + rep@) + subst(s@.skip(i + plen), pat@, rep@) =~= r0 + (rep@ + subst(
                    s@.skip(i + plen),
                    pat@,
                    rep@,
                )));
            }
            i = i + plen;
        } else {
            let one = s.substring_char(i, i + 1);
            r.append(one);
            proof {
                assert(tail[0] == s@[i as int]);
                assert(tail.drop_first() =~= s@.skip(i + 1));
                if plen <= n - i {
                    assert(tail.subrange(0, plen as int) =~= s@.subrange(
                        i as int,
                        i + plen as int,
                    ));
                    assert(subst(tail, pat@, rep@) == seq![tail[0]] + subst(
                        tail.drop_first(),
                        pat@,
                        rep@,
                    ));
                } else {
                    assert(subst(tail, pat@, rep@) == tail);
                    assert(subst(tail.drop_first(), pat@, rep@) == tail.drop_first());
                    assert(tail =~= seq![tail[0]] + tail.drop_first());
                }
                assert(one@ =~= seq![s@[i as int]]);
                assert((r0 + one@) + subst(s@.skip(i + 1), pat@, rep@) =~= r0 + (seq![tail[0]]
                    + subst(s@.skip(i + 1), pat@, rep@)));
            }
            i = i + 1;
        }
    }
    proof {
        assert(s@.skip(n as int) =~= Seq::<char>::empty());
        assert(subst(Seq::<char>::empty(), pat@, rep@) == Seq::<char>::empty());
        assert(r@ + Seq::<char>::empty() =~= r@);
    }
    r
}

/// The host name vhost mode sends for one candidate: the candidate alone,
/// or `word.domain` when the domain is appended.
pub open spec fn vhost_name(word: Seq<char>, domain: Seq<char>, append_domain: bool) -> Seq<
    char,
> {
    if append_domain {
        word + seq!['.'] + domain
    } else {
        word
    }
}

/// Builds the `Host` header value vhost mode probes for one candidate.
pub fn vhost_host(word: &str, domain: &str, append_domain: bool) -> (r: String)
    ensures
        r@ == vhost_name(word@, domain@, append_domain),
{
    if append_domain {
        dns_target(word, domain)
    } else {
        String::from_str(word)
    }
}

} // verus!
