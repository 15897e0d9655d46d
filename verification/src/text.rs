//! Verified text helpers: whitespace trimming and `Key: Value` splitting.
//!
//! Wordlist lines and header arguments arrive as plain strings; the engine
//! normalises them with the functions here, each proved against a direct
//! mathematical description of its result.

use vstd::prelude::*;
use vstd::string::*;

verus! {

/// The whitespace characters that trimming removes: exactly the Unicode
/// `White_Space` set (tab through carriage return, space, next line,
/// no-break space, ogham space mark, the en-quad..hair-space run, the line
/// and paragraph separators, narrow and medium mathematical spaces, and
/// the ideographic space).
pub open spec fn is_space(c: char) -> bool {
    ||| 0x09 <= c as int && c as int <= 0x0D
    ||| c as int == 0x20
    ||| c as int == 0x85
    ||| c as int == 0xA0
    ||| c as int == 0x1680
    ||| 0x2000 <= c as int && c as int <= 0x200A
    ||| c as int == 0x2028
    ||| c as int == 0x2029
    ||| c as int == 0x202F
    ||| c as int == 0x205F
    ||| c as int == 0x3000
}

/// `s` with its leading whitespace removed.
pub open spec fn trim_start(s: Seq<char>) -> Seq<char>
    decreases s.len(),
{
    if s.len() == 0 {
        s
    } else if is_space(s[0]) {
        trim_start(s.drop_first())
    } else {
        s
    }
}

/// `s` with its trailing whitespace removed.
pub open spec fn trim_end(s: Seq<char>) -> Seq<char>
    decreases s.len(),
{
    if s.len() == 0 {
        s
    } else if is_space(s[s.len() - 1]) {
        trim_end(s.drop_last())
    } else {
        s
    }
}

/// `s` with leading and trailing whitespace removed.
pub open spec fn trimmed(s: Seq<char>) -> Seq<char> {
    trim_end(trim_start(s))
}

/// Trimming from the start keeps exactly the suffix after the first
/// non-space character.
proof fn lemma_trim_start_is_subrange(s: Seq<char>, a: int)
    requires
        0 <= a <= s.len(),
        forall|j: int| 0 <= j < a ==> is_space(s[j]),
        a == s.len() || !is_space(s[a]),
    ensures
        trim_start(s) == s.subrange(a, s.len() as int),
    decreases a,
{
    if a == 0 {
        assert(s.subrange(0, s.len() as int) =~= s);
    } else {
        let t = s.drop_first();
        assert(t =~= s.subrange(1, s.len() as int));
        assert forall|j: int| 0 <= j < a - 1 implies is_space(t[j]) by {
            assert(t[j] == s[j + 1]);
        }
        if a - 1 < t.len() {
            assert(t[a - 1] == s[a]);
        }
        lemma_trim_start_is_subrange(t, a - 1);
        assert(t.subrange(a - 1, t.len() as int) =~= s.subrange(a, s.len() as int));
    }
}

/// Trimming from the end keeps exactly the prefix before the trailing run
/// of space characters.
proof fn lemma_trim_end_is_subrange(s: Seq<char>, b: int)
    requires
        0 <= b <= s.len(),
        forall|j: int| b <= j < s.len() ==> is_space(s[j]),
        b == 0 || !is_space(s[b - 1]),
    ensures
        trim_end(s) == s.subrange(0, b),
    decreases s.len() - b,
{
    if b == s.len() {
        assert(s.subrange(0, b) =~= s);
    } else {
        assert(is_space(s[s.len() - 1]));
        let t = s.drop_last();
        assert forall|j: int| b <= j < t.len() implies is_space(t[j]) by {
            assert(t[j] == s[j]);
        }
        if b > 0 {
            assert(t[b - 1] == s[b - 1]);
        }
        lemma_trim_end_is_subrange(t, b);
        assert(t.subrange(0, b) =~= s.subrange(0, b));
    }
}

/// Whether `c` counts as trimmable whitespace.
pub fn is_space_char(c: char) -> (r: bool)
    ensures
        r == is_space(c),
{
    let v = c as u32;
    (0x09 <= v && v <= 0x0D) || v == 0x20 || v == 0x85 || v == 0xA0 || v == 0x1680 || (0x2000 <= v
        && v <= 0x200A) || v == 0x2028 || v == 0x2029 || v == 0x202F || v == 0x205F || v == 0x3000
}

/// Returns `s` with leading and trailing whitespace removed.
pub fn trim_str(s: &str) -> (r: String)
    ensures
        r@ == trimmed(s@),
{
    let n: usize = s.unicode_len();
    let mut a: usize = 0;
    while a < n && is_space_char(s.get_char(a))
        invariant
            a <= n,
            n == s@.len(),
            forall|j: int| 0 <= j < a ==> is_space(s@[j]),
        decreases n - a,
    {
        a = a + 1;
    }
    proof {
        lemma_trim_start_is_subrange(s@, a as int);
    }
    if a == n {
        proof {
            assert(s@.subrange(a as int, s@.len() as int) =~= Seq::<char>::empty());
        }
        let r = String::new();
        return r;
    }
    let mut b: usize = n;
    while b > a && is_space_char(s.get_char(b - 1))
        invariant
            a <= b <= n,
            n == s@.len(),
            a < n,
            !is_space(s@[a as int]),
            forall|j: int| b <= j < n ==> is_space(s@[j]),
        decreases b,
    {
        b = b - 1;
    }
    assert(b > a);
    proof {
        let t = s@.subrange(a as int, n as int);
        assert forall|j: int| b - a <= j < t.len() implies is_space(t[j]) by {
            assert(t[j] == s@[a + j]);
        }
        assert(t[b - a - 1] == s@[b - 1]);
        lemma_trim_end_is_subrange(t, b - a);
        assert(t.subrange(0, (b - a) as int) =~= s@.subrange(a as int, b as int));
    }
    let sub = s.substring_char(a, b);
    String::from_str(sub)
}

/// Whether position `i` of `s` starts a whitespace-separated word: a
/// non-space character at the start of the text or right after a space.
pub open spec fn starts_word(s: Seq<char>, i: int) -> bool {
    0 <= i < s.len() && !is_space(s[i]) && (i == 0 || is_space(s[i - 1]))
}

/// How many whitespace-separated words `s` holds.
pub open spec fn word_count(s: Seq<char>) -> int
    decreases s.len(),
{
    if s.len() == 0 {
        0
    } else {
        word_count(s.drop_last()) + if starts_word(s, s.len() - 1) {
            1int
        } else {
            0int
        }
    }
}

/// Counts the whitespace-separated words of a response body.
pub fn count_words(s: &str) -> (r: usize)
    ensures
        r as int == word_count(s@),
{
    let n: usize = s.unicode_len();
    let mut count: usize = 0;
    let mut i: usize = 0;
    while i < n
        invariant
            i <= n,
            n == s@.len(),
            count as int == word_count(s@.subrange(0, i as int)),
            count <= i,
        decreases n - i,
    {
        let starts = if is_space_char(s.get_char(i)) {
            false
        } else if i == 0 {
            true
        } else {
            is_space_char(s.get_char(i - 1))
        };
        proof {
            let t = s@.subrange(0, i + 1);
            assert(t.drop_last() =~= s@.subrange(0, i as int));
            assert(t[i as int] == s@[i as int]);
            if i > 0 {
                assert(t[i - 1] == s@[i - 1]);
            }
            assert(starts == starts_word(t, i as int));
        }
        if starts {
            count = count + 1;
        }
        i = i + 1;
    }
    proof {
        assert(s@.subrange(0, n as int) =~= s@);
    }
    count
}

/// How many `'\n'` characters `s` holds.
pub open spec fn newline_count(s: Seq<char>) -> int
    decreases s.len(),
{
    if s.len() == 0 {
        0
    } else {
        newline_count(s.drop_last()) + if s.last() == '\n' {
            1int
        } else {
            0int
        }
    }
}

/// A text holds no more newlines than characters.
proof fn lemma_newline_count_le(s: Seq<char>)
    ensures
        0 <= newline_count(s) <= s.len(),
    decreases s.len(),
{
    if s.len() > 0 {
        lemma_newline_count_le(s.drop_last());
    }
}

/// How many lines `s` holds: one per `'\n'`, plus the final unterminated
/// line if the text does not end in `'\n'`. Empty text holds no line.
pub open spec fn line_count(s: Seq<char>) -> int {
    if s.len() == 0 {
        0
    } else {
        newline_count(s) + if s.last() == '\n' {
            0int
        } else {
            1int
        }
    }
}

/// Counts the lines of a response body.
pub fn count_lines(s: &str) -> (r: usize)
    ensures
        r as int == line_count(s@),
{
    let n: usize = s.unicode_len();
    if n == 0 {
        return 0;
    }
    let mut nl: usize = 0;
    let mut i: usize = 0;
    while i < n
        invariant
            i <= n,
            n == s@.len(),
            nl as int == newline_count(s@.subrange(0, i as int)),
            nl <= i,
        decreases n - i,
    {
        proof {
            assert(s@.subrange(0, i + 1).drop_last() =~= s@.subrange(0, i as int));
            assert(s@.subrange(0, i + 1).last() == s@[i as int]);
        }
        if s.get_char(i) == '\n' {
            nl = nl + 1;
        }
        i = i + 1;
    }
    proof {
        assert(s@.subrange(0, n as int) =~= s@);
    }
    let last = s.get_char(n - 1);
    if last == '\n' {
        nl
    } else {
        proof {
            lemma_newline_count_le(s@.drop_last());
        }
        nl + 1
    }
}

/// Whether `c` is a decimal digit.
pub open spec fn is_digit(c: char) -> bool {
    '0' as int <= c as int && c as int <= '9' as int
}

/// The value of a decimal digit.
pub open spec fn digit_val(c: char) -> int {
    c as int - '0' as int
}

/// Whether `s` is one or more decimal digits and nothing else.
pub open spec fn all_digits(s: Seq<char>) -> bool {
    s.len() > 0 && (forall|i: int| 0 <= i < s.len() ==> is_digit(#[trigger] s[i]))
}

/// The number a digit sequence denotes in base ten.
pub open spec fn dec_value(s: Seq<char>) -> int
    decreases s.len(),
{
    if s.len() == 0 {
        0
    } else {
        dec_value(s.drop_last()) * 10 + digit_val(s.last())
    }
}

/// A digit sequence denotes a non-negative number.
proof fn lemma_dec_value_nonneg(s: Seq<char>)
    requires
        forall|k: int| 0 <= k < s.len() ==> is_digit(#[trigger] s[k]),
    ensures
        dec_value(s) >= 0,
    decreases s.len(),
{
    if s.len() > 0 {
        let t = s.drop_last();
        assert forall|k: int| 0 <= k < t.len() implies is_digit(#[trigger] t[k]) by {
            assert(t[k] == s[k]);
        }
        lemma_dec_value_nonneg(t);
    }
}

/// Appending digits never shrinks the denoted number: the whole sequence
/// denotes at least what any prefix denotes.
proof fn lemma_dec_value_prefix_bound(s: Seq<char>, j: int)
    requires
        0 <= j <= s.len(),
        forall|k: int| 0 <= k < s.len() ==> is_digit(#[trigger] s[k]),
    ensures
        dec_value(s) >= dec_value(s.subrange(0, j)),
    decreases s.len() - j,
{
    if j == s.len() {
        assert(s.subrange(0, j) =~= s);
    } else {
        assert(s.subrange(0, j + 1).drop_last() =~= s.subrange(0, j));
        assert(s.subrange(0, j + 1).last() == s[j]);
        assert forall|k: int| 0 <= k < j implies is_digit(#[trigger] s.subrange(0, j)[k]) by {
            assert(s.subrange(0, j)[k] == s[k]);
        }
        lemma_dec_value_nonneg(s.subrange(0, j));
        lemma_dec_value_prefix_bound(s, j + 1);
    }
}

/// Parses a decimal number the way the status-code arguments are written:
/// `Some` exactly when the text is one or more digits denoting a value that
/// fits in a `u16`.
pub fn parse_u16(s: &str) -> (r: Option<u16>)
    ensures
        match r {
            Some(v) => all_digits(s@) && dec_value(s@) == v as int,
            None => !all_digits(s@) || dec_value(s@) > u16::MAX,
        },
{
    let n: usize = s.unicode_len();
    if n == 0 {
        return None;
    }
    let mut acc: u32 = 0;
    let mut i: usize = 0;
    while i < n
        invariant
            i <= n,
            n == s@.len(),
            forall|k: int| 0 <= k < i ==> is_digit(#[trigger] s@[k]),
            acc as int == dec_value(s@.subrange(0, i as int)),
            acc <= 65535,
        decreases n - i,
    {
        let c = s.get_char(i);
        let cv = c as u32;
        if cv < '0' as u32 || cv > '9' as u32 {
            return None;
        }
        let d: u32 = cv - '0' as u32;
        proof {
            assert(s@.subrange(0, i + 1).drop_last() =~= s@.subrange(0, i as int));
            assert(s@.subrange(0, i + 1).last() == s@[i as int]);
        }
        if acc > 6553 || (acc == 6553 && d > 5) {
            proof {
                if all_digits(s@) {
                    assert(dec_value(s@.subrange(0, i + 1)) > u16::MAX);
                    lemma_dec_value_prefix_bound(s@, i + 1);
                }
            }
            return None;
        }
        acc = acc * 10 + d;
        i = i + 1;
    }
    proof {
        assert(s@.subrange(0, n as int) =~= s@);
    }
    Some(acc as u16)
}

/// The position of the first `':'` in `s`, if any.
pub open spec fn find_colon_at(s: Seq<char>) -> Option<int>
    decreases s.len(),
{
    if s.len() == 0 {
        None
    } else if s[0] == ':' {
        Some(0int)
    } else {
        match find_colon_at(s.drop_first()) {
            None => None,
            Some(i) => Some(i + 1),
        }
    }
}

/// `find_colon_at` returns the least index of a `':'`, or `None` when the
/// sequence holds no `':'`.
pub proof fn lemma_find_colon_at(s: Seq<char>)
    ensures
        match find_colon_at(s) {
            Some(i) => 0 <= i < s.len() && s[i] == ':' && (forall|j: int|
                0 <= j < i ==> s[j] != ':'),
            None => forall|j: int| 0 <= j < s.len() ==> s[j] != ':',
        },
    decreases s.len(),
{
    if s.len() == 0 {
    } else if s[0] == ':' {
    } else {
        let t = s.drop_first();
        lemma_find_colon_at(t);
        match find_colon_at(t) {
            None => {
                assert forall|j: int| 0 <= j < s.len() implies s[j] != ':' by {
                    if j > 0 {
                        assert(t[j - 1] == s[j]);
                    }
                }
            },
            Some(i) => {
                assert(s[i + 1] == t[i]);
                assert forall|j: int| 0 <= j < i + 1 implies s[j] != ':' by {
                    if j > 0 {
                        assert(t[j - 1] == s[j]);
                    }
                }
            },
        }
    }
}

/// The key/value pair a `Key: Value` line splits into: the text before the
/// first `':'` and the text after it, both trimmed. Lines without a `':'`
/// split into nothing.
pub open spec fn header_pair(line: Seq<char>) -> Option<(Seq<char>, Seq<char>)> {
    match find_colon_at(line) {
        None => None,
        Some(i) => Some(
            (trimmed(line.subrange(0, i)), trimmed(line.subrange(i + 1, line.len() as int))),
        ),
    }
}

/// Splits a `Key: Value` line at its first `':'`, trimming both sides;
/// returns `None` when the line holds no `':'`.
pub fn split_header(line: &str) -> (r: Option<(String, String)>)
    ensures
        match r {
            Some(p) => header_pair(line@) == Some((p.0@, p.1@)),
            None => header_pair(line@) is None,
        },
{
    let n: usize = line.unicode_len();
    let mut i: usize = 0;
    while i < n && line.get_char(i) != ':'
        invariant
            i <= n,
            n == line@.len(),
            forall|j: int| 0 <= j < i ==> line@[j] != ':',
        decreases n - i,
    {
        i = i + 1;
    }
    proof {
        lemma_find_colon_at(line@);
    }
    if i == n {
        assert(find_colon_at(line@) is None);
        return None;
    }
    assert(line@[i as int] == ':');
    assert(find_colon_at(line@) == Some(i as int));
    let key_part = line.substring_char(0, i);
    let val_part = line.substring_char(i + 1, n);
    let k = trim_str(key_part);
    let v = trim_str(val_part);
    Some((k, v))
}

} // verus!
