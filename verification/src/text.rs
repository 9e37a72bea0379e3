//! Character classes and verified string primitives: equality,
//! substring containment, and ASCII lowercasing. The query engine's
//! tokenizer and the `LIKE` evaluator are built on these.

use vstd::prelude::*;
use vstd::string::StrSliceExecFns;

verus! {

/// Whitespace accepted between query tokens.
pub open spec fn is_ws(c: char) -> bool {
    c == ' ' || c == '\t' || c == '\n' || c == '\r'
}

pub open spec fn is_digit(c: char) -> bool {
    '0' <= c && c <= '9'
}

/// Characters that may start an identifier or keyword.
pub open spec fn is_word_start(c: char) -> bool {
    ('a' <= c && c <= 'z') || ('A' <= c && c <= 'Z') || c == '_'
}

/// Characters that may continue an identifier or keyword.
pub open spec fn is_word_char(c: char) -> bool {
    is_word_start(c) || is_digit(c)
}

pub fn char_is_ws(c: char) -> (r: bool)
    ensures
        r == is_ws(c),
{
    c == ' ' || c == '\t' || c == '\n' || c == '\r'
}

pub fn char_is_digit(c: char) -> (r: bool)
    ensures
        r == is_digit(c),
{
    '0' <= c && c <= '9'
}

pub fn char_is_word_start(c: char) -> (r: bool)
    ensures
        r == is_word_start(c),
{
    ('a' <= c && c <= 'z') || ('A' <= c && c <= 'Z') || c == '_'
}

pub fn char_is_word_char(c: char) -> (r: bool)
    ensures
        r == is_word_char(c),
{
    char_is_word_start(c) || char_is_digit(c)
}

/// ASCII lowercasing of a single character; all others are unchanged.
pub open spec fn lower_char(c: char) -> char {
    if 'A' <= c && c <= 'Z' {
        ((c as u8) + 32) as char
    } else {
        c
    }
}

pub fn char_to_lower(c: char) -> (r: char)
    ensures
        r == lower_char(c),
{
    if 'A' <= c && c <= 'Z' {
        ((c as u8) + 32) as char
    } else {
        c
    }
}

/// A sequence of characters, ASCII-lowercased.
pub open spec fn lower_seq(s: Seq<char>) -> Seq<char> {
    s.map_values(|c: char| lower_char(c))
}

/// Character-exact string equality.
pub fn str_eq(a: &str, b: &str) -> (r: bool)
    ensures
        r == (a@ == b@),
{
    let alen = a.unicode_len();
    let blen = b.unicode_len();
    if alen != blen {
        return false;
    }
    let mut i: usize = 0;
    while i < alen
        invariant
            alen == a@.len(),
            alen == b@.len(),
            i <= alen,
            forall|j: int| 0 <= j < i ==> a@[j] == b@[j],
        decreases alen - i,
    {
        if a.get_char(i) != b.get_char(i) {
            return false;
        }
        i = i + 1;
    }
    proof {
        assert(a@ =~= b@);
    }
    true
}

/// Equality of `a`, ASCII-lowercased, against an already-lowercase `b`.
pub fn str_eq_lowered(a: &str, b: &str) -> (r: bool)
    ensures
        r == (lower_seq(a@) == b@),
{
    let alen = a.unicode_len();
    let blen = b.unicode_len();
    if alen != blen {
        proof {
            assert(lower_seq(a@).len() == a@.len());
        }
        return false;
    }
    let mut i: usize = 0;
    while i < alen
        invariant
            alen == a@.len(),
            alen == b@.len(),
            i <= alen,
            forall|j: int| 0 <= j < i ==> lower_char(a@[j]) == b@[j],
        decreases alen - i,
    {
        if char_to_lower(a.get_char(i)) != b.get_char(i) {
            proof {
                assert(lower_seq(a@)[i as int] != b@[i as int]);
            }
            return false;
        }
        i = i + 1;
    }
    proof {
        assert(lower_seq(a@) =~= b@);
    }
    true
}

/// Length of the double-quote run at the head of `s`.
pub open spec fn quote_run(s: Seq<char>) -> nat
    decreases s.len(),
{
    if s.len() == 0 || s[0] != '"' {
        0
    } else {
        1 + quote_run(s.skip(1))
    }
}

/// Length of the double-quote run at the end of `s`.
pub open spec fn quote_run_end(s: Seq<char>) -> nat
    decreases s.len(),
{
    if s.len() == 0 || s[s.len() - 1] != '"' {
        0
    } else {
        1 + quote_run_end(s.take(s.len() - 1))
    }
}

proof fn lemma_quote_run_is(s: Seq<char>, k: nat)
    requires
        k <= s.len(),
        forall|m: int| 0 <= m < k ==> s[m] == '"',
        k < s.len() ==> s[k as int] != '"',
    ensures
        quote_run(s) == k,
    decreases s.len(),
{
    if s.len() > 0 && s[0] == '"' {
        assert(forall|m: int| 0 <= m < k - 1 ==> s.skip(1)[m] == s[m + 1]);
        lemma_quote_run_is(s.skip(1), (k - 1) as nat);
    }
}

proof fn lemma_quote_run_end_is(s: Seq<char>, k: nat)
    requires
        k <= s.len(),
        forall|m: int| s.len() - k <= m < s.len() ==> s[m] == '"',
        k < s.len() ==> s[s.len() - k - 1] != '"',
    ensures
        quote_run_end(s) == k,
    decreases s.len(),
{
    if s.len() > 0 && s[s.len() - 1] == '"' {
        assert(forall|m: int| 0 <= m < s.len() - 1 ==> s.take(s.len() - 1)[m] == s[m]);
        lemma_quote_run_end_is(s.take(s.len() - 1), (k - 1) as nat);
    }
}

/// `s` with every leading and trailing double quote removed.
pub open spec fn trim_quotes_spec(s: Seq<char>) -> Seq<char> {
    if quote_run(s) == s.len() {
        Seq::empty()
    } else {
        s.subrange(quote_run(s) as int, s.len() - quote_run_end(s))
    }
}

/// Strip leading and trailing double quotes.
pub fn trim_quotes(s: &str) -> (r: String)
    ensures
        r@ == trim_quotes_spec(s@),
{
    let len = s.unicode_len();
    let mut a: usize = 0;
    while a < len && s.get_char(a) == '"'
        invariant
            len == s@.len(),
            a <= len,
            forall|m: int| 0 <= m < a ==> s@[m] == '"',
        decreases len - a,
    {
        a = a + 1;
    }
    if a == len {
        proof {
            lemma_quote_run_is(s@, a as nat);
        }
        return String::new();
    }
    proof {
        lemma_quote_run_is(s@, a as nat);
    }
    let mut b: usize = 0;
    while s.get_char(len - 1 - b) == '"'
        invariant
            len == s@.len(),
            a < len,
            s@[a as int] != '"',
            b <= len - 1 - a,
            forall|m: int| len - b <= m < len ==> s@[m] == '"',
        decreases len - b,
    {
        b = b + 1;
    }
    proof {
        lemma_quote_run_end_is(s@, b as nat);
    }
    s.substring_char(a, len - b).to_owned()
}

/// `n` occurs in `h` starting at position `i`.
pub open spec fn matches_at(h: Seq<char>, n: Seq<char>, i: int) -> bool {
    0 <= i && i + n.len() <= h.len() && h.subrange(i, i + n.len() as int) == n
}

/// `n` occurs somewhere in `h` as a contiguous substring.
pub open spec fn seq_contains(h: Seq<char>, n: Seq<char>) -> bool {
    exists|i: int| matches_at(h, n, i)
}

/// Whether `n@` occurs at position `i` of `h@`.
fn str_matches_at(h: &str, n: &str, i: usize) -> (r: bool)
    requires
        i + n@.len() <= h@.len(),
    ensures
        r == matches_at(h@, n@, i as int),
{
    let hlen = h.unicode_len();
    let nlen = n.unicode_len();
    let mut j: usize = 0;
    while j < nlen
        invariant
            hlen == h@.len(),
            nlen == n@.len(),
            i + nlen <= hlen,
            j <= nlen,
            forall|m: int| 0 <= m < j ==> h@[i + m] == n@[m],
        decreases nlen - j,
    {
        if h.get_char(i + j) != n.get_char(j) {
            proof {
                assert(h@.subrange(i as int, i + n@.len() as int)[j as int] != n@[j as int]);
            }
            return false;
        }
        j = j + 1;
    }
    proof {
        assert(h@.subrange(i as int, i + n@.len() as int) =~= n@);
    }
    true
}

/// Substring containment, the meaning of `LIKE`.
pub fn str_contains(h: &str, n: &str) -> (r: bool)
    ensures
        r == seq_contains(h@, n@),
{
    let hlen = h.unicode_len();
    let nlen = n.unicode_len();
    if nlen > hlen {
        proof {
            assert(forall|i: int| !matches_at(h@, n@, i));
        }
        return false;
    }
    if nlen == 0 {
        proof {
            assert(h@.subrange(0, 0) =~= n@);
            assert(matches_at(h@, n@, 0));
        }
        return true;
    }
    let mut i: usize = 0;
    while i <= hlen - nlen
        invariant
            hlen == h@.len(),
            nlen == n@.len(),
            0 < nlen <= hlen,
            i <= hlen - nlen + 1,
            forall|k: int| 0 <= k < i ==> !matches_at(h@, n@, k),
        decreases hlen + 1 - nlen - i,
    {
        if str_matches_at(h, n, i) {
            return true;
        }
        i = i + 1;
    }
    proof {
        assert(forall|k: int| k > hlen - nlen ==> !matches_at(h@, n@, k));
    }
    false
}

} // verus!
