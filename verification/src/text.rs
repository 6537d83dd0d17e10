//! Verified text primitives shared by the capability modules: whitespace
//! classification, trimming, substring search, string equality and
//! whitespace-delimited tokenization, each specified over `Seq<char>` views.

use vstd::prelude::*;

verus! {

/// A character with the Unicode `White_Space` property, the set that
/// `char::is_whitespace` recognises.
pub open spec fn char_is_space(c: char) -> bool {
    c == ' ' || c == '\t' || c == '\n' || c == '\r' || c == '\u{b}' || c == '\u{c}' || c
        == '\u{85}' || c == '\u{a0}' || c == '\u{1680}' || (0x2000 <= c as u32 && c as u32
        <= 0x200a) || c == '\u{2028}' || c == '\u{2029}' || c == '\u{202f}' || c == '\u{205f}' || c
        == '\u{3000}'
}

/// Executable check for [`char_is_space`].
pub fn is_space(c: char) -> (r: bool)
    ensures
        r == char_is_space(c),
{
    c == ' ' || c == '\t' || c == '\n' || c == '\r' || c == '\u{b}' || c == '\u{c}' || c
        == '\u{85}' || c == '\u{a0}' || c == '\u{1680}' || (0x2000 <= c as u32 && c as u32
        <= 0x200a) || c == '\u{2028}' || c == '\u{2029}' || c == '\u{202f}' || c == '\u{205f}' || c
        == '\u{3000}'
}

/// Number of leading whitespace characters of `s`.
pub open spec fn trim_lo(s: Seq<char>) -> int
    decreases s.len(),
{
    if s.len() > 0 && char_is_space(s[0]) {
        1 + trim_lo(s.drop_first())
    } else {
        0
    }
}

/// Index just past the last non-whitespace character of `s` (0 if all spaces).
pub open spec fn trim_hi(s: Seq<char>) -> int
    decreases s.len(),
{
    if s.len() > 0 && char_is_space(s[s.len() - 1]) {
        trim_hi(s.drop_last())
    } else {
        s.len() as int
    }
}

/// `s` with leading and trailing whitespace removed, as `str::trim` does.
pub open spec fn trim_seq(s: Seq<char>) -> Seq<char> {
    if trim_lo(s) <= trim_hi(s) {
        s.subrange(trim_lo(s), trim_hi(s))
    } else {
        Seq::empty()
    }
}

pub proof fn lemma_trim_lo_bounds(s: Seq<char>)
    ensures
        0 <= trim_lo(s) <= s.len(),
        forall|k: int| 0 <= k < trim_lo(s) ==> char_is_space(s[k]),
        trim_lo(s) < s.len() ==> !char_is_space(s[trim_lo(s)]),
    decreases s.len(),
{
    if s.len() > 0 && char_is_space(s[0]) {
        lemma_trim_lo_bounds(s.drop_first());
        assert forall|k: int| 0 <= k < trim_lo(s) implies char_is_space(s[k]) by {
            if k > 0 {
                assert(s.drop_first()[k - 1] == s[k]);
            }
        }
        if trim_lo(s) < s.len() {
            assert(s.drop_first()[trim_lo(s) - 1] == s[trim_lo(s)]);
        }
    }
}

pub proof fn lemma_trim_hi_bounds(s: Seq<char>)
    ensures
        0 <= trim_hi(s) <= s.len(),
        forall|k: int| trim_hi(s) <= k < s.len() ==> char_is_space(s[k]),
        trim_hi(s) > 0 ==> !char_is_space(s[trim_hi(s) - 1]),
    decreases s.len(),
{
    if s.len() > 0 && char_is_space(s[s.len() - 1]) {
        lemma_trim_hi_bounds(s.drop_last());
        assert forall|k: int| trim_hi(s) <= k < s.len() implies char_is_space(s[k]) by {
            if k < s.len() - 1 {
                assert(s.drop_last()[k] == s[k]);
            }
        }
        if trim_hi(s) > 0 {
            assert(s.drop_last()[trim_hi(s) - 1] == s[trim_hi(s) - 1]);
        }
    }
}

/// `str::trim`, returning a slice of the input.
pub fn trim_of<'a>(s: &'a str) -> (r: &'a str)
    ensures
        r@ == trim_seq(s@),
{
    proof {
        lemma_trim_lo_bounds(s@);
        lemma_trim_hi_bounds(s@);
    }
    let n: usize = s.unicode_len();
    let mut a: usize = 0;
    loop
        invariant_except_break
            a <= n,
        invariant
            n == s@.len(),
            forall|k: int| 0 <= k < a ==> char_is_space(s@[k]),
        ensures
            a <= n,
            a == n || !char_is_space(s@[a as int]),
        decreases n - a,
    {
        if a == n {
            break ;
        }
        if !is_space(s.get_char(a)) {
            break ;
        }
        a = a + 1;
    }
    if a == n {
        // all characters are whitespace
        proof {
            if trim_lo(s@) < s@.len() {
                assert(char_is_space(s@[trim_lo(s@)]));
                assert(false);
            }
            if n > 0 {
                assert(trim_hi(s@) == 0) by {
                    if trim_hi(s@) > 0 {
                        assert(char_is_space(s@[trim_hi(s@) - 1]));
                    }
                }
            }
            assert(trim_seq(s@) =~= Seq::<char>::empty());
        }
        let r = s.substring_char(0, 0);
        proof {
            assert(r@ =~= trim_seq(s@));
        }
        return r;
    }
    let mut b: usize = n;
    loop
        invariant_except_break
            a < b,
        invariant
            a < n == s@.len(),
            b <= n,
            !char_is_space(s@[a as int]),
            forall|k: int| b <= k < n ==> char_is_space(s@[k]),
        ensures
            a < b <= n,
            !char_is_space(s@[b - 1]),
        decreases b,
    {
        if !is_space(s.get_char(b - 1)) {
            break ;
        }
        proof {
            if b - 1 == a {
                assert(false);
            }
        }
        b = b - 1;
    }
    proof {
        // the scanned bounds agree with the specification's
        if a < trim_lo(s@) {
            assert(char_is_space(s@[a as int]));
            assert(false);
        }
        if trim_lo(s@) < a {
            assert(char_is_space(s@[trim_lo(s@)]));
            assert(false);
        }
        if b < trim_hi(s@) {
            assert(char_is_space(s@[trim_hi(s@) - 1]));
            assert(false);
        }
        if trim_hi(s@) < b {
            assert(char_is_space(s@[b - 1]));
            assert(false);
        }
    }
    let r = s.substring_char(a, b);
    proof {
        assert(r@ =~= trim_seq(s@));
    }
    r
}

/// The pattern `p` occurs in `s` starting at index `i`.
pub open spec fn substr_at(s: Seq<char>, p: Seq<char>, i: int) -> bool {
    0 <= i && i + p.len() <= s.len() && s.subrange(i, i + p.len()) == p
}

/// The pattern `p` occurs somewhere in `s`.
pub open spec fn has_substr(s: Seq<char>, p: Seq<char>) -> bool {
    exists|i: int| substr_at(s, p, i)
}

/// Whether `p` occurs in `s` starting at `i`, by character comparison.
fn matches_at(s: &str, p: &str, i: usize, n: usize, m: usize) -> (r: bool)
    requires
        n == s@.len(),
        m == p@.len(),
        i + m <= n,
    ensures
        r == substr_at(s@, p@, i as int),
{
    let mut j: usize = 0;
    loop
        invariant_except_break
            j <= m,
        invariant
            n == s@.len(),
            m == p@.len(),
            i + m <= n,
            forall|k: int| 0 <= k < j ==> s@[i + k] == p@[k],
        ensures
            j <= m,
            j < m ==> s@[i + j] != p@[j as int],
            j == m ==> forall|k: int| 0 <= k < m ==> s@[i + k] == p@[k],
        decreases m - j,
    {
        if j == m {
            break ;
        }
        if s.get_char(i + j) != p.get_char(j) {
            break ;
        }
        j = j + 1;
    }
    if j == m {
        proof {
            assert(s@.subrange(i as int, i + m) =~= p@);
        }
        true
    } else {
        proof {
            if substr_at(s@, p@, i as int) {
                assert(s@.subrange(i as int, i + m)[j as int] == p@[j as int]);
            }
        }
        false
    }
}

/// Substring search: whether `p` occurs anywhere in `s`, as `str::contains`
/// reports for literal patterns.
pub fn contains_substr(s: &str, p: &str) -> (r: bool)
    ensures
        r == has_substr(s@, p@),
{
    let n: usize = s.unicode_len();
    let m: usize = p.unicode_len();
    if m > n {
        return false;
    }
    if m == 0 {
        proof {
            assert(s@.subrange(0, 0) =~= p@);
            assert(substr_at(s@, p@, 0));
        }
        return true;
    }
    let mut i: usize = 0;
    let mut found: bool = false;
    loop
        invariant_except_break
            !found,
            i + m <= n,
        invariant
            n == s@.len(),
            m == p@.len(),
            1 <= m <= n,
            i <= n,
            forall|k: int| 0 <= k < i ==> !substr_at(s@, p@, k),
        ensures
            found ==> substr_at(s@, p@, i as int),
            !found ==> i + m > n && forall|k: int| 0 <= k < i ==> !substr_at(s@, p@, k),
        decreases n - i,
    {
        if matches_at(s, p, i, n, m) {
            found = true;
            break ;
        }
        i = i + 1;
        if i > n - m {
            break ;
        }
    }
    if found {
        proof {
            assert(has_substr(s@, p@));
        }
        true
    } else {
        proof {
            assert forall|k: int| !substr_at(s@, p@, k) by {
                if 0 <= k < i {
                    assert(!substr_at(s@, p@, k));
                }
            }
        }
        false
    }
}

/// String equality over views.
pub fn str_eq(a: &str, b: &str) -> (r: bool)
    ensures
        r == (a@ == b@),
{
    let n: usize = a.unicode_len();
    if n != b.unicode_len() {
        proof {
            if a@ == b@ {
                assert(a@.len() == b@.len());
            }
        }
        return false;
    }
    let mut i: usize = 0;
    while i < n
        invariant
            i <= n,
            n == a@.len(),
            n == b@.len(),
            forall|k: int| 0 <= k < i ==> a@[k] == b@[k],
        decreases n - i,
    {
        if a.get_char(i) != b.get_char(i) {
            proof {
                if a@ == b@ {
                    assert(a@[i as int] == b@[i as int]);
                }
            }
            return false;
        }
        i = i + 1;
    }
    proof {
        assert(a@ =~= b@);
    }
    true
}

/// Index just past the run of non-whitespace characters starting at `i`.
pub open spec fn token_end(s: Seq<char>, i: int) -> int
    recommends
        0 <= i <= s.len(),
    decreases s.len() - i,
{
    if i < s.len() && !char_is_space(s[i]) {
        token_end(s, i + 1)
    } else {
        i
    }
}

pub proof fn lemma_token_end_bounds(s: Seq<char>, i: int)
    requires
        0 <= i <= s.len(),
    ensures
        i <= token_end(s, i) <= s.len(),
        forall|k: int| i <= k < token_end(s, i) ==> !char_is_space(s[k]),
        token_end(s, i) < s.len() ==> char_is_space(s[token_end(s, i)]),
    decreases s.len() - i,
{
    if i < s.len() && !char_is_space(s[i]) {
        lemma_token_end_bounds(s, i + 1);
    }
}

/// The boundary found by a whitespace scan is the one `token_end` denotes.
pub proof fn lemma_token_end_unique(s: Seq<char>, i: int, e: int)
    requires
        0 <= i <= e <= s.len(),
        forall|k: int| i <= k < e ==> !char_is_space(s[k]),
        e == s.len() || char_is_space(s[e]),
    ensures
        token_end(s, i) == e,
{
    lemma_token_end_bounds(s, i);
    if token_end(s, i) < e {
        assert(char_is_space(s[token_end(s, i)]));
        assert(false);
    }
    if e < token_end(s, i) {
        assert(char_is_space(s[e]));
        assert(false);
    }
}

/// The whitespace-delimited tokens of `s[i..]`, in order, as
/// `str::split_whitespace` yields them.
pub open spec fn tokens_from(s: Seq<char>, i: int) -> Seq<Seq<char>>
    recommends
        0 <= i <= s.len(),
    decreases s.len() - i,
    via tokens_from_decreases
{
    if i < 0 || i >= s.len() {
        Seq::empty()
    } else if char_is_space(s[i]) {
        tokens_from(s, i + 1)
    } else {
        seq![s.subrange(i, token_end(s, i))] + tokens_from(s, token_end(s, i))
    }
}

#[via_fn]
proof fn tokens_from_decreases(s: Seq<char>, i: int) {
    if 0 <= i < s.len() && !char_is_space(s[i]) {
        lemma_token_end_bounds(s, i);
    }
}

/// A stretch that still holds a non-whitespace character yields at least one
/// token.
pub proof fn lemma_tokens_nonempty(s: Seq<char>, i: int)
    requires
        0 <= i <= s.len(),
        exists|k: int| i <= k < s.len() && !char_is_space(s[k]),
    ensures
        tokens_from(s, i).len() > 0,
    decreases s.len() - i,
{
    let k = choose|k: int| i <= k < s.len() && !char_is_space(s[k]);
    if char_is_space(s[i]) {
        assert(i + 1 <= k < s.len() && !char_is_space(s[k]));
        lemma_tokens_nonempty(s, i + 1);
    }
}

/// Split `s` into its whitespace-delimited tokens, as
/// `str::split_whitespace` collects them.
pub fn split_whitespace_of(s: &str) -> (r: Vec<String>)
    ensures
        r.deep_view() == tokens_from(s@, 0),
{
    let n: usize = s.unicode_len();
    let mut result: Vec<String> = Vec::new();
    let mut i: usize = 0;
    while i < n
        invariant
            i <= n,
            n == s@.len(),
            result.deep_view() + tokens_from(s@, i as int) == tokens_from(s@, 0),
        decreases n - i,
    {
        if is_space(s.get_char(i)) {
            i = i + 1;
        } else {
            let mut e: usize = i;
            loop
                invariant_except_break
                    e <= n,
                invariant
                    i <= e,
                    n == s@.len(),
                    forall|k: int| i <= k < e ==> !char_is_space(s@[k]),
                ensures
                    i <= e <= n,
                    e == n || char_is_space(s@[e as int]),
                    forall|k: int| i <= k < e ==> !char_is_space(s@[k]),
                decreases n - e,
            {
                if e == n {
                    break ;
                }
                if is_space(s.get_char(e)) {
                    break ;
                }
                e = e + 1;
            }
            proof {
                lemma_token_end_unique(s@, i as int, e as int);
            }
            let ghost old_result = result.deep_view();
            result.push(String::from_str(s.substring_char(i, e)));
            proof {
                assert(result.deep_view() =~= old_result + seq![s@.subrange(i as int, e as int)]);
                assert(result.deep_view() + tokens_from(s@, e as int) =~= tokens_from(s@, 0));
            }
            proof {
                if e == i {
                    assert(!char_is_space(s@[i as int]));
                    assert(char_is_space(s@[i as int]));
                }
            }
            i = e;
        }
    }
    proof {
        assert(result.deep_view() =~= tokens_from(s@, 0));
    }
    result
}

/// The first whitespace-delimited token of `s` (empty if `s` is all
/// whitespace), as `str::split_whitespace` would yield first.
pub open spec fn first_token(s: Seq<char>) -> Seq<char> {
    s.subrange(trim_lo(s), token_end(s, trim_lo(s)))
}

/// Executable form of [`first_token`], returning a slice of the input.
pub fn first_token_of<'a>(s: &'a str) -> (r: &'a str)
    ensures
        r@ == first_token(s@),
{
    proof {
        lemma_trim_lo_bounds(s@);
        lemma_token_end_bounds(s@, trim_lo(s@));
    }
    let n: usize = s.unicode_len();
    let mut a: usize = 0;
    loop
        invariant_except_break
            a <= n,
        invariant
            n == s@.len(),
            forall|k: int| 0 <= k < a ==> char_is_space(s@[k]),
        ensures
            a <= n,
            a == n || !char_is_space(s@[a as int]),
        decreases n - a,
    {
        if a == n {
            break ;
        }
        if !is_space(s.get_char(a)) {
            break ;
        }
        a = a + 1;
    }
    proof {
        if a < trim_lo(s@) {
            assert(char_is_space(s@[a as int]));
            assert(false);
        }
        if trim_lo(s@) < a {
            assert(char_is_space(s@[trim_lo(s@)]));
            assert(false);
        }
    }
    let mut e: usize = a;
    loop
        invariant_except_break
            e <= n,
        invariant
            a <= e,
            n == s@.len(),
            forall|k: int| a <= k < e ==> !char_is_space(s@[k]),
        ensures
            a <= e <= n,
            e == n || char_is_space(s@[e as int]),
            forall|k: int| a <= k < e ==> !char_is_space(s@[k]),
        decreases n - e,
    {
        if e == n {
            break ;
        }
        if is_space(s.get_char(e)) {
            break ;
        }
        e = e + 1;
    }
    proof {
        if e < token_end(s@, a as int) {
            assert(!char_is_space(s@[e as int]));
            assert(false);
        }
        if token_end(s@, a as int) < e {
            assert(char_is_space(s@[token_end(s@, a as int)]));
            assert(false);
        }
    }
    let r = s.substring_char(a, e);
    proof {
        assert(r@ =~= first_token(s@));
    }
    r
}

/// Number of bytes the UTF-8 encoding of `c` occupies.
pub open spec fn char_width(c: char) -> int {
    if (c as u32) < 0x80 {
        1
    } else if (c as u32) < 0x800 {
        2
    } else if (c as u32) < 0x10000 {
        3
    } else {
        4
    }
}

/// UTF-8 byte length of `l[i..]`.
pub open spec fn byte_len_from(l: Seq<char>, i: int) -> int
    decreases l.len() - i,
{
    if i < 0 || i >= l.len() {
        0
    } else {
        char_width(l[i]) + byte_len_from(l, i + 1)
    }
}

/// UTF-8 byte length of a string, as `str::len` reports it.
pub open spec fn byte_len(l: Seq<char>) -> int {
    byte_len_from(l, 0)
}

pub proof fn lemma_byte_len_from_nonneg(l: Seq<char>, i: int)
    ensures
        byte_len_from(l, i) >= 0,
    decreases l.len() - i,
{
    if 0 <= i < l.len() {
        lemma_byte_len_from_nonneg(l, i + 1);
    }
}

/// Executable form of [`char_width`].
pub fn char_width_of(c: char) -> (r: u8)
    ensures
        r == char_width(c),
{
    if (c as u32) < 0x80 {
        1
    } else if (c as u32) < 0x800 {
        2
    } else if (c as u32) < 0x10000 {
        3
    } else {
        4
    }
}

/// UTF-8 byte length of `s`, summed per character.
pub fn byte_len_of(s: &str) -> (r: u128)
    ensures
        r == byte_len(s@),
        r <= 4 * (usize::MAX as u128),
{
    let n: usize = s.unicode_len();
    let mut r: u128 = 0;
    let mut i: usize = 0;
    while i < n
        invariant
            i <= n,
            n == s@.len(),
            r <= 4 * (i as u128),
            r + byte_len_from(s@, i as int) == byte_len(s@),
        decreases n - i,
    {
        let w = char_width_of(s.get_char(i));
        r = r + (w as u128);
        i = i + 1;
    }
    r
}

/// A substring whose characters are all non-whitespace survives trimming:
/// if it occurs in `s`, it occurs in `trim_seq(s)`.
pub proof fn lemma_trim_preserves_substr(s: Seq<char>, p: Seq<char>)
    requires
        p.len() > 0,
        forall|k: int| 0 <= k < p.len() ==> !char_is_space(p[k]),
        has_substr(s, p),
    ensures
        has_substr(trim_seq(s), p),
{
    let i = choose|i: int| substr_at(s, p, i);
    lemma_trim_lo_bounds(s);
    lemma_trim_hi_bounds(s);
    let lo = trim_lo(s);
    let hi = trim_hi(s);
    assert(s.subrange(i, i + p.len())[0] == p[0]);
    assert(s[i] == p[0]);
    assert(!char_is_space(s[i]));
    assert(lo <= i);
    assert(s.subrange(i, i + p.len())[p.len() - 1] == p[p.len() - 1]);
    assert(s[i + p.len() - 1] == p[p.len() - 1]);
    assert(!char_is_space(s[i + p.len() - 1]));
    assert(i + p.len() - 1 < hi);
    let t = trim_seq(s);
    assert(t == s.subrange(lo, hi));
    assert(t.subrange(i - lo, i - lo + p.len()) =~= p) by {
        assert forall|k: int| 0 <= k < p.len() implies t.subrange(i - lo, i - lo + p.len())[k]
            == p[k] by {
            assert(t[i - lo + k] == s[i + k]);
            assert(s.subrange(i, i + p.len())[k] == p[k]);
        }
    }
    assert(substr_at(t, p, i - lo));
}

} // verus!
