//! Quote-aware splitting of a command string into pipeline stages.
//!
//! A delimiter character is a split point only while neither single- nor
//! double-quote mode is active; the quote modes toggle on unescaped quote
//! characters, tracked by a small state machine over the character stream.

use vstd::prelude::*;

verus! {

/// One step of the quote-tracking state machine: `(sq, dq)` are the
/// single-/double-quote modes before character `c`, whose predecessor in the
/// stream is `prev` (`'\0'` at the start).
pub open spec fn quote_step(sq: bool, dq: bool, prev: char, c: char) -> (bool, bool) {
    if c == '\'' && prev != '\\' && !dq {
        (!sq, dq)
    } else if c == '"' && prev != '\\' && !sq {
        (sq, !dq)
    } else {
        (sq, dq)
    }
}

/// The character preceding index `i`, or `'\0'` at the start of the stream.
pub open spec fn prev_char(s: Seq<char>, i: int) -> char {
    if i == 0 {
        '\0'
    } else {
        s[i - 1]
    }
}

/// Quote modes after the first `n` characters of `s` have been processed.
pub open spec fn quote_state(s: Seq<char>, n: int) -> (bool, bool)
    decreases n,
{
    if n <= 0 {
        (false, false)
    } else {
        let prior = quote_state(s, n - 1);
        quote_step(prior.0, prior.1, prev_char(s, n - 1), s[n - 1])
    }
}

/// Index `i` holds the delimiter outside of any quoted span, so a stage
/// boundary falls there.
pub open spec fn is_split_at(s: Seq<char>, d: char, i: int) -> bool {
    0 <= i < s.len() && s[i] == d && quote_state(s, i + 1) == (false, false)
}

/// The stages of `s[start..]` given that scanning resumes at index `i`;
/// a trailing delimiter yields one final empty stage.
pub open spec fn split_from(s: Seq<char>, d: char, i: int, start: int) -> Seq<Seq<char>>
    recommends
        0 <= start <= i <= s.len(),
    decreases s.len() - i,
{
    if i >= s.len() {
        if start < s.len() {
            seq![s.subrange(start, s.len() as int)]
        } else {
            seq![Seq::empty()]
        }
    } else if is_split_at(s, d, i) {
        seq![s.subrange(start, i)] + split_from(s, d, i + 1, i + 1)
    } else {
        split_from(s, d, i + 1, start)
    }
}

/// The pipeline stages of `s`: the segments between unquoted occurrences of
/// the delimiter `d`.
pub open spec fn split_stages(s: Seq<char>, d: char) -> Seq<Seq<char>> {
    split_from(s, d, 0, 0)
}

/// Number of unquoted occurrences of the delimiter at indices `>= i`.
pub open spec fn unquoted_delims(s: Seq<char>, d: char, i: int) -> int
    decreases s.len() - i,
{
    if i >= s.len() {
        0
    } else {
        (if is_split_at(s, d, i) {
            1int
        } else {
            0int
        }) + unquoted_delims(s, d, i + 1)
    }
}

proof fn lemma_split_from_len(s: Seq<char>, d: char, i: int, start: int)
    requires
        0 <= start <= i <= s.len(),
    ensures
        split_from(s, d, i, start).len() == 1 + unquoted_delims(s, d, i),
    decreases s.len() - i,
{
    if i < s.len() {
        if is_split_at(s, d, i) {
            lemma_split_from_len(s, d, i + 1, i + 1);
        } else {
            lemma_split_from_len(s, d, i + 1, start);
        }
    }
}

/// The number of stages is one more than the number of unquoted delimiter
/// occurrences: a delimiter inside a quoted span never contributes a stage.
pub proof fn lemma_stage_count(s: Seq<char>, d: char)
    ensures
        split_stages(s, d).len() == 1 + unquoted_delims(s, d, 0),
{
    lemma_split_from_len(s, d, 0, 0);
}

proof fn lemma_no_unquoted_delims(s: Seq<char>, d: char, i: int)
    requires
        0 <= i,
        forall|k: int| 0 <= k < s.len() && s[k] == d ==> quote_state(s, k + 1) != (false, false),
    ensures
        unquoted_delims(s, d, i) == 0,
    decreases s.len() - i,
{
    if i < s.len() {
        lemma_no_unquoted_delims(s, d, i + 1);
    }
}

/// Quote-awareness of the split: when every occurrence of the delimiter lies
/// inside a quoted span, the whole string is a single stage.
pub proof fn lemma_quoted_delimiters_never_split(s: Seq<char>, d: char)
    requires
        forall|k: int| 0 <= k < s.len() && s[k] == d ==> quote_state(s, k + 1) != (false, false),
    ensures
        split_stages(s, d).len() == 1,
{
    lemma_stage_count(s, d);
    lemma_no_unquoted_delims(s, d, 0);
}

/// The stages of `s`, joined back together with the delimiter `d`.
pub open spec fn join_with(stages: Seq<Seq<char>>, d: char) -> Seq<char>
    decreases stages.len(),
{
    if stages.len() == 0 {
        Seq::empty()
    } else if stages.len() == 1 {
        stages[0]
    } else {
        stages[0] + seq![d] + join_with(stages.drop_first(), d)
    }
}

proof fn lemma_split_from_join(s: Seq<char>, d: char, i: int, start: int)
    requires
        0 <= start <= i <= s.len(),
    ensures
        join_with(split_from(s, d, i, start), d) == s.subrange(start, s.len() as int),
    decreases s.len() - i,
{
    if i >= s.len() {
        if start < s.len() {
        } else {
            assert(s.subrange(start, s.len() as int) =~= Seq::<char>::empty());
        }
    } else if is_split_at(s, d, i) {
        lemma_split_from_join(s, d, i + 1, i + 1);
        let rest = split_from(s, d, i + 1, i + 1);
        let all = seq![s.subrange(start, i)] + rest;
        assert(all.drop_first() =~= rest);
        assert(all[0] == s.subrange(start, i));
        assert(rest.len() >= 1) by {
            lemma_split_from_len(s, d, i + 1, i + 1);
            lemma_unquoted_delims_nonneg(s, d, i + 1);
        }
        assert(s.subrange(start, i) + seq![d] + s.subrange(i + 1, s.len() as int) =~= s.subrange(
            start,
            s.len() as int,
        ));
    } else {
        lemma_split_from_join(s, d, i + 1, start);
    }
}

proof fn lemma_unquoted_delims_nonneg(s: Seq<char>, d: char, i: int)
    ensures
        unquoted_delims(s, d, i) >= 0,
    decreases s.len() - i,
{
    if i < s.len() {
        lemma_unquoted_delims_nonneg(s, d, i + 1);
    }
}

/// No content is lost or reordered by splitting: joining the stages with the
/// delimiter reproduces the input exactly.
pub proof fn lemma_join_of_split(s: Seq<char>, d: char)
    ensures
        join_with(split_stages(s, d), d) == s,
{
    lemma_split_from_join(s, d, 0, 0);
    assert(s.subrange(0, s.len() as int) =~= s);
}

/// Split `s` on `delimiter`, treating delimiter characters inside single- or
/// double-quoted spans as literal text rather than stage boundaries.
pub fn split_with_quotes(s: &str, delimiter: char) -> (r: Vec<String>)
    ensures
        r.deep_view() == split_stages(s@, delimiter),
{
    let n: usize = s.unicode_len();
    let mut result: Vec<String> = Vec::new();
    let mut start: usize = 0;
    let mut in_single: bool = false;
    let mut in_double: bool = false;
    let mut prev: char = '\0';
    let mut i: usize = 0;
    while i < n
        invariant
            i <= n,
            start <= i,
            n == s@.len(),
            (in_single, in_double) == quote_state(s@, i as int),
            prev == prev_char(s@, i as int),
            result.deep_view() + split_from(s@, delimiter, i as int, start as int) == split_stages(
                s@,
                delimiter,
            ),
        decreases n - i,
    {
        let c = s.get_char(i);
        if c == '\'' && prev != '\\' && !in_double {
            in_single = !in_single;
        } else if c == '"' && prev != '\\' && !in_single {
            in_double = !in_double;
        }
        proof {
            assert((in_single, in_double) == quote_state(s@, i + 1));
        }
        if c == delimiter && !in_single && !in_double {
            let ghost old_result = result.deep_view();
            let stage = String::from_str(s.substring_char(start, i));
            result.push(stage);
            proof {
                assert(result.deep_view() =~= old_result + seq![s@.subrange(
                    start as int,
                    i as int,
                )]);
                assert(result.deep_view() + split_from(s@, delimiter, i + 1, i + 1)
                    =~= split_stages(s@, delimiter));
            }
            start = i + 1;
        }
        prev = c;
        i = i + 1;
    }
    let ghost old_result = result.deep_view();
    if start < n {
        let stage = String::from_str(s.substring_char(start, n));
        result.push(stage);
        proof {
            assert(result.deep_view() =~= old_result + seq![s@.subrange(start as int, n as int)]);
        }
    } else {
        result.push(String::new());
        proof {
            assert(result.deep_view() =~= old_result + seq![Seq::<char>::empty()]);
        }
    }
    proof {
        assert(result.deep_view() =~= split_stages(s@, delimiter));
    }
    result
}

} // verus!
