//! Console text assembly: display truncation at UTF-8 boundaries, the token
//! prompt line, and the agent preamble.

use vstd::prelude::*;

use crate::colors::{
    color_dim, color_prompt_number, dim_fg_wrapped, fg_wrapped,
};
use crate::text::{byte_len, byte_len_of, char_width, char_width_of};

verus! {

/// Where the byte-bounded cut falls: the count of leading characters whose
/// starting byte offset lies below `max`, scanning from character `i` at
/// offset `off`.
pub open spec fn cut_index(s: Seq<char>, max: int, i: int, off: int) -> int
    decreases s.len() - i,
{
    if i < 0 || i >= s.len() {
        i
    } else if off >= max {
        i
    } else {
        cut_index(s, max, i + 1, off + char_width(s[i]))
    }
}

/// `s` unchanged when it fits in `max_len` bytes, else the characters that
/// start below the byte bound, with an ellipsis appended.
pub open spec fn truncated_display(s: Seq<char>, max_len: int) -> Seq<char> {
    if byte_len(s) <= max_len {
        s
    } else {
        s.subrange(0, cut_index(s, max_len, 0, 0)) + "..."@
    }
}

proof fn lemma_cut_index_bounds(s: Seq<char>, max: int, i: int, off: int)
    requires
        0 <= i <= s.len(),
    ensures
        i <= cut_index(s, max, i, off) <= s.len(),
    decreases s.len() - i,
{
    if i < s.len() && off < max {
        lemma_cut_index_bounds(s, max, i + 1, off + char_width(s[i]));
    }
}

/// Truncate long strings with an ellipsis for display, cutting only at a
/// character boundary: every character whose starting byte offset lies below
/// `max_len` is kept whole.
pub fn truncate_display(s: &str, max_len: usize) -> (r: String)
    ensures
        r@ == truncated_display(s@, max_len as int),
{
    let total: u128 = byte_len_of(s);
    if total <= max_len as u128 {
        return String::from_str(s);
    }
    let n: usize = s.unicode_len();
    let mut i: usize = 0;
    let mut off: u128 = 0;
    while i < n && off < max_len as u128
        invariant
            i <= n,
            n == s@.len(),
            off <= 4 * (i as u128),
            cut_index(s@, max_len as int, i as int, off as int) == cut_index(
                s@,
                max_len as int,
                0,
                0,
            ),
        decreases n - i,
    {
        let w = char_width_of(s.get_char(i));
        off = off + (w as u128);
        i = i + 1;
    }
    proof {
        lemma_cut_index_bounds(s@, max_len as int, 0, 0);
    }
    let mut out = String::from_str(s.substring_char(0, i));
    out.append("...");
    out
}

/// The prompt line for the given formatted token counts: the labels dimmed,
/// the numbers in the prompt color, the cached count parenthesized when
/// present.
pub open spec fn prompt_text(input: Seq<char>, cached: Option<Seq<char>>, output: Seq<char>) -> Seq<
    char,
> {
    let label_in = fg_wrapped("\x1b[90m"@, "in"@);
    let label_out = fg_wrapped("\x1b[90m"@, "out"@);
    let label_cached = fg_wrapped("\x1b[90m"@, "cached"@);
    let number_in = fg_wrapped("\x1b[36m"@, input);
    let number_out = fg_wrapped("\x1b[36m"@, output);
    match cached {
        Some(c) => label_in + " "@ + number_in + " ("@ + fg_wrapped("\x1b[36m"@, c) + " "@
            + label_cached + "), "@ + label_out + " "@ + number_out + "> "@,
        None => label_in + " "@ + number_in + ", "@ + label_out + " "@ + number_out + "> "@,
    }
}

/// Generate the prompt string from already-formatted token counts; the
/// cached count appears only when one is given.
pub fn format_prompt_text(input: &str, cached: Option<&str>, output: &str) -> (r: String)
    ensures
        r@ == prompt_text(
            input@,
            match cached {
                Some(c) => Some(c@),
                None => None,
            },
            output@,
        ),
{
    let mut out = color_dim("in");
    out.append(" ");
    out.append(color_prompt_number(input).as_str());
    match cached {
        Some(c) => {
            out.append(" (");
            out.append(color_prompt_number(c).as_str());
            out.append(" ");
            out.append(color_dim("cached").as_str());
            out.append("), ");
        },
        None => {
            out.append(", ");
        },
    }
    out.append(color_dim("out").as_str());
    out.append(" ");
    out.append(color_prompt_number(output).as_str());
    out.append("> ");
    proof {
        assert(out@ =~= prompt_text(
            input@,
            match cached {
                Some(c) => Some(c@),
                None => None,
            },
            output@,
        ));
    }
    out
}

/// The preamble used when the target directory offers none of its own.
pub open spec fn default_preamble() -> Seq<char> {
    "You are a helpful search assistant. You can read files and execute safe bash commands to help users explore and understand their codebase."@
}

/// The preamble text: the directory's own preamble when one was found, else
/// the default, with the directory listing appended when one is available.
pub open spec fn preamble_text(custom: Option<Seq<char>>, file_list: Option<Seq<char>>) -> Seq<
    char,
> {
    let base = match custom {
        Some(c) => c,
        None => default_preamble(),
    };
    match file_list {
        Some(l) => base + "\n\n## Available Files\n\n"@
            + "The following files are available in the working directory:\n\n"@ + l,
        None => base,
    }
}

/// Assemble the agent preamble from an optional custom preamble and an
/// optional directory listing.
pub fn build_preamble(custom: Option<&str>, file_list: Option<&str>) -> (r: String)
    ensures
        r@ == preamble_text(
            match custom {
                Some(c) => Some(c@),
                None => None,
            },
            match file_list {
                Some(l) => Some(l@),
                None => None,
            },
        ),
{
    let mut out = match custom {
        Some(c) => String::from_str(c),
        None => String::from_str(
            "You are a helpful search assistant. You can read files and execute safe bash commands to help users explore and understand their codebase.",
        ),
    };
    match file_list {
        Some(l) => {
            out.append("\n\n## Available Files\n\n");
            out.append("The following files are available in the working directory:\n\n");
            out.append(l);
        },
        None => {},
    }
    proof {
        assert(out@ =~= preamble_text(
            match custom {
                Some(c) => Some(c@),
                None => None,
            },
            match file_list {
                Some(l) => Some(l@),
                None => None,
            },
        ));
    }
    out
}

} // verus!
