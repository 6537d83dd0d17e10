//! ANSI color formatting for the console, specified as exact escape-code
//! framing of the text. The escape writing itself is delegated to the
//! `owo_colors` crate through trusted wrappers.

use owo_colors::OwoColorize;
use vstd::prelude::*;

verus! {

/// `text` framed by an ANSI foreground color code and the default-foreground
/// reset.
pub open spec fn fg_wrapped(code: Seq<char>, text: Seq<char>) -> Seq<char> {
    code + text + "\x1b[39m"@
}

/// `text` framed by the dim attribute around an ANSI foreground color code,
/// closed by the foreground reset and the full style reset.
pub open spec fn dim_fg_wrapped(code: Seq<char>, text: Seq<char>) -> Seq<char> {
    "\x1b[2m"@ + code + text + "\x1b[39m"@ + "\x1b[0m"@
}

/// Relies on owo_colors's `OwoColorize::cyan`: its display writes the cyan
/// foreground code, the text, then the default-foreground reset.
#[verifier::external_body]
fn paint_cyan(text: &str) -> (r: String)
    ensures
        r@ == fg_wrapped("\x1b[36m"@, text@),
{
    format!("{}", text.cyan())
}

/// Relies on owo_colors's `OwoColorize::bright_black`: its display writes
/// the bright-black foreground code, the text, then the default-foreground
/// reset.
#[verifier::external_body]
fn paint_bright_black(text: &str) -> (r: String)
    ensures
        r@ == fg_wrapped("\x1b[90m"@, text@),
{
    format!("{}", text.bright_black())
}

/// Relies on owo_colors's `OwoColorize::bright_red`: its display writes the
/// bright-red foreground code, the text, then the default-foreground reset.
#[verifier::external_body]
fn paint_bright_red(text: &str) -> (r: String)
    ensures
        r@ == fg_wrapped("\x1b[91m"@, text@),
{
    format!("{}", text.bright_red())
}

/// Relies on owo_colors's `OwoColorize::bright_green`: its display writes
/// the bright-green foreground code, the text, then the default-foreground
/// reset.
#[verifier::external_body]
fn paint_bright_green(text: &str) -> (r: String)
    ensures
        r@ == fg_wrapped("\x1b[92m"@, text@),
{
    format!("{}", text.bright_green())
}

/// Relies on owo_colors's `OwoColorize::magenta` composed with
/// `OwoColorize::dimmed`: the dim wrapper frames the magenta-framed text
/// with the dim attribute and the full style reset.
#[verifier::external_body]
fn paint_magenta_dimmed(text: &str) -> (r: String)
    ensures
        r@ == dim_fg_wrapped("\x1b[35m"@, text@),
{
    format!("{}", text.magenta().dimmed())
}

/// Relies on owo_colors's `OwoColorize::green` composed with
/// `OwoColorize::dimmed`: the dim wrapper frames the green-framed text with
/// the dim attribute and the full style reset.
#[verifier::external_body]
fn paint_green_dimmed(text: &str) -> (r: String)
    ensures
        r@ == dim_fg_wrapped("\x1b[32m"@, text@),
{
    format!("{}", text.green().dimmed())
}

/// Format prompt numbers and token counts in cyan/blue.
pub fn color_prompt_number(text: &str) -> (r: String)
    ensures
        r@ == fg_wrapped("\x1b[36m"@, text@),
{
    paint_cyan(text)
}

/// Format debug messages (e.g., tool calls) in dark gray.
pub fn color_debug(text: &str) -> (r: String)
    ensures
        r@ == fg_wrapped("\x1b[90m"@, text@),
{
    paint_bright_black(text)
}

/// Format error messages in bright red.
pub fn color_error(text: &str) -> (r: String)
    ensures
        r@ == fg_wrapped("\x1b[91m"@, text@),
{
    paint_bright_red(text)
}

/// Format warning messages in dim magenta.
pub fn color_warning(text: &str) -> (r: String)
    ensures
        r@ == dim_fg_wrapped("\x1b[35m"@, text@),
{
    paint_magenta_dimmed(text)
}

/// Format success messages in bright green.
pub fn color_success(text: &str) -> (r: String)
    ensures
        r@ == fg_wrapped("\x1b[92m"@, text@),
{
    paint_bright_green(text)
}

/// Format status messages (loading/ready) in dim green.
pub fn color_status(text: &str) -> (r: String)
    ensures
        r@ == dim_fg_wrapped("\x1b[32m"@, text@),
{
    paint_green_dimmed(text)
}

/// Format dim text (e.g., normal text in prompt) in gray.
pub fn color_dim(text: &str) -> (r: String)
    ensures
        r@ == fg_wrapped("\x1b[90m"@, text@),
{
    paint_bright_black(text)
}

} // verus!
