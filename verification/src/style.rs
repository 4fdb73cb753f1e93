//! Color and weight styling, through the `colored` crate.
//!
//! Whether any escape sequences are emitted depends on the environment (a
//! tty, `NO_COLOR`, and the like), so nothing exact can be promised about
//! the styled bytes.  What does hold of every outcome: as long as the text
//! itself holds no escape character, the styled string is the text with
//! some prefix and suffix around it — `colored` either passes the text
//! through or brackets it with escape sequences.

use vstd::prelude::*;
use crate::render::wraps;
use colored::Colorize;

verus! {

/// Relies on colored's `Colorize::bold` and `Colorize::blue`: the display
/// of the result brackets the input with escape sequences, or is the input
/// itself when colors are off.
#[verifier::external_body]
pub(crate) fn paint_bold_blue(s: &str) -> (r: String)
    ensures
        !s@.contains('\u{1b}') ==> wraps(r@, s@),
{
    format!("{}", s.bold().blue())
}

/// Relies on colored's `Colorize::bold` and `Colorize::green`, as
/// `paint_bold_blue` relies on bold and blue.
#[verifier::external_body]
pub(crate) fn paint_bold_green(s: &str) -> (r: String)
    ensures
        !s@.contains('\u{1b}') ==> wraps(r@, s@),
{
    format!("{}", s.bold().green())
}

/// Relies on colored's `Colorize::bold` and `Colorize::yellow`, as
/// `paint_bold_blue` relies on bold and blue.
#[verifier::external_body]
pub(crate) fn paint_bold_yellow(s: &str) -> (r: String)
    ensures
        !s@.contains('\u{1b}') ==> wraps(r@, s@),
{
    format!("{}", s.bold().yellow())
}

/// Relies on colored's `Colorize::bold` and `Colorize::cyan`, as
/// `paint_bold_blue` relies on bold and blue.
#[verifier::external_body]
pub(crate) fn paint_bold_cyan(s: &str) -> (r: String)
    ensures
        !s@.contains('\u{1b}') ==> wraps(r@, s@),
{
    format!("{}", s.cyan().bold())
}

/// Relies on colored's `Colorize::cyan`, as `paint_bold_blue` relies on
/// bold and blue.
#[verifier::external_body]
pub(crate) fn paint_cyan(s: &str) -> (r: String)
    ensures
        !s@.contains('\u{1b}') ==> wraps(r@, s@),
{
    format!("{}", s.cyan())
}

/// Relies on colored's `Colorize::white`, as `paint_bold_blue` relies on
/// bold and blue.
#[verifier::external_body]
pub(crate) fn paint_white(s: &str) -> (r: String)
    ensures
        !s@.contains('\u{1b}') ==> wraps(r@, s@),
{
    format!("{}", s.white())
}

/// Relies on colored's `Colorize::dimmed`, as `paint_bold_blue` relies on
/// bold and blue.
#[verifier::external_body]
pub(crate) fn paint_dimmed(s: &str) -> (r: String)
    ensures
        !s@.contains('\u{1b}') ==> wraps(r@, s@),
{
    format!("{}", s.dimmed())
}

} // verus!
