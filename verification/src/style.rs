//! Terminal styling through the `console` crate.
use vstd::prelude::*;

verus! {

/// `console::colors_enabled`: whether stdout styling is on.  It depends on
/// the terminal and the environment, so nothing is stated of it.
#[verifier::external_body]
pub(crate) fn colors_enabled() -> bool {
    console::colors_enabled()
}

/// The escape code that ends a style.
pub open spec fn reset_code() -> Seq<char> {
    "\x1b[0m"@
}

/// The escape code of the dim attribute.
pub open spec fn dim_code() -> Seq<char> {
    "\x1b[2m"@
}

/// The escape code of the bold attribute.
pub open spec fn bold_code() -> Seq<char> {
    "\x1b[1m"@
}

/// The escape code of the yellow foreground.
pub open spec fn yellow_code() -> Seq<char> {
    "\x1b[33m"@
}

/// The escape code of the red foreground.
pub open spec fn red_code() -> Seq<char> {
    "\x1b[31m"@
}

/// The escape codes of the red foreground with the bold attribute.
pub open spec fn red_bold_code() -> Seq<char> {
    "\x1b[31m\x1b[1m"@
}

/// The escape code of the green foreground.
pub open spec fn green_code() -> Seq<char> {
    "\x1b[32m"@
}

/// The escape code of the cyan foreground.
pub open spec fn cyan_code() -> Seq<char> {
    "\x1b[36m"@
}

/// `t` is `s` shown with the style whose escape code is `code`: `s` alone
/// when stdout styling is off, else the code, `s` and the reset code.
pub open spec fn styled_as(t: Seq<char>, code: Seq<char>, s: Seq<char>) -> bool {
    t == s || t == code + s + reset_code()
}

/// `console::style(s).dim()` shown as text: `s` with the dim escape code before
/// it and the reset code after it when stdout styling is on, else `s` alone
/// (the `Display` of console's `StyledObject`).
#[verifier::external_body]
pub(crate) fn dim(s: &str) -> (r: String)
    ensures
        styled_as(r@, dim_code(), s@),
{
    format!("{}", console::style(s).dim())
}

/// `console::style(s).bold()` shown as text (see [`dim`]).
#[verifier::external_body]
pub(crate) fn bold(s: &str) -> (r: String)
    ensures
        styled_as(r@, bold_code(), s@),
{
    format!("{}", console::style(s).bold())
}

/// `console::style(s).yellow()` shown as text (see [`dim`]).
#[verifier::external_body]
pub(crate) fn yellow(s: &str) -> (r: String)
    ensures
        styled_as(r@, yellow_code(), s@),
{
    format!("{}", console::style(s).yellow())
}

/// `console::style(s).red().bold()` shown as text (see [`dim`]).
#[verifier::external_body]
pub(crate) fn red_bold(s: &str) -> (r: String)
    ensures
        styled_as(r@, red_bold_code(), s@),
{
    format!("{}", console::style(s).red().bold())
}

/// `console::style(s).red()` shown as text (see [`dim`]).
#[verifier::external_body]
pub(crate) fn red(s: &str) -> (r: String)
    ensures
        styled_as(r@, red_code(), s@),
{
    format!("{}", console::style(s).red())
}

/// `console::style(s).green()` shown as text (see [`dim`]).
#[verifier::external_body]
pub(crate) fn green(s: &str) -> (r: String)
    ensures
        styled_as(r@, green_code(), s@),
{
    format!("{}", console::style(s).green())
}

/// `console::style(s).cyan()` shown as text (see [`dim`]).
#[verifier::external_body]
pub(crate) fn cyan(s: &str) -> (r: String)
    ensures
        styled_as(r@, cyan_code(), s@),
{
    format!("{}", console::style(s).cyan())
}

} // verus!
