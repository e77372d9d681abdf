//! Outside types that run through the library's signatures.
use vstd::prelude::*;

verus! {

/// `anyhow::Error`, carried through as an opaque value.
#[verifier::external_type_specification]
#[verifier::external_body]
pub struct ExAnyhowError(anyhow::Error);

/// `std::path::Path`, carried through as an opaque value.
#[verifier::external_type_specification]
#[verifier::external_body]
pub struct ExPath(std::path::Path);

/// `std::path::PathBuf`, carried through as an opaque value.
#[verifier::external_type_specification]
#[verifier::external_body]
pub struct ExPathBuf(std::path::PathBuf);

/// The path shown for humans, through `Path::display`; the text is not stated
/// (non-Unicode parts are replaced).
#[verifier::external_body]
pub(crate) fn path_text(p: &std::path::PathBuf) -> String {
    format!("{}", p.display())
}

/// The message of the cause behind an `anyhow::Error` (its `source()`), when
/// there is one; the text is not stated.
#[verifier::external_body]
pub(crate) fn anyhow_source_text(e: &anyhow::Error) -> Option<String> {
    match std::error::Error::source(&**e) {
        Some(cause) => Some(cause.to_string()),
        None => None,
    }
}

/// Whether a character has the Unicode `Uppercase` property, as
/// `char::is_uppercase` answers.
pub uninterp spec fn unicode_uppercase(c: char) -> bool;

/// `char::is_uppercase`: whether `c` has the Unicode `Uppercase` property.
/// The result is named by [`unicode_uppercase`]; ASCII capitals have it and
/// ASCII lowercase letters do not.
#[verifier::external_body]
pub(crate) fn char_is_uppercase(c: char) -> (r: bool)
    ensures
        r == unicode_uppercase(c),
        'A' <= c <= 'Z' ==> r,
        'a' <= c <= 'z' ==> !r,
{
    c.is_uppercase()
}

/// The Unicode lowercase mapping of a string, as `str::to_lowercase` gives it.
pub uninterp spec fn unicode_lowercase(s: Seq<char>) -> Seq<char>;

/// `str::to_lowercase`: the string with every character mapped to its Unicode
/// lowercase form.  The result is named by [`unicode_lowercase`].
#[verifier::external_body]
pub(crate) fn str_to_lowercase(s: &str) -> (r: String)
    ensures
        r@ == unicode_lowercase(s@),
{
    s.to_lowercase()
}

/// `Path::join`: `rel` appended to `root` as a path.  What the joined path
/// holds is not stated (it follows the platform's separator rules).
#[verifier::external_body]
pub(crate) fn join_path(root: &std::path::Path, rel: &str) -> std::path::PathBuf {
    root.join(rel)
}

/// `PathBuf::as_path`: the path as a borrowed `Path`; nothing needs stating.
pub assume_specification[std::path::PathBuf::as_path](p: &std::path::PathBuf) -> &std::path::Path;

/// `Path::exists`: whether something exists at `p` on the file system right
/// now.  It depends on the disk, so nothing is stated of the answer.
#[verifier::external_body]
pub(crate) fn path_exists(p: &std::path::PathBuf) -> bool {
    p.exists()
}

/// `anyhow::Error::context`: the error with `msg` as its new outermost
/// message and the old error as its cause.  Nothing is stated of the opaque
/// result.
#[verifier::external_body]
pub(crate) fn with_context(e: anyhow::Error, msg: String) -> anyhow::Error {
    e.context(msg)
}

/// `anyhow::Error::msg`: an error whose message is `m`.  Nothing is stated
/// of the opaque result.
#[verifier::external_body]
pub(crate) fn error_msg(m: String) -> anyhow::Error {
    anyhow::Error::msg(m)
}

/// How `format!("{:?}", s)` shows a string: in double quotes, with special
/// characters escaped.
pub uninterp spec fn debug_quoted(s: Seq<char>) -> Seq<char>;

/// `<str as Debug>::fmt`: the string quoted and escaped.  The result is
/// named by [`debug_quoted`].
#[verifier::external_body]
pub(crate) fn debug_text(s: &str) -> (r: String)
    ensures
        r@ == debug_quoted(s@),
{
    format!("{:?}", s)
}

} // verus!
