//! Indentation of the lines of a text, as `indent_write` does it.

use std::fmt::Write;

use indent_write::fmt::IndentWriter;
use vstd::prelude::*;

verus! {

/// `text` with `indent` put before each non-empty line: before every
/// character other than a newline that starts a line. `at_line_start` says
/// whether the first character starts a line.
pub open spec fn indented(text: Seq<char>, indent: Seq<char>, at_line_start: bool) -> Seq<char>
    decreases text.len(),
{
    if text.len() == 0 {
        Seq::empty()
    } else if text[0] == '\n' {
        seq!['\n'] + indented(text.drop_first(), indent, true)
    } else {
        (if at_line_start { indent } else { Seq::empty() }) + seq![text[0]] + indented(
            text.drop_first(),
            indent,
            false,
        )
    }
}

/// Writes `text` through `indent_write::fmt::IndentWriter::new(indent, ..)`
/// into a new string.
///
/// Trusted: the writer (`fmt.rs` of `indent_write`) starts at the start of a
/// line; it writes the indent before each character other than a newline
/// that starts a line, and a newline starts a new line. The result is the
/// same whether the text is written at once or in pieces.
#[verifier::external_body]
pub(crate) fn indent_lines(indent: &str, text: &str) -> (r: String)
    ensures
        r@ == indented(text@, indent@, true),
{
    let mut out = String::new();
    let mut writer = IndentWriter::new(indent, &mut out);
    let _ = writer.write_str(text);
    out
}

/// Writes `text` through
/// `indent_write::fmt::IndentWriter::new_skip_initial(indent, ..)` into a
/// new string.
///
/// Trusted: the same writer as [`indent_lines`], except that it starts as
/// if in the middle of a line, so the first line gets no indent.
#[verifier::external_body]
pub(crate) fn indent_lines_after_first(indent: &str, text: &str) -> (r: String)
    ensures
        r@ == indented(text@, indent@, false),
{
    let mut out = String::new();
    let mut writer = IndentWriter::new_skip_initial(indent, &mut out);
    let _ = writer.write_str(text);
    out
}

} // verus!
