//! Errors of the Cachet parser: where they occurred and how they read.

use vstd::prelude::*;

use crate::span::{ExternalSpan, FileId, RawSpan, Span, Spanned};
use crate::text::{join, lemma_join_push, push_char, push_str};

verus! {

broadcast use vstd::string::axiom_spec_iter;

/// What went wrong while parsing, with byte offsets into the source file.
pub enum RawParseError {
    /// A character sequence that forms no token.
    InvalidToken { location: usize },
    /// The input ended where one of `expected` should have come.
    UnrecognizedEOF { location: usize, expected: Vec<String> },
    /// A token (start, text, end) came where one of `expected` should have.
    UnrecognizedToken { token: (usize, String, usize), expected: Vec<String> },
    /// A token (start, text, end) came after a complete input.
    ExtraToken { token: (usize, String, usize) },
    /// An error that a grammar action reported.
    User { error: Spanned<String> },
}

/// A parse error in a given source file.
pub struct ParseError {
    file_id: FileId,
    error: RawParseError,
}

/// The span of `start..end` in file `file_id`, with the offsets taken as
/// 32-bit file positions.
pub open spec fn offsets_span(file_id: FileId, start: usize, end: usize) -> Span {
    Span::External(ExternalSpan { file_id, span: RawSpan { start: start as u32, end: end as u32 } })
}

/// The name under which an expected token is reported: a readable name for
/// the identifier and literal patterns, and otherwise the token itself with
/// its double quotes turned into backquotes.
pub open spec fn token_name(item: Seq<char>) -> Seq<char> {
    if item == "r#\"[A-Za-z_][A-Za-z0-9_]*\"#"@ {
        "identiifer"@
    } else if item == "r#\"[0-9]+_u16\"#"@ {
        "UInt16 literal"@
    } else if item == "r#\"[0-9]+_i32\"#"@ {
        "Int32 literal"@
    } else if item == "r#\"[0-9]+_i64\"#"@ {
        "Int64 literal"@
    } else if item == "r#\"[0-9]+.[0-9]+\"#"@ {
        "Double literal"@
    } else {
        item.map_values(|c: char| if c == '"' { '`' } else { c })
    }
}

/// The items, separated by `, ` except the last, which follows ` or `.
pub open spec fn join_or(items: Seq<Seq<char>>) -> Seq<char> {
    if items.len() <= 1 {
        join(items, ", "@)
    } else {
        join(items.drop_last(), ", "@) + " or "@ + items.last()
    }
}

/// The views of a sequence of strings.
pub open spec fn strings_view(items: Seq<String>) -> Seq<Seq<char>> {
    items.map_values(|s: String| s@)
}

/// `; expected <names>`, or nothing when no token was expected.
pub open spec fn expected_text(expected: Seq<Seq<char>>) -> Seq<char> {
    if expected.len() == 0 {
        Seq::empty()
    } else {
        "; expected "@ + join_or(expected.map_values(|t: Seq<char>| token_name(t)))
    }
}

impl RawParseError {
    /// The message that describes the error.
    pub open spec fn message(&self) -> Seq<char> {
        match self {
            RawParseError::InvalidToken { .. } => "invalid token"@,
            RawParseError::UnrecognizedEOF { expected, .. } => "unexpected end of input"@
                + expected_text(strings_view(expected@)),
            RawParseError::UnrecognizedToken { token, expected } => "unexpected token `"@
                + token.1@ + "`"@ + expected_text(strings_view(expected@)),
            RawParseError::ExtraToken { token } => "extra token `"@ + token.1@ + "`"@,
            RawParseError::User { error } => error.value@,
        }
    }
}

impl RawParseError {
    /// Whether `other` is the same error: the same variant, offsets and texts.
    pub open spec fn same_as(&self, other: &RawParseError) -> bool {
        match (self, other) {
            (
                RawParseError::InvalidToken { location: a },
                RawParseError::InvalidToken { location: b },
            ) => a == b,
            (
                RawParseError::UnrecognizedEOF { location: a, expected: ea },
                RawParseError::UnrecognizedEOF { location: b, expected: eb },
            ) => a == b && strings_view(ea@) == strings_view(eb@),
            (
                RawParseError::UnrecognizedToken { token: a, expected: ea },
                RawParseError::UnrecognizedToken { token: b, expected: eb },
            ) => a.0 == b.0 && a.1@ == b.1@ && a.2 == b.2 && strings_view(ea@) == strings_view(
                eb@,
            ),
            (RawParseError::ExtraToken { token: a }, RawParseError::ExtraToken { token: b }) => a.0
                == b.0 && a.1@ == b.1@ && a.2 == b.2,
            (RawParseError::User { error: a }, RawParseError::User { error: b }) => a.span == b.span
                && a.value@ == b.value@,
            _ => false,
        }
    }
}

/// A copy of a list of strings.
fn clone_strings(v: &Vec<String>) -> (r: Vec<String>)
    ensures
        strings_view(r@) == strings_view(v@),
{
    let mut r: Vec<String> = Vec::new();
    let mut i: usize = 0;
    while i < v.len()
        invariant
            i <= v.len(),
            r@.len() == i,
            forall|j: int| 0 <= j < i ==> r@[j]@ == v@[j]@,
        decreases v.len() - i,
    {
        r.push(v[i].clone());
        i = i + 1;
    }
    assert(strings_view(r@) =~= strings_view(v@));
    r
}

impl Clone for RawParseError {
    fn clone(&self) -> (r: Self)
        ensures
            r.same_as(self),
    {
        match self {
            RawParseError::InvalidToken { location } => RawParseError::InvalidToken {
                location: *location,
            },
            RawParseError::UnrecognizedEOF { location, expected } => RawParseError::UnrecognizedEOF {
                location: *location,
                expected: clone_strings(expected),
            },
            RawParseError::UnrecognizedToken { token, expected } => {
                RawParseError::UnrecognizedToken {
                    token: (token.0, token.1.clone(), token.2),
                    expected: clone_strings(expected),
                }
            },
            RawParseError::ExtraToken { token } => RawParseError::ExtraToken {
                token: (token.0, token.1.clone(), token.2),
            },
            RawParseError::User { error } => RawParseError::User {
                error: Spanned { span: error.span, value: error.value.clone() },
            },
        }
    }
}

impl Clone for ParseError {
    /// A copy of the error: the same file, and the same error in it.
    fn clone(&self) -> (r: Self)
        ensures
            r.spec_file_id() == self.spec_file_id(),
            r.raw().same_as(&self.raw()),
            r.raw().message() == self.raw().message(),
            r.has_span() == self.has_span(),
            r.spec_span() == self.spec_span(),
    {
        ParseError { file_id: self.file_id, error: self.error.clone() }
    }
}

impl ParseError {
    /// The error `error` in file `file_id`.
    pub fn new(file_id: FileId, error: RawParseError) -> (r: ParseError)
        ensures
            r.spec_file_id() == file_id,
            r.raw() == error,
    {
        ParseError { file_id, error }
    }

    /// The file in which the error occurred.
    pub closed spec fn spec_file_id(&self) -> FileId {
        self.file_id
    }

    /// What went wrong.
    pub closed spec fn raw(&self) -> RawParseError {
        self.error
    }

    /// The file in which the error occurred.
    pub fn file_id(&self) -> (r: FileId)
        ensures
            r == self.spec_file_id(),
    {
        self.file_id
    }

    /// Whether the error's location makes a well-formed span: a token's
    /// start must not come after its end.
    pub open spec fn has_span(&self) -> bool {
        match self.raw() {
            RawParseError::UnrecognizedToken { token, .. } => token.0 as u32 <= token.2 as u32,
            RawParseError::ExtraToken { token } => token.0 as u32 <= token.2 as u32,
            _ => true,
        }
    }

    /// Where the error occurred: the offending position or token, or the
    /// span that the grammar action reported.
    pub open spec fn spec_span(&self) -> Span {
        match self.raw() {
            RawParseError::InvalidToken { location } => offsets_span(
                self.spec_file_id(),
                location,
                location,
            ),
            RawParseError::UnrecognizedEOF { location, .. } => offsets_span(
                self.spec_file_id(),
                location,
                location,
            ),
            RawParseError::UnrecognizedToken { token, .. } => offsets_span(
                self.spec_file_id(),
                token.0,
                token.2,
            ),
            RawParseError::ExtraToken { token } => offsets_span(self.spec_file_id(), token.0, token.2),
            RawParseError::User { error } => error.span,
        }
    }

    /// Where the error occurred.
    pub fn span(&self) -> (r: Span)
        requires
            self.has_span(),
        ensures
            r == self.spec_span(),
    {
        match &self.error {
            RawParseError::InvalidToken { location } => Span::new(
                self.file_id,
                *location as u32,
                *location as u32,
            ),
            RawParseError::UnrecognizedEOF { location, .. } => Span::new(
                self.file_id,
                *location as u32,
                *location as u32,
            ),
            RawParseError::UnrecognizedToken { token, .. } => Span::new(
                self.file_id,
                token.0 as u32,
                token.2 as u32,
            ),
            RawParseError::ExtraToken { token } => Span::new(self.file_id, token.0 as u32, token.2 as u32),
            RawParseError::User { error } => error.span,
        }
    }

    /// The message that describes the error.
    pub fn message(&self) -> (r: String)
        ensures
            r@ == self.raw().message(),
    {
        let mut s = String::new();
        match &self.error {
            RawParseError::InvalidToken { .. } => push_str(&mut s, "invalid token"),
            RawParseError::UnrecognizedEOF { expected, .. } => {
                push_str(&mut s, "unexpected end of input");
                push_expected(&mut s, expected);
            },
            RawParseError::UnrecognizedToken { token, expected } => {
                push_str(&mut s, "unexpected token `");
                push_str(&mut s, token.1.as_str());
                push_str(&mut s, "`");
                push_expected(&mut s, expected);
            },
            RawParseError::ExtraToken { token } => {
                push_str(&mut s, "extra token `");
                push_str(&mut s, token.1.as_str());
                push_str(&mut s, "`");
            },
            RawParseError::User { error } => push_str(&mut s, error.value.as_str()),
        }
        assert(s@ =~= self.raw().message());
        s
    }
}

/// Appends the name under which an expected token is reported.
fn push_token_name(s: &mut String, item: &String)
    ensures
        final(s)@ == old(s)@ + token_name(item@),
{
    let ghost s0 = s@;
    if *item == String::from_str("r#\"[A-Za-z_][A-Za-z0-9_]*\"#") {
        push_str(s, "identiifer");
    } else if *item == String::from_str("r#\"[0-9]+_u16\"#") {
        push_str(s, "UInt16 literal");
    } else if *item == String::from_str("r#\"[0-9]+_i32\"#") {
        push_str(s, "Int32 literal");
    } else if *item == String::from_str("r#\"[0-9]+_i64\"#") {
        push_str(s, "Int64 literal");
    } else if *item == String::from_str("r#\"[0-9]+.[0-9]+\"#") {
        push_str(s, "Double literal");
    } else {
        let ghost text = item@;
        for c in it: item.as_str().chars()
            invariant
                it.seq() == text,
                s@ == s0 + text.take(it.index()).map_values(
                    |c: char| if c == '"' { '`' } else { c },
                ),
        {
            let ghost before = s@;
            if c == '"' {
                push_char(s, '`');
            } else {
                push_char(s, c);
            }
            assert(text.take(it.index() + 1) =~= text.take(it.index()).push(c));
            assert(s@ =~= s0 + text.take(it.index() + 1).map_values(
                |c: char| if c == '"' { '`' } else { c },
            ));
        }
        assert(text.take(text.len() as int) =~= text);
    }
}

/// Appends `; expected <names>` when some token was expected.
fn push_expected(s: &mut String, expected: &Vec<String>)
    ensures
        final(s)@ == old(s)@ + expected_text(strings_view(expected@)),
{
    let n = expected.len();
    if n == 0 {
        return;
    }
    let ghost s0 = s@;
    let ghost names = strings_view(expected@).map_values(|t: Seq<char>| token_name(t));
    push_str(s, "; expected ");
    let ghost s1 = s@;
    let mut i: usize = 0;
    while i < n - 1
        invariant
            n == expected@.len(),
            n >= 1,
            i <= n - 1,
            names == strings_view(expected@).map_values(|t: Seq<char>| token_name(t)),
            s@ == s1 + join(names.take(i as int), ", "@),
        decreases n - i,
    {
        if i > 0 {
            push_str(s, ", ");
        }
        push_token_name(s, &expected[i]);
        proof {
            lemma_join_push(names.take(i as int), ", "@, names[i as int]);
            assert(names.take(i as int).push(names[i as int]) =~= names.take(i + 1));
        }
        i += 1;
    }
    if n > 1 {
        push_str(s, " or ");
    }
    push_token_name(s, &expected[n - 1]);
    proof {
        if n == 1 {
            assert(names.take(0) =~= Seq::<Seq<char>>::empty());
        } else {
            assert(names.take(n - 1) =~= names.drop_last());
        }
        assert(s@ =~= s0 + expected_text(strings_view(expected@)));
    }
}

} // verus!
