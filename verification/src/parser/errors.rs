//! What a failed parse reports: the kind of error, where it is, and what the
//! grammar was looking for there.

use super::ast::Span;
use super::scan::{
    class_has, is_digit, is_space, is_word, Class, BANG, BRACE_CLOSE, BRACE_OPEN, COLON, COMMA, DOT,
    EQUALS, GREATER, HASH, LESS, LINE_FEED, MINUS, PAREN_CLOSE, PAREN_OPEN, PERCENT, PIPE, PLUS,
    QUOTE, SLASH, STAR,
};
use vstd::prelude::*;
use vstd::string::*;
use vstd::utf8::*;

verus! {

/// The three kinds of error. Each one ends the parse.
#[derive(Copy, Clone, Debug, PartialEq, Eq, Structural)]
pub enum ErrorKind {
    /// The bytes at the place of the error start no token of the grammar.
    LexicalError,
    /// The tokens are well formed, but no production takes them in this order.
    SyntaxError,
    /// A block tag without its closing tag, or a closing tag without its block.
    StructuralError,
}

/// What the grammar was looking for where it failed.
#[derive(Copy, Clone, Debug, PartialEq, Eq, Structural)]
pub enum Expected {
    /// A literal, an identifier, a call or a parenthesised expression.
    Operand,
    Identifier,
    Integer,
    /// An integer literal that fits in 64 bits.
    IntegerInRange,
    Float,
    /// The `"` that starts a string literal.
    StringLiteral,
    /// The `"` that ends a string literal.
    ClosingQuote,
    /// `=`
    Assign,
    /// `(`
    ParenOpen,
    /// `)`
    ParenClose,
    /// `,` or `)`
    CommaOrParenClose,
    /// `::`
    PathSeparator,
    /// `|`
    Pipe,
    /// The word `is`
    KeywordIs,
    /// The word `in`
    KeywordIn,
    /// The word `as`
    KeywordAs,
    /// `{#`
    CommentOpen,
    /// `#}`
    CommentClose,
    /// `{{` or `{%`
    TagOpen,
    /// The word that names a tag, such as `if` or `endfor`.
    TagKeyword,
    /// `%}` or `-%}`
    TagClose,
    /// `}}` or `-}}`
    VariableClose,
    /// The closing tag of a block that was opened.
    ClosingTag,
    /// The opening tag of a block that a tag closes or continues.
    OpeningTag,
    /// A default value: a macro parameter without one follows one that has one.
    DefaultValue,
    EndOfInput,
}

/// A located failure of the grammar.
#[derive(Copy, Clone, Debug, PartialEq, Eq, Structural)]
pub struct Failure {
    pub kind: ErrorKind,
    /// Where the error is. For a structural error, the span of the tag it is
    /// about; otherwise the empty span at the offending byte.
    pub span: Span,
    pub expected: Expected,
}

/// The punctuation of the grammar.
pub open spec fn is_punctuation(b: u8) -> bool {
    b == QUOTE || b == PAREN_OPEN || b == PAREN_CLOSE || b == COMMA || b == EQUALS || b == PIPE
        || b == DOT || b == COLON || b == PLUS || b == MINUS || b == STAR || b == SLASH || b
        == LESS || b == GREATER || b == BANG || b == PERCENT || b == BRACE_OPEN || b
        == BRACE_CLOSE || b == HASH
}

/// The byte can stand at the start of a token, or between tokens.
pub open spec fn is_token_byte(b: u8) -> bool {
    is_word(b) || is_space(b) || is_punctuation(b)
}

/// The kind of a failure at `pos`: lexical where the byte there belongs to
/// no token, or where a digit stands in place of an identifier; a syntax
/// error otherwise, the end of the text included.
pub open spec fn kind_at(src: Seq<u8>, pos: int, expected: Expected) -> ErrorKind {
    if 0 <= pos < src.len() && (!is_token_byte(src[pos]) || (expected == Expected::Identifier
        && is_digit(src[pos]))) {
        ErrorKind::LexicalError
    } else {
        ErrorKind::SyntaxError
    }
}

/// The failure of the grammar to find `expected` at `pos`.
pub open spec fn failure(src: Seq<u8>, pos: int, expected: Expected) -> Failure {
    Failure {
        kind: kind_at(src, pos, expected),
        span: Span { start: pos as usize, end: pos as usize },
        expected,
    }
}

/// Whether the byte can stand at the start of a token, or between tokens.
pub fn token_byte(b: u8) -> (r: bool)
    ensures
        r == is_token_byte(b),
{
    class_has(Class::Word, b) || class_has(Class::Space, b) || b == QUOTE || b == PAREN_OPEN || b
        == PAREN_CLOSE || b == COMMA || b == EQUALS || b == PIPE || b == DOT || b == COLON || b
        == PLUS || b == MINUS || b == STAR || b == SLASH || b == LESS || b == GREATER || b == BANG
        || b == PERCENT || b == BRACE_OPEN || b == BRACE_CLOSE || b == HASH
}

/// The failure of the grammar to find `expected` at `pos`.
pub fn fail(bytes: &[u8], pos: usize, expected: Expected) -> (f: Failure)
    ensures
        f == failure(bytes@, pos as int, expected),
{
    let lexical = pos < bytes.len() && (!token_byte(bytes[pos]) || (expected
        == Expected::Identifier && class_has(Class::Digit, bytes[pos])));
    Failure {
        kind: if lexical {
            ErrorKind::LexicalError
        } else {
            ErrorKind::SyntaxError
        },
        span: Span { start: pos, end: pos },
        expected,
    }
}

/// The number of the line that holds the byte offset `off`, counted from 1.
pub open spec fn line_of(src: Seq<u8>, off: int) -> int
    decreases off,
{
    if off <= 0 || off > src.len() {
        1
    } else if src[off - 1] == LINE_FEED {
        line_of(src, off - 1) + 1
    } else {
        line_of(src, off - 1)
    }
}

/// The column of the byte offset `off` in its line, counted from 1 and in
/// characters: the bytes that continue a character do not count.
pub open spec fn column_of(src: Seq<u8>, off: int) -> int
    decreases off,
{
    if off <= 0 || off > src.len() {
        1
    } else if src[off - 1] == LINE_FEED {
        1
    } else if is_continuation_byte(src[off - 1]) {
        column_of(src, off - 1)
    } else {
        column_of(src, off - 1) + 1
    }
}

/// `n` where it fits in a `usize`, the largest `usize` where it does not.
pub open spec fn saturated(n: int) -> usize {
    if n > usize::MAX {
        usize::MAX
    } else {
        n as usize
    }
}

/// The offset that a failure is reported at: the start of its span, or the
/// end of the text where the span starts beyond it.
pub open spec fn offset_in(src: Seq<u8>, f: Failure) -> int {
    if f.span.start <= src.len() {
        f.span.start as int
    } else {
        src.len() as int
    }
}

/// Line and column of the byte offset `off`.
pub fn locate(bytes: &[u8], off: usize) -> (r: (usize, usize))
    requires
        off <= bytes.len(),
    ensures
        r.0 == saturated(line_of(bytes@, off as int)),
        r.1 == saturated(column_of(bytes@, off as int)),
{
    let mut newlines: usize = 0;
    let mut chars: usize = 0;
    let mut i: usize = 0;
    while i < off
        invariant
            i <= off <= bytes.len(),
            newlines + 1 == line_of(bytes@, i as int),
            chars + 1 == column_of(bytes@, i as int),
            newlines <= i,
            chars <= i,
        decreases off - i,
    {
        let b = bytes[i];
        if b == LINE_FEED {
            newlines += 1;
            chars = 0;
        } else if !(128 <= b && b <= 191) {
            chars += 1;
        }
        i += 1;
    }
    let line = if newlines < usize::MAX {
        newlines + 1
    } else {
        usize::MAX
    };
    let column = if chars < usize::MAX {
        chars + 1
    } else {
        usize::MAX
    };
    (line, column)
}

/// A failed parse of a named template, ready to be shown to its writer as
/// `name:line:column`, with what was expected there.
#[derive(Clone, Debug, PartialEq)]
pub struct ParseError {
    pub template_name: String,
    pub failure: Failure,
    /// Line of the failure, counted from 1.
    pub line: usize,
    /// Column of the failure in characters, counted from 1.
    pub column: usize,
}

impl ParseError {
    /// The error is the diagnostic of the failure `f` in the text `src` of
    /// the template `name`.
    pub open spec fn describes(self, name: Seq<char>, src: Seq<u8>, f: Failure) -> bool {
        &&& self.template_name@ == name
        &&& self.failure == f
        &&& self.line == saturated(line_of(src, offset_in(src, f)))
        &&& self.column == saturated(column_of(src, offset_in(src, f)))
    }

    /// The byte offset of the failure.
    pub fn offset(&self) -> (r: usize)
        ensures
            r == self.failure.span.start,
    {
        self.failure.span.start
    }

    /// The kind of the failure.
    pub fn kind(&self) -> (r: ErrorKind)
        ensures
            r == self.failure.kind,
    {
        self.failure.kind
    }
}

/// The diagnostic of the failure `f` in the text `src` of the template `name`.
pub fn diagnose(name: &str, src: &str, f: Failure) -> (e: ParseError)
    ensures
        e.describes(name@, src.spec_bytes(), f),
{
    let bytes = src.as_bytes();
    let off = if f.span.start <= bytes.len() {
        f.span.start
    } else {
        bytes.len()
    };
    let (line, column) = locate(bytes, off);
    ParseError { template_name: name.to_owned(), failure: f, line, column }
}

} // verus!
