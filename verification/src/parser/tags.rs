//! The tags: `{{ expression }}` and the `{% .. %}` statements, each with the
//! optional `-` inside its delimiters that trims the text beside it.

use super::ast::{
    expr_view, expr_wf, kwargs_view, kwargs_wf, macro_param_view, macro_params_view,
    macro_params_wf, option_text_view, Expr, ExprView, Kwarg, KwargView, MacroParam, MacroParamView,
    Span,
};
use super::errors::{fail, failure, ErrorKind, Expected, Failure};
use super::expression::{
    advancing, fails, parse_arguments, parse_binary, range_is, spec_arguments, spec_binary, yields,
    Parsed, Tier,
};
use super::lexer::{ident_end, match_ident, match_string, skip, string_end};
use super::scan::{
    byte_at, cut_point, is_byte, is_pair, lemma_run_bounds, looking_at_word, pair_at, scan,
    substring, text_of, word_at, Class, BRACE_CLOSE, BRACE_OPEN, COMMA, EQUALS, MINUS, PAREN_CLOSE,
    PAREN_OPEN, PERCENT, QUOTE,
};
use vstd::prelude::*;
use vstd::string::*;

verus! {

broadcast use lemma_run_bounds;

/// What a tag says, between its delimiters.
#[derive(Debug, PartialEq)]
pub enum TagHead {
    /// `{{ expression }}`
    Variable(Expr),
    /// `{% if condition %}`
    If(Expr),
    /// `{% elif condition %}`
    Elif(Expr),
    /// `{% else %}`
    Else,
    /// `{% endif %}`
    EndIf,
    /// `{% for value in container %}`, `{% for key, value in container %}`
    For { key: Option<String>, value: String, container: Expr },
    /// `{% endfor %}`
    EndFor,
    /// `{% set ident = value %}`
    SetVariable { ident: String, value: Expr },
    /// `{% block name %}`
    Block(String),
    /// `{% endblock %}`, `{% endblock name %}`
    EndBlock,
    /// `{% macro name(params) %}`
    Macro { name: String, params: Vec<MacroParam> },
    /// `{% endmacro %}`, `{% endmacro name %}`
    EndMacro,
    /// `{% filter name %}`, `{% filter name(kwargs) %}`
    Filter { name: String, params: Vec<Kwarg> },
    /// `{% endfilter %}`
    EndFilter,
    /// `{% extends "file" %}`
    Extends(String),
    /// `{% include "file" %}`
    Include(String),
    /// `{% import "file" as namespace %}`
    Import(String, String),
    /// `{% raw %}`
    Raw,
    /// `{% endraw %}`
    EndRaw,
}

/// A tag as it stands in the text.
#[derive(Debug, PartialEq)]
pub struct Tag {
    pub head: TagHead,
    /// From the `{` that opens the tag to after the `}` that closes it.
    pub span: Span,
    /// A `-` follows the opening delimiter: the text before the tag loses
    /// its trailing white space.
    pub trim_before: bool,
    /// A `-` precedes the closing delimiter: the text after the tag loses
    /// its leading white space.
    pub trim_after: bool,
}

/// The model of a `TagHead`.
#[allow(inconsistent_fields)]
pub enum TagHeadView {
    Variable(ExprView),
    If(ExprView),
    Elif(ExprView),
    Else,
    EndIf,
    For { key: Option<Seq<char>>, value: Seq<char>, container: ExprView },
    EndFor,
    SetVariable { ident: Seq<char>, value: ExprView },
    Block(Seq<char>),
    EndBlock,
    Macro { name: Seq<char>, params: Seq<MacroParamView> },
    EndMacro,
    Filter { name: Seq<char>, params: Seq<KwargView> },
    EndFilter,
    Extends(Seq<char>),
    Include(Seq<char>),
    Import(Seq<char>, Seq<char>),
    Raw,
    EndRaw,
}

/// The model of a `Tag`.
pub struct TagView {
    pub head: TagHeadView,
    pub span: Span,
    pub trim_before: bool,
    pub trim_after: bool,
}

/// The model of what a tag says.
pub open spec fn head_view(h: TagHead) -> TagHeadView {
    match h {
        TagHead::Variable(e) => TagHeadView::Variable(expr_view(e)),
        TagHead::If(e) => TagHeadView::If(expr_view(e)),
        TagHead::Elif(e) => TagHeadView::Elif(expr_view(e)),
        TagHead::Else => TagHeadView::Else,
        TagHead::EndIf => TagHeadView::EndIf,
        TagHead::For { key, value, container } => TagHeadView::For {
            key: option_text_view(key),
            value: value@,
            container: expr_view(container),
        },
        TagHead::EndFor => TagHeadView::EndFor,
        TagHead::SetVariable { ident, value } => TagHeadView::SetVariable {
            ident: ident@,
            value: expr_view(value),
        },
        TagHead::Block(name) => TagHeadView::Block(name@),
        TagHead::EndBlock => TagHeadView::EndBlock,
        TagHead::Macro { name, params } => TagHeadView::Macro {
            name: name@,
            params: macro_params_view(params),
        },
        TagHead::EndMacro => TagHeadView::EndMacro,
        TagHead::Filter { name, params } => TagHeadView::Filter {
            name: name@,
            params: kwargs_view(params),
        },
        TagHead::EndFilter => TagHeadView::EndFilter,
        TagHead::Extends(file) => TagHeadView::Extends(file@),
        TagHead::Include(file) => TagHeadView::Include(file@),
        TagHead::Import(file, namespace) => TagHeadView::Import(file@, namespace@),
        TagHead::Raw => TagHeadView::Raw,
        TagHead::EndRaw => TagHeadView::EndRaw,
    }
}

impl View for Tag {
    type V = TagView;

    open spec fn view(&self) -> TagView {
        TagView {
            head: head_view(self.head),
            span: self.span,
            trim_before: self.trim_before,
            trim_after: self.trim_after,
        }
    }
}

/// What follows the two bytes of an opening delimiter at `pos`: whether a
/// `-` stands there, and where the content of the tag starts.
pub open spec fn spec_open(src: Seq<u8>, pos: int) -> (bool, int) {
    if byte_at(src, pos + 2, MINUS) {
        (true, skip(src, pos + 3))
    } else {
        (false, skip(src, pos + 2))
    }
}

/// The closing delimiter after the content that ends at `pos`: `%}` where
/// `mark` is `%`, `}}` where it is `}`, with or without a `-` before it.
/// Gives whether the `-` stands there, and the end of the tag.
pub open spec fn spec_close(src: Seq<u8>, pos: int, mark: u8) -> Parsed<bool> {
    let p = skip(src, pos);
    if byte_at(src, p, MINUS) && pair_at(src, p + 1, mark, BRACE_CLOSE) {
        Ok((true, p + 3))
    } else if pair_at(src, p, mark, BRACE_CLOSE) {
        Ok((false, p + 2))
    } else {
        Err(
            failure(
                src,
                p,
                if mark == PERCENT {
                    Expected::TagClose
                } else {
                    Expected::VariableClose
                },
            ),
        )
    }
}

/// The failure to find a string literal at `pos`: one that does not end, or
/// none at all.
pub open spec fn string_failure(src: Seq<u8>, pos: int) -> Failure {
    if byte_at(src, pos, QUOTE) {
        Failure {
            kind: ErrorKind::LexicalError,
            span: Span { start: pos as usize, end: pos as usize },
            expected: Expected::ClosingQuote,
        }
    } else {
        failure(src, pos, Expected::StringLiteral)
    }
}

/// The file name of `extends`, `include` and `import`: a string literal.
/// Gives what stands between the quotes.
pub open spec fn spec_file_name(src: Seq<u8>, pos: int) -> Parsed<Seq<char>> {
    match string_end(src, pos) {
        Some(e) => Ok((text_of(src, pos + 1, e - 1), e)),
        None => Err(string_failure(src, pos)),
    }
}

/// What follows the names of a `for`: `in container`.
pub open spec fn spec_for_in(
    src: Seq<u8>,
    pos: int,
    key: Option<Seq<char>>,
    value: Seq<char>,
) -> Parsed<TagHeadView> {
    if word_at(src, pos, "in".spec_bytes()) {
        match spec_binary(src, skip(src, pos + "in".spec_bytes().len()), Tier::Or) {
            Err(f) => Err(f),
            Ok((container, e)) => Ok((TagHeadView::For { key, value, container }, e)),
        }
    } else {
        Err(failure(src, pos, Expected::KeywordIn))
    }
}

/// `value in container` or `key, value in container`
pub open spec fn spec_for_head(src: Seq<u8>, pos: int) -> Parsed<TagHeadView> {
    match ident_end(src, pos) {
        None => Err(failure(src, pos, Expected::Identifier)),
        Some(e) => {
            let p = skip(src, e);
            if byte_at(src, p, COMMA) {
                let q = skip(src, p + 1);
                match ident_end(src, q) {
                    None => Err(failure(src, q, Expected::Identifier)),
                    Some(e2) => spec_for_in(
                        src,
                        skip(src, e2),
                        Some(text_of(src, pos, e)),
                        text_of(src, q, e2),
                    ),
                }
            } else {
                spec_for_in(src, p, None, text_of(src, pos, e))
            }
        },
    }
}

/// `ident = value`
pub open spec fn spec_set_head(src: Seq<u8>, pos: int) -> Parsed<TagHeadView> {
    match ident_end(src, pos) {
        None => Err(failure(src, pos, Expected::Identifier)),
        Some(e) => {
            let p = skip(src, e);
            if byte_at(src, p, EQUALS) {
                match spec_binary(src, skip(src, p + 1), Tier::Or) {
                    Err(f) => Err(f),
                    Ok((value, end)) => Ok(
                        (TagHeadView::SetVariable { ident: text_of(src, pos, e), value }, end),
                    ),
                }
            } else {
                Err(failure(src, p, Expected::Assign))
            }
        },
    }
}

/// `"file" as namespace`
pub open spec fn spec_import_head(src: Seq<u8>, pos: int) -> Parsed<TagHeadView> {
    match spec_file_name(src, pos) {
        Err(f) => Err(f),
        Ok((file, e)) => {
            let p = skip(src, e);
            if word_at(src, p, "as".spec_bytes()) {
                let q = skip(src, p + "as".spec_bytes().len());
                match ident_end(src, q) {
                    None => Err(failure(src, q, Expected::Identifier)),
                    Some(end) => Ok((TagHeadView::Import(file, text_of(src, q, end)), end)),
                }
            } else {
                Err(failure(src, p, Expected::KeywordAs))
            }
        },
    }
}

/// `name` or `name(kwargs)`
pub open spec fn spec_filter_head(src: Seq<u8>, pos: int) -> Parsed<TagHeadView> {
    match ident_end(src, pos) {
        None => Err(failure(src, pos, Expected::Identifier)),
        Some(e) => {
            if byte_at(src, e, PAREN_OPEN) {
                match spec_arguments(src, e + 1) {
                    Err(f) => Err(f),
                    Ok((params, end)) => Ok(
                        (TagHeadView::Filter { name: text_of(src, pos, e), params }, end),
                    ),
                }
            } else {
                Ok((TagHeadView::Filter { name: text_of(src, pos, e), params: Seq::empty() }, e))
            }
        },
    }
}

/// A parameter of a macro: `name` or `name = default`
pub open spec fn spec_macro_param(src: Seq<u8>, pos: int) -> Parsed<MacroParamView> {
    match ident_end(src, pos) {
        None => Err(failure(src, pos, Expected::Identifier)),
        Some(e) => {
            let p = skip(src, e);
            if byte_at(src, p, EQUALS) {
                match spec_binary(src, skip(src, p + 1), Tier::Or) {
                    Err(f) => Err(f),
                    Ok((d, end)) => Ok(
                        (MacroParamView { name: text_of(src, pos, e), default: Some(d) }, end),
                    ),
                }
            } else {
                Ok((MacroParamView { name: text_of(src, pos, e), default: None }, e))
            }
        },
    }
}

/// Parameters separated by commas, added to `acc`.
#[verifier::opaque]
pub open spec fn spec_macro_params(src: Seq<u8>, pos: int, acc: Seq<MacroParamView>) -> Parsed<
    Seq<MacroParamView>,
>
    decreases src.len() - pos,
    when 0 <= pos <= src.len()
{
    match advancing(spec_macro_param(src, pos), pos, src.len() as int) {
        Err(f) => Err(f),
        Ok((m, e)) => {
            let p = skip(src, e);
            if byte_at(src, p, COMMA) {
                spec_macro_params(src, skip(src, p + 1), acc.push(m))
            } else {
                Ok((acc.push(m), e))
            }
        },
    }
}

/// `macro_definition`: `name(param, ..)`. Gives the name and the
/// parameters, in any order.
pub open spec fn spec_macro_definition(src: Seq<u8>, pos: int) -> Parsed<
    (Seq<char>, Seq<MacroParamView>),
> {
    match ident_end(src, pos) {
        None => Err(failure(src, pos, Expected::Identifier)),
        Some(e) => {
            if !byte_at(src, e, PAREN_OPEN) {
                Err(failure(src, e, Expected::ParenOpen))
            } else {
                let p = skip(src, e + 1);
                if byte_at(src, p, PAREN_CLOSE) {
                    Ok(((text_of(src, pos, e), Seq::empty()), p + 1))
                } else {
                    match spec_macro_params(src, p, Seq::empty()) {
                        Err(f) => Err(f),
                        Ok((params, e2)) => {
                            let q = skip(src, e2);
                            if byte_at(src, q, PAREN_CLOSE) {
                                Ok(((text_of(src, pos, e), params), q + 1))
                            } else {
                                Err(failure(src, q, Expected::CommaOrParenClose))
                            }
                        },
                    }
                }
            }
        },
    }
}

/// No parameter without a default value follows one that has one.
pub open spec fn defaults_last(params: Seq<MacroParamView>) -> bool {
    forall|i: int, j: int|
        0 <= i < j < params.len() && params[i].default is Some ==> params[j].default is Some
}

/// `name(param, ..)` in a `macro` tag: a `macro_definition` whose parameters
/// with default values come last.
pub open spec fn spec_macro_head(src: Seq<u8>, pos: int) -> Parsed<TagHeadView> {
    match spec_macro_definition(src, pos) {
        Err(f) => Err(f),
        Ok((d, e)) => {
            if defaults_last(d.1) {
                Ok((TagHeadView::Macro { name: d.0, params: d.1 }, e))
            } else {
                Err(
                    Failure {
                        kind: ErrorKind::SyntaxError,
                        span: Span { start: pos as usize, end: e as usize },
                        expected: Expected::DefaultValue,
                    },
                )
            }
        },
    }
}

/// The end of an `endblock` or `endmacro` whose keyword ends at `pos`: the
/// name of what it closes may follow.
pub open spec fn spec_end_name(src: Seq<u8>, pos: int) -> int {
    match ident_end(src, skip(src, pos)) {
        Some(e) => e,
        None => pos,
    }
}

/// The words that name a tag.
#[derive(Copy, Clone, Debug, PartialEq, Eq, Structural)]
pub enum Keyword {
    /// `if`
    If,
    /// `elif`
    Elif,
    /// `else`
    Else,
    /// `endif`
    EndIf,
    /// `for`
    For,
    /// `endfor`
    EndFor,
    /// `set`
    SetVariable,
    /// `block`
    Block,
    /// `endblock`
    EndBlock,
    /// `macro`
    Macro,
    /// `endmacro`
    EndMacro,
    /// `filter`
    Filter,
    /// `endfilter`
    EndFilter,
    /// `extends`
    Extends,
    /// `include`
    Include,
    /// `import`
    Import,
    /// `raw`
    Raw,
    /// `endraw`
    EndRaw,
}

/// The tag that a word names, if it names one.
pub open spec fn keyword_of(word: Seq<u8>) -> Option<Keyword> {
    if word == "if".spec_bytes() {
        Some(Keyword::If)
    } else if word == "elif".spec_bytes() {
        Some(Keyword::Elif)
    } else if word == "else".spec_bytes() {
        Some(Keyword::Else)
    } else if word == "endif".spec_bytes() {
        Some(Keyword::EndIf)
    } else if word == "for".spec_bytes() {
        Some(Keyword::For)
    } else if word == "endfor".spec_bytes() {
        Some(Keyword::EndFor)
    } else if word == "set".spec_bytes() {
        Some(Keyword::SetVariable)
    } else if word == "block".spec_bytes() {
        Some(Keyword::Block)
    } else if word == "endblock".spec_bytes() {
        Some(Keyword::EndBlock)
    } else if word == "macro".spec_bytes() {
        Some(Keyword::Macro)
    } else if word == "endmacro".spec_bytes() {
        Some(Keyword::EndMacro)
    } else if word == "filter".spec_bytes() {
        Some(Keyword::Filter)
    } else if word == "endfilter".spec_bytes() {
        Some(Keyword::EndFilter)
    } else if word == "extends".spec_bytes() {
        Some(Keyword::Extends)
    } else if word == "include".spec_bytes() {
        Some(Keyword::Include)
    } else if word == "import".spec_bytes() {
        Some(Keyword::Import)
    } else if word == "raw".spec_bytes() {
        Some(Keyword::Raw)
    } else if word == "endraw".spec_bytes() {
        Some(Keyword::EndRaw)
    } else {
        None
    }
}

/// The content of a `{% .. %}` tag, from its keyword on.
#[verifier::opaque]
pub open spec fn spec_tag_head(src: Seq<u8>, pos: int) -> Parsed<TagHeadView> {
    match ident_end(src, pos) {
        None => Err(failure(src, pos, Expected::TagKeyword)),
        Some(k) => {
            let q = skip(src, k);
            match keyword_of(src.subrange(pos, k)) {
                None => Err(failure(src, pos, Expected::TagKeyword)),
                Some(Keyword::If) => match spec_binary(src, q, Tier::Or) {
                    Err(f) => Err(f),
                    Ok((c, e)) => Ok((TagHeadView::If(c), e)),
                },
                Some(Keyword::Elif) => match spec_binary(src, q, Tier::Or) {
                    Err(f) => Err(f),
                    Ok((c, e)) => Ok((TagHeadView::Elif(c), e)),
                },
                Some(Keyword::Else) => Ok((TagHeadView::Else, k)),
                Some(Keyword::EndIf) => Ok((TagHeadView::EndIf, k)),
                Some(Keyword::For) => spec_for_head(src, q),
                Some(Keyword::EndFor) => Ok((TagHeadView::EndFor, k)),
                Some(Keyword::SetVariable) => spec_set_head(src, q),
                Some(Keyword::Block) => match ident_end(src, q) {
                    None => Err(failure(src, q, Expected::Identifier)),
                    Some(e) => Ok((TagHeadView::Block(text_of(src, q, e)), e)),
                },
                Some(Keyword::EndBlock) => Ok((TagHeadView::EndBlock, spec_end_name(src, k))),
                Some(Keyword::Macro) => spec_macro_head(src, q),
                Some(Keyword::EndMacro) => Ok((TagHeadView::EndMacro, spec_end_name(src, k))),
                Some(Keyword::Filter) => spec_filter_head(src, q),
                Some(Keyword::EndFilter) => Ok((TagHeadView::EndFilter, k)),
                Some(Keyword::Extends) => match spec_file_name(src, q) {
                    Err(f) => Err(f),
                    Ok((file, e)) => Ok((TagHeadView::Extends(file), e)),
                },
                Some(Keyword::Include) => match spec_file_name(src, q) {
                    Err(f) => Err(f),
                    Ok((file, e)) => Ok((TagHeadView::Include(file), e)),
                },
                Some(Keyword::Import) => spec_import_head(src, q),
                Some(Keyword::Raw) => Ok((TagHeadView::Raw, k)),
                Some(Keyword::EndRaw) => Ok((TagHeadView::EndRaw, k)),
            }
        },
    }
}

/// The tag that starts at `pos`: `{{ expression }}` or `{% .. %}`.
#[verifier::opaque]
pub open spec fn spec_tag(src: Seq<u8>, pos: int) -> Result<TagView, Failure> {
    if pair_at(src, pos, BRACE_OPEN, BRACE_OPEN) {
        match spec_binary(src, spec_open(src, pos).1, Tier::Or) {
            Err(f) => Err(f),
            Ok((v, e)) => match spec_close(src, e, BRACE_CLOSE) {
                Err(f) => Err(f),
                Ok((trim_after, end)) => Ok(
                    TagView {
                        head: TagHeadView::Variable(v),
                        span: Span { start: pos as usize, end: end as usize },
                        trim_before: spec_open(src, pos).0,
                        trim_after,
                    },
                ),
            },
        }
    } else if pair_at(src, pos, BRACE_OPEN, PERCENT) {
        match spec_tag_head(src, spec_open(src, pos).1) {
            Err(f) => Err(f),
            Ok((head, e)) => match spec_close(src, e, PERCENT) {
                Err(f) => Err(f),
                Ok((trim_after, end)) => Ok(
                    TagView {
                        head,
                        span: Span { start: pos as usize, end: end as usize },
                        trim_before: spec_open(src, pos).0,
                        trim_after,
                    },
                ),
            },
        }
    } else {
        Err(failure(src, pos, Expected::TagOpen))
    }
}

/// Every expression in the tag is well formed, for a text of `len` bytes.
pub open spec fn head_wf(h: TagHeadView, len: int) -> bool {
    match h {
        TagHeadView::Variable(e) => expr_wf(e, len),
        TagHeadView::If(e) => expr_wf(e, len),
        TagHeadView::Elif(e) => expr_wf(e, len),
        TagHeadView::For { key, value, container } => expr_wf(container, len),
        TagHeadView::SetVariable { ident, value } => expr_wf(value, len),
        TagHeadView::Macro { name, params } => macro_params_wf(params, len),
        TagHeadView::Filter { name, params } => kwargs_wf(params, len),
        _ => true,
    }
}

/// The rule gave the head `h` and ended at `e`, and `h` is well formed.
pub open spec fn head_yields(
    s: Parsed<TagHeadView>,
    h: TagHead,
    e: usize,
    pos: usize,
    len: nat,
) -> bool {
    yields(s, head_view(h), e, pos, len) && head_wf(head_view(h), len as int)
}

/// Reads what follows the two bytes of an opening delimiter at `pos`.
pub fn parse_open(bytes: &[u8], pos: usize) -> (r: (bool, usize))
    requires
        pos + 2 <= bytes.len(),
    ensures
        (r.0, r.1 as int) == spec_open(bytes@, pos as int),
        pos + 2 <= r.1 <= bytes.len(),
{
    if is_byte(bytes, pos + 2, MINUS) {
        (true, scan(bytes, pos + 3, Class::Space))
    } else {
        (false, scan(bytes, pos + 2, Class::Space))
    }
}

/// Parses the closing delimiter after the content that ends at `pos`.
pub fn parse_close(bytes: &[u8], pos: usize, mark: u8) -> (r: Result<(bool, usize), Failure>)
    requires
        pos <= bytes.len(),
        mark < 128,
    ensures
        match r {
            Ok((t, e)) => yields(spec_close(bytes@, pos as int, mark), t, e, pos, bytes@.len())
                && cut_point(bytes@, e as int),
            Err(f) => fails(spec_close(bytes@, pos as int, mark), f, bytes@.len()),
        },
{
    let p = scan(bytes, pos, Class::Space);
    if is_byte(bytes, p, MINUS) && is_pair(bytes, p + 1, mark, BRACE_CLOSE) {
        Ok((true, p + 3))
    } else if is_pair(bytes, p, mark, BRACE_CLOSE) {
        Ok((false, p + 2))
    } else {
        Err(
            fail(
                bytes,
                p,
                if mark == PERCENT {
                    Expected::TagClose
                } else {
                    Expected::VariableClose
                },
            ),
        )
    }
}

/// Parses the string literal at `pos`, and gives what stands between the quotes.
pub fn parse_file_name(src: &str, pos: usize) -> (r: Result<(String, usize), Failure>)
    requires
        pos <= src.spec_bytes().len(),
    ensures
        match r {
            Ok((s, e)) => yields(
                spec_file_name(src.spec_bytes(), pos as int),
                s@,
                e,
                pos,
                src.spec_bytes().len(),
            ),
            Err(f) => fails(
                spec_file_name(src.spec_bytes(), pos as int),
                f,
                src.spec_bytes().len(),
            ),
        },
{
    let bytes = src.as_bytes();
    match match_string(bytes, pos) {
        Some(e) => Ok((substring(src, pos + 1, e - 1), e)),
        None => {
            if is_byte(bytes, pos, QUOTE) {
                Err(
                    Failure {
                        kind: ErrorKind::LexicalError,
                        span: Span { start: pos, end: pos },
                        expected: Expected::ClosingQuote,
                    },
                )
            } else {
                Err(fail(bytes, pos, Expected::StringLiteral))
            }
        },
    }
}

/// Parses what follows the names of a `for`: `in container`.
pub fn parse_for_in(src: &str, pos: usize, key: Option<String>, value: String) -> (r: Result<
    (TagHead, usize),
    Failure,
>)
    requires
        pos <= src.spec_bytes().len(),
    ensures
        match r {
            Ok((h, e)) => head_yields(
                spec_for_in(src.spec_bytes(), pos as int, option_text_view(key), value@),
                h,
                e,
                pos,
                src.spec_bytes().len(),
            ),
            Err(f) => fails(
                spec_for_in(src.spec_bytes(), pos as int, option_text_view(key), value@),
                f,
                src.spec_bytes().len(),
            ),
        },
{
    let bytes = src.as_bytes();
    if !looking_at_word(bytes, pos, "in") {
        return Err(fail(bytes, pos, Expected::KeywordIn));
    }
    let q = scan(bytes, pos + "in".as_bytes().len(), Class::Space);
    match parse_binary(src, q, Tier::Or) {
        Err(f) => Err(f),
        Ok((container, e)) => Ok((TagHead::For { key, value, container }, e)),
    }
}

/// Parses the content of a `for` tag, after its keyword.
pub fn parse_for_head(src: &str, pos: usize) -> (r: Result<(TagHead, usize), Failure>)
    requires
        pos <= src.spec_bytes().len(),
    ensures
        match r {
            Ok((h, e)) => head_yields(
                spec_for_head(src.spec_bytes(), pos as int),
                h,
                e,
                pos,
                src.spec_bytes().len(),
            ),
            Err(f) => fails(spec_for_head(src.spec_bytes(), pos as int), f, src.spec_bytes().len()),
        },
{
    let bytes = src.as_bytes();
    match match_ident(bytes, pos) {
        None => Err(fail(bytes, pos, Expected::Identifier)),
        Some(e) => {
            let p = scan(bytes, e, Class::Space);
            if is_byte(bytes, p, COMMA) {
                let q = scan(bytes, p + 1, Class::Space);
                match match_ident(bytes, q) {
                    None => Err(fail(bytes, q, Expected::Identifier)),
                    Some(e2) => {
                        let key = substring(src, pos, e);
                        let value = substring(src, q, e2);
                        let rest = scan(bytes, e2, Class::Space);
                        parse_for_in(src, rest, Some(key), value)
                    },
                }
            } else {
                let value = substring(src, pos, e);
                parse_for_in(src, p, None, value)
            }
        },
    }
}

/// Parses the content of a `set` tag, after its keyword.
pub fn parse_set_head(src: &str, pos: usize) -> (r: Result<(TagHead, usize), Failure>)
    requires
        pos <= src.spec_bytes().len(),
    ensures
        match r {
            Ok((h, e)) => head_yields(
                spec_set_head(src.spec_bytes(), pos as int),
                h,
                e,
                pos,
                src.spec_bytes().len(),
            ),
            Err(f) => fails(spec_set_head(src.spec_bytes(), pos as int), f, src.spec_bytes().len()),
        },
{
    let bytes = src.as_bytes();
    match match_ident(bytes, pos) {
        None => Err(fail(bytes, pos, Expected::Identifier)),
        Some(e) => {
            let p = scan(bytes, e, Class::Space);
            if !is_byte(bytes, p, EQUALS) {
                return Err(fail(bytes, p, Expected::Assign));
            }
            let q = scan(bytes, p + 1, Class::Space);
            match parse_binary(src, q, Tier::Or) {
                Err(f) => Err(f),
                Ok((value, end)) => {
                    let ident = substring(src, pos, e);
                    Ok((TagHead::SetVariable { ident, value }, end))
                },
            }
        },
    }
}

/// Parses the content of an `import` tag, after its keyword.
pub fn parse_import_head(src: &str, pos: usize) -> (r: Result<(TagHead, usize), Failure>)
    requires
        pos <= src.spec_bytes().len(),
    ensures
        match r {
            Ok((h, e)) => head_yields(
                spec_import_head(src.spec_bytes(), pos as int),
                h,
                e,
                pos,
                src.spec_bytes().len(),
            ),
            Err(f) => fails(
                spec_import_head(src.spec_bytes(), pos as int),
                f,
                src.spec_bytes().len(),
            ),
        },
{
    let bytes = src.as_bytes();
    match parse_file_name(src, pos) {
        Err(f) => Err(f),
        Ok((file, e)) => {
            let p = scan(bytes, e, Class::Space);
            if !looking_at_word(bytes, p, "as") {
                return Err(fail(bytes, p, Expected::KeywordAs));
            }
            let q = scan(bytes, p + "as".as_bytes().len(), Class::Space);
            match match_ident(bytes, q) {
                None => Err(fail(bytes, q, Expected::Identifier)),
                Some(end) => {
                    let namespace = substring(src, q, end);
                    Ok((TagHead::Import(file, namespace), end))
                },
            }
        },
    }
}

/// Parses the content of a `filter` tag, after its keyword.
pub fn parse_filter_head(src: &str, pos: usize) -> (r: Result<(TagHead, usize), Failure>)
    requires
        pos <= src.spec_bytes().len(),
    ensures
        match r {
            Ok((h, e)) => head_yields(
                spec_filter_head(src.spec_bytes(), pos as int),
                h,
                e,
                pos,
                src.spec_bytes().len(),
            ),
            Err(f) => fails(
                spec_filter_head(src.spec_bytes(), pos as int),
                f,
                src.spec_bytes().len(),
            ),
        },
{
    let bytes = src.as_bytes();
    match match_ident(bytes, pos) {
        None => Err(fail(bytes, pos, Expected::Identifier)),
        Some(e) => {
            if is_byte(bytes, e, PAREN_OPEN) {
                match parse_arguments(src, e + 1) {
                    Err(f) => Err(f),
                    Ok((params, end)) => {
                        let name = substring(src, pos, e);
                        Ok((TagHead::Filter { name, params }, end))
                    },
                }
            } else {
                let name = substring(src, pos, e);
                let params: Vec<Kwarg> = Vec::new();
                assert(kwargs_view(params) =~= Seq::empty());
                Ok((TagHead::Filter { name, params }, e))
            }
        },
    }
}

/// Parses a parameter of a macro that starts at `pos`.
pub fn parse_macro_param(src: &str, pos: usize) -> (r: Result<(MacroParam, usize), Failure>)
    requires
        pos <= src.spec_bytes().len(),
    ensures
        match r {
            Ok((m, e)) => yields(
                spec_macro_param(src.spec_bytes(), pos as int),
                macro_param_view(m),
                e,
                pos,
                src.spec_bytes().len(),
            ) && match macro_param_view(m).default {
                Some(d) => expr_wf(d, src.spec_bytes().len() as int),
                None => true,
            },
            Err(f) => fails(
                spec_macro_param(src.spec_bytes(), pos as int),
                f,
                src.spec_bytes().len(),
            ),
        },
{
    let bytes = src.as_bytes();
    match match_ident(bytes, pos) {
        None => Err(fail(bytes, pos, Expected::Identifier)),
        Some(e) => {
            let p = scan(bytes, e, Class::Space);
            if is_byte(bytes, p, EQUALS) {
                let q = scan(bytes, p + 1, Class::Space);
                match parse_binary(src, q, Tier::Or) {
                    Err(f) => Err(f),
                    Ok((d, end)) => {
                        let name = substring(src, pos, e);
                        Ok((MacroParam { name, default: Some(d) }, end))
                    },
                }
            } else {
                let name = substring(src, pos, e);
                Ok((MacroParam { name, default: None }, e))
            }
        },
    }
}

/// Parses the parameters, separated by commas, that start at `pos`.
pub fn parse_macro_params(src: &str, pos: usize) -> (r: Result<(Vec<MacroParam>, usize), Failure>)
    requires
        pos <= src.spec_bytes().len(),
    ensures
        match r {
            Ok((ps, e)) => yields(
                spec_macro_params(src.spec_bytes(), pos as int, Seq::empty()),
                macro_params_view(ps),
                e,
                pos,
                src.spec_bytes().len(),
            ) && macro_params_wf(
                macro_params_view(ps),
                src.spec_bytes().len() as int,
            ),
            Err(f) => fails(
                spec_macro_params(src.spec_bytes(), pos as int, Seq::empty()),
                f,
                src.spec_bytes().len(),
            ),
        },
{
    reveal(spec_macro_params);
    let bytes = src.as_bytes();
    let mut ps: Vec<MacroParam> = Vec::new();
    let mut start: usize = pos;
    assert(macro_params_view(ps) =~= Seq::empty());
    loop
        invariant
            bytes@ == src.spec_bytes(),
            pos <= start <= bytes.len(),
            spec_macro_params(bytes@, pos as int, Seq::empty()) == spec_macro_params(
                bytes@,
                start as int,
                macro_params_view(ps),
            ),
            macro_params_wf(macro_params_view(ps), bytes@.len() as int),
        decreases bytes.len() - start,
    {
        reveal(spec_macro_params);
        match parse_macro_param(src, start) {
            Err(f) => {
                return Err(f);
            },
            Ok((m, e)) => {
                let ghost before = macro_params_view(ps);
                let ghost view = macro_param_view(m);
                ps.push(m);
                assert(macro_params_view(ps) =~= before.push(view));
                let p = scan(bytes, e, Class::Space);
                if is_byte(bytes, p, COMMA) {
                    start = scan(bytes, p + 1, Class::Space);
                } else {
                    return Ok((ps, e));
                }
            },
        }
    }
}

/// Parses a `macro_definition` that starts at `pos`, and gives its name and parameters.
pub fn parse_macro_definition(src: &str, pos: usize) -> (r: Result<
    ((String, Vec<MacroParam>), usize),
    Failure,
>)
    requires
        pos <= src.spec_bytes().len(),
    ensures
        match r {
            Ok((d, e)) => yields(
                spec_macro_definition(src.spec_bytes(), pos as int),
                (d.0@, macro_params_view(d.1)),
                e,
                pos,
                src.spec_bytes().len(),
            ) && macro_params_wf(
                macro_params_view(d.1),
                src.spec_bytes().len() as int,
            ),
            Err(f) => fails(
                spec_macro_definition(src.spec_bytes(), pos as int),
                f,
                src.spec_bytes().len(),
            ),
        },
{
    let bytes = src.as_bytes();
    match match_ident(bytes, pos) {
        None => Err(fail(bytes, pos, Expected::Identifier)),
        Some(e) => {
            if !is_byte(bytes, e, PAREN_OPEN) {
                return Err(fail(bytes, e, Expected::ParenOpen));
            }
            let p = scan(bytes, e + 1, Class::Space);
            if is_byte(bytes, p, PAREN_CLOSE) {
                let name = substring(src, pos, e);
                let params: Vec<MacroParam> = Vec::new();
                assert(macro_params_view(params) =~= Seq::empty());
                return Ok(((name, params), p + 1));
            }
            match parse_macro_params(src, p) {
                Err(f) => Err(f),
                Ok((params, e2)) => {
                    let q = scan(bytes, e2, Class::Space);
                    if is_byte(bytes, q, PAREN_CLOSE) {
                        let name = substring(src, pos, e);
                        Ok(((name, params), q + 1))
                    } else {
                        Err(fail(bytes, q, Expected::CommaOrParenClose))
                    }
                },
            }
        },
    }
}

/// Whether the parameters with default values come last.
pub fn check_defaults_last(params: &Vec<MacroParam>) -> (r: bool)
    ensures
        r == defaults_last(macro_params_view(*params)),
{
    let ghost view = macro_params_view(*params);
    let mut seen: Option<usize> = None;
    let mut i: usize = 0;
    while i < params.len()
        invariant
            i <= params.len(),
            view == macro_params_view(*params),
            view.len() == params.len(),
            match seen {
                Some(w) => w < i && view[w as int].default is Some,
                None => forall|a: int| 0 <= a < i ==> view[a].default is None,
            },
            forall|a: int, b: int|
                0 <= a < b < i && view[a].default is Some ==> view[b].default is Some,
        decreases params.len() - i,
    {
        assert(view[i as int] == macro_param_view(params[i as int]));
        match &params[i].default {
            Some(_) => {
                seen = Some(i);
            },
            None => {
                if let Some(w) = seen {
                    assert(view[w as int].default is Some && view[i as int].default is None);
                    return false;
                }
            },
        }
        i += 1;
    }
    true
}

/// Parses the content of a `macro` tag, after its keyword.
pub fn parse_macro_head(src: &str, pos: usize) -> (r: Result<(TagHead, usize), Failure>)
    requires
        pos <= src.spec_bytes().len(),
    ensures
        match r {
            Ok((h, e)) => head_yields(
                spec_macro_head(src.spec_bytes(), pos as int),
                h,
                e,
                pos,
                src.spec_bytes().len(),
            ),
            Err(f) => fails(
                spec_macro_head(src.spec_bytes(), pos as int),
                f,
                src.spec_bytes().len(),
            ),
        },
{
    match parse_macro_definition(src, pos) {
        Err(f) => Err(f),
        Ok((d, e)) => {
            let (name, params) = d;
            if check_defaults_last(&params) {
                Ok((TagHead::Macro { name, params }, e))
            } else {
                Err(
                    Failure {
                        kind: ErrorKind::SyntaxError,
                        span: Span { start: pos, end: e },
                        expected: Expected::DefaultValue,
                    },
                )
            }
        },
    }
}

/// The end of an `endblock` or `endmacro` whose keyword ends at `pos`.
pub fn parse_end_name(bytes: &[u8], pos: usize) -> (r: usize)
    requires
        pos <= bytes.len(),
    ensures
        r == spec_end_name(bytes@, pos as int),
        pos <= r <= bytes.len(),
{
    let p = scan(bytes, pos, Class::Space);
    match match_ident(bytes, p) {
        Some(e) => e,
        None => pos,
    }
}

/// The tag that the word from `a` to `b` names, if it names one.
pub fn keyword(bytes: &[u8], a: usize, b: usize) -> (r: Option<Keyword>)
    requires
        a <= b <= bytes.len(),
    ensures
        r == keyword_of(bytes@.subrange(a as int, b as int)),
{
    if range_is(bytes, a, b, "if") {
        Some(Keyword::If)
    } else if range_is(bytes, a, b, "elif") {
        Some(Keyword::Elif)
    } else if range_is(bytes, a, b, "else") {
        Some(Keyword::Else)
    } else if range_is(bytes, a, b, "endif") {
        Some(Keyword::EndIf)
    } else if range_is(bytes, a, b, "for") {
        Some(Keyword::For)
    } else if range_is(bytes, a, b, "endfor") {
        Some(Keyword::EndFor)
    } else if range_is(bytes, a, b, "set") {
        Some(Keyword::SetVariable)
    } else if range_is(bytes, a, b, "block") {
        Some(Keyword::Block)
    } else if range_is(bytes, a, b, "endblock") {
        Some(Keyword::EndBlock)
    } else if range_is(bytes, a, b, "macro") {
        Some(Keyword::Macro)
    } else if range_is(bytes, a, b, "endmacro") {
        Some(Keyword::EndMacro)
    } else if range_is(bytes, a, b, "filter") {
        Some(Keyword::Filter)
    } else if range_is(bytes, a, b, "endfilter") {
        Some(Keyword::EndFilter)
    } else if range_is(bytes, a, b, "extends") {
        Some(Keyword::Extends)
    } else if range_is(bytes, a, b, "include") {
        Some(Keyword::Include)
    } else if range_is(bytes, a, b, "import") {
        Some(Keyword::Import)
    } else if range_is(bytes, a, b, "raw") {
        Some(Keyword::Raw)
    } else if range_is(bytes, a, b, "endraw") {
        Some(Keyword::EndRaw)
    } else {
        None
    }
}

/// Parses the content of a `{% .. %}` tag, from its keyword on.
pub fn parse_tag_head(src: &str, pos: usize) -> (r: Result<(TagHead, usize), Failure>)
    requires
        pos <= src.spec_bytes().len(),
    ensures
        match r {
            Ok((h, e)) => head_yields(
                spec_tag_head(src.spec_bytes(), pos as int),
                h,
                e,
                pos,
                src.spec_bytes().len(),
            ),
            Err(f) => fails(spec_tag_head(src.spec_bytes(), pos as int), f, src.spec_bytes().len()),
        },
{
    reveal(spec_tag_head);
    let bytes = src.as_bytes();
    let k = match match_ident(bytes, pos) {
        None => {
            return Err(fail(bytes, pos, Expected::TagKeyword));
        },
        Some(k) => k,
    };
    let q = scan(bytes, k, Class::Space);
    match keyword(bytes, pos, k) {
        None => Err(fail(bytes, pos, Expected::TagKeyword)),
        Some(Keyword::If) => match parse_binary(src, q, Tier::Or) {
            Err(f) => Err(f),
            Ok((c, e)) => Ok((TagHead::If(c), e)),
        },
        Some(Keyword::Elif) => match parse_binary(src, q, Tier::Or) {
            Err(f) => Err(f),
            Ok((c, e)) => Ok((TagHead::Elif(c), e)),
        },
        Some(Keyword::Else) => Ok((TagHead::Else, k)),
        Some(Keyword::EndIf) => Ok((TagHead::EndIf, k)),
        Some(Keyword::For) => parse_for_head(src, q),
        Some(Keyword::EndFor) => Ok((TagHead::EndFor, k)),
        Some(Keyword::SetVariable) => parse_set_head(src, q),
        Some(Keyword::Block) => match match_ident(bytes, q) {
            None => Err(fail(bytes, q, Expected::Identifier)),
            Some(e) => Ok((TagHead::Block(substring(src, q, e)), e)),
        },
        Some(Keyword::EndBlock) => Ok((TagHead::EndBlock, parse_end_name(bytes, k))),
        Some(Keyword::Macro) => parse_macro_head(src, q),
        Some(Keyword::EndMacro) => Ok((TagHead::EndMacro, parse_end_name(bytes, k))),
        Some(Keyword::Filter) => parse_filter_head(src, q),
        Some(Keyword::EndFilter) => Ok((TagHead::EndFilter, k)),
        Some(Keyword::Extends) => match parse_file_name(src, q) {
            Err(f) => Err(f),
            Ok((file, e)) => Ok((TagHead::Extends(file), e)),
        },
        Some(Keyword::Include) => match parse_file_name(src, q) {
            Err(f) => Err(f),
            Ok((file, e)) => Ok((TagHead::Include(file), e)),
        },
        Some(Keyword::Import) => parse_import_head(src, q),
        Some(Keyword::Raw) => Ok((TagHead::Raw, k)),
        Some(Keyword::EndRaw) => Ok((TagHead::EndRaw, k)),
    }
}

/// Parses the tag that starts at `pos`.
pub fn parse_tag(src: &str, pos: usize) -> (r: Result<Tag, Failure>)
    requires
        pos <= src.spec_bytes().len(),
    ensures
        match r {
            Ok(t) => {
                &&& spec_tag(src.spec_bytes(), pos as int) == Ok::<TagView, Failure>(t@)
                &&& head_wf(t@.head, src.spec_bytes().len() as int)
                &&& t.span.start == pos
                &&& pos < t.span.end <= src.spec_bytes().len()
                &&& cut_point(src.spec_bytes(), t.span.end as int)
            },
            Err(f) => {
                &&& spec_tag(src.spec_bytes(), pos as int) == Err::<TagView, Failure>(f)
                &&& f.span.within(src.spec_bytes().len() as int)
                &&& f.kind != ErrorKind::StructuralError
            },
        },
{
    reveal(spec_tag);
    let bytes = src.as_bytes();
    if is_pair(bytes, pos, BRACE_OPEN, BRACE_OPEN) {
        let (trim_before, p) = parse_open(bytes, pos);
        match parse_binary(src, p, Tier::Or) {
            Err(f) => Err(f),
            Ok((v, e)) => match parse_close(bytes, e, BRACE_CLOSE) {
                Err(f) => Err(f),
                Ok((trim_after, end)) => Ok(
                    Tag {
                        head: TagHead::Variable(v),
                        span: Span { start: pos, end },
                        trim_before,
                        trim_after,
                    },
                ),
            },
        }
    } else if is_pair(bytes, pos, BRACE_OPEN, PERCENT) {
        let (trim_before, p) = parse_open(bytes, pos);
        match parse_tag_head(src, p) {
            Err(f) => Err(f),
            Ok((head, e)) => match parse_close(bytes, e, PERCENT) {
                Err(f) => Err(f),
                Ok((trim_after, end)) => Ok(
                    Tag { head, span: Span { start: pos, end }, trim_before, trim_after },
                ),
            },
        }
    } else {
        Err(fail(bytes, pos, Expected::TagOpen))
    }
}

} // verus!
