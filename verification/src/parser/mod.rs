//! The template grammar and the syntax tree it produces.
//!
//! `TeraParser::parse` turns the text of a template into its syntax tree,
//! `TeraParser::parse_str` matches one rule of the grammar at the start of a
//! text. Both give exactly what the grammar, written as `spec_` functions in
//! the modules below, says of the bytes of the text.
//!
//! - `ast`: the syntax tree, its model, and what makes a tree well formed
//! - `scan`, `lexer`: bytes, and the lexical rules
//! - `expression`: expressions, with their operators in order of precedence
//! - `tags`: the tags, one by one
//! - `template`: text, comments and tags, with blocks matched to their ends
//! - `errors`: failures and their place in the text
//! - `laws`: what holds of the grammar for every input
//! - `cloning`: copies of trees

pub mod ast;
pub mod cloning;
pub mod errors;
pub mod expression;
pub mod laws;
pub mod lexer;
pub mod scan;
pub mod tags;
pub mod template;

use ast::{expr_wf, template_wf, Expr, ExprView, Node, NodeView, Span};
use errors::{diagnose, fail, failure, ErrorKind, Expected, Failure, ParseError};
use expression::{
    parse_binary, parse_context_ident, parse_filter, parse_fn_call, parse_kwarg, parse_kwargs,
    parse_test, spec_binary, spec_context_ident, spec_filter, spec_fn_call, spec_kwarg, spec_kwargs,
    spec_test, Parsed, Tier,
};
use lexer::{
    dotted_ident_end, float_end, ident_end, int_end, match_dotted_ident, match_float, match_ident,
    match_int, skip, string_end,
};
use scan::{scan, Class};
use tags::{
    parse_macro_definition, parse_tag, spec_macro_definition, spec_tag, string_failure, TagHead,
    TagHeadView,
};
use template::{names_tag, parse_comment, parse_template, spec_comment, spec_template};
use vstd::prelude::*;
use vstd::string::*;

verus! {

/// The rules of the grammar that can be matched by themselves.
#[derive(Copy, Clone, Debug, PartialEq, Eq, Structural)]
pub enum Rule {
    /// `-10`
    Int,
    /// `-1.5`
    Float,
    /// `"text"`
    String,
    /// `name`
    Ident,
    /// `user.name`
    DottedIdent,
    /// Arithmetic, comparisons and tests: `index + 1 > 1`, `x is defined`
    Expression,
    /// An `expression`, or expressions joined by `and`, `or` and `not`
    LogicExpression,
    /// `name=value`
    Kwarg,
    /// `name=value, other=value`
    Kwargs,
    /// `name(kwargs)`
    FnCall,
    /// `| name(kwargs)`
    Filter,
    /// `user.name | upper | truncate(length=5)`
    ContextIdent,
    /// `name(param, other=default)`
    MacroDefinition,
    /// `is name(arguments)`
    Test,
    /// `{# text #}`
    CommentTag,
    /// `{{ expression }}`
    VariableTag,
    /// `{% set name = value %}`
    SetTag,
    /// `{% if condition %}`
    IfTag,
    /// `{% elif condition %}`
    ElifTag,
    /// `{% else %}`
    ElseTag,
    /// `{% endif %}`
    EndifTag,
    /// `{% for value in container %}`
    ForTag,
    /// `{% endfor %}`
    EndforTag,
    /// `{% block name %}`
    BlockTag,
    /// `{% endblock %}`
    EndblockTag,
    /// `{% macro name(params) %}`
    MacroTag,
    /// `{% endmacro %}`
    EndmacroTag,
    /// `{% filter name %}`
    FilterTag,
    /// `{% endfilter %}`
    EndfilterTag,
    /// `{% extends "file" %}`
    ExtendsTag,
    /// `{% include "file" %}`
    IncludeTag,
    /// `{% import "file" as namespace %}`
    ImportMacroTag,
    /// `{% raw %}`
    RawTag,
    /// `{% endraw %}`
    EndrawTag,
}

/// The rule that a tag with the head `head` matches.
pub open spec fn rule_of(head: TagHeadView) -> Rule {
    match head {
        TagHeadView::Variable(_) => Rule::VariableTag,
        TagHeadView::If(_) => Rule::IfTag,
        TagHeadView::Elif(_) => Rule::ElifTag,
        TagHeadView::Else => Rule::ElseTag,
        TagHeadView::EndIf => Rule::EndifTag,
        TagHeadView::For { .. } => Rule::ForTag,
        TagHeadView::EndFor => Rule::EndforTag,
        TagHeadView::SetVariable { .. } => Rule::SetTag,
        TagHeadView::Block(_) => Rule::BlockTag,
        TagHeadView::EndBlock => Rule::EndblockTag,
        TagHeadView::Macro { .. } => Rule::MacroTag,
        TagHeadView::EndMacro => Rule::EndmacroTag,
        TagHeadView::Filter { .. } => Rule::FilterTag,
        TagHeadView::EndFilter => Rule::EndfilterTag,
        TagHeadView::Extends(_) => Rule::ExtendsTag,
        TagHeadView::Include(_) => Rule::IncludeTag,
        TagHeadView::Import(_, _) => Rule::ImportMacroTag,
        TagHeadView::Raw => Rule::RawTag,
        TagHeadView::EndRaw => Rule::EndrawTag,
    }
}

/// The end of what a lexical rule matched, or the failure to find `expected`
/// at the start of the text.
pub open spec fn token_end(src: Seq<u8>, end: Option<int>, expected: Expected) -> Result<
    int,
    Failure,
> {
    match end {
        Some(e) => Ok(e),
        None => Err(failure(src, 0, expected)),
    }
}

/// The end of what a rule matched.
pub open spec fn end_of<T>(r: Parsed<T>) -> Result<int, Failure> {
    match r {
        Ok((_, e)) => Ok(e),
        Err(f) => Err(f),
    }
}

/// The end of the tag at the start of the text, where it is a tag of the
/// rule `rule`.
pub open spec fn tag_end(src: Seq<u8>, rule: Rule) -> Result<int, Failure> {
    match spec_tag(src, 0) {
        Ok(tag) => if rule_of(tag.head) == rule {
            Ok(tag.span.end as int)
        } else {
            Err(failure(src, 0, Expected::TagKeyword))
        },
        Err(f) => Err(f),
    }
}

/// The end of what `rule` matches at the start of `src`, or the failure of
/// the rule there. A rule matches as much as it can, which need not be the
/// whole text.
pub open spec fn spec_rule(rule: Rule, src: Seq<u8>) -> Result<int, Failure> {
    match rule {
        Rule::Int => token_end(src, int_end(src, 0), Expected::Integer),
        Rule::Float => token_end(src, float_end(src, 0), Expected::Float),
        Rule::String => match string_end(src, 0) {
            Some(e) => Ok(e),
            None => Err(string_failure(src, 0)),
        },
        Rule::Ident => token_end(src, ident_end(src, 0), Expected::Identifier),
        Rule::DottedIdent => token_end(src, dotted_ident_end(src, 0), Expected::Identifier),
        Rule::Expression => end_of(spec_binary(src, 0, Tier::Compare)),
        Rule::LogicExpression => end_of(spec_binary(src, 0, Tier::Or)),
        Rule::Kwarg => end_of(spec_kwarg(src, 0)),
        Rule::Kwargs => end_of(spec_kwargs(src, 0, Seq::empty())),
        Rule::FnCall => end_of(spec_fn_call(src, 0)),
        Rule::Filter => end_of(spec_filter(src, 0)),
        Rule::ContextIdent => end_of(spec_context_ident(src, 0)),
        Rule::MacroDefinition => end_of(spec_macro_definition(src, 0)),
        Rule::Test => end_of(spec_test(src, 0)),
        Rule::CommentTag => spec_comment(src, 0),
        _ => tag_end(src, rule),
    }
}

/// The expression that the whole text is, white space around it aside.
pub open spec fn spec_expression(src: Seq<u8>) -> Result<ExprView, Failure> {
    match spec_binary(src, skip(src, 0), Tier::Or) {
        Err(f) => Err(f),
        Ok((v, e)) => {
            if skip(src, e) == src.len() {
                Ok(v)
            } else {
                Err(failure(src, skip(src, e), Expected::EndOfInput))
            }
        },
    }
}

/// The rule that a tag matches.
pub fn tag_rule(head: &TagHead) -> (r: Rule)
    ensures
        r == rule_of(tags::head_view(*head)),
{
    match head {
        TagHead::Variable(_) => Rule::VariableTag,
        TagHead::If(_) => Rule::IfTag,
        TagHead::Elif(_) => Rule::ElifTag,
        TagHead::Else => Rule::ElseTag,
        TagHead::EndIf => Rule::EndifTag,
        TagHead::For { .. } => Rule::ForTag,
        TagHead::EndFor => Rule::EndforTag,
        TagHead::SetVariable { .. } => Rule::SetTag,
        TagHead::Block(_) => Rule::BlockTag,
        TagHead::EndBlock => Rule::EndblockTag,
        TagHead::Macro { .. } => Rule::MacroTag,
        TagHead::EndMacro => Rule::EndmacroTag,
        TagHead::Filter { .. } => Rule::FilterTag,
        TagHead::EndFilter => Rule::EndfilterTag,
        TagHead::Extends(_) => Rule::ExtendsTag,
        TagHead::Include(_) => Rule::IncludeTag,
        TagHead::Import(_, _) => Rule::ImportMacroTag,
        TagHead::Raw => Rule::RawTag,
        TagHead::EndRaw => Rule::EndrawTag,
    }
}

/// The parser of the template language.
pub struct TeraParser;

impl TeraParser {
    /// Matches `rule` at the start of `input`, and gives the span of what it
    /// matched. The rule matches as much as it can, which need not be all
    /// of `input`.
    pub fn parse_str(rule: Rule, input: &str) -> (r: Result<Span, Failure>)
        ensures
            match r {
                Ok(s) => spec_rule(rule, input.spec_bytes()) == Ok::<int, Failure>(s.end as int)
                    && s.start == 0 && s.end <= input.spec_bytes().len(),
                Err(f) => spec_rule(rule, input.spec_bytes()) == Err::<int, Failure>(f)
                    && f.span.within(input.spec_bytes().len() as int) && f.kind
                    != ErrorKind::StructuralError,
            },
    {
        let bytes = input.as_bytes();
        let end: Result<usize, Failure> = match rule {
            Rule::Int => match match_int(bytes, 0) {
                Some(e) => Ok(e),
                None => Err(fail(bytes, 0, Expected::Integer)),
            },
            Rule::Float => match match_float(bytes, 0) {
                Some(e) => Ok(e),
                None => Err(fail(bytes, 0, Expected::Float)),
            },
            Rule::String => match tags::parse_file_name(input, 0) {
                Ok((_, e)) => Ok(e),
                Err(f) => Err(f),
            },
            Rule::Ident => match match_ident(bytes, 0) {
                Some(e) => Ok(e),
                None => Err(fail(bytes, 0, Expected::Identifier)),
            },
            Rule::DottedIdent => match match_dotted_ident(bytes, 0) {
                Some(e) => Ok(e),
                None => Err(fail(bytes, 0, Expected::Identifier)),
            },
            Rule::Expression => match parse_binary(input, 0, Tier::Compare) {
                Ok((_, e)) => Ok(e),
                Err(f) => Err(f),
            },
            Rule::LogicExpression => match parse_binary(input, 0, Tier::Or) {
                Ok((_, e)) => Ok(e),
                Err(f) => Err(f),
            },
            Rule::Kwarg => match parse_kwarg(input, 0) {
                Ok((_, e)) => Ok(e),
                Err(f) => Err(f),
            },
            Rule::Kwargs => match parse_kwargs(input, 0) {
                Ok((_, e)) => Ok(e),
                Err(f) => Err(f),
            },
            Rule::FnCall => match parse_fn_call(input, 0) {
                Ok((_, e)) => Ok(e),
                Err(f) => Err(f),
            },
            Rule::Filter => match parse_filter(input, 0) {
                Ok((_, e)) => Ok(e),
                Err(f) => Err(f),
            },
            Rule::ContextIdent => match parse_context_ident(input, 0) {
                Ok((_, e)) => Ok(e),
                Err(f) => Err(f),
            },
            Rule::MacroDefinition => match parse_macro_definition(input, 0) {
                Ok((_, e)) => Ok(e),
                Err(f) => Err(f),
            },
            Rule::Test => match parse_test(input, 0) {
                Ok((_, e)) => Ok(e),
                Err(f) => Err(f),
            },
            Rule::CommentTag => parse_comment(bytes, 0),
            _ => match parse_tag(input, 0) {
                Ok(tag) => if tag_rule(&tag.head) == rule {
                    Ok(tag.span.end)
                } else {
                    Err(fail(bytes, 0, Expected::TagKeyword))
                },
                Err(f) => Err(f),
            },
        };
        match end {
            Ok(e) => Ok(Span { start: 0, end: e }),
            Err(f) => Err(f),
        }
    }

    /// Parses `input` as one expression, with nothing but white space
    /// around it.
    pub fn parse_expression(input: &str) -> (r: Result<Expr, Failure>)
        ensures
            match r {
                Ok(e) => spec_expression(input.spec_bytes()) == Ok::<ExprView, Failure>(e@)
                    && expr_wf(e@, input.spec_bytes().len() as int),
                Err(f) => spec_expression(input.spec_bytes()) == Err::<ExprView, Failure>(f)
                    && f.span.within(input.spec_bytes().len() as int) && f.kind
                    != ErrorKind::StructuralError,
            },
    {
        let bytes = input.as_bytes();
        let start = scan(bytes, 0, Class::Space);
        match parse_binary(input, start, Tier::Or) {
            Err(f) => Err(f),
            Ok((v, e)) => {
                let rest = scan(bytes, e, Class::Space);
                if rest == bytes.len() {
                    Ok(v)
                } else {
                    Err(fail(bytes, rest, Expected::EndOfInput))
                }
            },
        }
    }

    /// Parses the text `input` of the template `template_name`: gives its
    /// syntax tree, a `Node::Template`, or the diagnostic of the first error.
    pub fn parse(template_name: &str, input: &str) -> (r: Result<Node, ParseError>)
        ensures
            match r {
                Ok(n) => spec_template(input.spec_bytes()) == Ok::<NodeView, Failure>(n@)
                    && template_wf(n@, input.spec_bytes().len() as int),
                Err(e) => spec_template(input.spec_bytes()) == Err::<NodeView, Failure>(
                    e.failure,
                ) && e.failure.span.within(input.spec_bytes().len() as int) && names_tag(
                    input.spec_bytes(),
                    e.failure,
                ) && e.describes(template_name@, input.spec_bytes(), e.failure),
            },
    {
        match parse_template(input) {
            Ok(n) => Ok(n),
            Err(f) => Err(diagnose(template_name, input, f)),
        }
    }
}

} // verus!
