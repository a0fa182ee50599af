//! The expression grammar, and the parser that builds expressions.
//!
//! From loosest to tightest: `or`, `and`, `not`, the comparisons, `+ -`,
//! `* /`, a test (`is name`), and the operands: literals, identifiers with
//! their filters, calls, and an expression in parentheses. Binary operators
//! group to the left.
//!
//! Each rule is a `spec_` function from the bytes of the text and a position
//! to the value read and the position after it, or to the failure. Each has a
//! `parse_` function that computes exactly that. A rule starts at its first
//! byte; the rule around it skips the white space in between.

use super::ast::{
    expr_wf, exprs_view, exprs_wf, filter_view, filters_view, filters_wf, kwarg_view, kwargs_view,
    kwargs_wf, lit_kind_view, unique_names, Expr, ExprKind, ExprKindView, ExprView, Filter,
    FilterView, FunctionCall, Ident, Kwarg, KwargView, LitKind, LitKindView, LogicExpr,
    LogicOperator, MacroCall, MathExpr, MathOperator, NotExpr, Span, Spanned, Test,
};
use super::errors::{fail, failure, ErrorKind, Expected, Failure};
use super::lexer::{
    dotted_rest, float_end, ident_end, int_end, int_literal, int_value, lemma_dotted_rest_bounds,
    match_dotted_ident, match_float, match_ident, match_int, match_string, skip, string_end,
};
use super::scan::{
    at, byte_at, is_byte, is_pair, lemma_run_bounds, looking_at, looking_at_word, pair_at, scan,
    substring, text_of, word_at, Class, BANG, BRACE_CLOSE, COLON, COMMA, EQUALS, GREATER, LESS,
    MINUS, PAREN_CLOSE, PAREN_OPEN, PERCENT, PIPE, PLUS, QUOTE, SLASH, STAR,
};
use vstd::prelude::*;
use vstd::string::*;
use vstd::utf8::*;

verus! {

/// What a rule gives at a position: a value and the position after it, or a
/// failure.
pub type Parsed<T> = Result<(T, int), Failure>;

broadcast use {lemma_run_bounds, lemma_dotted_rest_bounds};

/// The result `r` of a rule applied at `pos`, where it ends after `pos` and
/// inside the text, as every result of this grammar does. A result that does
/// not counts as a failure: the rules that repeat go on only from a later
/// position.
pub open spec fn advancing<T>(r: Parsed<T>, pos: int, len: int) -> Parsed<T> {
    match r {
        Ok((v, e)) => {
            if pos < e <= len {
                r
            } else {
                Err(
                    Failure {
                        kind: ErrorKind::SyntaxError,
                        span: Span { start: pos as usize, end: pos as usize },
                        expected: Expected::EndOfInput,
                    },
                )
            }
        },
        Err(f) => r,
    }
}

/// The rule gave `v` and ended at `e`, after `pos` and inside the text.
pub open spec fn yields<T>(s: Parsed<T>, v: T, e: usize, pos: usize, len: nat) -> bool {
    s == Ok::<(T, int), Failure>((v, e as int)) && pos < e <= len
}

/// The expression `v` was read between `pos` and `e`, and is well formed.
pub open spec fn placed(v: ExprView, pos: int, e: int, len: int) -> bool {
    pos <= v.span.start && v.span.end <= e && expr_wf(v, len)
}

/// The rule gave the expression `v` and ended at `e`; `v` lies between `pos`
/// and `e`, and is well formed.
pub open spec fn yields_expr(
    s: Parsed<ExprView>,
    v: ExprView,
    e: usize,
    pos: usize,
    len: nat,
) -> bool {
    yields(s, v, e, pos, len) && placed(v, pos as int, e as int, len as int)
}

/// The rule failed with `f`, which lies in the text. A rule fails with a
/// lexical or a syntax error: only the matching of blocks gives structural
/// errors.
pub open spec fn fails<T>(s: Parsed<T>, f: Failure, len: nat) -> bool {
    &&& s == Err::<(T, int), Failure>(f)
    &&& f.span.within(len as int)
    &&& f.kind != ErrorKind::StructuralError
}

/// The tiers of binary operators, from the loosest to the tightest.
#[derive(Copy, Clone, Debug, PartialEq, Eq, Structural)]
pub enum Tier {
    /// `or`
    Or,
    /// `and`
    And,
    /// `> >= < <= == !=`
    Compare,
    /// `+ -`
    Additive,
    /// `* /`
    Multiplicative,
}

impl Tier {
    /// How loosely the tier binds.
    pub open spec fn rank(self) -> int {
        match self {
            Tier::Multiplicative => 0,
            Tier::Additive => 1,
            Tier::Compare => 2,
            Tier::And => 4,
            Tier::Or => 5,
        }
    }
}

/// A binary operator of either family.
#[derive(Copy, Clone, Debug, PartialEq, Eq, Structural)]
pub enum BinaryOperator {
    Math(MathOperator),
    Logic(LogicOperator),
}

/// A `-` that belongs to the end of a tag (`-%}`, `-}}`) and is no operator.
pub open spec fn closes_tag(src: Seq<u8>, pos: int) -> bool {
    byte_at(src, pos, MINUS) && (pair_at(src, pos + 1, PERCENT, BRACE_CLOSE) || pair_at(
        src,
        pos + 1,
        BRACE_CLOSE,
        BRACE_CLOSE,
    ))
}

/// The operator of the tier that stands at `pos`, and its length in bytes.
pub open spec fn operator_at(src: Seq<u8>, pos: int, tier: Tier) -> Option<(BinaryOperator, int)> {
    match tier {
        Tier::Or => if word_at(src, pos, "or".spec_bytes()) {
            Some((BinaryOperator::Logic(LogicOperator::Or), "or".spec_bytes().len() as int))
        } else {
            None
        },
        Tier::And => if word_at(src, pos, "and".spec_bytes()) {
            Some((BinaryOperator::Logic(LogicOperator::And), "and".spec_bytes().len() as int))
        } else {
            None
        },
        Tier::Compare => if pair_at(src, pos, GREATER, EQUALS) {
            Some((BinaryOperator::Logic(LogicOperator::Gte), 2))
        } else if pair_at(src, pos, LESS, EQUALS) {
            Some((BinaryOperator::Logic(LogicOperator::Lte), 2))
        } else if pair_at(src, pos, EQUALS, EQUALS) {
            Some((BinaryOperator::Logic(LogicOperator::Eq), 2))
        } else if pair_at(src, pos, BANG, EQUALS) {
            Some((BinaryOperator::Logic(LogicOperator::NotEq), 2))
        } else if byte_at(src, pos, GREATER) {
            Some((BinaryOperator::Logic(LogicOperator::Gt), 1))
        } else if byte_at(src, pos, LESS) {
            Some((BinaryOperator::Logic(LogicOperator::Lt), 1))
        } else {
            None
        },
        Tier::Additive => if byte_at(src, pos, PLUS) {
            Some((BinaryOperator::Math(MathOperator::Add), 1))
        } else if byte_at(src, pos, MINUS) && !closes_tag(src, pos) {
            Some((BinaryOperator::Math(MathOperator::Sub), 1))
        } else {
            None
        },
        Tier::Multiplicative => if byte_at(src, pos, STAR) {
            Some((BinaryOperator::Math(MathOperator::Mul), 1))
        } else if byte_at(src, pos, SLASH) {
            Some((BinaryOperator::Math(MathOperator::Div), 1))
        } else {
            None
        },
    }
}

/// The expression `lhs op rhs`. Its span runs from the start of the left
/// operand to the end of the right one.
pub open spec fn combine(op: BinaryOperator, lhs: ExprView, rhs: ExprView) -> ExprView {
    Spanned {
        node: match op {
            BinaryOperator::Math(operator) => ExprKindView::Math {
                lhs: Box::new(lhs),
                rhs: Box::new(rhs),
                operator,
            },
            BinaryOperator::Logic(operator) => ExprKindView::Logic {
                lhs: Box::new(lhs),
                rhs: Box::new(rhs),
                operator,
            },
        },
        span: Span { start: lhs.span.start, end: rhs.span.end },
    }
}

/// The literal `kind` that stands from `start` to `end`.
pub open spec fn lit_expr(kind: LitKindView, start: int, end: int) -> ExprView {
    let span = Span { start: start as usize, end: end as usize };
    Spanned { node: ExprKindView::Lit(Spanned { node: kind, span }), span }
}

/// The words that cannot be used as identifiers in an expression.
pub open spec fn is_reserved(w: Seq<u8>) -> bool {
    w == "and".spec_bytes() || w == "or".spec_bytes() || w == "not".spec_bytes() || w
        == "is".spec_bytes() || w == "in".spec_bytes()
}

/// The first index from `from` on at which `ks` holds the name, or the
/// length of `ks`.
pub open spec fn named_index(ks: Seq<KwargView>, name: Seq<char>, from: int) -> int
    decreases ks.len() - from,
{
    if 0 <= from < ks.len() && ks[from].name != name {
        named_index(ks, name, from + 1)
    } else {
        from
    }
}

/// `ks` with the argument `k`: in the place of the argument of that name
/// where there is one, at the end where there is none. Arguments are a
/// mapping: a name that is given twice keeps its last value.
pub open spec fn with_kwarg(ks: Seq<KwargView>, k: KwargView) -> Seq<KwargView> {
    let i = named_index(ks, k.name, 0);
    if 0 <= i < ks.len() {
        ks.update(i, k)
    } else {
        ks.push(k)
    }
}

/// What `named_index` is: no argument before it, from `from` on, has the
/// name, and the argument at it has.
pub proof fn lemma_named_index(ks: Seq<KwargView>, name: Seq<char>, from: int)
    requires
        0 <= from <= ks.len(),
    ensures
        from <= named_index(ks, name, from) <= ks.len(),
        forall|j: int| from <= j < named_index(ks, name, from) ==> (#[trigger] ks[j]).name != name,
        named_index(ks, name, from) < ks.len() ==> ks[named_index(ks, name, from)].name == name,
    decreases ks.len() - from,
{
    if from < ks.len() && ks[from].name != name {
        lemma_named_index(ks, name, from + 1);
    }
}

/// Arguments stay a mapping when one is put in: no name occurs twice.
pub proof fn lemma_with_kwarg_unique(ks: Seq<KwargView>, k: KwargView)
    requires
        unique_names(ks),
    ensures
        unique_names(with_kwarg(ks, k)),
{
    lemma_named_index(ks, k.name, 0);
}

/// `kwarg`: `name = expression`
#[verifier::opaque]
pub open spec fn spec_kwarg(src: Seq<u8>, pos: int) -> Parsed<KwargView>
    decreases src.len() - pos, 16int,
    when 0 <= pos <= src.len()
{
    match ident_end(src, pos) {
        None => Err(failure(src, pos, Expected::Identifier)),
        Some(e) => {
            let p = skip(src, e);
            if !byte_at(src, p, EQUALS) {
                Err(failure(src, p, Expected::Assign))
            } else {
                match spec_binary(src, skip(src, p + 1), Tier::Or) {
                    Err(f) => Err(f),
                    Ok((value, end)) => Ok((KwargView { name: text_of(src, pos, e), value }, end)),
                }
            }
        },
    }
}

/// `kwargs`: `kwarg , kwarg , ..`, added to `acc`.
#[verifier::opaque]
pub open spec fn spec_kwargs(src: Seq<u8>, pos: int, acc: Seq<KwargView>) -> Parsed<Seq<KwargView>>
    decreases src.len() - pos, 17int,
    when 0 <= pos <= src.len()
{
    match advancing(spec_kwarg(src, pos), pos, src.len() as int) {
        Err(f) => Err(f),
        Ok((k, e)) => {
            let p = skip(src, e);
            if byte_at(src, p, COMMA) {
                spec_kwargs(src, skip(src, p + 1), with_kwarg(acc, k))
            } else {
                Ok((with_kwarg(acc, k), e))
            }
        },
    }
}

/// The arguments of a call, from after its `(` to its `)`.
#[verifier::opaque]
pub open spec fn spec_arguments(src: Seq<u8>, pos: int) -> Parsed<Seq<KwargView>>
    decreases src.len() - pos, 18int,
    when 0 <= pos <= src.len()
{
    let p = skip(src, pos);
    if byte_at(src, p, PAREN_CLOSE) {
        Ok((Seq::empty(), p + 1))
    } else {
        match advancing(spec_kwargs(src, p, Seq::empty()), p, src.len() as int) {
            Err(f) => Err(f),
            Ok((ks, e)) => {
                let q = skip(src, e);
                if byte_at(src, q, PAREN_CLOSE) {
                    Ok((ks, q + 1))
                } else {
                    Err(failure(src, q, Expected::CommaOrParenClose))
                }
            },
        }
    }
}

/// `fn_call`: `name(kwargs)`
#[verifier::opaque]
pub open spec fn spec_fn_call(src: Seq<u8>, pos: int) -> Parsed<ExprView>
    decreases src.len() - pos, 0int,
    when 0 <= pos <= src.len()
{
    match ident_end(src, pos) {
        None => Err(failure(src, pos, Expected::Identifier)),
        Some(e) => {
            if !byte_at(src, e, PAREN_OPEN) {
                Err(failure(src, e, Expected::ParenOpen))
            } else {
                match spec_arguments(src, e + 1) {
                    Err(f) => Err(f),
                    Ok((params, end)) => Ok(
                        (
                            Spanned {
                                node: ExprKindView::FunctionCall {
                                    name: text_of(src, pos, e),
                                    params,
                                },
                                span: Span { start: pos as usize, end: end as usize },
                            },
                            end,
                        ),
                    ),
                }
            }
        },
    }
}

/// A call of a macro of another file: `namespace::name(kwargs)`
#[verifier::opaque]
pub open spec fn spec_macro_call(src: Seq<u8>, pos: int) -> Parsed<ExprView>
    decreases src.len() - pos, 0int,
    when 0 <= pos <= src.len()
{
    match ident_end(src, pos) {
        None => Err(failure(src, pos, Expected::Identifier)),
        Some(e) => {
            if !pair_at(src, e, COLON, COLON) {
                Err(failure(src, e, Expected::PathSeparator))
            } else {
                match ident_end(src, e + 2) {
                    None => Err(failure(src, e + 2, Expected::Identifier)),
                    Some(n) => {
                        if !byte_at(src, n, PAREN_OPEN) {
                            Err(failure(src, n, Expected::ParenOpen))
                        } else {
                            match spec_arguments(src, n + 1) {
                                Err(f) => Err(f),
                                Ok((params, end)) => Ok(
                                    (
                                        Spanned {
                                            node: ExprKindView::MacroCall {
                                                namespace: text_of(src, pos, e),
                                                name: text_of(src, e + 2, n),
                                                params,
                                            },
                                            span: Span { start: pos as usize, end: end as usize },
                                        },
                                        end,
                                    ),
                                ),
                            }
                        }
                    },
                }
            }
        },
    }
}

/// `filter`: `| name` or `| name(kwargs)`
#[verifier::opaque]
pub open spec fn spec_filter(src: Seq<u8>, pos: int) -> Parsed<FilterView>
    decreases src.len() - pos, 19int,
    when 0 <= pos <= src.len()
{
    if !byte_at(src, pos, PIPE) {
        Err(failure(src, pos, Expected::Pipe))
    } else {
        let p = skip(src, pos + 1);
        match ident_end(src, p) {
            None => Err(failure(src, p, Expected::Identifier)),
            Some(e) => {
                if byte_at(src, e, PAREN_OPEN) {
                    match spec_arguments(src, e + 1) {
                        Err(f) => Err(f),
                        Ok((params, end)) => Ok(
                            (FilterView { name: text_of(src, p, e), params }, end),
                        ),
                    }
                } else {
                    Ok((FilterView { name: text_of(src, p, e), params: Seq::empty() }, e))
                }
            },
        }
    }
}

/// The filters that follow what ends at `pos`, added to `acc` in source order.
#[verifier::opaque]
pub open spec fn spec_filters(src: Seq<u8>, pos: int, acc: Seq<FilterView>) -> Parsed<
    Seq<FilterView>,
>
    decreases src.len() - pos, 20int,
    when 0 <= pos <= src.len()
{
    let p = skip(src, pos);
    if byte_at(src, p, PIPE) {
        match advancing(spec_filter(src, p), p, src.len() as int) {
            Err(f) => Err(f),
            Ok((f, e)) => spec_filters(src, e, acc.push(f)),
        }
    } else {
        Ok((acc, pos))
    }
}

/// `context_ident`: a dotted identifier and the filters that follow it.
#[verifier::opaque]
pub open spec fn spec_context_ident(src: Seq<u8>, pos: int) -> Parsed<ExprView>
    decreases src.len() - pos, 0int,
    when 0 <= pos <= src.len()
{
    match ident_end(src, pos) {
        None => Err(failure(src, pos, Expected::Identifier)),
        Some(e) => {
            let d = dotted_rest(src, e);
            match spec_filters(src, d, Seq::empty()) {
                Err(f) => Err(f),
                Ok((filters, end)) => Ok(
                    (
                        Spanned {
                            node: ExprKindView::Ident { name: text_of(src, pos, d), filters },
                            span: Span { start: pos as usize, end: end as usize },
                        },
                        end,
                    ),
                ),
            }
        },
    }
}

/// A literal that is no word: a string, a decimal number or an integer.
/// `None` where none starts at `pos`.
pub open spec fn spec_literal(src: Seq<u8>, pos: int) -> Option<Parsed<ExprView>> {
    if byte_at(src, pos, QUOTE) {
        match string_end(src, pos) {
            Some(e) => Some(
                Ok((lit_expr(LitKindView::String(text_of(src, pos + 1, e - 1)), pos, e), e)),
            ),
            None => Some(
                Err(
                    Failure {
                        kind: ErrorKind::LexicalError,
                        span: Span { start: pos as usize, end: pos as usize },
                        expected: Expected::ClosingQuote,
                    },
                ),
            ),
        }
    } else if float_end(src, pos) is Some {
        let e = float_end(src, pos).unwrap();
        Some(Ok((lit_expr(LitKindView::Float(text_of(src, pos, e)), pos, e), e)))
    } else if int_end(src, pos) is Some {
        let e = int_end(src, pos).unwrap();
        let v = int_value(src, pos, e);
        if i64::MIN <= v <= i64::MAX {
            Some(Ok((lit_expr(LitKindView::Int(v as i64), pos, e), e)))
        } else {
            Some(
                Err(
                    Failure {
                        kind: ErrorKind::LexicalError,
                        span: Span { start: pos as usize, end: e as usize },
                        expected: Expected::IntegerInRange,
                    },
                ),
            )
        }
    } else {
        None
    }
}

/// An operand that starts with a word: `true` or `false`, a call, or an
/// identifier with its filters.
#[verifier::opaque]
pub open spec fn spec_named(src: Seq<u8>, pos: int) -> Parsed<ExprView>
    decreases src.len() - pos, 1int,
    when 0 <= pos <= src.len()
{
    match ident_end(src, pos) {
        None => Err(failure(src, pos, Expected::Operand)),
        Some(e) => {
            let word = src.subrange(pos, e);
            if word == "true".spec_bytes() {
                Ok((lit_expr(LitKindView::Bool(true), pos, e), e))
            } else if word == "false".spec_bytes() {
                Ok((lit_expr(LitKindView::Bool(false), pos, e), e))
            } else if is_reserved(word) {
                Err(failure(src, pos, Expected::Operand))
            } else if pair_at(src, e, COLON, COLON) {
                spec_macro_call(src, pos)
            } else if byte_at(src, e, PAREN_OPEN) {
                spec_fn_call(src, pos)
            } else {
                spec_context_ident(src, pos)
            }
        },
    }
}

/// An operand: a literal, a call, an identifier with its filters, or an
/// expression in parentheses.
#[verifier::opaque]
pub open spec fn spec_primary(src: Seq<u8>, pos: int) -> Parsed<ExprView>
    decreases src.len() - pos, 2int,
    when 0 <= pos <= src.len()
{
    match spec_literal(src, pos) {
        Some(r) => r,
        None => {
            if byte_at(src, pos, PAREN_OPEN) {
                match spec_binary(src, skip(src, pos + 1), Tier::Or) {
                    Err(f) => Err(f),
                    Ok((v, e)) => {
                        let c = skip(src, e);
                        if byte_at(src, c, PAREN_CLOSE) {
                            Ok((v, c + 1))
                        } else {
                            Err(failure(src, c, Expected::ParenClose))
                        }
                    },
                }
            } else {
                spec_named(src, pos)
            }
        },
    }
}

/// Expressions separated by commas, added to `acc`.
#[verifier::opaque]
pub open spec fn spec_expressions(src: Seq<u8>, pos: int, acc: Seq<ExprView>) -> Parsed<
    Seq<ExprView>,
>
    decreases src.len() - pos, 17int,
    when 0 <= pos <= src.len()
{
    match advancing(spec_binary(src, pos, Tier::Or), pos, src.len() as int) {
        Err(f) => Err(f),
        Ok((v, e)) => {
            let p = skip(src, e);
            if byte_at(src, p, COMMA) {
                spec_expressions(src, skip(src, p + 1), acc.push(v))
            } else {
                Ok((acc.push(v), e))
            }
        },
    }
}

/// The arguments of a test, from after its `(` to its `)`.
#[verifier::opaque]
pub open spec fn spec_test_arguments(src: Seq<u8>, pos: int) -> Parsed<Seq<ExprView>>
    decreases src.len() - pos, 18int,
    when 0 <= pos <= src.len()
{
    let p = skip(src, pos);
    if byte_at(src, p, PAREN_CLOSE) {
        Ok((Seq::empty(), p + 1))
    } else {
        match advancing(spec_expressions(src, p, Seq::empty()), p, src.len() as int) {
            Err(f) => Err(f),
            Ok((es, e)) => {
                let q = skip(src, e);
                if byte_at(src, q, PAREN_CLOSE) {
                    Ok((es, q + 1))
                } else {
                    Err(failure(src, q, Expected::CommaOrParenClose))
                }
            },
        }
    }
}

/// `test`: `is name` or `is name(expression, ..)`. Gives the name and the
/// arguments.
#[verifier::opaque]
pub open spec fn spec_test(src: Seq<u8>, pos: int) -> Parsed<(Seq<char>, Seq<ExprView>)>
    decreases src.len() - pos, 19int,
    when 0 <= pos <= src.len()
{
    if !word_at(src, pos, "is".spec_bytes()) {
        Err(failure(src, pos, Expected::KeywordIs))
    } else {
        let p = skip(src, pos + "is".spec_bytes().len());
        match ident_end(src, p) {
            None => Err(failure(src, p, Expected::Identifier)),
            Some(e) => {
                if byte_at(src, e, PAREN_OPEN) {
                    match spec_test_arguments(src, e + 1) {
                        Err(f) => Err(f),
                        Ok((params, end)) => Ok(((text_of(src, p, e), params), end)),
                    }
                } else {
                    Ok(((text_of(src, p, e), Seq::empty()), e))
                }
            },
        }
    }
}

/// The test `name(params)` of `subject`, that ends at `end`.
pub open spec fn test_expr(
    subject: ExprView,
    name: Seq<char>,
    params: Seq<ExprView>,
    end: int,
) -> ExprView {
    Spanned {
        node: ExprKindView::Test { expr: Box::new(subject), name, params },
        span: Span { start: subject.span.start, end: end as usize },
    }
}

/// An operand, and the test on it where one follows.
#[verifier::opaque]
pub open spec fn spec_postfix(src: Seq<u8>, pos: int) -> Parsed<ExprView>
    decreases src.len() - pos, 3int,
    when 0 <= pos <= src.len()
{
    match advancing(spec_primary(src, pos), pos, src.len() as int) {
        Err(f) => Err(f),
        Ok((subject, e)) => {
            let p = skip(src, e);
            if word_at(src, p, "is".spec_bytes()) {
                match spec_test(src, p) {
                    Err(f) => Err(f),
                    Ok((t, end)) => Ok((test_expr(subject, t.0, t.1, end), end)),
                }
            } else {
                Ok((subject, e))
            }
        },
    }
}

/// The negation of `operand`, for a `not` that stands at `pos`.
pub open spec fn not_expr(pos: int, operand: ExprView) -> ExprView {
    Spanned {
        node: ExprKindView::Not(Box::new(operand)),
        span: Span { start: pos as usize, end: operand.span.end },
    }
}

/// The word `not` has three bytes.
pub proof fn lemma_not_has_three_bytes()
    ensures
        "not".spec_bytes().len() == 3,
{
    broadcast use {is_ascii_spec_bytes, is_ascii_chars_encode_utf8};

    reveal_strlit("not");
    assert(is_ascii("not"));
}

#[via_fn]
proof fn spec_not_terminates(src: Seq<u8>, pos: int) {
    lemma_not_has_three_bytes();
}

/// `not` before a comparison, any number of times.
#[verifier::opaque]
pub open spec fn spec_not(src: Seq<u8>, pos: int) -> Parsed<ExprView>
    decreases src.len() - pos, 11int,
    when 0 <= pos <= src.len()
    via spec_not_terminates
{
    if word_at(src, pos, "not".spec_bytes()) {
        match spec_not(src, skip(src, pos + "not".spec_bytes().len())) {
            Err(f) => Err(f),
            Ok((v, e)) => Ok((not_expr(pos, v), e)),
        }
    } else {
        spec_binary(src, pos, Tier::Compare)
    }
}

/// An operand of the operators of a tier: an expression of the next tighter
/// tier.
#[verifier::opaque]
pub open spec fn spec_operand(src: Seq<u8>, pos: int, tier: Tier) -> Parsed<ExprView>
    decreases src.len() - pos, 2 * tier.rank() + 4,
    when 0 <= pos <= src.len()
{
    match tier {
        Tier::Or => spec_binary(src, pos, Tier::And),
        Tier::And => spec_not(src, pos),
        Tier::Compare => spec_binary(src, pos, Tier::Additive),
        Tier::Additive => spec_binary(src, pos, Tier::Multiplicative),
        Tier::Multiplicative => spec_postfix(src, pos),
    }
}

/// An expression of a tier: operands joined by the operators of the tier,
/// grouped to the left. `expression` is the tier `Compare`,
/// `logic_expression` the tier `Or`.
#[verifier::opaque]
pub open spec fn spec_binary(src: Seq<u8>, pos: int, tier: Tier) -> Parsed<ExprView>
    decreases src.len() - pos, 2 * tier.rank() + 5,
    when 0 <= pos <= src.len()
{
    match advancing(spec_operand(src, pos, tier), pos, src.len() as int) {
        Err(f) => Err(f),
        Ok((lhs, e)) => spec_binary_rest(src, e, tier, lhs),
    }
}

/// What follows the left operand `lhs` that ends at `pos`: operators of the
/// tier and their right operands, as many as stand there.
#[verifier::opaque]
pub open spec fn spec_binary_rest(src: Seq<u8>, pos: int, tier: Tier, lhs: ExprView) -> Parsed<
    ExprView,
>
    decreases src.len() - pos, 2 * tier.rank() + 5,
    when 0 <= pos <= src.len()
{
    let p = skip(src, pos);
    match operator_at(src, p, tier) {
        None => Ok((lhs, pos)),
        Some((op, n)) => {
            let q = skip(src, p + n);
            match advancing(spec_operand(src, q, tier), q, src.len() as int) {
                Err(f) => Err(f),
                Ok((rhs, e)) => spec_binary_rest(src, e, tier, combine(op, lhs, rhs)),
            }
        },
    }
}

/// The bytes from `a` to `b` are the word `pat`.
pub fn range_is(bytes: &[u8], a: usize, b: usize, pat: &str) -> (r: bool)
    requires
        a <= b <= bytes.len(),
    ensures
        r == (bytes@.subrange(a as int, b as int) == pat.spec_bytes()),
{
    let n = pat.as_bytes().len();
    if n != b - a {
        assert(bytes@.subrange(a as int, b as int).len() != pat.spec_bytes().len());
        return false;
    }
    looking_at(bytes, a, pat)
}

/// Whether the bytes from `a` to `b` are a word that cannot be used as an identifier.
pub fn reserved(bytes: &[u8], a: usize, b: usize) -> (r: bool)
    requires
        a <= b <= bytes.len(),
    ensures
        r == is_reserved(bytes@.subrange(a as int, b as int)),
{
    range_is(bytes, a, b, "and") || range_is(bytes, a, b, "or") || range_is(bytes, a, b, "not")
        || range_is(bytes, a, b, "is") || range_is(bytes, a, b, "in")
}

/// The operator of the tier that stands at `pos`, and its length.
pub fn operator(bytes: &[u8], pos: usize, tier: Tier) -> (r: Option<(BinaryOperator, usize)>)
    requires
        pos <= bytes.len(),
    ensures
        match r {
            Some((op, n)) => operator_at(bytes@, pos as int, tier) == Some((op, n as int)) && pos
                + n <= bytes.len(),
            None => operator_at(bytes@, pos as int, tier) is None,
        },
{
    match tier {
        Tier::Or => if looking_at_word(bytes, pos, "or") {
            Some((BinaryOperator::Logic(LogicOperator::Or), "or".as_bytes().len()))
        } else {
            None
        },
        Tier::And => if looking_at_word(bytes, pos, "and") {
            Some((BinaryOperator::Logic(LogicOperator::And), "and".as_bytes().len()))
        } else {
            None
        },
        Tier::Compare => if is_pair(bytes, pos, GREATER, EQUALS) {
            Some((BinaryOperator::Logic(LogicOperator::Gte), 2))
        } else if is_pair(bytes, pos, LESS, EQUALS) {
            Some((BinaryOperator::Logic(LogicOperator::Lte), 2))
        } else if is_pair(bytes, pos, EQUALS, EQUALS) {
            Some((BinaryOperator::Logic(LogicOperator::Eq), 2))
        } else if is_pair(bytes, pos, BANG, EQUALS) {
            Some((BinaryOperator::Logic(LogicOperator::NotEq), 2))
        } else if is_byte(bytes, pos, GREATER) {
            Some((BinaryOperator::Logic(LogicOperator::Gt), 1))
        } else if is_byte(bytes, pos, LESS) {
            Some((BinaryOperator::Logic(LogicOperator::Lt), 1))
        } else {
            None
        },
        Tier::Additive => if is_byte(bytes, pos, PLUS) {
            Some((BinaryOperator::Math(MathOperator::Add), 1))
        } else if is_byte(bytes, pos, MINUS) && !(is_pair(bytes, pos + 1, PERCENT, BRACE_CLOSE)
            || is_pair(bytes, pos + 1, BRACE_CLOSE, BRACE_CLOSE)) {
            Some((BinaryOperator::Math(MathOperator::Sub), 1))
        } else {
            None
        },
        Tier::Multiplicative => if is_byte(bytes, pos, STAR) {
            Some((BinaryOperator::Math(MathOperator::Mul), 1))
        } else if is_byte(bytes, pos, SLASH) {
            Some((BinaryOperator::Math(MathOperator::Div), 1))
        } else {
            None
        },
    }
}

/// The expression `lhs op rhs`.
pub fn join(op: BinaryOperator, lhs: Expr, rhs: Expr) -> (e: Expr)
    ensures
        e@ == combine(op, lhs@, rhs@),
        forall|len: int|
            expr_wf(lhs@, len) && expr_wf(rhs@, len) && lhs.span.start
                <= rhs.span.end ==> #[trigger] expr_wf(e@, len),
{
    let span = Span { start: lhs.span.start, end: rhs.span.end };
    match op {
        BinaryOperator::Math(operator) => Spanned {
            node: ExprKind::Math(MathExpr { lhs: Box::new(lhs), rhs: Box::new(rhs), operator }),
            span,
        },
        BinaryOperator::Logic(operator) => Spanned {
            node: ExprKind::Logic(LogicExpr { lhs: Box::new(lhs), rhs: Box::new(rhs), operator }),
            span,
        },
    }
}

/// The literal `kind` that stands from `start` to `end`.
pub fn literal(kind: LitKind, start: usize, end: usize) -> (e: Expr)
    ensures
        e@ == lit_expr(lit_kind_view(kind), start as int, end as int),
        forall|len: int| start <= end <= len ==> #[trigger] expr_wf(e@, len),
{
    let span = Span { start, end };
    Spanned { node: ExprKind::Lit(Spanned { node: kind, span }), span }
}

/// The call of the function `name` with the arguments `params`, that stands
/// from `start` to `end`.
pub fn function_call(name: String, params: Vec<Kwarg>, start: usize, end: usize) -> (e: Expr)
    ensures
        e@ == (Spanned {
            node: ExprKindView::FunctionCall { name: name@, params: kwargs_view(params) },
            span: Span { start, end },
        }),
        forall|len: int|
            start <= end <= len && kwargs_wf(kwargs_view(params), len) ==> #[trigger] expr_wf(
                e@,
                len,
            ),
{
    Spanned {
        node: ExprKind::FunctionCall(FunctionCall { name, params }),
        span: Span { start, end },
    }
}

/// The call of the macro `name` of `namespace` with the arguments `params`,
/// that stands from `start` to `end`.
pub fn macro_call(
    namespace: String,
    name: String,
    params: Vec<Kwarg>,
    start: usize,
    end: usize,
) -> (e: Expr)
    ensures
        e@ == (Spanned {
            node: ExprKindView::MacroCall {
                namespace: namespace@,
                name: name@,
                params: kwargs_view(params),
            },
            span: Span { start, end },
        }),
        forall|len: int|
            start <= end <= len && kwargs_wf(kwargs_view(params), len) ==> #[trigger] expr_wf(
                e@,
                len,
            ),
{
    Spanned {
        node: ExprKind::MacroCall(MacroCall { namespace, name, params }),
        span: Span { start, end },
    }
}

/// The identifier `name` with the filters `filters`, that stands from
/// `start` to `end`.
pub fn identifier(name: String, filters: Vec<Filter>, start: usize, end: usize) -> (e: Expr)
    ensures
        e@ == (Spanned {
            node: ExprKindView::Ident { name: name@, filters: filters_view(filters) },
            span: Span { start, end },
        }),
        forall|len: int|
            start <= end <= len && filters_wf(filters_view(filters), len) ==> #[trigger] expr_wf(
                e@,
                len,
            ),
{
    Spanned { node: ExprKind::Ident(Ident { name, filters }), span: Span { start, end } }
}

/// The test `name(params)` of `subject`, that ends at `end`.
pub fn test_of(subject: Expr, name: String, params: Vec<Expr>, end: usize) -> (e: Expr)
    ensures
        e@ == test_expr(subject@, name@, exprs_view(params), end as int),
        forall|len: int|
            subject.span.start <= end <= len && expr_wf(subject@, len) && exprs_wf(
                exprs_view(params),
                len,
            ) ==> #[trigger] expr_wf(e@, len),
{
    let span = Span { start: subject.span.start, end };
    Spanned { node: ExprKind::Test(Test { expr: Box::new(subject), name, params }), span }
}

/// The negation of `operand`, for a `not` that stands at `pos`.
pub fn negation(pos: usize, operand: Expr) -> (e: Expr)
    ensures
        e@ == not_expr(pos as int, operand@),
        forall|len: int|
            pos <= operand.span.end && expr_wf(operand@, len) ==> #[trigger] expr_wf(e@, len),
{
    let span = Span { start: pos, end: operand.span.end };
    Spanned { node: ExprKind::Not(NotExpr { expr: Box::new(operand) }), span }
}

/// Puts the argument `k` into `ks`: in the place of the argument of that
/// name where there is one, at the end where there is none.
pub fn insert_kwarg(ks: &mut Vec<Kwarg>, k: Kwarg)
    ensures
        kwargs_view(*final(ks)) == with_kwarg(kwargs_view(*old(ks)), kwarg_view(k)),
        forall|len: int|
            kwargs_wf(kwargs_view(*old(ks)), len) && expr_wf(kwarg_view(k).value, len)
                ==> #[trigger] kwargs_wf(kwargs_view(*final(ks)), len),
{
    let ghost before = kwargs_view(*ks);
    proof {
        if unique_names(before) {
            lemma_with_kwarg_unique(before, kwarg_view(k));
        }
    }
    let mut i: usize = 0;
    while i < ks.len() && !(ks[i].name == k.name)
        invariant
            i <= ks.len(),
            *ks == *old(ks),
            before == kwargs_view(*ks),
            named_index(before, k.name@, 0) == named_index(before, k.name@, i as int),
        decreases ks.len() - i,
    {
        i += 1;
    }
    if i < ks.len() {
        let ghost view = kwarg_view(k);
        ks.set(i, k);
        assert(kwargs_view(*ks) =~= before.update(i as int, view));
    } else {
        let ghost view = kwarg_view(k);
        ks.push(k);
        assert(kwargs_view(*ks) =~= before.push(view));
    }
}

/// Parses a `kwarg` that starts at `pos`.
pub fn parse_kwarg(src: &str, pos: usize) -> (r: Result<(Kwarg, usize), Failure>)
    requires
        pos <= src.spec_bytes().len(),
    ensures
        match r {
            Ok((k, e)) => yields(
                spec_kwarg(src.spec_bytes(), pos as int),
                kwarg_view(k),
                e,
                pos,
                src.spec_bytes().len(),
            ) && expr_wf(
                kwarg_view(k).value,
                src.spec_bytes().len() as int,
            ),
            Err(f) => fails(spec_kwarg(src.spec_bytes(), pos as int), f, src.spec_bytes().len()),
        },
    decreases src.spec_bytes().len() - pos, 16int,
{
    reveal(spec_kwarg);
    reveal(spec_binary);
    let bytes = src.as_bytes();
    match match_ident(bytes, pos) {
        None => Err(fail(bytes, pos, Expected::Identifier)),
        Some(e) => {
            let p = scan(bytes, e, Class::Space);
            if !is_byte(bytes, p, EQUALS) {
                return Err(fail(bytes, p, Expected::Assign));
            }
            let q = scan(bytes, p + 1, Class::Space);
            match parse_binary(src, q, Tier::Or) {
                Err(f) => Err(f),
                Ok((value, end)) => {
                    let name = substring(src, pos, e);
                    Ok((Kwarg { name, value }, end))
                },
            }
        },
    }
}

/// Parses the `kwargs` that start at `pos`.
pub fn parse_kwargs(src: &str, pos: usize) -> (r: Result<(Vec<Kwarg>, usize), Failure>)
    requires
        pos <= src.spec_bytes().len(),
    ensures
        match r {
            Ok((ks, e)) => yields(
                spec_kwargs(src.spec_bytes(), pos as int, Seq::empty()),
                kwargs_view(ks),
                e,
                pos,
                src.spec_bytes().len(),
            ) && kwargs_wf(kwargs_view(ks), src.spec_bytes().len() as int),
            Err(f) => fails(
                spec_kwargs(src.spec_bytes(), pos as int, Seq::empty()),
                f,
                src.spec_bytes().len(),
            ),
        },
    decreases src.spec_bytes().len() - pos, 17int,
{
    reveal(spec_kwargs);
    reveal(spec_kwarg);
    let bytes = src.as_bytes();
    let mut ks: Vec<Kwarg> = Vec::new();
    let mut start: usize = pos;
    assert(kwargs_view(ks) =~= Seq::empty());
    loop
        invariant
            bytes@ == src.spec_bytes(),
            pos <= start <= bytes.len(),
            spec_kwargs(bytes@, pos as int, Seq::empty()) == spec_kwargs(
                bytes@,
                start as int,
                kwargs_view(ks),
            ),
            kwargs_wf(kwargs_view(ks), bytes@.len() as int),
        decreases bytes.len() - start,
    {
        reveal(spec_kwargs);
        reveal(spec_kwarg);
        match parse_kwarg(src, start) {
            Err(f) => {
                return Err(f);
            },
            Ok((k, e)) => {
                insert_kwarg(&mut ks, k);
                let p = scan(bytes, e, Class::Space);
                if is_byte(bytes, p, COMMA) {
                    start = scan(bytes, p + 1, Class::Space);
                } else {
                    return Ok((ks, e));
                }
            },
        }
    }
}

/// Parses the arguments of a call, from after its `(` at `pos` to its `)`.
pub fn parse_arguments(src: &str, pos: usize) -> (r: Result<(Vec<Kwarg>, usize), Failure>)
    requires
        pos <= src.spec_bytes().len(),
    ensures
        match r {
            Ok((ks, e)) => yields(
                spec_arguments(src.spec_bytes(), pos as int),
                kwargs_view(ks),
                e,
                pos,
                src.spec_bytes().len(),
            ) && kwargs_wf(kwargs_view(ks), src.spec_bytes().len() as int),
            Err(f) => fails(
                spec_arguments(src.spec_bytes(), pos as int),
                f,
                src.spec_bytes().len(),
            ),
        },
    decreases src.spec_bytes().len() - pos, 18int,
{
    reveal(spec_arguments);
    reveal(spec_kwargs);
    let bytes = src.as_bytes();
    let p = scan(bytes, pos, Class::Space);
    if is_byte(bytes, p, PAREN_CLOSE) {
        let ks: Vec<Kwarg> = Vec::new();
        assert(kwargs_view(ks) =~= Seq::empty());
        return Ok((ks, p + 1));
    }
    match parse_kwargs(src, p) {
        Err(f) => Err(f),
        Ok((ks, e)) => {
            let q = scan(bytes, e, Class::Space);
            if is_byte(bytes, q, PAREN_CLOSE) {
                Ok((ks, q + 1))
            } else {
                Err(fail(bytes, q, Expected::CommaOrParenClose))
            }
        },
    }
}

/// Parses a `fn_call` that starts at `pos`.
pub fn parse_fn_call(src: &str, pos: usize) -> (r: Result<(Expr, usize), Failure>)
    requires
        pos <= src.spec_bytes().len(),
    ensures
        match r {
            Ok((v, e)) => yields_expr(
                spec_fn_call(src.spec_bytes(), pos as int),
                v@,
                e,
                pos,
                src.spec_bytes().len(),
            ),
            Err(f) => fails(spec_fn_call(src.spec_bytes(), pos as int), f, src.spec_bytes().len()),
        },
    decreases src.spec_bytes().len() - pos, 0int,
{
    reveal(spec_fn_call);
    reveal(spec_arguments);
    let bytes = src.as_bytes();
    match match_ident(bytes, pos) {
        None => Err(fail(bytes, pos, Expected::Identifier)),
        Some(e) => {
            if !is_byte(bytes, e, PAREN_OPEN) {
                return Err(fail(bytes, e, Expected::ParenOpen));
            }
            match parse_arguments(src, e + 1) {
                Err(f) => Err(f),
                Ok((params, end)) => {
                    let name = substring(src, pos, e);
                    Ok((function_call(name, params, pos, end), end))
                },
            }
        },
    }
}

/// Parses the call of a macro of another file that starts at `pos`.
pub fn parse_macro_call(src: &str, pos: usize) -> (r: Result<(Expr, usize), Failure>)
    requires
        pos <= src.spec_bytes().len(),
    ensures
        match r {
            Ok((v, e)) => yields_expr(
                spec_macro_call(src.spec_bytes(), pos as int),
                v@,
                e,
                pos,
                src.spec_bytes().len(),
            ),
            Err(f) => fails(
                spec_macro_call(src.spec_bytes(), pos as int),
                f,
                src.spec_bytes().len(),
            ),
        },
    decreases src.spec_bytes().len() - pos, 0int,
{
    reveal(spec_macro_call);
    reveal(spec_arguments);
    let bytes = src.as_bytes();
    match match_ident(bytes, pos) {
        None => Err(fail(bytes, pos, Expected::Identifier)),
        Some(e) => {
            if !is_pair(bytes, e, COLON, COLON) {
                return Err(fail(bytes, e, Expected::PathSeparator));
            }
            match match_ident(bytes, e + 2) {
                None => Err(fail(bytes, e + 2, Expected::Identifier)),
                Some(n) => {
                    if !is_byte(bytes, n, PAREN_OPEN) {
                        return Err(fail(bytes, n, Expected::ParenOpen));
                    }
                    match parse_arguments(src, n + 1) {
                        Err(f) => Err(f),
                        Ok((params, end)) => {
                            let namespace = substring(src, pos, e);
                            let name = substring(src, e + 2, n);
                            Ok((macro_call(namespace, name, params, pos, end), end))
                        },
                    }
                },
            }
        },
    }
}

/// Parses a `filter` that starts at `pos`.
pub fn parse_filter(src: &str, pos: usize) -> (r: Result<(Filter, usize), Failure>)
    requires
        pos <= src.spec_bytes().len(),
    ensures
        match r {
            Ok((v, e)) => yields(
                spec_filter(src.spec_bytes(), pos as int),
                filter_view(v),
                e,
                pos,
                src.spec_bytes().len(),
            ) && kwargs_wf(filter_view(v).params, src.spec_bytes().len() as int),
            Err(f) => fails(spec_filter(src.spec_bytes(), pos as int), f, src.spec_bytes().len()),
        },
    decreases src.spec_bytes().len() - pos, 19int,
{
    reveal(spec_filter);
    reveal(spec_arguments);
    let bytes = src.as_bytes();
    if !is_byte(bytes, pos, PIPE) {
        return Err(fail(bytes, pos, Expected::Pipe));
    }
    let p = scan(bytes, pos + 1, Class::Space);
    match match_ident(bytes, p) {
        None => Err(fail(bytes, p, Expected::Identifier)),
        Some(e) => {
            if is_byte(bytes, e, PAREN_OPEN) {
                match parse_arguments(src, e + 1) {
                    Err(f) => Err(f),
                    Ok((params, end)) => {
                        let name = substring(src, p, e);
                        Ok((Filter { name, params }, end))
                    },
                }
            } else {
                let name = substring(src, p, e);
                let params: Vec<Kwarg> = Vec::new();
                assert(kwargs_view(params) =~= Seq::empty());
                Ok((Filter { name, params }, e))
            }
        },
    }
}

/// Parses the filters that follow what ends at `pos`.
pub fn parse_filters(src: &str, pos: usize) -> (r: Result<(Vec<Filter>, usize), Failure>)
    requires
        pos <= src.spec_bytes().len(),
    ensures
        match r {
            Ok((fs, e)) => spec_filters(src.spec_bytes(), pos as int, Seq::empty()) == Ok::<
                (Seq<FilterView>, int),
                Failure,
            >((filters_view(fs), e as int)) && pos <= e <= src.spec_bytes().len()
                && filters_wf(filters_view(fs), src.spec_bytes().len() as int),
            Err(f) => fails(
                spec_filters(src.spec_bytes(), pos as int, Seq::empty()),
                f,
                src.spec_bytes().len(),
            ),
        },
    decreases src.spec_bytes().len() - pos, 20int,
{
    reveal(spec_filters);
    reveal(spec_filter);
    let bytes = src.as_bytes();
    let mut fs: Vec<Filter> = Vec::new();
    let mut end: usize = pos;
    assert(filters_view(fs) =~= Seq::empty());
    loop
        invariant
            bytes@ == src.spec_bytes(),
            pos <= end <= bytes.len(),
            spec_filters(bytes@, pos as int, Seq::empty()) == spec_filters(
                bytes@,
                end as int,
                filters_view(fs),
            ),
            filters_wf(filters_view(fs), bytes@.len() as int),
        decreases bytes.len() - end,
    {
        reveal(spec_filters);
        reveal(spec_filter);
        let p = scan(bytes, end, Class::Space);
        if !is_byte(bytes, p, PIPE) {
            return Ok((fs, end));
        }
        match parse_filter(src, p) {
            Err(f) => {
                return Err(f);
            },
            Ok((f, e)) => {
                let ghost before = filters_view(fs);
                let ghost view = filter_view(f);
                fs.push(f);
                assert(filters_view(fs) =~= before.push(view));
                end = e;
            },
        }
    }
}

/// Parses a `context_ident` that starts at `pos`.
pub fn parse_context_ident(src: &str, pos: usize) -> (r: Result<(Expr, usize), Failure>)
    requires
        pos <= src.spec_bytes().len(),
    ensures
        match r {
            Ok((v, e)) => yields_expr(
                spec_context_ident(src.spec_bytes(), pos as int),
                v@,
                e,
                pos,
                src.spec_bytes().len(),
            ),
            Err(f) => fails(
                spec_context_ident(src.spec_bytes(), pos as int),
                f,
                src.spec_bytes().len(),
            ),
        },
    decreases src.spec_bytes().len() - pos, 0int,
{
    reveal(spec_context_ident);
    reveal(spec_filters);
    let bytes = src.as_bytes();
    match match_dotted_ident(bytes, pos) {
        None => Err(fail(bytes, pos, Expected::Identifier)),
        Some(d) => {
            match parse_filters(src, d) {
                Err(f) => Err(f),
                Ok((filters, end)) => {
                    let name = substring(src, pos, d);
                    Ok((identifier(name, filters, pos, end), end))
                },
            }
        },
    }
}

/// Parses the string, decimal number or integer that starts at `pos`, if
/// one does.
pub fn parse_literal(src: &str, pos: usize) -> (r: Option<Result<(Expr, usize), Failure>>)
    requires
        pos <= src.spec_bytes().len(),
    ensures
        match r {
            Some(Ok((v, e))) => spec_literal(src.spec_bytes(), pos as int) is Some && yields_expr(
                spec_literal(src.spec_bytes(), pos as int).unwrap(),
                v@,
                e,
                pos,
                src.spec_bytes().len(),
            ),
            Some(Err(f)) => spec_literal(src.spec_bytes(), pos as int) is Some && fails(
                spec_literal(src.spec_bytes(), pos as int).unwrap(),
                f,
                src.spec_bytes().len(),
            ),
            None => spec_literal(src.spec_bytes(), pos as int) is None,
        },
{
    let bytes = src.as_bytes();
    if is_byte(bytes, pos, QUOTE) {
        return match match_string(bytes, pos) {
            Some(e) => {
                let text = substring(src, pos + 1, e - 1);
                Some(Ok((literal(LitKind::String(text), pos, e), e)))
            },
            None => Some(
                Err(
                    Failure {
                        kind: ErrorKind::LexicalError,
                        span: Span { start: pos, end: pos },
                        expected: Expected::ClosingQuote,
                    },
                ),
            ),
        };
    }
    if let Some(e) = match_float(bytes, pos) {
        let text = substring(src, pos, e);
        return Some(Ok((literal(LitKind::Float(text), pos, e), e)));
    }
    if let Some(e) = match_int(bytes, pos) {
        return match int_literal(bytes, pos, e) {
            Some(v) => Some(Ok((literal(LitKind::Int(v), pos, e), e))),
            None => Some(
                Err(
                    Failure {
                        kind: ErrorKind::LexicalError,
                        span: Span { start: pos, end: e },
                        expected: Expected::IntegerInRange,
                    },
                ),
            ),
        };
    }
    None
}

/// Parses an operand that starts with a word at `pos`.
pub fn parse_named(src: &str, pos: usize) -> (r: Result<(Expr, usize), Failure>)
    requires
        pos <= src.spec_bytes().len(),
    ensures
        match r {
            Ok((v, e)) => yields_expr(
                spec_named(src.spec_bytes(), pos as int),
                v@,
                e,
                pos,
                src.spec_bytes().len(),
            ),
            Err(f) => fails(spec_named(src.spec_bytes(), pos as int), f, src.spec_bytes().len()),
        },
    decreases src.spec_bytes().len() - pos, 1int,
{
    reveal(spec_named);
    reveal(spec_macro_call);
    reveal(spec_fn_call);
    reveal(spec_context_ident);
    let bytes = src.as_bytes();
    match match_ident(bytes, pos) {
        None => Err(fail(bytes, pos, Expected::Operand)),
        Some(e) => {
            if range_is(bytes, pos, e, "true") {
                Ok((literal(LitKind::Bool(true), pos, e), e))
            } else if range_is(bytes, pos, e, "false") {
                Ok((literal(LitKind::Bool(false), pos, e), e))
            } else if reserved(bytes, pos, e) {
                Err(fail(bytes, pos, Expected::Operand))
            } else if is_pair(bytes, e, COLON, COLON) {
                parse_macro_call(src, pos)
            } else if is_byte(bytes, e, PAREN_OPEN) {
                parse_fn_call(src, pos)
            } else {
                parse_context_ident(src, pos)
            }
        },
    }
}

/// Parses an operand that starts at `pos`.
pub fn parse_primary(src: &str, pos: usize) -> (r: Result<(Expr, usize), Failure>)
    requires
        pos <= src.spec_bytes().len(),
    ensures
        match r {
            Ok((v, e)) => yields_expr(
                spec_primary(src.spec_bytes(), pos as int),
                v@,
                e,
                pos,
                src.spec_bytes().len(),
            ),
            Err(f) => fails(spec_primary(src.spec_bytes(), pos as int), f, src.spec_bytes().len()),
        },
    decreases src.spec_bytes().len() - pos, 2int,
{
    reveal(spec_primary);
    reveal(spec_named);
    reveal(spec_binary);
    let bytes = src.as_bytes();
    if let Some(found) = parse_literal(src, pos) {
        return found;
    }
    if is_byte(bytes, pos, PAREN_OPEN) {
        let q = scan(bytes, pos + 1, Class::Space);
        match parse_binary(src, q, Tier::Or) {
            Err(f) => Err(f),
            Ok((v, e)) => {
                let c = scan(bytes, e, Class::Space);
                if is_byte(bytes, c, PAREN_CLOSE) {
                    Ok((v, c + 1))
                } else {
                    Err(fail(bytes, c, Expected::ParenClose))
                }
            },
        }
    } else {
        parse_named(src, pos)
    }
}

/// Parses the expressions, separated by commas, that start at `pos`.
pub fn parse_expressions(src: &str, pos: usize) -> (r: Result<(Vec<Expr>, usize), Failure>)
    requires
        pos <= src.spec_bytes().len(),
    ensures
        match r {
            Ok((es, e)) => yields(
                spec_expressions(src.spec_bytes(), pos as int, Seq::empty()),
                exprs_view(es),
                e,
                pos,
                src.spec_bytes().len(),
            ) && exprs_wf(exprs_view(es), src.spec_bytes().len() as int),
            Err(f) => fails(
                spec_expressions(src.spec_bytes(), pos as int, Seq::empty()),
                f,
                src.spec_bytes().len(),
            ),
        },
    decreases src.spec_bytes().len() - pos, 17int,
{
    reveal(spec_expressions);
    reveal(spec_binary);
    let bytes = src.as_bytes();
    let mut es: Vec<Expr> = Vec::new();
    let mut start: usize = pos;
    assert(exprs_view(es) =~= Seq::empty());
    loop
        invariant
            bytes@ == src.spec_bytes(),
            pos <= start <= bytes.len(),
            spec_expressions(bytes@, pos as int, Seq::empty()) == spec_expressions(
                bytes@,
                start as int,
                exprs_view(es),
            ),
            exprs_wf(exprs_view(es), bytes@.len() as int),
        decreases bytes.len() - start,
    {
        reveal(spec_expressions);
        reveal(spec_binary);
        match parse_binary(src, start, Tier::Or) {
            Err(f) => {
                return Err(f);
            },
            Ok((v, e)) => {
                let ghost before = exprs_view(es);
                let ghost view = v@;
                es.push(v);
                assert(exprs_view(es) =~= before.push(view));
                let p = scan(bytes, e, Class::Space);
                if is_byte(bytes, p, COMMA) {
                    start = scan(bytes, p + 1, Class::Space);
                } else {
                    return Ok((es, e));
                }
            },
        }
    }
}

/// Parses the arguments of a test, from after its `(` at `pos` to its `)`.
pub fn parse_test_arguments(src: &str, pos: usize) -> (r: Result<(Vec<Expr>, usize), Failure>)
    requires
        pos <= src.spec_bytes().len(),
    ensures
        match r {
            Ok((es, e)) => yields(
                spec_test_arguments(src.spec_bytes(), pos as int),
                exprs_view(es),
                e,
                pos,
                src.spec_bytes().len(),
            ) && exprs_wf(exprs_view(es), src.spec_bytes().len() as int),
            Err(f) => fails(
                spec_test_arguments(src.spec_bytes(), pos as int),
                f,
                src.spec_bytes().len(),
            ),
        },
    decreases src.spec_bytes().len() - pos, 18int,
{
    reveal(spec_test_arguments);
    reveal(spec_expressions);
    let bytes = src.as_bytes();
    let p = scan(bytes, pos, Class::Space);
    if is_byte(bytes, p, PAREN_CLOSE) {
        let es: Vec<Expr> = Vec::new();
        assert(exprs_view(es) =~= Seq::empty());
        return Ok((es, p + 1));
    }
    match parse_expressions(src, p) {
        Err(f) => Err(f),
        Ok((es, e)) => {
            let q = scan(bytes, e, Class::Space);
            if is_byte(bytes, q, PAREN_CLOSE) {
                Ok((es, q + 1))
            } else {
                Err(fail(bytes, q, Expected::CommaOrParenClose))
            }
        },
    }
}

/// Parses a `test` that starts at `pos`, and gives its name and arguments.
pub fn parse_test(src: &str, pos: usize) -> (r: Result<((String, Vec<Expr>), usize), Failure>)
    requires
        pos <= src.spec_bytes().len(),
    ensures
        match r {
            Ok((t, e)) => yields(
                spec_test(src.spec_bytes(), pos as int),
                (t.0@, exprs_view(t.1)),
                e,
                pos,
                src.spec_bytes().len(),
            ) && exprs_wf(exprs_view(t.1), src.spec_bytes().len() as int),
            Err(f) => fails(spec_test(src.spec_bytes(), pos as int), f, src.spec_bytes().len()),
        },
    decreases src.spec_bytes().len() - pos, 19int,
{
    reveal(spec_test);
    reveal(spec_test_arguments);
    let bytes = src.as_bytes();
    if !looking_at_word(bytes, pos, "is") {
        return Err(fail(bytes, pos, Expected::KeywordIs));
    }
    let p = scan(bytes, pos + "is".as_bytes().len(), Class::Space);
    match match_ident(bytes, p) {
        None => Err(fail(bytes, p, Expected::Identifier)),
        Some(e) => {
            if is_byte(bytes, e, PAREN_OPEN) {
                match parse_test_arguments(src, e + 1) {
                    Err(f) => Err(f),
                    Ok((params, end)) => {
                        let name = substring(src, p, e);
                        Ok(((name, params), end))
                    },
                }
            } else {
                let name = substring(src, p, e);
                let params: Vec<Expr> = Vec::new();
                assert(exprs_view(params) =~= Seq::empty());
                Ok(((name, params), e))
            }
        },
    }
}

/// Parses an operand that starts at `pos`, and the test on it where one follows.
pub fn parse_postfix(src: &str, pos: usize) -> (r: Result<(Expr, usize), Failure>)
    requires
        pos <= src.spec_bytes().len(),
    ensures
        match r {
            Ok((v, e)) => yields_expr(
                spec_postfix(src.spec_bytes(), pos as int),
                v@,
                e,
                pos,
                src.spec_bytes().len(),
            ),
            Err(f) => fails(spec_postfix(src.spec_bytes(), pos as int), f, src.spec_bytes().len()),
        },
    decreases src.spec_bytes().len() - pos, 3int,
{
    reveal(spec_postfix);
    reveal(spec_primary);
    reveal(spec_test);
    let bytes = src.as_bytes();
    match parse_primary(src, pos) {
        Err(f) => Err(f),
        Ok((subject, e)) => {
            let p = scan(bytes, e, Class::Space);
            if looking_at_word(bytes, p, "is") {
                match parse_test(src, p) {
                    Err(f) => Err(f),
                    Ok((t, end)) => {
                        let (name, params) = t;
                        Ok((test_of(subject, name, params, end), end))
                    },
                }
            } else {
                Ok((subject, e))
            }
        },
    }
}

/// Parses a comparison that starts at `pos`, with the `not`s before it.
pub fn parse_not(src: &str, pos: usize) -> (r: Result<(Expr, usize), Failure>)
    requires
        pos <= src.spec_bytes().len(),
    ensures
        match r {
            Ok((v, e)) => yields_expr(
                spec_not(src.spec_bytes(), pos as int),
                v@,
                e,
                pos,
                src.spec_bytes().len(),
            ),
            Err(f) => fails(spec_not(src.spec_bytes(), pos as int), f, src.spec_bytes().len()),
        },
    decreases src.spec_bytes().len() - pos, 11int,
{
    reveal(spec_not);
    reveal(spec_binary);
    let bytes = src.as_bytes();
    let n = "not".as_bytes().len();
    proof {
        lemma_not_has_three_bytes();
    }
    if looking_at_word(bytes, pos, "not") {
        let q = scan(bytes, pos + n, Class::Space);
        match parse_not(src, q) {
            Err(f) => Err(f),
            Ok((v, e)) => Ok((negation(pos, v), e)),
        }
    } else {
        parse_binary(src, pos, Tier::Compare)
    }
}

/// Parses an operand of the operators of `tier` that starts at `pos`.
pub fn parse_operand(src: &str, pos: usize, tier: Tier) -> (r: Result<(Expr, usize), Failure>)
    requires
        pos <= src.spec_bytes().len(),
    ensures
        match r {
            Ok((v, e)) => yields_expr(
                spec_operand(src.spec_bytes(), pos as int, tier),
                v@,
                e,
                pos,
                src.spec_bytes().len(),
            ),
            Err(f) => fails(
                spec_operand(src.spec_bytes(), pos as int, tier),
                f,
                src.spec_bytes().len(),
            ),
        },
    decreases src.spec_bytes().len() - pos, 2 * tier.rank() + 4,
{
    reveal(spec_operand);
    reveal(spec_binary);
    reveal(spec_not);
    reveal(spec_postfix);
    match tier {
        Tier::Or => parse_binary(src, pos, Tier::And),
        Tier::And => parse_not(src, pos),
        Tier::Compare => parse_binary(src, pos, Tier::Additive),
        Tier::Additive => parse_binary(src, pos, Tier::Multiplicative),
        Tier::Multiplicative => parse_postfix(src, pos),
    }
}

/// Parses an expression of a tier that starts at `pos`: `expression` for
/// the tier `Compare`, `logic_expression` for the tier `Or`.
pub fn parse_binary(src: &str, pos: usize, tier: Tier) -> (r: Result<(Expr, usize), Failure>)
    requires
        pos <= src.spec_bytes().len(),
    ensures
        match r {
            Ok((v, e)) => yields_expr(
                spec_binary(src.spec_bytes(), pos as int, tier),
                v@,
                e,
                pos,
                src.spec_bytes().len(),
            ),
            Err(f) => fails(
                spec_binary(src.spec_bytes(), pos as int, tier),
                f,
                src.spec_bytes().len(),
            ),
        },
    decreases src.spec_bytes().len() - pos, 2 * tier.rank() + 5,
{
    reveal(spec_binary);
    reveal(spec_binary_rest);
    reveal(spec_operand);
    let bytes = src.as_bytes();
    let (first, first_end) = match parse_operand(src, pos, tier) {
        Err(f) => {
            return Err(f);
        },
        Ok(found) => found,
    };
    let mut lhs: Expr = first;
    let mut end: usize = first_end;
    loop
        invariant
            bytes@ == src.spec_bytes(),
            pos < end <= bytes.len(),
            spec_binary(bytes@, pos as int, tier) == spec_binary_rest(
                bytes@,
                end as int,
                tier,
                lhs@,
            ),
            placed(lhs@, pos as int, end as int, bytes@.len() as int),
        decreases bytes.len() - end,
    {
        reveal(spec_binary);
        reveal(spec_binary_rest);
        reveal(spec_operand);
        let p = scan(bytes, end, Class::Space);
        match operator(bytes, p, tier) {
            None => {
                return Ok((lhs, end));
            },
            Some((op, n)) => {
                let q = scan(bytes, p + n, Class::Space);
                match parse_operand(src, q, tier) {
                    Err(f) => {
                        return Err(f);
                    },
                    Ok((rhs, e)) => {
                        lhs = join(op, lhs, rhs);
                        end = e;
                    },
                }
            },
        }
    }
}

} // verus!
