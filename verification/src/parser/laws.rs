//! What holds of the grammar for every input, proved from its definition.

use super::ast::{ExprView, FilterView, LitKindView, NodeView, Span};
use super::errors::{column_of, line_of, Failure};
use super::expression::{
    advancing, combine, lit_expr, operator_at, spec_binary, spec_binary_rest, spec_filter,
    spec_filters, spec_named, spec_not, spec_operand, spec_postfix, spec_primary, spec_test,
    BinaryOperator, Tier,
};
use super::lexer::{digits_value, float_end, ident_end, int_end, int_value, skip, string_end};
use super::scan::{
    at, byte_at, find_byte, find_open, in_class, is_digit, is_space, lemma_run_bounds, opens_at,
    run_end, word_at, Class, BLANK, BRACE_CLOSE, BRACE_OPEN, DIGIT_ZERO, MINUS, PERCENT,
    PIPE, QUOTE,
};
use super::tags::{
    keyword_of, spec_close, spec_file_name, spec_open, spec_tag, spec_tag_head, Keyword,
    TagHeadView, TagView,
};
use super::template::{
    spec_body, spec_template, text_bounds, trim_end, trim_start, with_text, BodyView,
};
use super::{spec_expression, spec_rule, Rule};
use vstd::prelude::*;
use vstd::string::*;
use vstd::utf8::*;

verus! {

/// The digits that write the number `n` in base ten, without leading zeros.
pub open spec fn decimal(n: nat) -> Seq<u8>
    decreases n,
{
    if n < 10 {
        seq![(DIGIT_ZERO + n) as u8]
    } else {
        decimal(n / 10).push((DIGIT_ZERO + n % 10) as u8)
    }
}

/// The text of the integer `n`: a `-` where it is negative, then its digits.
pub open spec fn int_text(n: int) -> Seq<u8> {
    if n < 0 {
        seq![MINUS] + decimal((-n) as nat)
    } else {
        decimal(n as nat)
    }
}

/// The digits of a number are digits, and they write that number.
pub proof fn lemma_decimal(n: nat)
    ensures
        decimal(n).len() >= 1,
        forall|j: int| 0 <= j < decimal(n).len() ==> is_digit(#[trigger] decimal(n)[j]),
        digits_value(decimal(n)) == n,
    decreases n,
{
    if n < 10 {
        let s = decimal(n);
        assert(s.drop_last() =~= Seq::<u8>::empty());
        assert(digits_value(s.drop_last()) == 0);
        assert(s.last() == (DIGIT_ZERO + n) as u8);
    } else {
        lemma_decimal(n / 10);
        let s = decimal(n);
        assert(s.drop_last() =~= decimal(n / 10));
        assert(s.last() == (DIGIT_ZERO + n % 10) as u8);
    }
}

/// A run of a class reaches the end of a text whose bytes, from the start of
/// the run on, are all of that class.
pub proof fn lemma_run_to_end(src: Seq<u8>, pos: int, c: Class)
    requires
        0 <= pos <= src.len(),
        forall|j: int| pos <= j < src.len() ==> in_class(c, #[trigger] src[j]),
    ensures
        run_end(src, pos, c) == src.len(),
    decreases src.len() - pos,
{
    if pos < src.len() {
        lemma_run_to_end(src, pos + 1, c);
    }
}

/// The words of the expression grammar, byte by byte.
pub proof fn lemma_keywords()
    ensures
        "is".spec_bytes().len() == 2,
        "or".spec_bytes().len() == 2,
        "and".spec_bytes().len() == 3,
        "not".spec_bytes() =~= seq![110u8, 111u8, 116u8],
{
    broadcast use {is_ascii_spec_bytes, is_ascii_chars_encode_utf8};

    reveal_strlit("is");
    reveal_strlit("or");
    reveal_strlit("and");
    reveal_strlit("not");
    assert(is_ascii("is"));
    assert(is_ascii("or"));
    assert(is_ascii("and"));
    assert(is_ascii("not"));
}

/// At the end of a text, no operator of any tier follows an operand: the
/// expression of the tier is its first operand.
pub proof fn lemma_one_operand(src: Seq<u8>, tier: Tier, v: ExprView)
    requires
        0 < src.len(),
        spec_operand(src, 0, tier) == Ok::<(ExprView, int), Failure>((v, src.len() as int)),
    ensures
        spec_binary(src, 0, tier) == Ok::<(ExprView, int), Failure>((v, src.len() as int)),
{
    reveal(spec_binary);
    reveal(spec_binary_rest);
    reveal(spec_operand);
    lemma_keywords();
    let end = src.len() as int;
    assert(skip(src, end) == end);
    assert(operator_at(src, end, tier) is None);
    assert(spec_binary_rest(src, end, tier, v) == Ok::<(ExprView, int), Failure>((v, end)));
}

/// Parsing the text of any 64-bit integer as an expression gives the
/// literal of that integer, with the span of the whole text.
pub proof fn lemma_int_literal_parses_to_itself(n: i64)
    ensures
        spec_expression(int_text(n as int)) == Ok::<ExprView, Failure>(
            lit_expr(LitKindView::Int(n), 0, int_text(n as int).len() as int),
        ),
{
    reveal(spec_primary);
    reveal(spec_named);
    reveal(spec_postfix);
    reveal(spec_operand);
    reveal(spec_not);
    reveal(spec_binary);
    reveal(spec_test);
    let src = int_text(n as int);
    let end = src.len() as int;
    let digits: int = if n < 0 {
        1
    } else {
        0
    };
    let magnitude: nat = if n < 0 {
        (-n) as nat
    } else {
        n as nat
    };
    lemma_decimal(magnitude);
    lemma_keywords();
    assert(src.subrange(digits, end) =~= decimal(magnitude));
    assert(forall|j: int| digits <= j < end ==> src[j] == decimal(magnitude)[j - digits]);
    assert(forall|j: int| digits <= j < end ==> in_class(Class::Digit, #[trigger] src[j]));
    lemma_run_to_end(src, digits, Class::Digit);
    assert(byte_at(src, 0, MINUS) == (n < 0));
    assert(int_end(src, 0) == Some(end));
    assert(float_end(src, 0) is None);
    assert(int_value(src, 0, end) == n);
    assert(!is_space(src[0]));
    assert(skip(src, 0) == 0);
    assert(skip(src, end) == end);
    let v = lit_expr(LitKindView::Int(n), 0, end);
    let found = Ok::<(ExprView, int), Failure>((v, end));
    assert(spec_primary(src, 0) == found);
    assert(!word_at(src, end, "is".spec_bytes()));
    assert(spec_postfix(src, 0) == found);
    assert(spec_operand(src, 0, Tier::Multiplicative) == found);
    lemma_one_operand(src, Tier::Multiplicative, v);
    assert(spec_operand(src, 0, Tier::Additive) == found);
    lemma_one_operand(src, Tier::Additive, v);
    assert(spec_operand(src, 0, Tier::Compare) == found);
    lemma_one_operand(src, Tier::Compare, v);
    assert(!word_at(src, 0, "not".spec_bytes())) by {
        if at(src, 0, "not".spec_bytes()) {
            assert(src.subrange(0, 3)[0] == "not".spec_bytes()[0]);
        }
    }
    assert(spec_not(src, 0) == found);
    assert(spec_operand(src, 0, Tier::And) == found);
    lemma_one_operand(src, Tier::And, v);
    assert(spec_operand(src, 0, Tier::Or) == found);
    lemma_one_operand(src, Tier::Or, v);
}

/// A text that starts with a digit is no identifier and no dotted
/// identifier, whatever follows the digit.
pub proof fn lemma_digit_starts_no_ident(src: Seq<u8>)
    requires
        src.len() > 0,
        is_digit(src[0]),
    ensures
        spec_rule(Rule::Ident, src) is Err,
        spec_rule(Rule::DottedIdent, src) is Err,
{
}

/// Trimming at the start takes white space, all that stands there, and
/// nothing else.
pub proof fn lemma_trim_start(src: Seq<u8>, a: int, b: int)
    requires
        0 <= a <= b <= src.len(),
    ensures
        a <= trim_start(src, a, b) <= b,
        forall|j: int| a <= j < trim_start(src, a, b) ==> is_space(#[trigger] src[j]),
        trim_start(src, a, b) < b ==> !is_space(src[trim_start(src, a, b)]),
    decreases b - a,
{
    if a < b && is_space(src[a]) {
        lemma_trim_start(src, a + 1, b);
    }
}

/// Trimming at the end takes white space, all that stands there, and nothing
/// else.
pub proof fn lemma_trim_end(src: Seq<u8>, a: int, b: int)
    requires
        0 <= a <= b <= src.len(),
    ensures
        a <= trim_end(src, a, b) <= b,
        forall|j: int| trim_end(src, a, b) <= j < b ==> is_space(#[trigger] src[j]),
        a < trim_end(src, a, b) ==> !is_space(src[trim_end(src, a, b) - 1]),
    decreases b - a,
{
    if a < b && is_space(src[b - 1]) {
        lemma_trim_end(src, a, b - 1);
    }
}

/// What is kept of the text between two tags: all of it, but for the run of
/// white space next to a tag that asks to trim. Where no tag asks, nothing
/// is taken; what is taken is white space; what is kept neither starts nor
/// ends with white space on a side that was trimmed.
pub proof fn lemma_text_bounds(src: Seq<u8>, a: int, b: int, trim_a: bool, trim_b: bool)
    requires
        0 <= a <= b <= src.len(),
    ensures
        ({
            let (s, e) = text_bounds(src, a, b, trim_a, trim_b);
            &&& a <= s <= e <= b
            &&& !trim_a ==> s == a
            &&& !trim_b ==> e == b
            &&& forall|j: int| a <= j < s ==> is_space(#[trigger] src[j])
            &&& forall|j: int| e <= j < b ==> is_space(#[trigger] src[j])
            &&& trim_a && s < e ==> !is_space(src[s])
            &&& trim_b && s < e ==> !is_space(src[e - 1])
        }),
{
    lemma_trim_start(src, a, b);
    let s = if trim_a {
        trim_start(src, a, b)
    } else {
        a
    };
    lemma_trim_end(src, s, b);
}

/// Lines and columns are counted from 1, and no offset lies beyond the
/// line and the column that count every byte before it.
pub proof fn lemma_line_and_column(src: Seq<u8>, off: int)
    ensures
        1 <= line_of(src, off) <= 1 + if off > 0 {
            off
        } else {
            0
        },
        1 <= column_of(src, off) <= 1 + if off > 0 {
            off
        } else {
            0
        },
    decreases off,
{
    if 0 < off <= src.len() {
        lemma_line_and_column(src, off - 1);
    }
}

/// The order in which the operators bind. An operand of `or` is all that
/// `and` joins; an operand of `and` is a comparison with the `not`s before
/// it; an operand of a comparison is all that `+` and `-` join; an operand
/// of `+` or `-` is all that `*` and `/` join; an operand of `*` or `/` is a
/// single operand with its filters and its test.
pub proof fn lemma_precedence(src: Seq<u8>, pos: int)
    requires
        0 <= pos <= src.len(),
    ensures
        spec_operand(src, pos, Tier::Or) == spec_binary(src, pos, Tier::And),
        spec_operand(src, pos, Tier::And) == spec_not(src, pos),
        !word_at(src, pos, "not".spec_bytes()) ==> spec_not(src, pos) == spec_binary(
            src,
            pos,
            Tier::Compare,
        ),
        spec_operand(src, pos, Tier::Compare) == spec_binary(src, pos, Tier::Additive),
        spec_operand(src, pos, Tier::Additive) == spec_binary(src, pos, Tier::Multiplicative),
        spec_operand(src, pos, Tier::Multiplicative) == spec_postfix(src, pos),
{
    reveal(spec_operand);
    reveal(spec_not);
    reveal(spec_binary);
    reveal(spec_postfix);
}

/// Binary operators group to the left. Where the operator `op` of the tier
/// and its right operand `rhs` follow the left operand `lhs`, what follows
/// them has `lhs op rhs` as its left operand.
pub proof fn lemma_groups_to_the_left(
    src: Seq<u8>,
    pos: int,
    tier: Tier,
    lhs: ExprView,
    op: BinaryOperator,
    n: int,
    rhs: ExprView,
    end: int,
)
    requires
        0 <= pos <= src.len(),
        operator_at(src, skip(src, pos), tier) == Some((op, n)),
        advancing(
            spec_operand(src, skip(src, skip(src, pos) + n), tier),
            skip(src, skip(src, pos) + n),
            src.len() as int,
        ) == Ok::<(ExprView, int), Failure>((rhs, end)),
    ensures
        spec_binary_rest(src, pos, tier, lhs) == spec_binary_rest(
            src,
            end,
            tier,
            combine(op, lhs, rhs),
        ),
{
    broadcast use lemma_run_bounds;

    reveal(spec_binary_rest);
    reveal(spec_operand);
}

/// Filters are kept in source order: the filters read after some others
/// stand after them, and those stay as they were.
pub proof fn lemma_filters_in_source_order(src: Seq<u8>, pos: int, acc: Seq<FilterView>)
    requires
        0 <= pos <= src.len(),
    ensures
        match spec_filters(src, pos, acc) {
            Ok((filters, _)) => acc.len() <= filters.len() && filters.subrange(
                0,
                acc.len() as int,
            ) == acc,
            Err(_) => true,
        },
    decreases src.len() - pos,
{
    broadcast use lemma_run_bounds;

    reveal(spec_filters);
    reveal(spec_filter);
    let p = skip(src, pos);
    if byte_at(src, p, PIPE) {
        match advancing(spec_filter(src, p), p, src.len() as int) {
            Ok((f, e)) => {
                lemma_filters_in_source_order(src, e, acc.push(f));
                match spec_filters(src, e, acc.push(f)) {
                    Ok((filters, _)) => {
                        assert(filters.subrange(0, acc.len() as int) =~= filters.subrange(
                            0,
                            acc.len() as int + 1,
                        ).subrange(0, acc.len() as int));
                        assert(acc.push(f).subrange(0, acc.len() as int) =~= acc);
                    },
                    Err(_) => {},
                }
            },
            Err(_) => {},
        }
    } else {
        assert(acc.subrange(0, acc.len() as int) =~= acc);
    }
}

/// A run of a class ends where the first byte stands that is not of the
/// class.
pub proof fn lemma_run_stops(src: Seq<u8>, a: int, b: int, c: Class)
    requires
        0 <= a <= b <= src.len(),
        forall|j: int| a <= j < b ==> in_class(c, #[trigger] src[j]),
        b < src.len() ==> !in_class(c, src[b]),
    ensures
        run_end(src, a, c) == b,
    decreases b - a,
{
    if a < b {
        lemma_run_stops(src, a + 1, b, c);
    }
}

/// The search for a byte ends where the byte first stands.
pub proof fn lemma_find_byte_stops(src: Seq<u8>, a: int, b: int, byte: u8)
    requires
        0 <= a <= b < src.len(),
        forall|j: int| a <= j < b ==> #[trigger] src[j] != byte,
        src[b] == byte,
    ensures
        find_byte(src, a, byte) == b,
    decreases b - a,
{
    if a < b {
        lemma_find_byte_stops(src, a + 1, b, byte);
    }
}

/// The words `extends` and `include`, byte by byte, and the lengths of the
/// words that are looked for before them.
pub proof fn lemma_tag_keywords()
    ensures
        "extends".spec_bytes() =~= seq![101u8, 120u8, 116u8, 101u8, 110u8, 100u8, 115u8],
        "include".spec_bytes() =~= seq![105u8, 110u8, 99u8, 108u8, 117u8, 100u8, 101u8],
        keyword_of("extends".spec_bytes()) == Some(Keyword::Extends),
        keyword_of("include".spec_bytes()) == Some(Keyword::Include),
{
    broadcast use {is_ascii_spec_bytes, is_ascii_chars_encode_utf8};

    reveal_strlit("extends");
    reveal_strlit("include");
    reveal_strlit("if");
    reveal_strlit("elif");
    reveal_strlit("else");
    reveal_strlit("endif");
    reveal_strlit("for");
    reveal_strlit("endfor");
    reveal_strlit("set");
    reveal_strlit("block");
    reveal_strlit("endblock");
    reveal_strlit("macro");
    reveal_strlit("endmacro");
    reveal_strlit("filter");
    reveal_strlit("endfilter");
    assert(is_ascii("extends"));
    assert(is_ascii("include"));
    assert(is_ascii("if"));
    assert(is_ascii("elif"));
    assert(is_ascii("else"));
    assert(is_ascii("endif"));
    assert(is_ascii("for"));
    assert(is_ascii("endfor"));
    assert(is_ascii("set"));
    assert(is_ascii("block"));
    assert(is_ascii("endblock"));
    assert(is_ascii("macro"));
    assert(is_ascii("endmacro"));
    assert(is_ascii("filter"));
    assert(is_ascii("endfilter"));
    assert("extends".spec_bytes()[0] != "include".spec_bytes()[0]);
}

/// The text of the tag `{% keyword "name" %}`.
pub open spec fn file_tag_text(keyword: Seq<u8>, name: Seq<u8>) -> Seq<u8> {
    seq![BRACE_OPEN, PERCENT, BLANK] + keyword + seq![BLANK, QUOTE] + name + seq![
        QUOTE,
        BLANK,
        PERCENT,
        BRACE_CLOSE,
    ]
}

/// The tag `{% extends "name" %}` or `{% include "name" %}`, alone in a
/// text, is read as the tag of its keyword with the file name `name`,
/// whatever the name is, as long as it is valid UTF-8 and no `"` stands in
/// it.
pub proof fn lemma_file_tag(extends: bool, name: Seq<u8>)
    requires
        valid_utf8(name),
        forall|j: int| 0 <= j < name.len() ==> #[trigger] name[j] != QUOTE,
        name.len() + 16 <= usize::MAX,
    ensures
        ({
            let keyword = if extends {
                "extends".spec_bytes()
            } else {
                "include".spec_bytes()
            };
            let src = file_tag_text(keyword, name);
            let file = decode_utf8(name);
            spec_tag(src, 0) == Ok::<TagView, Failure>(
                TagView {
                    head: if extends {
                        TagHeadView::Extends(file)
                    } else {
                        TagHeadView::Include(file)
                    },
                    span: Span { start: 0, end: src.len() as usize },
                    trim_before: false,
                    trim_after: false,
                },
            )
        }),
{
    lemma_tag_keywords();
    let keyword = if extends {
        "extends".spec_bytes()
    } else {
        "include".spec_bytes()
    };
    let src = file_tag_text(keyword, name);
    let n = name.len() as int;
    assert(src.len() == 16 + n);
    assert(src[0] == BRACE_OPEN && src[1] == PERCENT && src[2] == BLANK);
    assert(forall|j: int| 0 <= j < 7 ==> src[3 + j] == keyword[j]);
    assert(src[10] == BLANK && src[11] == QUOTE);
    assert(forall|j: int| 0 <= j < n ==> src[12 + j] == name[j]);
    assert(src[12 + n] == QUOTE && src[13 + n] == BLANK && src[14 + n] == PERCENT && src[15 + n]
        == BRACE_CLOSE);
    assert(src.subrange(3, 10) =~= keyword);
    assert(src.subrange(12, 12 + n) =~= name);
    lemma_run_stops(src, 2, 3, Class::Space);
    assert(forall|j: int| 4 <= j < 10 ==> in_class(Class::Word, #[trigger] src[j])) by {
        assert(forall|j: int| 4 <= j < 10 ==> src[j] == keyword[j - 3]);
    }
    lemma_run_stops(src, 4, 10, Class::Word);
    lemma_run_stops(src, 10, 11, Class::Space);
    assert(forall|j: int| 12 <= j < 12 + n ==> #[trigger] src[j] != QUOTE) by {
        assert(forall|j: int| 12 <= j < 12 + n ==> src[j] == name[j - 12]);
    }
    lemma_find_byte_stops(src, 12, 12 + n, QUOTE);
    lemma_run_stops(src, 13 + n, 14 + n, Class::Space);
    assert(spec_open(src, 0) == (false, 3int));
    assert(ident_end(src, 3) == Some(10int));
    assert(skip(src, 10) == 11);
    assert(string_end(src, 11) == Some(13 + n));
    assert(spec_file_name(src, 11) == Ok::<(Seq<char>, int), Failure>(
        (decode_utf8(name), 13 + n),
    ));
    reveal(spec_tag_head);
    assert(spec_close(src, 13 + n, PERCENT) == Ok::<(bool, int), Failure>((false, 16 + n)));
    reveal(spec_tag);
}

/// The text `{% extends "name" %}` is the template of the one node
/// `Extends(name)`, and the text `{% include "name" %}` the template of the
/// one node `Include(name)`, whatever the name is, as long as it is valid
/// UTF-8 and no `"` stands in it.
pub proof fn lemma_extends_and_include(extends: bool, name: Seq<u8>)
    requires
        valid_utf8(name),
        forall|j: int| 0 <= j < name.len() ==> #[trigger] name[j] != QUOTE,
        name.len() + 16 <= usize::MAX,
    ensures
        ({
            let keyword = if extends {
                "extends".spec_bytes()
            } else {
                "include".spec_bytes()
            };
            let file = decode_utf8(name);
            spec_template(file_tag_text(keyword, name)) == Ok::<NodeView, Failure>(
                NodeView::Template(
                    seq![
                        if extends {
                            NodeView::Extends(file)
                        } else {
                            NodeView::Include(file)
                        },
                    ],
                ),
            )
        }),
{
    lemma_tag_keywords();
    lemma_file_tag(extends, name);
    let keyword = if extends {
        "extends".spec_bytes()
    } else {
        "include".spec_bytes()
    };
    let src = file_tag_text(keyword, name);
    let file = decode_utf8(name);
    let node = if extends {
        NodeView::Extends(file)
    } else {
        NodeView::Include(file)
    };
    let end = src.len() as int;
    assert(end == 16 + name.len());
    assert(src[0] == BRACE_OPEN && src[1] == PERCENT);
    assert(opens_at(src, 0));
    assert(find_open(src, 0) == 0);
    assert(find_open(src, end) == end);
    reveal_with_fuel(spec_body, 2);
    let none: Seq<NodeView> = Seq::empty();
    assert(with_text(none, src, 0, 0, false, false) == none);
    assert(none.push(node) =~= seq![node]);
    assert(with_text(seq![node], src, end, end, false, false) == seq![node]);
    assert(spec_body(src, end, false, seq![node]) == Ok::<BodyView, Failure>(
        BodyView { nodes: seq![node], stop: None },
    ));
    assert(spec_body(src, 0, false, none) == Ok::<BodyView, Failure>(
        BodyView { nodes: seq![node], stop: None },
    ));
}

} // verus!
