//! The lexical rules: identifiers, dotted paths, numbers and strings.

use super::scan::{
    byte_at, cut_point, find_byte, in_class, is_byte, is_digit, is_word_start, lemma_run_bounds,
    lemma_run_end, run_end, scan, search_byte, word_start, Class, DIGIT_ZERO, DOT, MINUS, QUOTE,
};
use vstd::prelude::*;

verus! {

/// Skips blanks, tabs and line ends.
pub open spec fn skip(src: Seq<u8>, pos: int) -> int {
    run_end(src, pos, Class::Space)
}

/// `ident`: a letter or an underscore, then letters, digits and underscores.
/// The end of the identifier that starts at `pos`, if one does.
pub open spec fn ident_end(src: Seq<u8>, pos: int) -> Option<int> {
    if 0 <= pos < src.len() && is_word_start(src[pos]) {
        Some(run_end(src, pos + 1, Class::Word))
    } else {
        None
    }
}

/// The end of the `.`-joined identifiers that follow an identifier ending at `pos`.
pub open spec fn dotted_rest(src: Seq<u8>, pos: int) -> int
    decreases src.len() - pos,
{
    if byte_at(src, pos, DOT) {
        match ident_end(src, pos + 1) {
            Some(e) => {
                if pos < e <= src.len() {
                    dotted_rest(src, e)
                } else {
                    pos
                }
            },
            None => pos,
        }
    } else {
        pos
    }
}

/// The dotted identifiers that follow an identifier end inside the text,
/// and not before that identifier does.
pub broadcast proof fn lemma_dotted_rest_bounds(src: Seq<u8>, pos: int)
    requires
        0 <= pos <= src.len(),
    ensures
        pos <= #[trigger] dotted_rest(src, pos) <= src.len(),
    decreases src.len() - pos,
{
    broadcast use lemma_run_bounds;

    if byte_at(src, pos, DOT) {
        match ident_end(src, pos + 1) {
            Some(e) => {
                if pos < e <= src.len() {
                    lemma_dotted_rest_bounds(src, e);
                }
            },
            None => {},
        }
    }
}

/// `dotted_ident`: identifiers joined by `.`, as many as stand there.
pub open spec fn dotted_ident_end(src: Seq<u8>, pos: int) -> Option<int> {
    match ident_end(src, pos) {
        Some(e) => Some(dotted_rest(src, e)),
        None => None,
    }
}

/// `int`: an optional `-`, then digits.
pub open spec fn int_end(src: Seq<u8>, pos: int) -> Option<int> {
    let digits = if byte_at(src, pos, MINUS) {
        pos + 1
    } else {
        pos
    };
    if 0 <= pos && run_end(src, digits, Class::Digit) > digits {
        Some(run_end(src, digits, Class::Digit))
    } else {
        None
    }
}

/// `float`: an `int`, a `.`, then digits.
pub open spec fn float_end(src: Seq<u8>, pos: int) -> Option<int> {
    match int_end(src, pos) {
        Some(e) => {
            if byte_at(src, e, DOT) && run_end(src, e + 1, Class::Digit) > e + 1 {
                Some(run_end(src, e + 1, Class::Digit))
            } else {
                None
            }
        },
        None => None,
    }
}

/// `string`: a `"`, anything but a `"`, and a `"`.
pub open spec fn string_end(src: Seq<u8>, pos: int) -> Option<int> {
    if byte_at(src, pos, QUOTE) && find_byte(src, pos + 1, QUOTE) < src.len() {
        Some(find_byte(src, pos + 1, QUOTE) + 1)
    } else {
        None
    }
}

/// The number that a sequence of digits writes in base ten.
pub open spec fn digits_value(s: Seq<u8>) -> nat
    decreases s.len(),
{
    if s.len() == 0 {
        0
    } else {
        (digits_value(s.drop_last()) * 10 + (s.last() - DIGIT_ZERO)) as nat
    }
}

/// The number that the `int` from `pos` to `end` writes.
pub open spec fn int_value(src: Seq<u8>, pos: int, end: int) -> int {
    if byte_at(src, pos, MINUS) {
        -(digits_value(src.subrange(pos + 1, end)) as int)
    } else {
        digits_value(src.subrange(pos, end)) as int
    }
}

/// The end of the `ident` that starts at `pos`, if one does.
pub fn match_ident(bytes: &[u8], pos: usize) -> (r: Option<usize>)
    requires
        pos <= bytes.len(),
    ensures
        match r {
            Some(e) => ident_end(bytes@, pos as int) == Some(e as int) && pos < e <= bytes.len()
                && cut_point(bytes@, pos as int) && cut_point(bytes@, e as int),
            None => ident_end(bytes@, pos as int) is None,
        },
{
    if pos < bytes.len() && word_start(bytes[pos]) {
        let e = scan(bytes, pos + 1, Class::Word);
        proof {
            lemma_run_end(bytes@, pos + 1, Class::Word);
            assert(e > pos + 1 ==> in_class(Class::Word, bytes@[e - 1]));
        }
        Some(e)
    } else {
        None
    }
}

/// The end of the `dotted_ident` that starts at `pos`, if one does.
pub fn match_dotted_ident(bytes: &[u8], pos: usize) -> (r: Option<usize>)
    requires
        pos <= bytes.len(),
    ensures
        match r {
            Some(e) => dotted_ident_end(bytes@, pos as int) == Some(e as int) && pos < e
                <= bytes.len() && cut_point(bytes@, pos as int) && cut_point(bytes@, e as int),
            None => dotted_ident_end(bytes@, pos as int) is None,
        },
{
    let first = match match_ident(bytes, pos) {
        Some(e) => e,
        None => { return None; },
    };
    let mut end: usize = first;
    loop
        invariant
            pos < end <= bytes.len(),
            cut_point(bytes@, pos as int),
            cut_point(bytes@, end as int),
            ident_end(bytes@, pos as int) == Some(first as int),
            dotted_rest(bytes@, first as int) == dotted_rest(bytes@, end as int),
        decreases bytes.len() - end,
    {
        if !is_byte(bytes, end, DOT) {
            return Some(end);
        }
        match match_ident(bytes, end + 1) {
            Some(e) => { end = e; },
            None => { return Some(end); },
        }
    }
}

/// The end of the `int` that starts at `pos`, if one does.
pub fn match_int(bytes: &[u8], pos: usize) -> (r: Option<usize>)
    requires
        pos <= bytes.len(),
    ensures
        match r {
            Some(e) => int_end(bytes@, pos as int) == Some(e as int) && pos < e <= bytes.len()
                && cut_point(bytes@, pos as int) && cut_point(bytes@, e as int),
            None => int_end(bytes@, pos as int) is None,
        },
{
    let digits = if is_byte(bytes, pos, MINUS) {
        pos + 1
    } else {
        pos
    };
    let e = scan(bytes, digits, Class::Digit);
    proof {
        lemma_run_end(bytes@, digits as int, Class::Digit);
        assert(e > digits ==> in_class(Class::Digit, bytes@[e - 1]) && in_class(
            Class::Digit,
            bytes@[digits as int],
        ));
    }
    if e > digits {
        Some(e)
    } else {
        None
    }
}

/// The end of the `float` that starts at `pos`, if one does.
pub fn match_float(bytes: &[u8], pos: usize) -> (r: Option<usize>)
    requires
        pos <= bytes.len(),
    ensures
        match r {
            Some(e) => float_end(bytes@, pos as int) == Some(e as int) && pos < e <= bytes.len()
                && cut_point(bytes@, pos as int) && cut_point(bytes@, e as int),
            None => float_end(bytes@, pos as int) is None,
        },
{
    let whole = match match_int(bytes, pos) {
        Some(e) => e,
        None => { return None; },
    };
    if !is_byte(bytes, whole, DOT) {
        return None;
    }
    let e = scan(bytes, whole + 1, Class::Digit);
    proof {
        lemma_run_end(bytes@, whole + 1, Class::Digit);
        assert(e > whole + 1 ==> in_class(Class::Digit, bytes@[e - 1]));
    }
    if e > whole + 1 {
        Some(e)
    } else {
        None
    }
}

/// The end of the `string` that starts at `pos`, if one does.
pub fn match_string(bytes: &[u8], pos: usize) -> (r: Option<usize>)
    requires
        pos <= bytes.len(),
    ensures
        match r {
            Some(e) => string_end(bytes@, pos as int) == Some(e as int) && pos + 2 <= e
                <= bytes.len() && cut_point(bytes@, pos as int) && cut_point(bytes@, pos + 1)
                && cut_point(bytes@, e - 1) && cut_point(bytes@, e as int),
            None => string_end(bytes@, pos as int) is None,
        },
{
    if !is_byte(bytes, pos, QUOTE) {
        return None;
    }
    let q = search_byte(bytes, pos + 1, QUOTE);
    if q < bytes.len() {
        Some(q + 1)
    } else {
        None
    }
}

/// A longer run of digits writes no smaller a number.
pub proof fn lemma_digits_value_grows(s: Seq<u8>, k: int)
    requires
        0 <= k <= s.len(),
        forall|j: int| 0 <= j < s.len() ==> is_digit(#[trigger] s[j]),
    ensures
        digits_value(s.subrange(0, k)) <= digits_value(s),
    decreases s.len() - k,
{
    if k == s.len() {
        assert(s.subrange(0, k) =~= s);
    } else {
        lemma_digits_value_grows(s, k + 1);
        let longer = s.subrange(0, k + 1);
        assert(longer.drop_last() =~= s.subrange(0, k));
        assert(longer.last() == s[k]);
    }
}

/// The value of the `int` literal from `pos` to `end`, where it fits in 64
/// bits.
pub fn int_literal(bytes: &[u8], pos: usize, end: usize) -> (r: Option<i64>)
    requires
        end <= bytes.len(),
        int_end(bytes@, pos as int) == Some(end as int),
    ensures
        match r {
            Some(v) => v == int_value(bytes@, pos as int, end as int),
            None => !(i64::MIN <= int_value(bytes@, pos as int, end as int) <= i64::MAX),
        },
{
    let negative = is_byte(bytes, pos, MINUS);
    let digits = if negative {
        pos + 1
    } else {
        pos
    };
    let ghost all = bytes@.subrange(digits as int, end as int);
    proof {
        lemma_run_end(bytes@, digits as int, Class::Digit);
    }
    let limit: u128 = 0x8000_0000_0000_0000;
    let mut value: u128 = 0;
    let mut i: usize = digits;
    while i < end
        invariant
            digits <= i <= end <= bytes.len(),
            limit == 0x8000_0000_0000_0000,
            negative == byte_at(bytes@, pos as int, MINUS),
            digits == if negative {
                pos + 1
            } else {
                pos as int
            },
            all == bytes@.subrange(digits as int, end as int),
            forall|j: int| 0 <= j < all.len() ==> is_digit(#[trigger] all[j]),
            value == digits_value(all.subrange(0, i - digits)),
            value <= limit,
        decreases end - i,
    {
        assert(all[i - digits] == bytes@[i as int]);
        let digit = bytes[i] - DIGIT_ZERO;
        let next: u128 = value * 10 + digit as u128;
        proof {
            let longer = all.subrange(0, i + 1 - digits);
            assert(longer.drop_last() =~= all.subrange(0, i - digits));
            assert(longer.last() == bytes@[i as int]);
            assert(next == digits_value(longer));
            lemma_digits_value_grows(all, i + 1 - digits);
        }
        if next > limit {
            return None;
        }
        value = next;
        i += 1;
    }
    proof {
        assert(all.subrange(0, end - digits) =~= all);
    }
    if negative {
        if value == limit {
            Some(i64::MIN)
        } else {
            Some(-(value as i64))
        }
    } else if value < limit {
        Some(value as i64)
    } else {
        None
    }
}

} // verus!
