//! Byte classes and the scanning primitives that every grammar rule is built
//! from. The source text is modelled as the sequence of its UTF-8 bytes.

use vstd::prelude::*;
use vstd::string::*;
use vstd::utf8::*;

verus! {

/// The tab
pub const TAB: u8 = 9;
/// The line feed
pub const LINE_FEED: u8 = 10;
/// The carriage return
pub const CARRIAGE_RETURN: u8 = 13;
/// The blank
pub const BLANK: u8 = 32;
/// `!`
pub const BANG: u8 = 33;
/// `"`
pub const QUOTE: u8 = 34;
/// `#`
pub const HASH: u8 = 35;
/// `%`
pub const PERCENT: u8 = 37;
/// `(`
pub const PAREN_OPEN: u8 = 40;
/// `)`
pub const PAREN_CLOSE: u8 = 41;
/// `*`
pub const STAR: u8 = 42;
/// `+`
pub const PLUS: u8 = 43;
/// `,`
pub const COMMA: u8 = 44;
/// `-`
pub const MINUS: u8 = 45;
/// `.`
pub const DOT: u8 = 46;
/// `/`
pub const SLASH: u8 = 47;
/// `0`
pub const DIGIT_ZERO: u8 = 48;
/// `9`
pub const DIGIT_NINE: u8 = 57;
/// `:`
pub const COLON: u8 = 58;
/// `<`
pub const LESS: u8 = 60;
/// `=`
pub const EQUALS: u8 = 61;
/// `>`
pub const GREATER: u8 = 62;
/// `A`
pub const UPPER_A: u8 = 65;
/// `Z`
pub const UPPER_Z: u8 = 90;
/// `_`
pub const UNDERSCORE: u8 = 95;
/// `a`
pub const LOWER_A: u8 = 97;
/// `z`
pub const LOWER_Z: u8 = 122;
/// `{`
pub const BRACE_OPEN: u8 = 123;
/// `|`
pub const PIPE: u8 = 124;
/// `}`
pub const BRACE_CLOSE: u8 = 125;

/// Blank, tab, line feed or carriage return.
pub open spec fn is_space(b: u8) -> bool {
    b == BLANK || b == TAB || b == LINE_FEED || b == CARRIAGE_RETURN
}

/// `0` to `9`.
pub open spec fn is_digit(b: u8) -> bool {
    DIGIT_ZERO <= b <= DIGIT_NINE
}

/// `a` to `z` and `A` to `Z`.
pub open spec fn is_alpha(b: u8) -> bool {
    (LOWER_A <= b <= LOWER_Z) || (UPPER_A <= b <= UPPER_Z)
}

/// Letters, digits and the underscore: what an identifier is made of.
pub open spec fn is_word(b: u8) -> bool {
    is_alpha(b) || is_digit(b) || b == UNDERSCORE
}

/// A letter or the underscore: what an identifier starts with.
pub open spec fn is_word_start(b: u8) -> bool {
    is_alpha(b) || b == UNDERSCORE
}

/// The classes of bytes of which the grammar takes maximal runs.
#[derive(Copy, Clone, Debug, PartialEq, Eq, Structural)]
pub enum Class {
    Space,
    Digit,
    Word,
}

/// The byte is of the class.
pub open spec fn in_class(c: Class, b: u8) -> bool {
    match c {
        Class::Space => is_space(b),
        Class::Digit => is_digit(b),
        Class::Word => is_word(b),
    }
}

/// Whether the byte is of the class.
pub fn class_has(c: Class, b: u8) -> (r: bool)
    ensures
        r == in_class(c, b),
{
    match c {
        Class::Space => b == BLANK || b == TAB || b == LINE_FEED || b == CARRIAGE_RETURN,
        Class::Digit => DIGIT_ZERO <= b && b <= DIGIT_NINE,
        Class::Word => word_start(b) || (DIGIT_ZERO <= b && b <= DIGIT_NINE),
    }
}

/// Whether the byte is a letter or the underscore.
pub fn word_start(b: u8) -> (r: bool)
    ensures
        r == is_word_start(b),
{
    (LOWER_A <= b && b <= LOWER_Z) || (UPPER_A <= b && b <= UPPER_Z) || b == UNDERSCORE
}

/// End of the longest run of bytes of class `c` that starts at `pos`.
pub open spec fn run_end(src: Seq<u8>, pos: int, c: Class) -> int
    decreases src.len() - pos,
{
    if 0 <= pos < src.len() && in_class(c, src[pos]) {
        run_end(src, pos + 1, c)
    } else {
        pos
    }
}

/// What `run_end` is: every byte before it is of the class, the byte at it is not.
pub proof fn lemma_run_end(src: Seq<u8>, pos: int, c: Class)
    requires
        0 <= pos <= src.len(),
    ensures
        pos <= run_end(src, pos, c) <= src.len(),
        forall|j: int| pos <= j < run_end(src, pos, c) ==> in_class(c, #[trigger] src[j]),
        run_end(src, pos, c) < src.len() ==> !in_class(c, src[run_end(src, pos, c)]),
    decreases src.len() - pos,
{
    if pos < src.len() && in_class(c, src[pos]) {
        lemma_run_end(src, pos + 1, c);
    }
}

/// A run of a class that starts inside the text ends inside it.
pub broadcast proof fn lemma_run_bounds(src: Seq<u8>, pos: int, c: Class)
    requires
        0 <= pos <= src.len(),
    ensures
        pos <= #[trigger] run_end(src, pos, c) <= src.len(),
    decreases src.len() - pos,
{
    if pos < src.len() {
        lemma_run_bounds(src, pos + 1, c);
    }
}

/// The end of the longest run of bytes of class `c` that starts at `pos`.
pub fn scan(bytes: &[u8], pos: usize, c: Class) -> (end: usize)
    requires
        pos <= bytes.len(),
    ensures
        end == run_end(bytes@, pos as int, c),
        pos <= end <= bytes.len(),
{
    let mut i: usize = pos;
    while i < bytes.len() && class_has(c, bytes[i])
        invariant
            pos <= i <= bytes.len(),
            run_end(bytes@, pos as int, c) == run_end(bytes@, i as int, c),
        decreases bytes.len() - i,
    {
        i += 1;
    }
    i
}

/// The bytes `pat` stand in `src` at `pos`.
pub open spec fn at(src: Seq<u8>, pos: int, pat: Seq<u8>) -> bool {
    0 <= pos && pos + pat.len() <= src.len() && src.subrange(pos, pos + pat.len()) == pat
}

/// The word `pat` stands in `src` at `pos`, and no identifier byte follows it.
pub open spec fn word_at(src: Seq<u8>, pos: int, pat: Seq<u8>) -> bool {
    at(src, pos, pat) && !(pos + pat.len() < src.len() && is_word(src[pos + pat.len()]))
}

/// Whether `pat` stands in `bytes` at `pos`.
pub fn looking_at(bytes: &[u8], pos: usize, pat: &str) -> (r: bool)
    requires
        pos <= bytes.len(),
    ensures
        r == at(bytes@, pos as int, pat.spec_bytes()),
        bytes@.len() <= usize::MAX,
{
    let p = pat.as_bytes();
    let n = p.len();
    if n > bytes.len() - pos {
        return false;
    }
    let mut j: usize = 0;
    while j < n
        invariant
            j <= n,
            n == p@.len(),
            pos + n <= bytes.len(),
            p@ == pat.spec_bytes(),
            forall|k: int| 0 <= k < j ==> bytes@[pos + k] == p@[k],
        decreases n - j,
    {
        if bytes[pos + j] != p[j] {
            assert(bytes@.subrange(pos as int, pos + n)[j as int] != p@[j as int]);
            return false;
        }
        j += 1;
    }
    assert(bytes@.subrange(pos as int, pos + n) =~= p@);
    true
}

/// Whether the word `pat` stands in `bytes` at `pos`, with no identifier byte after it.
pub fn looking_at_word(bytes: &[u8], pos: usize, pat: &str) -> (r: bool)
    requires
        pos <= bytes.len(),
    ensures
        r == word_at(bytes@, pos as int, pat.spec_bytes()),
        bytes@.len() <= usize::MAX,
{
    if !looking_at(bytes, pos, pat) {
        return false;
    }
    let after = pos + pat.as_bytes().len();
    !(after < bytes.len() && class_has(Class::Word, bytes[after]))
}

/// The byte `b` stands in `src` at `pos`.
pub open spec fn byte_at(src: Seq<u8>, pos: int, b: u8) -> bool {
    0 <= pos < src.len() && src[pos] == b
}

/// The bytes `b1`, `b2` stand in `src` at `pos`.
pub open spec fn pair_at(src: Seq<u8>, pos: int, b1: u8, b2: u8) -> bool {
    byte_at(src, pos, b1) && byte_at(src, pos + 1, b2)
}

/// Whether the byte `b` stands in `bytes` at `pos`.
pub fn is_byte(bytes: &[u8], pos: usize, b: u8) -> (r: bool)
    ensures
        r == byte_at(bytes@, pos as int, b),
        bytes@.len() <= usize::MAX,
{
    pos < bytes.len() && bytes[pos] == b
}

/// Whether the bytes `b1`, `b2` stand in `bytes` at `pos`.
pub fn is_pair(bytes: &[u8], pos: usize, b1: u8, b2: u8) -> (r: bool)
    ensures
        r == pair_at(bytes@, pos as int, b1, b2),
        bytes@.len() <= usize::MAX,
{
    pos < bytes.len() && bytes[pos] == b1 && pos + 1 < bytes.len() && bytes[pos + 1] == b2
}

/// The first place at or after `pos` where the byte `b` stands, or the
/// length of `src` where it stands nowhere.
pub open spec fn find_byte(src: Seq<u8>, pos: int, b: u8) -> int
    decreases src.len() - pos,
{
    if 0 <= pos < src.len() && src[pos] != b {
        find_byte(src, pos + 1, b)
    } else {
        pos
    }
}

/// The first place at or after `pos` where the bytes `b1`, `b2` stand, or
/// the length of `src` where they stand nowhere.
pub open spec fn find_pair(src: Seq<u8>, pos: int, b1: u8, b2: u8) -> int
    decreases src.len() - pos,
{
    if 0 <= pos < src.len() && !pair_at(src, pos, b1, b2) {
        find_pair(src, pos + 1, b1, b2)
    } else {
        pos
    }
}

/// The first place at or after `pos` where the byte `b` stands, or the length of `bytes`.
pub fn search_byte(bytes: &[u8], pos: usize, b: u8) -> (r: usize)
    requires
        pos <= bytes.len(),
    ensures
        r == find_byte(bytes@, pos as int, b),
        pos <= r <= bytes.len(),
        r < bytes.len() ==> bytes@[r as int] == b,
{
    let mut i: usize = pos;
    while i < bytes.len() && bytes[i] != b
        invariant
            pos <= i <= bytes.len(),
            find_byte(bytes@, pos as int, b) == find_byte(bytes@, i as int, b),
        decreases bytes.len() - i,
    {
        i += 1;
    }
    i
}

/// The first place at or after `pos` where the bytes `b1`, `b2` stand, or the length of
/// `bytes`.
pub fn search_pair(bytes: &[u8], pos: usize, b1: u8, b2: u8) -> (r: usize)
    requires
        pos <= bytes.len(),
    ensures
        r == find_pair(bytes@, pos as int, b1, b2),
        pos <= r <= bytes.len(),
        r < bytes.len() ==> pair_at(bytes@, r as int, b1, b2),
{
    let mut i: usize = pos;
    while i < bytes.len() && !is_pair(bytes, i, b1, b2)
        invariant
            pos <= i <= bytes.len(),
            find_pair(bytes@, pos as int, b1, b2) == find_pair(bytes@, i as int, b1, b2),
        decreases bytes.len() - i,
    {
        i += 1;
    }
    i
}

/// A tag or a comment opens at `i`: `{{`, `{%` or `{#`.
pub open spec fn opens_at(src: Seq<u8>, i: int) -> bool {
    byte_at(src, i, BRACE_OPEN) && (byte_at(src, i + 1, BRACE_OPEN) || byte_at(
        src,
        i + 1,
        PERCENT,
    ) || byte_at(src, i + 1, HASH))
}

/// The first place at or after `pos` where a tag or a comment opens, or the
/// length of `src` where none does.
pub open spec fn find_open(src: Seq<u8>, pos: int) -> int
    decreases src.len() - pos,
{
    if 0 <= pos < src.len() && !opens_at(src, pos) {
        find_open(src, pos + 1)
    } else {
        pos
    }
}

/// The first place where a tag or a comment opens lies at or after `pos`,
/// and inside the text or at its end.
pub broadcast proof fn lemma_find_open_bounds(src: Seq<u8>, pos: int)
    requires
        0 <= pos <= src.len(),
    ensures
        pos <= #[trigger] find_open(src, pos) <= src.len(),
    decreases src.len() - pos,
{
    if pos < src.len() && !opens_at(src, pos) {
        lemma_find_open_bounds(src, pos + 1);
    }
}

/// The first place at or after `pos` where a tag or a comment opens, or the length of
/// `bytes`.
pub fn search_open(bytes: &[u8], pos: usize) -> (r: usize)
    requires
        pos <= bytes.len(),
    ensures
        r == find_open(bytes@, pos as int),
        pos <= r <= bytes.len(),
        r < bytes.len() ==> opens_at(bytes@, r as int),
{
    let mut i: usize = pos;
    while i < bytes.len() && !(bytes[i] == BRACE_OPEN && (is_byte(bytes, i + 1, BRACE_OPEN)
        || is_byte(bytes, i + 1, PERCENT) || is_byte(bytes, i + 1, HASH)))
        invariant
            pos <= i <= bytes.len(),
            find_open(bytes@, pos as int) == find_open(bytes@, i as int),
        decreases bytes.len() - i,
    {
        i += 1;
    }
    i
}

/// A place where the text can be cut without splitting a character: an end
/// of the text, or a place with an ASCII byte on either side.
pub open spec fn cut_point(src: Seq<u8>, i: int) -> bool {
    0 <= i <= src.len() && (i == 0 || i == src.len() || src[i] < 128 || src[i - 1] < 128)
}

/// In a text that is valid UTF-8, a cut point lies between two characters.
pub proof fn lemma_cut_is_boundary(src: Seq<u8>, i: int)
    requires
        valid_utf8(src),
        cut_point(src, i),
    ensures
        is_char_boundary(src, i),
{
    broadcast use group_utf8_lib;

    if i == 0 || i == src.len() {
        is_char_boundary_start_end_of_seq(src);
    } else if src[i] < 128 {
        is_char_boundary_iff_not_is_continuation_byte(src, i);
    } else {
        is_char_boundary_iff_not_is_continuation_byte(src, i - 1);
        valid_utf8_split(src, i - 1);
        let tail = src.subrange(i - 1, src.len() as int);
        assert(tail[0] == src[i - 1]);
        assert(valid_utf8(tail));
        assert(length_of_first_scalar(tail) == 1);
        let rest = pop_first_scalar(tail);
        assert(rest =~= src.subrange(i, src.len() as int));
        assert(valid_utf8(rest));
        assert(rest.len() > 0);
        assert(valid_first_scalar(rest));
        assert(rest[0] == src[i]);
        assert(!is_continuation_byte(src[i]));
        is_char_boundary_iff_not_is_continuation_byte(src, i);
    }
}

/// The characters that the bytes from `a` up to `b` encode.
pub open spec fn text_of(src: Seq<u8>, a: int, b: int) -> Seq<char> {
    decode_utf8(src.subrange(a, b))
}

/// Copies the part of `s` between the byte offsets `a` and `b`.
pub fn substring(s: &str, a: usize, b: usize) -> (r: String)
    requires
        a <= b <= s.spec_bytes().len(),
        cut_point(s.spec_bytes(), a as int),
        cut_point(s.spec_bytes(), b as int),
    ensures
        r@ == text_of(s.spec_bytes(), a as int, b as int),
{
    broadcast use group_utf8_lib;

    let ghost src = s.spec_bytes();
    proof {
        lemma_cut_is_boundary(src, b as int);
    }
    let (head, _) = s.split_at(b);
    proof {
        assert(head.spec_bytes() =~= src.subrange(0, b as int));
        assert(a < b ==> head.spec_bytes()[a as int] == src[a as int]);
        assert(0 < a ==> head.spec_bytes()[a - 1] == src[a - 1]);
        lemma_cut_is_boundary(head.spec_bytes(), a as int);
    }
    let (_, mid) = head.split_at(a);
    proof {
        assert(mid.spec_bytes() =~= src.subrange(a as int, b as int));
        assert(mid@ == decode_utf8(mid.spec_bytes()));
    }
    mid.to_owned()
}

} // verus!
