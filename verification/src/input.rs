use vstd::prelude::*;

verus! {

/// `c` has the Unicode White_Space property (PropList.txt), which is what
/// `char::is_whitespace` tests: U+0009 to U+000D, U+0020, U+0085, U+00A0,
/// U+1680, U+2000 to U+200A, U+2028, U+2029, U+202F, U+205F and U+3000.
pub open spec fn is_white_space(c: char) -> bool {
    let n = c as int;
    ||| 0x9 <= n <= 0xd
    ||| n == 0x20
    ||| n == 0x85
    ||| n == 0xa0
    ||| n == 0x1680
    ||| 0x2000 <= n <= 0x200a
    ||| n == 0x2028
    ||| n == 0x2029
    ||| n == 0x202f
    ||| n == 0x205f
    ||| n == 0x3000
}

/// Number of white-space characters that `s` begins with.
pub open spec fn leading_white_space(s: Seq<char>) -> nat
    decreases s.len(),
{
    if s.len() > 0 && is_white_space(s[0]) {
        1 + leading_white_space(s.drop_first())
    } else {
        0
    }
}

/// Number of white-space characters that `s` ends with.
pub open spec fn trailing_white_space(s: Seq<char>) -> nat
    decreases s.len(),
{
    if s.len() > 0 && is_white_space(s.last()) {
        1 + trailing_white_space(s.drop_last())
    } else {
        0
    }
}

/// `s` without its leading and trailing white space: empty when `s` is
/// white space throughout.
pub open spec fn trim_whitespace(s: Seq<char>) -> Seq<char> {
    let a = leading_white_space(s);
    if a >= s.len() {
        Seq::empty()
    } else {
        s.subrange(a as int, s.len() - trailing_white_space(s))
    }
}

/// `c` is one of the ASCII digits `0` to `9`.
pub open spec fn is_ascii_digit(c: char) -> bool {
    0x30 <= c as int <= 0x39
}

/// The number that the decimal digits `s` spell.
pub open spec fn decimal_value(s: Seq<char>) -> nat
    decreases s.len(),
{
    if s.len() == 0 {
        0
    } else {
        decimal_value(s.drop_last()) * 10 + (s.last() as int - 0x30) as nat
    }
}

/// The text after an optional leading `+`.
pub open spec fn digits_of(s: Seq<char>) -> Seq<char> {
    if s.len() > 0 && s[0] == '+' {
        s.drop_first()
    } else {
        s
    }
}

/// What `str::parse::<u8>` gives, `Ok` read as `Some`: an optional `+`
/// followed by one or more ASCII digits whose value is at most 255; any
/// other text is an error.
pub open spec fn parsed_u8(s: Seq<char>) -> Option<u8> {
    let digits = digits_of(s);
    if digits.len() > 0 && (forall|i: int|
        0 <= i < digits_of(s).len() ==> is_ascii_digit(#[trigger] digits_of(s)[i]))
        && decimal_value(digits) <= 255 {
        Some(decimal_value(digits) as u8)
    } else {
        None
    }
}

/// Calls `str::trim`: the text without leading and trailing white space.
#[verifier::external_body]
pub(crate) fn trim<'a>(s: &'a str) -> (r: &'a str)
    ensures
        r@ == trim_whitespace(s@),
{
    s.trim()
}

/// Calls `str::parse::<u8>`, mapping the error to `None`.
#[verifier::external_body]
fn parse_u8(s: &str) -> (r: Option<u8>)
    ensures
        r == parsed_u8(s@),
{
    s.parse::<u8>().ok()
}

/// Fewest memory cells a process may ask for.
pub const MIN_CELLS: u8 = 2;

/// Most memory cells a process may ask for.
pub const MAX_CELLS: u8 = 16;

/// `cells` brought into `MIN_CELLS..=MAX_CELLS`.
pub open spec fn clamp_cells_spec(cells: u8) -> u8 {
    if cells < MIN_CELLS {
        MIN_CELLS
    } else if cells > MAX_CELLS {
        MAX_CELLS
    } else {
        cells
    }
}

/// Brings a number of cells into `MIN_CELLS..=MAX_CELLS`.
pub fn clamp_cells(cells: u8) -> (r: u8)
    ensures
        r == clamp_cells_spec(cells),
        MIN_CELLS <= r <= MAX_CELLS,
{
    if cells < MIN_CELLS {
        MIN_CELLS
    } else if cells > MAX_CELLS {
        MAX_CELLS
    } else {
        cells
    }
}

/// The number of cells taken from what the cells field parsed to: the
/// number brought into range, or `MIN_CELLS` when the text is no number.
pub open spec fn cells_from_parsed_spec(parsed: Option<u8>) -> u8 {
    match parsed {
        Some(v) => clamp_cells_spec(v),
        None => MIN_CELLS,
    }
}

/// The number of cells taken from what the cells field parsed to.
pub fn celulas_from_parsed(parsed: Option<u8>) -> (r: u8)
    ensures
        r == cells_from_parsed_spec(parsed),
{
    let v = match parsed {
        Some(v) => v,
        None => MIN_CELLS,
    };
    clamp_cells(v)
}

/// The number of cells taken from the text typed in the cells field.
pub fn celulas_from_input(text: &str) -> (r: u8)
    ensures
        r == cells_from_parsed_spec(parsed_u8(text@)),
        MIN_CELLS <= r <= MAX_CELLS,
{
    celulas_from_parsed(parse_u8(text))
}

} // verus!
