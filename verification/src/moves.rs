//! Reading the human's move from a line of text.
//!
//! A line is trimmed and cut at its commas. A first part that is the one
//! letter `e` gives the game up. Otherwise the first two parts must be
//! numerals, a row and a column, each from 0 to 2; what follows a second
//! comma is not looked at.

use vstd::prelude::*;
use vstd::string::StrSliceExecFns;

verus! {

/// What the human asks for.
#[derive(Clone, Copy, Debug, PartialEq, Eq, Structural)]
pub enum MoveInput {
    /// To give the game up.
    Quit,
    /// To mark the cell in this row and column, each from 0 to 2.
    Cell { row: usize, col: usize },
}

/// Why a line is no move. Neither can be played on: the game cannot go on
/// from such a line.
#[derive(Clone, Copy, Debug, PartialEq, Eq, Structural)]
pub enum MoveError {
    /// A row or a column is missing or is no numeral.
    Malformed,
    /// A row or a column is a numeral above 2.
    OutOfRange,
}

/// The place of the first comma of `s` at or after `from`, or the length of
/// `s` where none follows.
pub open spec fn comma_from(s: Seq<char>, from: int) -> int
    decreases s.len() - from,
{
    if from < 0 || from >= s.len() {
        s.len() as int
    } else if s[from] == ',' {
        from
    } else {
        comma_from(s, from + 1)
    }
}

/// The part of `s` before its first comma: all of `s` where it has none.
pub open spec fn first_part(s: Seq<char>) -> Seq<char> {
    s.subrange(0, comma_from(s, 0))
}

/// Whether `s` has a comma, and so a second part.
pub open spec fn has_second_part(s: Seq<char>) -> bool {
    comma_from(s, 0) < s.len()
}

/// The part of `s` between its first comma and its second, or its end.
pub open spec fn second_part(s: Seq<char>) -> Seq<char> {
    s.subrange(comma_from(s, 0) + 1, comma_from(s, comma_from(s, 0) + 1))
}

/// Whether `c` is one of the ten digits.
pub open spec fn is_digit(c: char) -> bool {
    '0' <= c <= '9'
}

/// The digits of a numeral: the text without one plus sign in front.
pub open spec fn digits_of(t: Seq<char>) -> Seq<char> {
    if t.len() > 0 && t[0] == '+' {
        t.skip(1)
    } else {
        t
    }
}

/// Whether `t` is a numeral: at least one digit and nothing but digits,
/// after one plus sign if there is one.
pub open spec fn is_numeral(t: Seq<char>) -> bool {
    &&& digits_of(t).len() > 0
    &&& forall|k: int| 0 <= k < digits_of(t).len() ==> is_digit(#[trigger] digits_of(t)[k])
}

/// The number that a run of digits writes in base ten.
pub open spec fn digits_value(d: Seq<char>) -> int
    decreases d.len(),
{
    if d.len() == 0 {
        0
    } else {
        10 * digits_value(d.drop_last()) + (d.last() as int - '0' as int)
    }
}

/// The number that the numeral `t` writes.
pub open spec fn numeral_value(t: Seq<char>) -> int {
    digits_value(digits_of(t))
}

/// What a trimmed line asks for.
pub open spec fn reading(s: Seq<char>) -> Result<MoveInput, MoveError> {
    if first_part(s) == seq!['e'] {
        Ok(MoveInput::Quit)
    } else if !is_numeral(first_part(s)) || !has_second_part(s) || !is_numeral(second_part(s)) {
        Err(MoveError::Malformed)
    } else if numeral_value(first_part(s)) > 2 || numeral_value(second_part(s)) > 2 {
        Err(MoveError::OutOfRange)
    } else {
        Ok(
            MoveInput::Cell {
                row: numeral_value(first_part(s)) as usize,
                col: numeral_value(second_part(s)) as usize,
            },
        )
    }
}

/// The line without the white space at its two ends, as `str::trim` of the
/// standard library gives it.
pub uninterp spec fn trimmed(line: Seq<char>) -> Seq<char>;

/// Takes the white space off both ends of a line.
///
/// Calls `str::trim` of the standard library. Not proved: that the text
/// which comes back is the one named `trimmed`, that is, that `str::trim`
/// gives the same text for the same line whenever it is called. What counts
/// as white space is the standard library's matter and is not stated here.
#[verifier::external_body]
fn trim_line(line: &str) -> (t: &str)
    ensures
        t@ == trimmed(line@),
{
    line.trim()
}

/// The value of a run of digits never falls below zero.
proof fn lemma_digits_value_nonnegative(d: Seq<char>)
    requires
        forall|k: int| 0 <= k < d.len() ==> is_digit(#[trigger] d[k]),
    ensures
        digits_value(d) >= 0,
    decreases d.len(),
{
    if d.len() > 0 {
        lemma_digits_value_nonnegative(d.drop_last());
    }
}

/// A line that asks for a cell names a row and a column of the board.
pub proof fn lemma_reading_in_range(s: Seq<char>)
    ensures
        reading(s) matches Ok(MoveInput::Cell { row, col }) ==> {
            &&& row < 3
            &&& col < 3
            &&& row == numeral_value(first_part(s))
            &&& col == numeral_value(second_part(s))
        },
{
    if reading(s) is Ok && reading(s) != Ok::<MoveInput, MoveError>(MoveInput::Quit) {
        lemma_digits_value_nonnegative(digits_of(first_part(s)));
        lemma_digits_value_nonnegative(digits_of(second_part(s)));
    }
}

/// Finds the first comma of `text` at or after `from`.
fn find_comma(text: &str, from: usize, len: usize) -> (at: usize)
    requires
        len == text@.len(),
        from <= len,
    ensures
        at == comma_from(text@, from as int),
        from <= at <= len,
{
    let mut at: usize = from;
    while at < len && text.get_char(at) != ','
        invariant
            len == text@.len(),
            from <= at <= len,
            comma_from(text@, from as int) == comma_from(text@, at as int),
        decreases len - at,
    {
        at = at + 1;
    }
    at
}

/// Reads the numeral that stands in `text` from `from` up to `to`.
///
/// Gives `None` where that part is no numeral, and else its value, or 3
/// where the value is above 2.
fn read_numeral(text: &str, from: usize, to: usize) -> (value: Option<usize>)
    requires
        from <= to <= text@.len(),
    ensures
        value is Some <==> is_numeral(text@.subrange(from as int, to as int)),
        value matches Some(v) ==> v == if numeral_value(text@.subrange(from as int, to as int))
            > 2 {
            3
        } else {
            numeral_value(text@.subrange(from as int, to as int))
        },
{
    let ghost t = text@.subrange(from as int, to as int);
    let start: usize = if from < to && text.get_char(from) == '+' {
        from + 1
    } else {
        from
    };
    let ghost d = digits_of(t);
    assert(d =~= text@.subrange(start as int, to as int));
    if start == to {
        return None;
    }
    let mut at: usize = start;
    let mut value: usize = 0;
    while at < to
        invariant
            from <= start <= at <= to <= text@.len(),
            d == text@.subrange(start as int, to as int),
            d == digits_of(text@.subrange(from as int, to as int)),
            forall|k: int| 0 <= k < at - start ==> is_digit(#[trigger] d[k]),
            digits_value(d.take(at - start)) >= 0,
            value == if digits_value(d.take(at - start)) > 2 {
                3
            } else {
                digits_value(d.take(at - start))
            },
        decreases to - at,
    {
        let c = text.get_char(at);
        if c < '0' || c > '9' {
            assert(!is_digit(d[at - start]));
            return None;
        }
        let digit: usize = (c as u32 - '0' as u32) as usize;
        proof {
            let before = d.take(at - start);
            let now = d.take(at - start + 1);
            assert(now.drop_last() =~= before);
            assert(now.last() == c);
        }
        value = if value * 10 + digit > 2 {
            3
        } else {
            value * 10 + digit
        };
        at = at + 1;
    }
    assert(d.take(to - start) =~= d);
    Some(value)
}

/// Reads what a trimmed line asks for.
pub fn parse_move(text: &str) -> (r: Result<MoveInput, MoveError>)
    ensures
        r == reading(text@),
{
    let len = text.unicode_len();
    let first_end = find_comma(text, 0, len);
    if first_end == 1 && text.get_char(0) == 'e' {
        assert(first_part(text@) =~= seq!['e']);
        return Ok(MoveInput::Quit);
    }
    assert(first_part(text@) != seq!['e']) by {
        if first_part(text@) == seq!['e'] {
            assert(first_part(text@).len() == 1);
            assert(first_part(text@)[0] == 'e');
        }
    }
    let row = read_numeral(text, 0, first_end);
    if row.is_none() || first_end >= len {
        return Err(MoveError::Malformed);
    }
    let second_end = find_comma(text, first_end + 1, len);
    let col = read_numeral(text, first_end + 1, second_end);
    match (row, col) {
        (Some(row), Some(col)) => {
            if row > 2 || col > 2 {
                Err(MoveError::OutOfRange)
            } else {
                Ok(MoveInput::Cell { row, col })
            }
        },
        _ => Err(MoveError::Malformed),
    }
}

/// Reads what a line asks for, as it came from the keyboard: white space
/// at its ends, the end of the line with it, does not count.
pub fn read_move(line: &str) -> (r: Result<MoveInput, MoveError>)
    ensures
        r == reading(trimmed(line@)),
{
    parse_move(trim_line(line))
}

} // verus!
