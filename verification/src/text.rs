//! Building blocks for text: decimal notation, repetition and alignment.

use vstd::prelude::*;
use vstd::string::*;

verus! {

/// The character that stands for the decimal digit `d`.
pub open spec fn digit_char(d: int) -> char {
    if d == 0 {
        '0'
    } else if d == 1 {
        '1'
    } else if d == 2 {
        '2'
    } else if d == 3 {
        '3'
    } else if d == 4 {
        '4'
    } else if d == 5 {
        '5'
    } else if d == 6 {
        '6'
    } else if d == 7 {
        '7'
    } else if d == 8 {
        '8'
    } else {
        '9'
    }
}

/// Decimal notation of `n`: no sign, no leading zero, `"0"` for zero.
pub open spec fn decimal(n: nat) -> Seq<char>
    decreases n,
{
    if n < 10 {
        seq![digit_char(n as int)]
    } else {
        decimal(n / 10).push(digit_char((n % 10) as int))
    }
}

/// A count of tenths, written with one place after the point.
pub open spec fn one_place(tenths: nat) -> Seq<char> {
    decimal(tenths / 10) + seq!['.', digit_char((tenths % 10) as int)]
}

/// A count of hundredths, written with two places after the point.
pub open spec fn two_places(hundredths: nat) -> Seq<char> {
    decimal(hundredths / 100) + seq![
        '.',
        digit_char((hundredths / 10 % 10) as int),
        digit_char((hundredths % 10) as int),
    ]
}

/// `n` copies of `c`.
pub open spec fn repeated(c: char, n: nat) -> Seq<char> {
    Seq::new(n, |i: int| c)
}

/// `text` moved to the right edge of a column of `width` characters. Text that
/// is wider than the column is kept whole.
pub open spec fn align_right(text: Seq<char>, width: nat) -> Seq<char> {
    if text.len() < width {
        repeated(' ', (width - text.len()) as nat) + text
    } else {
        text
    }
}

/// `text` at the left edge of a column of `width` characters. Text that is
/// wider than the column is kept whole.
pub open spec fn align_left(text: Seq<char>, width: nat) -> Seq<char> {
    if text.len() < width {
        text + repeated(' ', (width - text.len()) as nat)
    } else {
        text
    }
}

/// `text` in a column of exactly `width` characters: filled up with spaces on
/// the right, or cut after `width` characters.
pub open spec fn fit_left(text: Seq<char>, width: nat) -> Seq<char> {
    if text.len() <= width {
        align_left(text, width)
    } else {
        text.take(width as int)
    }
}

/// Whether `needle` stands in `hay` from position `at` on.
pub open spec fn occurs_at(hay: Seq<char>, needle: Seq<char>, at: int) -> bool {
    &&& 0 <= at
    &&& at + needle.len() <= hay.len()
    &&& hay.subrange(at, at + needle.len()) == needle
}

/// Whether `needle` stands somewhere in `hay`.
pub open spec fn occurs_in(hay: Seq<char>, needle: Seq<char>) -> bool {
    exists|at: int| occurs_at(hay, needle, at)
}

/// The texts of a list of lines.
pub open spec fn texts(lines: Seq<String>) -> Seq<Seq<char>> {
    lines.map_values(|line: String| line@)
}

/// The lines one after the other, each followed by a line feed.
pub open spec fn joined(lines: Seq<Seq<char>>) -> Seq<char>
    decreases lines.len(),
{
    if lines.len() == 0 {
        Seq::empty()
    } else {
        joined(lines.drop_last()) + lines.last() + seq!['\n']
    }
}

fn digit_str(d: u8) -> (s: &'static str)
    requires
        d < 10,
    ensures
        s@ == seq![digit_char(d as int)],
{
    proof {
        reveal_strlit("0");
        reveal_strlit("1");
        reveal_strlit("2");
        reveal_strlit("3");
        reveal_strlit("4");
        reveal_strlit("5");
        reveal_strlit("6");
        reveal_strlit("7");
        reveal_strlit("8");
        reveal_strlit("9");
    }
    let s = if d == 0 {
        "0"
    } else if d == 1 {
        "1"
    } else if d == 2 {
        "2"
    } else if d == 3 {
        "3"
    } else if d == 4 {
        "4"
    } else if d == 5 {
        "5"
    } else if d == 6 {
        "6"
    } else if d == 7 {
        "7"
    } else if d == 8 {
        "8"
    } else {
        "9"
    };
    s
}

/// Appends one decimal digit.
pub fn append_digit(out: &mut String, d: u8)
    requires
        d < 10,
    ensures
        final(out)@ == old(out)@.push(digit_char(d as int)),
{
    out.append(digit_str(d));
}

/// Appends the decimal notation of `n`.
pub fn append_decimal(out: &mut String, n: u128)
    ensures
        final(out)@ == old(out)@ + decimal(n as nat),
    decreases n,
{
    if n >= 10 {
        append_decimal(out, n / 10);
    }
    append_digit(out, (n % 10) as u8);
}

/// The decimal notation of `n` as a string of its own.
pub fn decimal_string(n: u128) -> (s: String)
    ensures
        s@ == decimal(n as nat),
{
    let mut s = String::new();
    append_decimal(&mut s, n);
    s
}

/// Appends a count of tenths with one place after the point.
pub fn append_one_place(out: &mut String, tenths: u128)
    ensures
        final(out)@ == old(out)@ + one_place(tenths as nat),
{
    proof {
        reveal_strlit(".");
    }
    append_decimal(out, tenths / 10);
    out.append(".");
    append_digit(out, (tenths % 10) as u8);
}

/// Appends a count of hundredths with two places after the point.
pub fn append_two_places(out: &mut String, hundredths: u128)
    ensures
        final(out)@ == old(out)@ + two_places(hundredths as nat),
{
    proof {
        reveal_strlit(".");
    }
    append_decimal(out, hundredths / 100);
    out.append(".");
    append_digit(out, (hundredths / 10 % 10) as u8);
    append_digit(out, (hundredths % 10) as u8);
}

/// Appends `n` copies of the one character that `unit` holds.
pub fn append_repeated(out: &mut String, unit: &str, n: usize)
    requires
        unit@.len() == 1,
    ensures
        final(out)@ == old(out)@ + repeated(unit@[0], n as nat),
{
    let mut i: usize = 0;
    while i < n
        invariant
            i <= n,
            unit@.len() == 1,
            out@ == old(out)@ + repeated(unit@[0], i as nat),
        decreases n - i,
    {
        out.append(unit);
        i += 1;
    }
}

/// Appends `text`, moved to the right edge of a column of `width` characters.
pub fn append_right(out: &mut String, text: &str, width: usize)
    ensures
        final(out)@ == old(out)@ + align_right(text@, width as nat),
{
    let len = text.unicode_len();
    if len < width {
        proof {
            reveal_strlit(" ");
        }
        append_repeated(out, " ", width - len);
    }
    out.append(text);
}

/// Appends `text`, followed by the spaces that fill a column of `width`
/// characters.
pub fn append_left(out: &mut String, text: &str, width: usize)
    ensures
        final(out)@ == old(out)@ + align_left(text@, width as nat),
{
    let len = text.unicode_len();
    out.append(text);
    if len < width {
        proof {
            reveal_strlit(" ");
        }
        append_repeated(out, " ", width - len);
    }
}

/// Appends `text` in a column of exactly `width` characters.
pub fn append_fitted(out: &mut String, text: &str, width: usize)
    ensures
        final(out)@ == old(out)@ + fit_left(text@, width as nat),
{
    let len = text.unicode_len();
    if len <= width {
        append_left(out, text, width);
    } else {
        out.append(text.substring_char(0, width));
    }
}

/// Adds one line to a list of lines.
pub fn push_line(lines: &mut Vec<String>, line: String)
    ensures
        texts(final(lines)@) == texts(old(lines)@).push(line@),
{
    lines.push(line);
}

/// Adds the lines of `more` to a list of lines.
pub fn extend_lines(lines: &mut Vec<String>, more: Vec<String>)
    ensures
        texts(final(lines)@) == texts(old(lines)@) + texts(more@),
{
    let mut more = more;
    let ghost added = more@;
    lines.append(&mut more);
}

/// The lines one after the other in one string, each followed by a line feed.
pub fn join_lines(lines: &Vec<String>) -> (s: String)
    ensures
        s@ == joined(texts(lines@)),
{
    let mut s = String::new();
    let mut i: usize = 0;
    while i < lines.len()
        invariant
            i <= lines.len(),
            s@ == joined(texts(lines@).take(i as int)),
        decreases lines.len() - i,
    {
        s.append(lines[i].as_str());
        s.append("\n");
        proof {
            reveal_strlit("\n");
            let done = texts(lines@).take(i as int + 1);
            assert(done.drop_last() =~= texts(lines@).take(i as int));
        }
        i += 1;
    }
    assert(texts(lines@).take(i as int) =~= texts(lines@));
    s
}

} // verus!
