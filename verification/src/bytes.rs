//! Byte counts in binary units.

use vstd::prelude::*;
use vstd::string::*;
use crate::rounding::{lemma_round_is_monotone, round_half_even, rounded_div};
use crate::text::{append_decimal, append_two_places, decimal, two_places};

verus! {

/// Bytes in one KB.
pub const KB: u64 = 1024;

/// Bytes in one MB.
pub const MB: u64 = 1_048_576;

/// Bytes in one GB.
pub const GB: u64 = 1_073_741_824;

/// The units in which a byte count is shown, smallest first.
#[derive(Clone, Copy, Debug, PartialEq, Eq, Structural)]
pub enum Unit {
    Byte,
    Kilo,
    Mega,
    Giga,
}

/// The largest unit of which `bytes` holds at least one.
pub open spec fn unit_of(bytes: nat) -> Unit {
    if bytes >= GB {
        Unit::Giga
    } else if bytes >= MB {
        Unit::Mega
    } else if bytes >= KB {
        Unit::Kilo
    } else {
        Unit::Byte
    }
}

/// Bytes in one `unit`.
pub open spec fn unit_size(unit: Unit) -> nat {
    match unit {
        Unit::Byte => 1,
        Unit::Kilo => KB as nat,
        Unit::Mega => MB as nat,
        Unit::Giga => GB as nat,
    }
}

/// Place of `unit` among the units, counted from the smallest.
pub open spec fn unit_rank(unit: Unit) -> nat {
    match unit {
        Unit::Byte => 0,
        Unit::Kilo => 1,
        Unit::Mega => 2,
        Unit::Giga => 3,
    }
}

/// What follows the number: a space and the unit's name.
pub open spec fn unit_suffix(unit: Unit) -> Seq<char> {
    match unit {
        Unit::Byte => " B"@,
        Unit::Kilo => " KB"@,
        Unit::Mega => " MB"@,
        Unit::Giga => " GB"@,
    }
}

/// The number shown for `bytes`: the count itself below one KB, else the
/// count in hundredths of its unit, rounded to the nearest hundredth (ties to
/// even).
pub open spec fn shown_amount(bytes: nat) -> nat {
    match unit_of(bytes) {
        Unit::Byte => bytes,
        unit => round_half_even(100 * bytes, unit_size(unit)),
    }
}

/// The text for `bytes`: a whole number of bytes below one KB, else the count
/// in its unit with two places after the point; then the unit.
pub open spec fn bytes_text(bytes: nat) -> Seq<char> {
    match unit_of(bytes) {
        Unit::Byte => decimal(shown_amount(bytes)) + unit_suffix(Unit::Byte),
        unit => two_places(shown_amount(bytes)) + unit_suffix(unit),
    }
}

impl Unit {
    /// The largest unit of which `bytes` holds at least one.
    pub fn of(bytes: u64) -> (unit: Unit)
        ensures
            unit == unit_of(bytes as nat),
    {
        if bytes >= GB {
            Unit::Giga
        } else if bytes >= MB {
            Unit::Mega
        } else if bytes >= KB {
            Unit::Kilo
        } else {
            Unit::Byte
        }
    }

    /// Bytes in one of this unit.
    pub fn size(self) -> (n: u64)
        ensures
            n == unit_size(self),
            n > 0,
    {
        match self {
            Unit::Byte => 1,
            Unit::Kilo => KB,
            Unit::Mega => MB,
            Unit::Giga => GB,
        }
    }

    /// A space and the unit's name.
    pub fn suffix(self) -> (s: &'static str)
        ensures
            s@ == unit_suffix(self),
    {
        match self {
            Unit::Byte => " B",
            Unit::Kilo => " KB",
            Unit::Mega => " MB",
            Unit::Giga => " GB",
        }
    }
}

/// Appends the text for `bytes`.
pub fn append_bytes(out: &mut String, bytes: u64)
    ensures
        final(out)@ == old(out)@ + bytes_text(bytes as nat),
{
    let unit = Unit::of(bytes);
    match unit {
        Unit::Byte => {
            append_decimal(out, bytes as u128);
        },
        _ => {
            let hundredths = rounded_div(100 * (bytes as u128), unit.size() as u128);
            append_two_places(out, hundredths);
        },
    }
    out.append(unit.suffix());
}

/// A byte count for a reader: `"0 B"`, `"1023 B"`, `"1.00 KB"`, `"1.50 MB"`,
/// `"2.00 GB"`. Every `u64` is accepted.
pub fn format_bytes(bytes: u64) -> (s: String)
    ensures
        s@ == bytes_text(bytes as nat),
{
    let mut s = String::new();
    append_bytes(&mut s, bytes);
    s
}

/// Below one KB the text is the count itself, followed by `" B"`.
pub proof fn lemma_bytes_below_kb(bytes: nat)
    requires
        bytes < KB,
    ensures
        bytes_text(bytes) == decimal(bytes) + " B"@,
{
}

/// From one KB up to, but not including, one MB the text is a count of
/// hundredths of a KB followed by `" KB"`. That count is at least `1.00`. It
/// stays below `1024.00` as long as `bytes` is more than five short of one MB;
/// the last five counts before one MB round up to `1024.00`.
pub proof fn lemma_bytes_in_kb(bytes: nat)
    requires
        KB <= bytes < MB,
    ensures
        bytes_text(bytes) == two_places(shown_amount(bytes)) + " KB"@,
        100 <= shown_amount(bytes) <= 102_400,
        bytes + 5 < MB <==> shown_amount(bytes) < 102_400,
{
    // The number shown goes up with the count: it is enough to look at the
    // first and the last count of each range.
    let n = 100 * bytes;
    lemma_round_is_monotone(102_400nat, n, 1024);
    lemma_round_is_monotone(n, 104_857_500nat, 1024);
    assert(round_half_even(102_400nat, 1024) == 100);
    assert(round_half_even(104_857_500nat, 1024) == 102_400);
    if bytes + 5 < MB {
        lemma_round_is_monotone(n, 104_857_000nat, 1024);
        assert(round_half_even(104_857_000nat, 1024) == 102_399);
    } else {
        lemma_round_is_monotone(104_857_100nat, n, 1024);
        assert(round_half_even(104_857_100nat, 1024) == 102_400);
    }
}

/// Whether the text for one count comes before, or is the same as, the text
/// for another: first by unit, then by the number shown.
pub open spec fn shown_le(a: nat, b: nat) -> bool {
    unit_rank(unit_of(a)) < unit_rank(unit_of(b)) || (unit_of(a) == unit_of(b) && shown_amount(a)
        <= shown_amount(b))
}

/// A larger count is never shown as less: its unit is the same or larger, and
/// within one unit the number shown does not go down.
pub proof fn lemma_bytes_monotone(a: nat, b: nat)
    requires
        a <= b,
    ensures
        shown_le(a, b),
{
    if unit_of(a) == unit_of(b) {
        let unit = unit_of(a);
        if unit != Unit::Byte {
            lemma_round_is_monotone(100 * a, 100 * b, unit_size(unit));
        }
    }
}

} // verus!
