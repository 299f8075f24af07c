//! Utilisation bars: a row of cells between brackets, coloured by load.

use vstd::prelude::*;
use vstd::string::*;
use crate::rounding::{round_half_even, rounded_div};
use crate::text::{append_repeated, occurs_at, occurs_in, repeated};

verus! {

/// How heavily a resource is used.
#[derive(Clone, Copy, Debug, PartialEq, Eq, Structural)]
pub enum Tier {
    /// At most one half.
    Nominal,
    /// More than one half, at most four fifths.
    Warning,
    /// More than four fifths.
    Alert,
}

/// The tier of the ratio `value / max`. The ratio is compared exactly, by
/// cross-multiplication.
pub open spec fn tier_of(value: nat, max: nat) -> Tier {
    if 5 * value > 4 * max {
        Tier::Alert
    } else if 2 * value > max {
        Tier::Warning
    } else {
        Tier::Nominal
    }
}

/// The control sequence that switches to the tier's colour: green, yellow or
/// red.
pub open spec fn tier_color(tier: Tier) -> Seq<char> {
    match tier {
        Tier::Nominal => "\x1b[32m"@,
        Tier::Warning => "\x1b[33m"@,
        Tier::Alert => "\x1b[31m"@,
    }
}

/// The control sequence that ends every bar and switches the colour off.
pub open spec fn bar_end() -> Seq<char> {
    "]\x1b[0m"@
}

/// Cells of a bar of `width` cells that are filled for `value / max`: the
/// whole part of that share of the width, and never more than the width.
pub open spec fn filled_cells(value: nat, max: nat, width: nat) -> nat {
    let cells = (value * width) / max;
    if cells > width {
        width
    } else {
        cells
    }
}

/// The cells of a bar, filled ones first.
pub open spec fn bar_cells(value: nat, max: nat, width: nat) -> Seq<char> {
    let filled = filled_cells(value, max, width);
    repeated('#', filled) + repeated('.', (width - filled) as nat)
}

/// A bar: the tier's colour, `[`, the cells, `]`, and the colour switched off.
pub open spec fn bar_text(value: nat, max: nat, width: nat) -> Seq<char> {
    tier_color(tier_of(value, max)) + "["@ + bar_cells(value, max, width) + bar_end()
}

/// The ratio `value / max` in tenths of a percent, rounded to the nearest
/// tenth (ties to even).
pub open spec fn percent_tenths(value: nat, max: nat) -> nat {
    round_half_even(1000 * value, max)
}

/// The ratio `value / max` in tenths of a percent.
pub fn percent(value: u128, max: u128) -> (tenths: u128)
    requires
        max > 0,
        1000 * value <= u128::MAX,
    ensures
        tenths == percent_tenths(value as nat, max as nat),
{
    rounded_div(1000 * value, max)
}

impl Tier {
    /// The tier of the ratio `value / max`.
    pub fn of(value: u128, max: u128) -> (tier: Tier)
        requires
            5 * value <= u128::MAX,
            4 * max <= u128::MAX,
        ensures
            tier == tier_of(value as nat, max as nat),
    {
        if 5 * value > 4 * max {
            Tier::Alert
        } else if 2 * value > max {
            Tier::Warning
        } else {
            Tier::Nominal
        }
    }

    /// The control sequence that switches to this tier's colour.
    pub fn color(self) -> (s: &'static str)
        ensures
            s@ == tier_color(self),
    {
        match self {
            Tier::Nominal => "\x1b[32m",
            Tier::Warning => "\x1b[33m",
            Tier::Alert => "\x1b[31m",
        }
    }
}

/// Number of filled cells in a bar of `width` cells for `value / max`.
pub fn count_filled(value: u128, max: u128, width: usize) -> (filled: usize)
    requires
        max > 0,
        value * width <= u128::MAX,
    ensures
        filled == filled_cells(value as nat, max as nat, width as nat),
        filled <= width,
{
    let cells: u128 = value * (width as u128) / max;
    if cells > width as u128 {
        width
    } else {
        cells as usize
    }
}

/// Appends a bar of `width` cells for `value / max`. The bounds keep the
/// products that the bar is computed from within `u128`.
pub fn append_bar(out: &mut String, value: u128, max: u128, width: usize)
    requires
        max > 0,
        5 * value <= u128::MAX,
        4 * max <= u128::MAX,
        value * width <= u128::MAX,
    ensures
        final(out)@ == old(out)@ + bar_text(value as nat, max as nat, width as nat),
{
    let filled = count_filled(value, max, width);
    proof {
        reveal_strlit("#");
        reveal_strlit(".");
    }
    out.append(Tier::of(value, max).color());
    out.append("[");
    append_repeated(out, "#", filled);
    append_repeated(out, ".", width - filled);
    out.append("]\x1b[0m");
}

/// A bar of `width` cells for `value / max`, in the colour of its tier.
pub fn bar(value: u64, max: u64, width: usize) -> (s: String)
    requires
        max > 0,
    ensures
        s@ == bar_text(value as nat, max as nat, width as nat),
{
    let mut s = String::new();
    assert(value * width <= u64::MAX * usize::MAX) by (nonlinear_arith)
        requires
            value <= u64::MAX,
            width <= usize::MAX,
    ;
    append_bar(&mut s, value as u128, max as u128, width);
    s
}

/// A bar always holds exactly `width` cells, the filled ones first. Where the
/// value does not exceed the maximum, the filled cells are the whole part of
/// `value * width / max`.
pub proof fn lemma_bar_cells(value: nat, max: nat, width: nat)
    requires
        max > 0,
    ensures
        bar_cells(value, max, width).len() == width,
        filled_cells(value, max, width) <= width,
        forall|i: int|
            0 <= i < width ==> #[trigger] bar_cells(value, max, width)[i] == (if i < filled_cells(
                value,
                max,
                width,
            ) {
                '#'
            } else {
                '.'
            }),
        value <= max ==> filled_cells(value, max, width) == (value * width) / max,
{
    if value <= max {
        assert((value * width) / max <= width) by (nonlinear_arith)
            requires
                0 <= value <= max,
                max > 0,
                width >= 0,
        ;
    }
}

/// A bar shows the colour of exactly one tier: red if and only if the ratio
/// is above four fifths, yellow if and only if it is above one half and not
/// above four fifths, green if and only if it is at most one half.
pub proof fn lemma_bar_color(value: nat, max: nat, width: nat)
    requires
        max > 0,
    ensures
        occurs_in(bar_text(value, max, width), tier_color(Tier::Alert)) <==> 5 * value > 4 * max,
        occurs_in(bar_text(value, max, width), tier_color(Tier::Warning)) <==> 2 * value > max && 5
            * value <= 4 * max,
        occurs_in(bar_text(value, max, width), tier_color(Tier::Nominal)) <==> 2 * value <= max,
{
    lemma_color_occurs(value, max, width, Tier::Alert);
    lemma_color_occurs(value, max, width, Tier::Warning);
    lemma_color_occurs(value, max, width, Tier::Nominal);
}

/// The colour of a tier stands in a bar if and only if it is the bar's tier.
proof fn lemma_color_occurs(value: nat, max: nat, width: nat, tier: Tier)
    requires
        max > 0,
    ensures
        occurs_in(bar_text(value, max, width), tier_color(tier)) <==> tier == tier_of(value, max),
{
    reveal_strlit("\x1b[32m");
    reveal_strlit("\x1b[33m");
    reveal_strlit("\x1b[31m");
    reveal_strlit("[");
    reveal_strlit("]\x1b[0m");
    let text = bar_text(value, max, width);
    let own = tier_color(tier_of(value, max));
    let code = tier_color(tier);
    lemma_bar_cells(value, max, width);
    assert(text.subrange(0, 5) =~= own);
    if tier == tier_of(value, max) {
        assert(occurs_at(text, code, 0));
    } else {
        assert forall|at: int| !occurs_at(text, code, at) by {
            if occurs_at(text, code, at) {
                // The code starts with an escape character; the bar holds one
                // at its start and one in its last four characters only.
                let part = text.subrange(at, at + 5);
                assert(part[0] == code[0]);
                if at == 0 {
                    assert(text[3] == own[3]);
                }
            }
        }
    }
}

} // verus!
