//! Where a bar and its percentage label go in a row of a given width.

use crate::ratio::{
    ceil_ratio, ceiling, lemma_ceil_ratio_scaled, lemma_ceil_ratio_unique,
    lemma_round_half_even_keeps_side, round_half_even, rounded,
};
use crate::text::{
    byte_len, byte_length, decimal, lemma_aligned_when_wide, lemma_decimal_len, push_decimal,
    push_right_aligned, push_two_places, right_aligned, two_places,
};
use crate::usage::{PartitionUsage, Tier};
use vstd::prelude::*;

verus! {

/// The place of one bar: its width in cells, the label set into it, the cell
/// at which the label starts, and how many cells stand for used space.
pub struct BarPlacement {
    pub width: usize,
    pub label: String,
    pub midpoint: usize,
    pub used_cells: usize,
}

/// The cells left for the bar in a row of `terminal_width` columns beside
/// fragments of `left` and `right` bytes: what remains, or nothing, brought
/// down to an even number.
pub open spec fn usable_width(terminal_width: nat, left: nat, right: nat) -> nat {
    let room: nat = if terminal_width >= left + right {
        (terminal_width - left - right) as nat
    } else {
        0
    };
    (room - room % 2) as nat
}

/// The percentage of a usage in hundredths of a percent, rounded to the
/// nearest.
pub open spec fn percent_hundredths(usage: PartitionUsage) -> nat {
    round_half_even(usage.used as nat * 10000, usage.total as nat)
}

/// The percentage of a usage, rounded to the nearest whole number.
pub open spec fn percent_whole(usage: PartitionUsage) -> nat {
    round_half_even(usage.used as nat * 100, usage.total as nat)
}

/// The number in a percentage label. Below 10 percent it has two decimal
/// places and at least four characters; from there to below 100 percent, two
/// decimal places and at least five characters; from 100 percent on, no
/// decimal places and at least three characters. A shorter number is aligned
/// to the right.
pub open spec fn percent_number(usage: PartitionUsage) -> Seq<char> {
    match usage.tier_of() {
        Tier::Units => right_aligned(two_places(percent_hundredths(usage)), 4),
        Tier::Tens => right_aligned(two_places(percent_hundredths(usage)), 5),
        Tier::Hundreds => right_aligned(decimal(percent_whole(usage)), 3),
    }
}

/// The percentage of a usage as it is written into the bar: the number and
/// the percent sign, between two spaces.
pub open spec fn percent_label(usage: PartitionUsage) -> Seq<char> {
    " "@ + percent_number(usage) + "% "@
}

/// The cell at which a label of `label_len` characters starts in a bar of
/// `width` cells, so that it sits in the middle: half the width less half the
/// label rounded up, or the first cell where the bar is too narrow.
pub open spec fn label_anchor(width: nat, label_len: nat) -> nat {
    let half_label: nat = (label_len + 1) / 2;
    if width / 2 >= half_label {
        (width / 2 - half_label) as nat
    } else {
        0
    }
}

/// The cells of a bar of `width` cells that stand for used space: the used
/// share of the width, `used / total * width`, rounded up, and never more
/// than the width. The share is the percentage, taken as a fraction of a
/// hundred, times the width.
pub open spec fn used_cells(usage: PartitionUsage, width: nat) -> nat {
    let share: nat = ceil_ratio(usage.used as nat * width, usage.total as nat);
    if share <= width {
        share
    } else {
        width
    }
}

/// A bar placement as plain values.
pub struct PlacementView {
    pub width: nat,
    pub label: Seq<char>,
    pub midpoint: nat,
    pub used_cells: nat,
}

impl View for BarPlacement {
    type V = PlacementView;

    open spec fn view(&self) -> PlacementView {
        PlacementView {
            width: self.width as nat,
            label: self.label@,
            midpoint: self.midpoint as nat,
            used_cells: self.used_cells as nat,
        }
    }
}

impl PlacementView {
    /// A placement as `layout` makes it: the width is even, the used cells
    /// lie within it, and the label is anchored in the middle.
    pub open spec fn wf(&self) -> bool {
        &&& self.width % 2 == 0
        &&& self.used_cells <= self.width
        &&& self.midpoint == label_anchor(self.width, self.label.len())
    }
}

/// The placement that `layout` makes for a row.
pub open spec fn placement_for(
    terminal_width: nat,
    left_fragment: Seq<char>,
    right_fragment: Seq<char>,
    usage: PartitionUsage,
) -> PlacementView {
    let width: nat = usable_width(
        terminal_width,
        byte_len(left_fragment),
        byte_len(right_fragment),
    );
    PlacementView {
        width,
        label: percent_label(usage),
        midpoint: label_anchor(width, percent_label(usage).len()),
        used_cells: used_cells(usage, width),
    }
}

/// For a usage from 0 to 100 percent, the used cells are exactly the used
/// share of the width, rounded up, and lie within the bar.
pub proof fn lemma_used_cells_is_ceiling(usage: PartitionUsage, width: nat)
    requires
        usage.wf(),
        usage.used <= usage.total,
    ensures
        used_cells(usage, width) == ceil_ratio(usage.used as nat * width, usage.total as nat),
        0 <= used_cells(usage, width) <= width,
{
    lemma_ceil_ratio_scaled(usage.used as nat, usage.total as nat, width);
}

/// Below 10 percent the number of a label is its hundredths with two decimal
/// places, never aligned, and the label takes seven characters, or eight
/// where the percentage rounds up to 10.00.
pub proof fn lemma_units_label_len(usage: PartitionUsage)
    requires
        usage.wf(),
        usage.tier_of() == Tier::Units,
    ensures
        percent_number(usage) == two_places(percent_hundredths(usage)),
        percent_hundredths(usage) <= 1000,
        percent_hundredths(usage) < 1000 ==> percent_label(usage).len() == 7,
        percent_hundredths(usage) == 1000 ==> percent_label(usage).len() == 8,
{
    reveal_strlit(" ");
    reveal_strlit("% ");
    let hundredths: nat = percent_hundredths(usage);
    lemma_round_half_even_keeps_side(usage.used as nat * 10000, usage.total as nat, 1000);
    lemma_decimal_len(hundredths / 100);
    lemma_aligned_when_wide(two_places(hundredths), 4);
}

/// From 10 percent to below 100 percent the number of a label is its
/// hundredths with two decimal places, never aligned, and the label takes
/// eight characters, or nine where the percentage rounds up to 100.00.
pub proof fn lemma_tens_label_len(usage: PartitionUsage)
    requires
        usage.wf(),
        usage.tier_of() == Tier::Tens,
    ensures
        percent_number(usage) == two_places(percent_hundredths(usage)),
        1000 <= percent_hundredths(usage) <= 10000,
        percent_hundredths(usage) < 10000 ==> percent_label(usage).len() == 8,
        percent_hundredths(usage) == 10000 ==> percent_label(usage).len() == 9,
{
    reveal_strlit(" ");
    reveal_strlit("% ");
    let hundredths: nat = percent_hundredths(usage);
    lemma_round_half_even_keeps_side(usage.used as nat * 10000, usage.total as nat, 1000);
    lemma_round_half_even_keeps_side(usage.used as nat * 10000, usage.total as nat, 10000);
    lemma_decimal_len(hundredths / 100);
    lemma_aligned_when_wide(two_places(hundredths), 5);
}

/// From 100 percent on the number of a label is the whole percentage, never
/// aligned, and the label takes six characters, and more from 1000 percent
/// on.
pub proof fn lemma_hundreds_label_len(usage: PartitionUsage)
    requires
        usage.wf(),
        usage.tier_of() == Tier::Hundreds,
    ensures
        percent_number(usage) == decimal(percent_whole(usage)),
        100 <= percent_whole(usage),
        percent_whole(usage) < 1000 ==> percent_label(usage).len() == 6,
        percent_whole(usage) >= 1000 ==> percent_label(usage).len() >= 7,
{
    reveal_strlit(" ");
    reveal_strlit("% ");
    let whole: nat = percent_whole(usage);
    lemma_round_half_even_keeps_side(usage.used as nat * 100, usage.total as nat, 100);
    lemma_decimal_len(whole);
    lemma_aligned_when_wide(decimal(whole), 3);
}

/// The placement of a row is well formed.
pub proof fn lemma_placement_is_well_formed(
    terminal_width: nat,
    left_fragment: Seq<char>,
    right_fragment: Seq<char>,
    usage: PartitionUsage,
)
    ensures
        placement_for(terminal_width, left_fragment, right_fragment, usage).wf(),
{
}

/// A partition of which nothing is used has no used cell, and one that is
/// used up has every cell used.
pub proof fn lemma_used_cells_at_the_ends(usage: PartitionUsage, width: nat)
    requires
        usage.wf(),
    ensures
        usage.used == 0 ==> used_cells(usage, width) == 0,
        usage.used == usage.total ==> used_cells(usage, width) == width,
{
    let total: nat = usage.total as nat;
    if usage.used == 0 {
        assert(0nat * width == 0) by (nonlinear_arith);
        lemma_ceil_ratio_unique(0, total, 0);
    }
    if usage.used == usage.total {
        assert(total * width == width * total) by (nonlinear_arith);
        lemma_ceil_ratio_unique(total * width, total, width);
    }
}

/// Writes the percentage label of a usage.
pub fn label_for(usage: &PartitionUsage) -> (label: String)
    requires
        usage.wf(),
    ensures
        label@ == percent_label(*usage),
{
    let used: u128 = usage.used as u128;
    let total: u128 = usage.total as u128;
    let mut number: String = String::new();
    let mut label: String = String::new();
    label.append(" ");
    match usage.tier() {
        Tier::Units => {
            push_two_places(&mut number, rounded(used * 10000, total));
            push_right_aligned(&mut label, number.as_str(), 4);
        },
        Tier::Tens => {
            push_two_places(&mut number, rounded(used * 10000, total));
            push_right_aligned(&mut label, number.as_str(), 5);
        },
        Tier::Hundreds => {
            push_decimal(&mut number, rounded(used * 100, total));
            push_right_aligned(&mut label, number.as_str(), 3);
        },
    }
    label.append("% ");
    assert(label@ =~= percent_label(*usage));
    label
}

/// Counts the cells of a bar of `width` cells that stand for used space.
pub fn count_used_cells(usage: &PartitionUsage, width: usize) -> (cells: usize)
    requires
        usage.wf(),
    ensures
        cells == used_cells(*usage, width as nat),
{
    let used: u128 = usage.used as u128;
    let wide: u128 = width as u128;
    assert(used * wide <= 0xffff_ffff_ffff_ffff * 0xffff_ffff_ffff_ffff) by (nonlinear_arith)
        requires
            used <= 0xffff_ffff_ffff_ffff,
            wide <= 0xffff_ffff_ffff_ffff,
    ;
    let share: u128 = ceiling(used * wide, usage.total as u128);
    if share <= wide {
        share as usize
    } else {
        width
    }
}

/// Lays out the bar of one row: the bar takes what the two fragments leave of
/// the terminal width, and the label and the used cells follow from the usage.
pub fn layout(
    terminal_width: usize,
    left_fragment: &str,
    right_fragment: &str,
    usage: &PartitionUsage,
) -> (placement: BarPlacement)
    requires
        usage.wf(),
    ensures
        placement@ == placement_for(
            terminal_width as nat,
            left_fragment@,
            right_fragment@,
            *usage,
        ),
        placement@.wf(),
{
    let room: usize = terminal_width.saturating_sub(byte_length(left_fragment)).saturating_sub(
        byte_length(right_fragment),
    );
    let width: usize = room - room % 2;
    let label: String = label_for(usage);
    let label_len: usize = label.as_str().unicode_len();
    let half_label: usize = label_len / 2 + label_len % 2;
    let midpoint: usize = (width / 2).saturating_sub(half_label);
    let used_cells: usize = count_used_cells(usage, width);
    BarPlacement { width, label, midpoint, used_cells }
}

} // verus!
