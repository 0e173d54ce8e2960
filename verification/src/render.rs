//! The text of a bar: filled and empty cells around the percentage label.

use crate::layout::{
    lemma_hundreds_label_len, lemma_placement_is_well_formed, lemma_tens_label_len,
    lemma_units_label_len, lemma_used_cells_at_the_ends, percent_hundredths, percent_whole,
    placement_for, BarPlacement, PlacementView,
};
use crate::style::{ColorChoice, Palette};
use crate::text::{lemma_repeated_len, push_repeated, repeated};
use crate::usage::{PartitionUsage, Tier};
use vstd::prelude::*;

verus! {

/// The glyph of a cell that stands for used space.
pub open spec fn filled_glyph() -> Seq<char> {
    "█"@
}

/// The glyph of a cell that stands for free space.
pub open spec fn empty_glyph() -> Seq<char> {
    "░"@
}

/// The four runs of cells in a bar: filled and empty cells before the label,
/// filled and empty cells after it.
pub struct BarSegments {
    pub lead_filled: nat,
    pub lead_empty: nat,
    pub trail_filled: nat,
    pub trail_empty: nat,
}

/// The one empty cell that a small percentage adds before its label.
pub open spec fn extra_cell(small: bool) -> nat {
    if small {
        1
    } else {
        0
    }
}

/// Whether the used cells end before the label does, so that the label
/// stands in the free part of the bar.
pub open spec fn label_in_free_part(p: PlacementView) -> bool {
    p.used_cells < p.midpoint + p.label.len()
}

/// The runs of cells of a bar. `small` says that the percentage lies below
/// ten, where one more empty cell goes before the label.
///
/// Where the label stands in the free part, the used cells come first, empty
/// cells lead up to the label, and as many empty cells as lie before the
/// anchor follow it. Otherwise filled cells lead up to the label, the rest
/// of the used cells follow it, and empty cells complete the width.
pub open spec fn bar_segments(p: PlacementView, small: bool) -> BarSegments {
    if label_in_free_part(p) {
        BarSegments {
            lead_filled: p.used_cells,
            lead_empty: (if p.midpoint >= p.used_cells {
                p.midpoint - p.used_cells
            } else {
                0
            }) as nat + extra_cell(small),
            trail_filled: 0,
            trail_empty: p.midpoint,
        }
    } else {
        BarSegments {
            lead_filled: p.midpoint,
            lead_empty: 0,
            trail_filled: (p.used_cells - p.midpoint - p.label.len()) as nat,
            trail_empty: (if p.width >= p.used_cells {
                p.width - p.used_cells
            } else {
                0
            }) as nat,
        }
    }
}

/// The text of a bar between its brackets: the colour token, the cells
/// before the label, the reset token, the label, the colour token again, the
/// cells after the label, and the reset token.
pub open spec fn bar_text(p: PlacementView, small: bool, color: Seq<char>, reset: Seq<char>) -> Seq<
    char,
> {
    let runs: BarSegments = bar_segments(p, small);
    "["@ + color + repeated(filled_glyph(), runs.lead_filled) + repeated(
        empty_glyph(),
        runs.lead_empty,
    ) + reset + p.label + color + repeated(filled_glyph(), runs.trail_filled) + repeated(
        empty_glyph(),
        runs.trail_empty,
    ) + reset + "]"@
}

/// The cells that the runs of a bar take where the label stands in the free
/// part: the used cells or, where they are fewer, the cells before the
/// anchor; the extra cell of a small percentage; and as many cells as lie
/// before the anchor once more.
pub open spec fn cells_beside_label(p: PlacementView, small: bool) -> nat {
    (if p.used_cells >= p.midpoint {
        p.used_cells
    } else {
        p.midpoint
    }) + p.midpoint + extra_cell(small)
}

/// The cells that a bar takes on the screen: its brackets, its label and its
/// four runs.
pub open spec fn visible_cells(p: PlacementView, small: bool) -> nat {
    let runs: BarSegments = bar_segments(p, small);
    2 + p.label.len() + runs.lead_filled + runs.lead_empty + runs.trail_filled + runs.trail_empty
}

/// The text of a bar is as long as its visible cells and its four tokens
/// together: the tokens are all that does not show.
pub proof fn lemma_bar_text_len(p: PlacementView, small: bool, color: Seq<char>, reset: Seq<char>)
    ensures
        bar_text(p, small, color, reset).len() == visible_cells(p, small) + 2 * color.len() + 2
            * reset.len(),
{
    reveal_strlit("[");
    reveal_strlit("]");
    reveal_strlit("█");
    reveal_strlit("░");
    let runs: BarSegments = bar_segments(p, small);
    lemma_repeated_len(filled_glyph(), runs.lead_filled);
    lemma_repeated_len(empty_glyph(), runs.lead_empty);
    lemma_repeated_len(filled_glyph(), runs.trail_filled);
    lemma_repeated_len(empty_glyph(), runs.trail_empty);
}

/// A well-formed bar takes exactly its width and its two brackets on the
/// screen where the used cells reach past the label, and also where they end
/// at or before the anchor, the bar has room for the label, and the label
/// with the extra cell of a small percentage has an even length.
pub proof fn lemma_bar_keeps_width(p: PlacementView, small: bool)
    requires
        p.wf(),
        label_in_free_part(p) ==> p.used_cells <= p.midpoint,
        label_in_free_part(p) ==> p.width >= 2 * ((p.label.len() + 1) / 2),
        label_in_free_part(p) ==> (p.label.len() + extra_cell(small)) % 2 == 0,
    ensures
        visible_cells(p, small) == p.width + 2,
{
}

/// The bar of a row keeps the width that the layout gave it, whatever the
/// usage, where that width is at least eight cells, the label has the usual
/// length of its tier, and the used cells do not end under the label.
pub proof fn lemma_row_bar_keeps_width(
    terminal_width: nat,
    left_fragment: Seq<char>,
    right_fragment: Seq<char>,
    usage: PartitionUsage,
)
    requires
        usage.wf(),
        placement_for(terminal_width, left_fragment, right_fragment, usage).width >= 8,
        usage.tier_of() == Tier::Units ==> percent_hundredths(usage) < 1000,
        usage.tier_of() == Tier::Tens ==> percent_hundredths(usage) < 10000,
        usage.tier_of() == Tier::Hundreds ==> percent_whole(usage) < 1000,
        label_in_free_part(placement_for(terminal_width, left_fragment, right_fragment, usage))
            ==> placement_for(terminal_width, left_fragment, right_fragment, usage).used_cells
            <= placement_for(terminal_width, left_fragment, right_fragment, usage).midpoint,
    ensures
        visible_cells(
            placement_for(terminal_width, left_fragment, right_fragment, usage),
            usage.tier_of() == Tier::Units,
        ) == placement_for(terminal_width, left_fragment, right_fragment, usage).width + 2,
{
    let p: PlacementView = placement_for(terminal_width, left_fragment, right_fragment, usage);
    lemma_placement_is_well_formed(terminal_width, left_fragment, right_fragment, usage);
    match usage.tier_of() {
        Tier::Units => lemma_units_label_len(usage),
        Tier::Tens => lemma_tens_label_len(usage),
        Tier::Hundreds => lemma_hundreds_label_len(usage),
    }
    lemma_bar_keeps_width(p, usage.tier_of() == Tier::Units);
}

/// Where the label of a well-formed bar stands in the free part, and the
/// cells up to the anchor, the extra cell of a small percentage and the
/// cells after the label make up the width by themselves, the bar shows as
/// long as its width, its label and its two brackets together. (A bar whose
/// used cells reach past the label is that long only with an empty label.)
pub proof fn lemma_bar_spans_width_and_label(p: PlacementView, small: bool)
    requires
        p.wf(),
        label_in_free_part(p) ==> cells_beside_label(p, small) == p.width,
        !label_in_free_part(p) ==> p.label.len() == 0,
    ensures
        visible_cells(p, small) == p.width + p.label.len() + 2,
{
}

/// On every other well-formed bar, the visible length is not the width, the
/// label and the two brackets together.
pub proof fn lemma_bar_has_another_length_elsewhere(p: PlacementView, small: bool)
    requires
        p.wf(),
        !((label_in_free_part(p) ==> cells_beside_label(p, small) == p.width) && (
        !label_in_free_part(p) ==> p.label.len() == 0)),
    ensures
        visible_cells(p, small) != p.width + p.label.len() + 2,
{
}

/// A bar without used cells has no filled cell.
pub proof fn lemma_unused_bar_has_no_filled_cell(p: PlacementView, small: bool)
    requires
        p.used_cells == 0,
    ensures
        bar_segments(p, small).lead_filled == 0,
        bar_segments(p, small).trail_filled == 0,
{
}

/// A well-formed bar whose cells are all used, drawn for a percentage of ten
/// or more, has no empty cell.
pub proof fn lemma_full_bar_has_no_empty_cell(p: PlacementView)
    requires
        p.wf(),
        p.used_cells == p.width,
    ensures
        bar_segments(p, false).lead_empty == 0,
        bar_segments(p, false).trail_empty == 0,
{
}

/// The bar of a partition of which nothing is used has no filled cell,
/// whatever the width of the terminal and the fragments beside the bar.
pub proof fn lemma_nothing_used_draws_no_filled_cell(
    terminal_width: nat,
    left_fragment: Seq<char>,
    right_fragment: Seq<char>,
    usage: PartitionUsage,
)
    requires
        usage.wf(),
        usage.used == 0,
    ensures
        usage.tier_of() == Tier::Units,
        bar_segments(
            placement_for(terminal_width, left_fragment, right_fragment, usage),
            true,
        ).lead_filled == 0,
        bar_segments(
            placement_for(terminal_width, left_fragment, right_fragment, usage),
            true,
        ).trail_filled == 0,
{
    let p: PlacementView = placement_for(terminal_width, left_fragment, right_fragment, usage);
    lemma_used_cells_at_the_ends(usage, p.width);
    lemma_unused_bar_has_no_filled_cell(p, true);
}

/// The bar of a partition that is used up has no empty cell, whatever the
/// width of the terminal and the fragments beside the bar.
pub proof fn lemma_all_used_draws_no_empty_cell(
    terminal_width: nat,
    left_fragment: Seq<char>,
    right_fragment: Seq<char>,
    usage: PartitionUsage,
)
    requires
        usage.wf(),
        usage.used == usage.total,
    ensures
        usage.tier_of() == Tier::Hundreds,
        bar_segments(
            placement_for(terminal_width, left_fragment, right_fragment, usage),
            false,
        ).lead_empty == 0,
        bar_segments(
            placement_for(terminal_width, left_fragment, right_fragment, usage),
            false,
        ).trail_empty == 0,
{
    let p: PlacementView = placement_for(terminal_width, left_fragment, right_fragment, usage);
    lemma_used_cells_at_the_ends(usage, p.width);
    lemma_placement_is_well_formed(terminal_width, left_fragment, right_fragment, usage);
    lemma_full_bar_has_no_empty_cell(p);
}

/// A well-formed bar of width zero with a label is that label between the
/// brackets and the tokens, after the one empty cell of a small percentage:
/// it has no filled cell.
pub proof fn lemma_zero_width_bar_is_label(
    p: PlacementView,
    small: bool,
    color: Seq<char>,
    reset: Seq<char>,
)
    requires
        p.wf(),
        p.width == 0,
        p.label.len() > 0,
    ensures
        bar_segments(p, small).lead_filled == 0,
        bar_segments(p, small).trail_filled == 0,
        bar_text(p, small, color, reset) == "["@ + color + (if small {
            empty_glyph()
        } else {
            Seq::empty()
        }) + reset + p.label + color + reset + "]"@,
{
    assert(repeated(filled_glyph(), 0) =~= Seq::<char>::empty());
    assert(repeated(empty_glyph(), 0) =~= Seq::<char>::empty());
    assert(repeated(empty_glyph(), 1) =~= empty_glyph()) by {
        reveal_with_fuel(repeated, 2);
    }
    assert(bar_text(p, small, color, reset) =~= "["@ + color + (if small {
        empty_glyph()
    } else {
        Seq::empty()
    }) + reset + p.label + color + reset + "]"@);
}

/// Draws a bar between its brackets: the cells before the label in the
/// colour chosen, the label in the default style, and the cells after the
/// label in the colour again. The usage decides only whether the percentage
/// lies below ten. Every placement can be drawn, well formed or not.
pub fn render(
    placement: &BarPlacement,
    usage: &PartitionUsage,
    color: ColorChoice,
    palette: &Palette,
) -> (bar: String)
    ensures
        bar@ == bar_text(
            placement@,
            usage.tier_of() == Tier::Units,
            palette@.token(color),
            palette@.reset,
        ),
{
    let small: bool = match usage.tier() {
        Tier::Units => true,
        _ => false,
    };
    let token: &str = palette.pick(color);
    let reset: &str = palette.reset.as_str();
    let label: &str = placement.label.as_str();
    let label_len: usize = label.unicode_len();
    let used: usize = placement.used_cells;
    let anchor: usize = placement.midpoint;
    let ghost runs: BarSegments = bar_segments(placement@, small);
    let mut bar: String = String::new();
    bar.append("[");
    bar.append(token);
    if used < anchor || used - anchor < label_len {
        push_repeated(&mut bar, "█", used);
        push_repeated(&mut bar, "░", anchor.saturating_sub(used));
        if small {
            bar.append("░");
        }
        assert(bar@ =~= "["@ + token@ + repeated(filled_glyph(), runs.lead_filled) + repeated(
            empty_glyph(),
            runs.lead_empty,
        )) by {
            assert(repeated(empty_glyph(), runs.lead_empty) =~= repeated(
                empty_glyph(),
                anchor.saturating_sub(used) as nat,
            ) + (if small {
                empty_glyph()
            } else {
                Seq::empty()
            }));
        }
        bar.append(reset);
        bar.append(label);
        bar.append(token);
        push_repeated(&mut bar, "░", anchor);
        assert(repeated(filled_glyph(), runs.trail_filled) =~= Seq::<char>::empty());
    } else {
        push_repeated(&mut bar, "█", anchor);
        assert(repeated(empty_glyph(), runs.lead_empty) =~= Seq::<char>::empty());
        bar.append(reset);
        bar.append(label);
        bar.append(token);
        push_repeated(&mut bar, "█", used - anchor - label_len);
        push_repeated(&mut bar, "░", placement.width.saturating_sub(used));
    }
    bar.append(reset);
    bar.append("]");
    assert(bar@ =~= bar_text(placement@, small, palette@.token(color), palette@.reset));
    bar
}

} // verus!
