//! The lines of a report: a header for each disk, and under it a row for
//! each partition with its mount point, its bar and its sizes.
//!
//! A partition without capacity has no percentage and cannot be reported:
//! the functions that write rows ask for capacity, and
//! `first_without_capacity` finds the record that lacks it. A usage above the
//! capacity is reported as it is: its label shows the percentage, and its bar
//! is full.

use crate::group::{
    group, group_views, grouped, lemma_partitions_of_holds_the_disk, widest_mount_point,
    AlignmentMetrics, DiskGroup, GroupView,
};
use crate::layout::{layout, placement_for, BarPlacement};
use crate::render::{bar_text, render};
use crate::size::{format_size, size_text};
use crate::style::{ColorChoice, Palette, PaletteView};
use crate::text::{
    byte_len, byte_length, lemma_padded_len, pad_to_width, padded, push_repeated, repeated,
    room_left,
};
use crate::usage::{
    bytes_in_use, record_views, used_bytes, PartitionRecord, PartitionUsage, PartitionView, Tier,
};
use vstd::prelude::*;
use vstd::utf8::encode_utf8;

verus! {

/// The width assumed for a terminal that cannot tell its own.
pub const DEFAULT_TERMINAL_WIDTH: usize = 80;

/// The percentage above which a partition is drawn in the alert colour.
pub const ALERT_ABOVE_PERCENT: u8 = 90;

/// The width to lay a report out for: the width that the terminal gave, or
/// the default where it gave none.
pub fn terminal_width_or_default(queried: Option<u16>) -> (width: usize)
    ensures
        queried matches Some(columns) ==> width == columns,
        queried is None ==> width == DEFAULT_TERMINAL_WIDTH,
{
    match queried {
        Some(columns) => columns as usize,
        None => DEFAULT_TERMINAL_WIDTH,
    }
}

/// The colour of a usage: alert above 90 percent, normal up to and including
/// 90 percent.
pub open spec fn color_of(usage: PartitionUsage) -> ColorChoice {
    if usage.percent_above(ALERT_ABOVE_PERCENT as nat) {
        ColorChoice::Alert
    } else {
        ColorChoice::Normal
    }
}

/// Chooses the colour of a usage.
pub fn color_for(usage: &PartitionUsage) -> (color: ColorChoice)
    ensures
        color == color_of(*usage),
{
    if usage.exceeds(ALERT_ABOVE_PERCENT) {
        ColorChoice::Alert
    } else {
        ColorChoice::Normal
    }
}

/// The header of a disk: its name in brackets.
pub open spec fn header_text(name: Seq<char>) -> Seq<char> {
    "["@ + name + "]"@
}

/// The tree connector of a row: a corner for the last partition of a disk, a
/// branch for every other.
pub open spec fn connector(last: bool) -> Seq<char> {
    if last {
        "└─"@
    } else {
        "├─"@
    }
}

/// What stands left of a bar: the connector, the mount point in brackets,
/// and spaces that fill the mount point up to the column width in bytes.
pub open spec fn left_text(last: bool, mount_point: Seq<char>, mount_point_width: nat) -> Seq<
    char,
> {
    " "@ + connector(last) + " ["@ + mount_point + "]"@ + repeated(
        " "@,
        room_left(mount_point_width, byte_len(mount_point)),
    ) + " "@
}

/// What stands right of a bar: the used and the total size in brackets.
pub open spec fn right_text(usage: PartitionUsage) -> Seq<char> {
    " ["@ + size_text(usage.used) + "/"@ + size_text(usage.total) + "]"@
}

/// The usage that a record with capacity reports.
pub open spec fn usage_of(record: PartitionView) -> PartitionUsage {
    PartitionUsage { used: used_bytes(record.total, record.available), total: record.total }
}

/// The bar of a usage between two fragments: laid out in what the fragments
/// leave of the terminal width, and drawn in the colour of the usage.
pub open spec fn bar_for(
    terminal_width: nat,
    left_fragment: Seq<char>,
    right_fragment: Seq<char>,
    usage: PartitionUsage,
    palette: PaletteView,
) -> Seq<char> {
    bar_text(
        placement_for(terminal_width, left_fragment, right_fragment, usage),
        usage.tier_of() == Tier::Units,
        palette.token(color_of(usage)),
        palette.reset,
    )
}

/// The row of one partition: the left fragment, the bar, and the right
/// fragment, padded to the terminal width.
pub open spec fn row_text(
    record: PartitionView,
    last: bool,
    mount_point_width: nat,
    terminal_width: nat,
    palette: PaletteView,
) -> Seq<char>
    recommends
        record.total > 0,
{
    let usage: PartitionUsage = usage_of(record);
    let left: Seq<char> = left_text(last, record.mount_point, mount_point_width);
    let right: Seq<char> = right_text(usage);
    padded(left + bar_for(terminal_width, left, right, usage, palette) + right, terminal_width)
}

/// The lines of one disk: its header, then a row for each of its partitions
/// in order, the last of them with the corner connector.
pub open spec fn block_text(
    group: GroupView,
    mount_point_width: nat,
    terminal_width: nat,
    palette: PaletteView,
) -> Seq<Seq<char>> {
    seq![header_text(group.name)] + Seq::new(
        group.partitions.len(),
        |j: int|
            row_text(
                group.partitions[j],
                j == group.partitions.len() - 1,
                mount_point_width,
                terminal_width,
                palette,
            ),
    )
}

/// The lines of a report: the blocks of its groups, one after the other.
pub open spec fn report_text(
    groups: Seq<GroupView>,
    mount_point_width: nat,
    terminal_width: nat,
    palette: PaletteView,
) -> Seq<Seq<char>>
    decreases groups.len(),
{
    if groups.len() == 0 {
        Seq::empty()
    } else {
        report_text(groups.drop_last(), mount_point_width, terminal_width, palette) + block_text(
            groups.last(),
            mount_point_width,
            terminal_width,
            palette,
        )
    }
}

/// The views of a run of lines, in order.
pub open spec fn line_views(lines: Seq<String>) -> Seq<Seq<char>> {
    Seq::new(lines.len(), |i: int| lines[i]@)
}

/// Every partition of every group has capacity.
pub open spec fn groups_have_capacity(groups: Seq<GroupView>) -> bool {
    forall|g: int, j: int|
        0 <= g < groups.len() && 0 <= j < groups[g].partitions.len() ==> (
        #[trigger] groups[g].partitions[j]).total > 0
}

/// Every record has capacity.
pub open spec fn records_have_capacity(records: Seq<PartitionView>) -> bool {
    forall|i: int| 0 <= i < records.len() ==> (#[trigger] records[i]).total > 0
}

/// A bar is a function of the usage, the terminal width, the two fragments
/// and the palette: two bars drawn from the same of these are the same text,
/// byte for byte.
pub proof fn lemma_bar_is_repeatable(
    first: Seq<char>,
    second: Seq<char>,
    terminal_width: nat,
    left_fragment: Seq<char>,
    right_fragment: Seq<char>,
    usage: PartitionUsage,
    palette: PaletteView,
)
    requires
        first == bar_for(terminal_width, left_fragment, right_fragment, usage, palette),
        second == bar_for(terminal_width, left_fragment, right_fragment, usage, palette),
    ensures
        first == second,
        encode_utf8(first) == encode_utf8(second),
{
}

/// A row is never shorter than the terminal is wide, and begins with its
/// left fragment, its bar and its right fragment, uncut.
pub proof fn lemma_row_fills_the_terminal(
    record: PartitionView,
    last: bool,
    mount_point_width: nat,
    terminal_width: nat,
    palette: PaletteView,
)
    ensures
        row_text(record, last, mount_point_width, terminal_width, palette).len()
            >= terminal_width,
        ({
            let left: Seq<char> = left_text(last, record.mount_point, mount_point_width);
            let right: Seq<char> = right_text(usage_of(record));
            let content: Seq<char> = left + bar_for(
                terminal_width,
                left,
                right,
                usage_of(record),
                palette,
            ) + right;
            row_text(record, last, mount_point_width, terminal_width, palette).subrange(
                0,
                content.len() as int,
            ) == content
        }),
{
    let left: Seq<char> = left_text(last, record.mount_point, mount_point_width);
    let right: Seq<char> = right_text(usage_of(record));
    let content: Seq<char> = left + bar_for(terminal_width, left, right, usage_of(record), palette)
        + right;
    lemma_padded_len(content, terminal_width);
}

/// The line of a report at which the block of the group `k` starts: the
/// blocks before it take one line for each header and one for each
/// partition.
pub open spec fn block_start(groups: Seq<GroupView>, k: nat) -> nat
    decreases k,
{
    if k == 0 {
        0
    } else {
        block_start(groups, (k - 1) as nat) + 1 + groups[k - 1].partitions.len()
    }
}

/// The partitions of a disk are printed together: the lines of a report
/// from the start of a group's block to the start of the next are the header
/// of that group and the rows of its partitions, and nothing else. The
/// report ends where the block after the last would start.
pub proof fn lemma_report_is_made_of_blocks(
    groups: Seq<GroupView>,
    mount_point_width: nat,
    terminal_width: nat,
    palette: PaletteView,
    k: int,
)
    requires
        0 <= k < groups.len(),
    ensures
        report_text(groups, mount_point_width, terminal_width, palette).len() == block_start(
            groups,
            groups.len(),
        ),
        block_start(groups, (k + 1) as nat) <= block_start(groups, groups.len()),
        report_text(groups, mount_point_width, terminal_width, palette).subrange(
            block_start(groups, k as nat) as int,
            block_start(groups, (k + 1) as nat) as int,
        ) == block_text(groups[k], mount_point_width, terminal_width, palette),
    decreases groups.len(),
{
    let front: Seq<GroupView> = groups.drop_last();
    let whole: Seq<Seq<char>> = report_text(groups, mount_point_width, terminal_width, palette);
    let before: Seq<Seq<char>> = report_text(front, mount_point_width, terminal_width, palette);
    let block: Seq<Seq<char>> = block_text(
        groups.last(),
        mount_point_width,
        terminal_width,
        palette,
    );
    lemma_block_start_of_prefix(groups, front.len());
    if front.len() > 0 {
        lemma_report_is_made_of_blocks(
            front,
            mount_point_width,
            terminal_width,
            palette,
            if k < front.len() {
                k
            } else {
                0
            },
        );
    }
    assert(before.len() == block_start(groups, front.len()));
    if k < front.len() {
        lemma_block_start_of_prefix(groups, k as nat);
        lemma_block_start_of_prefix(groups, (k + 1) as nat);
        assert(front[k] == groups[k]);
        assert(whole.subrange(
            block_start(groups, k as nat) as int,
            block_start(groups, (k + 1) as nat) as int,
        ) =~= before.subrange(
            block_start(groups, k as nat) as int,
            block_start(groups, (k + 1) as nat) as int,
        ));
    } else {
        assert(whole.subrange(before.len() as int, whole.len() as int) =~= block);
    }
}

/// Where a block starts depends only on the groups before it.
proof fn lemma_block_start_of_prefix(groups: Seq<GroupView>, k: nat)
    requires
        k < groups.len(),
    ensures
        block_start(groups.drop_last(), k) == block_start(groups, k),
    decreases k,
{
    if k > 0 {
        lemma_block_start_of_prefix(groups, (k - 1) as nat);
        assert(groups.drop_last()[k - 1] == groups[k - 1]);
    }
}

/// Finds the first record without capacity. A run of records can be
/// reported exactly when there is none.
pub fn first_without_capacity(records: &Vec<PartitionRecord>) -> (found: Option<usize>)
    ensures
        found is None <==> records_have_capacity(record_views(records@)),
        found matches Some(at) ==> at < records.len() && records[at as int].total == 0 && forall|
            i: int,
        |
            0 <= i < at ==> (#[trigger] records[i]).total > 0,
{
    let mut i: usize = 0;
    while i < records.len()
        invariant
            i <= records.len(),
            forall|j: int| 0 <= j < i ==> (#[trigger] records[j]).total > 0,
        decreases records.len() - i,
    {
        if records[i].total == 0 {
            assert(record_views(records@)[i as int].total == 0);
            return Some(i);
        }
        i = i + 1;
    }
    assert forall|j: int| 0 <= j < record_views(records@).len() implies (#[trigger] record_views(
        records@,
    )[j]).total > 0 by {
        assert(records[j].total > 0);
    }
    None
}

/// Writes the header of a disk.
pub fn header_line(name: &str) -> (line: String)
    ensures
        line@ == header_text(name@),
{
    let mut line: String = String::new();
    line.append("[");
    line.append(name);
    line.append("]");
    assert(line@ =~= header_text(name@));
    line
}

/// Writes what stands left of a bar.
pub fn left_fragment(last: bool, mount_point: &str, mount_point_width: usize) -> (fragment: String)
    ensures
        fragment@ == left_text(last, mount_point@, mount_point_width as nat),
{
    let mut fragment: String = String::new();
    fragment.append(" ");
    if last {
        fragment.append("└─");
    } else {
        fragment.append("├─");
    }
    fragment.append(" [");
    fragment.append(mount_point);
    fragment.append("]");
    push_repeated(&mut fragment, " ", mount_point_width.saturating_sub(byte_length(mount_point)));
    fragment.append(" ");
    assert(fragment@ =~= left_text(last, mount_point@, mount_point_width as nat));
    fragment
}

/// Writes what stands right of a bar.
pub fn right_fragment(usage: &PartitionUsage) -> (fragment: String)
    ensures
        fragment@ == right_text(*usage),
{
    let mut fragment: String = String::new();
    fragment.append(" [");
    let used: String = format_size(usage.used);
    fragment.append(used.as_str());
    fragment.append("/");
    let total: String = format_size(usage.total);
    fragment.append(total.as_str());
    fragment.append("]");
    assert(fragment@ =~= right_text(*usage));
    fragment
}

/// Writes the row of one partition.
pub fn partition_line(
    record: &PartitionRecord,
    last: bool,
    metrics: &AlignmentMetrics,
    terminal_width: usize,
    palette: &Palette,
) -> (line: String)
    requires
        record.total > 0,
    ensures
        line@ == row_text(
            record@,
            last,
            metrics.mount_point_width as nat,
            terminal_width as nat,
            palette@,
        ),
{
    let usage: PartitionUsage = PartitionUsage {
        used: bytes_in_use(record.total, record.available),
        total: record.total,
    };
    let left: String = left_fragment(last, record.mount_point.as_str(), metrics.mount_point_width);
    let right: String = right_fragment(&usage);
    let placement: BarPlacement = layout(terminal_width, left.as_str(), right.as_str(), &usage);
    let bar: String = render(&placement, &usage, color_for(&usage), palette);
    let mut line: String = left;
    line.append(bar.as_str());
    line.append(right.as_str());
    pad_to_width(line, terminal_width)
}

/// Writes the lines of one disk.
pub fn group_lines(
    group: &DiskGroup,
    metrics: &AlignmentMetrics,
    terminal_width: usize,
    palette: &Palette,
) -> (lines: Vec<String>)
    requires
        records_have_capacity(group@.partitions),
    ensures
        line_views(lines@) == block_text(
            group@,
            metrics.mount_point_width as nat,
            terminal_width as nat,
            palette@,
        ),
{
    let ghost block: Seq<Seq<char>> = block_text(
        group@,
        metrics.mount_point_width as nat,
        terminal_width as nat,
        palette@,
    );
    let mut lines: Vec<String> = Vec::new();
    lines.push(header_line(group.name.as_str()));
    let count: usize = group.partitions.len();
    let mut j: usize = 0;
    while j < count
        invariant
            j <= count,
            count == group.partitions.len(),
            records_have_capacity(group@.partitions),
            block == block_text(
                group@,
                metrics.mount_point_width as nat,
                terminal_width as nat,
                palette@,
            ),
            lines.len() == j + 1,
            forall|i: int| 0 <= i <= j ==> (#[trigger] lines[i])@ == block[i],
        decreases count - j,
    {
        assert(group@.partitions[j as int] == group.partitions[j as int]@);
        assert(group@.partitions[j as int].total > 0);
        let line: String = partition_line(
            &group.partitions[j],
            j == count - 1,
            metrics,
            terminal_width,
            palette,
        );
        assert(line@ == block[j + 1]);
        lines.push(line);
        j = j + 1;
    }
    assert(line_views(lines@) =~= block);
    lines
}

/// Writes the lines of a report, group after group.
pub fn report_lines(
    groups: &Vec<DiskGroup>,
    metrics: &AlignmentMetrics,
    terminal_width: usize,
    palette: &Palette,
) -> (lines: Vec<String>)
    requires
        groups_have_capacity(group_views(groups@)),
    ensures
        line_views(lines@) == report_text(
            group_views(groups@),
            metrics.mount_point_width as nat,
            terminal_width as nat,
            palette@,
        ),
{
    let ghost views: Seq<GroupView> = group_views(groups@);
    let mut lines: Vec<String> = Vec::new();
    let mut g: usize = 0;
    assert(views.take(0) =~= Seq::<GroupView>::empty());
    while g < groups.len()
        invariant
            g <= groups.len(),
            views == group_views(groups@),
            groups_have_capacity(views),
            line_views(lines@) =~= report_text(
                views.take(g as int),
                metrics.mount_point_width as nat,
                terminal_width as nat,
                palette@,
            ),
        decreases groups.len() - g,
    {
        let ghost before: Seq<Seq<char>> = line_views(lines@);
        assert(views.take(g + 1).drop_last() =~= views.take(g as int));
        assert(views[g as int] == groups[g as int]@);
        assert(records_have_capacity(groups[g as int]@.partitions)) by {
            assert forall|i: int| 0 <= i < views[g as int].partitions.len() implies (
            #[trigger] views[g as int].partitions[i]).total > 0 by {}
        }
        let mut block: Vec<String> = group_lines(&groups[g], metrics, terminal_width, palette);
        let ghost block_view: Seq<Seq<char>> = line_views(block@);
        lines.append(&mut block);
        assert(line_views(lines@) =~= before + block_view);
        g = g + 1;
    }
    assert(views.take(g as int) =~= views);
    lines
}

/// Writes the report of a run of records: groups them, measures the columns,
/// and writes the lines of the groups.
pub fn report(records: &Vec<PartitionRecord>, terminal_width: usize, palette: &Palette) -> (lines:
    Vec<String>)
    requires
        records_have_capacity(record_views(records@)),
    ensures
        line_views(lines@) == report_text(
            grouped(record_views(records@)),
            widest_mount_point(record_views(records@)),
            terminal_width as nat,
            palette@,
        ),
{
    let ghost views: Seq<PartitionView> = record_views(records@);
    let (groups, metrics) = group(records);
    assert(groups_have_capacity(group_views(groups@))) by {
        assert forall|g: int, j: int|
            0 <= g < grouped(views).len() && 0 <= j < grouped(views)[g].partitions.len() implies (
        #[trigger] grouped(views)[g].partitions[j]).total > 0 by {
            lemma_partitions_of_holds_the_disk(views, grouped(views)[g].name);
            let record: PartitionView = grouped(views)[g].partitions[j];
            assert(views.contains(record));
            let at: int = choose|at: int| 0 <= at < views.len() && views[at] == record;
            assert(views[at].total > 0);
        }
    }
    report_lines(&groups, &metrics, terminal_width, palette)
}

} // verus!
