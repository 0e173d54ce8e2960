use diskbars::layout::{count_used_cells, label_for, layout};
use diskbars::usage::PartitionUsage;

fn usage(used: u64, total: u64) -> PartitionUsage {
    PartitionUsage { used, total }
}

#[test]
fn the_bar_takes_what_the_fragments_leave() {
    let half = usage(1, 2);
    let left = " x [/home] ";
    let right = " [1.00 KB/2.00 KB]";
    assert_eq!(left.len(), 11);
    assert_eq!(right.len(), 18);
    assert_eq!(layout(80, left, right, &half).width, 50);
    assert_eq!(layout(79, left, right, &half).width, 50);
    assert_eq!(layout(81, left, right, &half).width, 52);
    assert_eq!(layout(31, left, right, &half).width, 2);
    assert_eq!(layout(30, left, right, &half).width, 0);
}

#[test]
fn a_narrow_terminal_leaves_no_bar() {
    let half = usage(1, 2);
    let placement = layout(10, " x [/home] ", " [1.00 KB/2.00 KB]", &half);
    assert_eq!(placement.width, 0);
    assert_eq!(placement.midpoint, 0);
    assert_eq!(placement.used_cells, 0);
    assert_eq!(placement.label, " 50.00% ");
    assert_eq!(layout(0, "", "", &half).width, 0);
    assert_eq!(layout(usize::MAX, "", "", &half).width, usize::MAX - 1);
}

#[test]
fn fragments_count_by_their_bytes() {
    let half = usage(1, 2);
    let left = " ├─ [/] ";
    assert_eq!(left.len(), 12);
    assert_eq!(left.chars().count(), 8);
    assert_eq!(layout(40, left, "", &half).width, 28);
    assert_eq!(layout(40, "", left, &half).width, 28);
}

#[test]
fn small_percentages_have_two_places() {
    assert_eq!(label_for(&usage(0, 100)), " 0.00% ");
    assert_eq!(label_for(&usage(5, 100)), " 5.00% ");
    assert_eq!(label_for(&usage(999, 10000)), " 9.99% ");
    assert_eq!(label_for(&usage(1, 3000)), " 0.03% ");
    assert_eq!(label_for(&usage(1, u64::MAX)), " 0.00% ");
}

#[test]
fn middle_percentages_have_two_places() {
    assert_eq!(label_for(&usage(10, 100)), " 10.00% ");
    assert_eq!(label_for(&usage(1, 3)), " 33.33% ");
    assert_eq!(label_for(&usage(2, 3)), " 66.67% ");
    assert_eq!(label_for(&usage(1, 8)), " 12.50% ");
    assert_eq!(label_for(&usage(9, 10)), " 90.00% ");
    assert_eq!(label_for(&usage(9999, 10000)), " 99.99% ");
}

#[test]
fn full_percentages_have_no_places() {
    assert_eq!(label_for(&usage(100, 100)), " 100% ");
    assert_eq!(label_for(&usage(3, 2)), " 150% ");
    assert_eq!(label_for(&usage(999, 100)), " 999% ");
    assert_eq!(label_for(&usage(10, 1)), " 1000% ");
    assert_eq!(label_for(&usage(u64::MAX - 49, 100)), " 18446744073709551566% ");
    assert_eq!(label_for(&usage(u64::MAX, 1)), " 1844674407370955161500% ");
}

#[test]
fn a_percentage_can_round_up_into_the_next_width() {
    // 9.996 percent is below ten and is written as 10.00.
    assert_eq!(label_for(&usage(9996, 100_000)), " 10.00% ");
    // 99.996 percent is below a hundred and is written as 100.00.
    assert_eq!(label_for(&usage(99_996, 100_000)), " 100.00% ");
}

#[test]
fn halves_round_to_the_even_neighbour() {
    assert_eq!(label_for(&usage(12_345, 100_000)), " 12.34% ");
    assert_eq!(label_for(&usage(12_355, 100_000)), " 12.36% ");
    assert_eq!(label_for(&usage(5, 100_000)), " 0.00% ");
    assert_eq!(label_for(&usage(15, 100_000)), " 0.02% ");
    assert_eq!(label_for(&usage(301, 200)), " 150% ");
    assert_eq!(label_for(&usage(303, 200)), " 152% ");
}

#[test]
fn the_label_is_anchored_in_the_middle() {
    assert_eq!(layout(50, "", "", &usage(1, 2)).midpoint, 21);
    assert_eq!(layout(50, "", "", &usage(1, 20)).midpoint, 21);
    assert_eq!(layout(50, "", "", &usage(2, 2)).midpoint, 22);
    assert_eq!(layout(8, "", "", &usage(1, 2)).midpoint, 0);
    assert_eq!(layout(10, "", "", &usage(1, 2)).midpoint, 1);
    assert_eq!(layout(6, "", "", &usage(1, 2)).midpoint, 0);
    assert_eq!(layout(6, "", "", &usage(2, 2)).midpoint, 0);
    assert_eq!(layout(8, "", "", &usage(2, 2)).midpoint, 1);
}

#[test]
fn used_cells_are_the_used_share_rounded_up() {
    assert_eq!(count_used_cells(&usage(7, 100), 100), 7);
    assert_eq!(count_used_cells(&usage(1, 3), 50), 17);
    assert_eq!(count_used_cells(&usage(1, 1000), 50), 1);
    assert_eq!(count_used_cells(&usage(9, 10), 44), 40);
    assert_eq!(count_used_cells(&usage(1, 10), 42), 5);
    assert_eq!(count_used_cells(&usage(1, 2), 50), 25);
    assert_eq!(count_used_cells(&usage(1, u64::MAX), usize::MAX), 1);
}

#[test]
fn used_cells_stay_within_the_bar() {
    assert_eq!(count_used_cells(&usage(0, 100), 50), 0);
    assert_eq!(count_used_cells(&usage(100, 100), 50), 50);
    assert_eq!(count_used_cells(&usage(150, 100), 50), 50);
    assert_eq!(count_used_cells(&usage(u64::MAX, 1), usize::MAX), usize::MAX);
    assert_eq!(count_used_cells(&usage(u64::MAX, u64::MAX), usize::MAX), usize::MAX);
    assert_eq!(count_used_cells(&usage(5, 100), 0), 0);
    assert_eq!(count_used_cells(&usage(500, 100), 0), 0);
}

#[test]
fn a_placement_holds_all_four() {
    let placement = layout(80, " x [/home] ", " [1.00 KB/2.00 KB]", &usage(9, 10));
    assert_eq!(placement.width, 50);
    assert_eq!(placement.label, " 90.00% ");
    assert_eq!(placement.midpoint, 21);
    assert_eq!(placement.used_cells, 45);
}
