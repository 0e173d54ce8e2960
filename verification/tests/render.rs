use diskbars::layout::{layout, BarPlacement};
use diskbars::render::render;
use diskbars::style::{ColorChoice, Palette};
use diskbars::usage::PartitionUsage;

fn marks() -> Palette {
    Palette { alert: String::from("<A>"), normal: String::from("<N>"), reset: String::from("<R>") }
}

fn plain() -> Palette {
    Palette { alert: String::new(), normal: String::new(), reset: String::new() }
}

fn usage(used: u64, total: u64) -> PartitionUsage {
    PartitionUsage { used, total }
}

fn placement(width: usize, label: &str, midpoint: usize, used_cells: usize) -> BarPlacement {
    BarPlacement { width, label: String::from(label), midpoint, used_cells }
}

fn cells(glyph: &str, count: usize) -> String {
    glyph.repeat(count)
}

#[test]
fn a_label_in_the_free_part_follows_the_used_cells() {
    let bar = render(
        &placement(20, " 25.00% ", 6, 5),
        &usage(1, 4),
        ColorChoice::Normal,
        &marks(),
    );
    assert_eq!(bar, "[<N>█████░<R> 25.00% <N>░░░░░░<R>]");
}

#[test]
fn a_small_percentage_has_one_more_empty_cell() {
    let bar = render(
        &placement(20, " 5.00% ", 6, 1),
        &usage(1, 20),
        ColorChoice::Normal,
        &marks(),
    );
    assert_eq!(bar, "[<N>█░░░░░░<R> 5.00% <N>░░░░░░<R>]");
    assert_eq!(bar.chars().count(), 22 + 12);
}

#[test]
fn used_cells_past_the_label_go_around_it() {
    let bar = render(
        &placement(20, " 90.00% ", 6, 18),
        &usage(9, 10),
        ColorChoice::Normal,
        &marks(),
    );
    assert_eq!(bar, "[<N>██████<R> 90.00% <N>████░░<R>]");
    assert_eq!(bar.chars().count(), 22 + 12);
}

#[test]
fn used_cells_that_just_reach_the_end_of_the_label_go_around_it() {
    let bar = render(
        &placement(20, " 70.00% ", 6, 14),
        &usage(7, 10),
        ColorChoice::Normal,
        &marks(),
    );
    assert_eq!(bar, "[<N>██████<R> 70.00% <N>░░░░░░<R>]");
    let bar = render(
        &placement(20, " 65.00% ", 6, 13),
        &usage(13, 20),
        ColorChoice::Normal,
        &marks(),
    );
    assert_eq!(bar, "[<N>█████████████<R> 65.00% <N>░░░░░░<R>]");
}

#[test]
fn used_cells_that_end_under_the_label_widen_the_bar() {
    let bar = render(
        &placement(40, " 50.00% ", 16, 20),
        &usage(1, 2),
        ColorChoice::Normal,
        &plain(),
    );
    assert_eq!(bar, format!("[{} 50.00% {}]", cells("█", 20), cells("░", 16)));
    assert_eq!(bar.chars().count(), 46);
}

#[test]
fn the_alert_colour_has_its_own_token() {
    let bar = render(
        &placement(20, " 95.00% ", 6, 19),
        &usage(19, 20),
        ColorChoice::Alert,
        &marks(),
    );
    assert_eq!(bar, "[<A>██████<R> 95.00% <A>█████░<R>]");
}

#[test]
fn nothing_used_leaves_the_bar_empty() {
    let nothing = usage(0, 4096);
    let bar = render(&layout(30, "", "", &nothing), &nothing, ColorChoice::Normal, &marks());
    assert_eq!(bar, format!("[<N>{}<R> 0.00% <N>{}<R>]", cells("░", 12), cells("░", 11)));
    assert!(!bar.contains('█'));
}

#[test]
fn all_used_fills_the_bar() {
    let all = usage(4096, 4096);
    let bar = render(&layout(30, "", "", &all), &all, ColorChoice::Alert, &marks());
    assert_eq!(bar, format!("[<A>{}<R> 100% <A>{}<R>]", cells("█", 12), cells("█", 12)));
    assert!(!bar.contains('░'));
    let narrow = render(&layout(4, "", "", &all), &all, ColorChoice::Alert, &marks());
    assert_eq!(narrow, "[<A>████<R> 100% <A><R>]");
}

#[test]
fn a_bar_without_width_is_its_label() {
    let half = usage(1, 2);
    let bar = render(&layout(0, "", "", &half), &half, ColorChoice::Normal, &marks());
    assert_eq!(bar, "[<N><R> 50.00% <N><R>]");
    let bar = render(&layout(0, "", "", &half), &half, ColorChoice::Normal, &plain());
    assert_eq!(bar, "[ 50.00% ]");
    let all = usage(2, 2);
    let bar = render(&layout(1, "", "", &all), &all, ColorChoice::Alert, &plain());
    assert_eq!(bar, "[ 100% ]");
}

#[test]
fn a_small_percentage_without_width_keeps_its_extra_cell() {
    let little = usage(1, 50);
    let bar = render(&layout(0, "", "", &little), &little, ColorChoice::Normal, &plain());
    assert_eq!(bar, "[░ 2.00% ]");
}

#[test]
fn a_bar_with_room_keeps_its_width() {
    let palette = plain();
    for width in [8usize, 10, 24, 50, 120] {
        for (used, total) in [(0u64, 100u64), (3, 100), (9, 100), (10, 100), (20, 100), (95, 100), (100, 100)] {
            let share = usage(used, total);
            let placement = layout(width, "", "", &share);
            let outside = placement.used_cells <= placement.midpoint
                || placement.used_cells >= placement.midpoint + placement.label.len();
            let bar = render(&placement, &share, ColorChoice::Normal, &palette);
            if outside {
                assert_eq!(bar.chars().count(), width + 2, "width {} used {}", width, used);
            }
        }
    }
}

#[test]
fn drawing_twice_gives_the_same_bar() {
    let share = usage(123_456, 1_000_000);
    let first = render(
        &layout(77, " ├─ [/var] ", " [1/2]", &share),
        &share,
        ColorChoice::Normal,
        &marks(),
    );
    let second = render(
        &layout(77, " ├─ [/var] ", " [1/2]", &share),
        &share,
        ColorChoice::Normal,
        &marks(),
    );
    assert_eq!(first.as_bytes(), second.as_bytes());
}

#[test]
fn any_placement_can_be_drawn() {
    let bar = render(&placement(4, "", 0, 9), &usage(1, 2), ColorChoice::Normal, &plain());
    assert_eq!(bar, "[█████████]");
    let bar = render(&placement(3, "ab", 5, 1), &usage(1, 20), ColorChoice::Normal, &plain());
    assert_eq!(bar, "[█░░░░░ab░░░░░]");
}
