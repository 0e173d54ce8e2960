use diskbars::group::{group, AlignmentMetrics};
use diskbars::report::{
    color_for, first_without_capacity, group_lines, header_line, left_fragment, partition_line,
    report, report_lines, right_fragment, terminal_width_or_default,
};
use diskbars::style::{ColorChoice, Palette};
use diskbars::text::pad_to_width;
use diskbars::usage::{PartitionRecord, PartitionUsage};

fn ansi() -> Palette {
    Palette {
        alert: String::from("\x1b[38;5;1m"),
        normal: String::from("\x1b[38;5;6m"),
        reset: String::from("\x1b[m"),
    }
}

fn plain() -> Palette {
    Palette { alert: String::new(), normal: String::new(), reset: String::new() }
}

fn record(disk: &str, mount: &str, total: u64, available: u64) -> PartitionRecord {
    PartitionRecord {
        disk_name: String::from(disk),
        mount_point: String::from(mount),
        total,
        available,
    }
}

fn size_by_doubles(size: u64) -> String {
    let kilo = 1024.0_f64;
    if size < 1024 {
        return format!("{} B", size);
    }
    let kb = size as f64 / kilo;
    if kb < kilo {
        return format!("{:.2} KB", kb);
    }
    let mb = kb / kilo;
    if mb < kilo {
        return format!("{:.2} MB", mb);
    }
    format!("{:.2} GB", mb / kilo)
}

/// A row computed in double precision, for rows that fit the terminal and
/// usages up to the capacity.
fn row_by_doubles(
    mount: &str,
    total: u64,
    available: u64,
    last: bool,
    mount_width: usize,
    term_width: usize,
) -> String {
    let used_space = total - available;
    let percent_used = used_space as f64 / total as f64 * 100.0;
    let tree_style = if last { "└─" } else { "├─" };
    let bar_color = if percent_used > 90.0 { "\x1b[38;5;1m" } else { "\x1b[38;5;6m" };
    let reset = "\x1b[m";
    let partition_info =
        format!(" {} [{}]{} ", tree_style, mount, " ".repeat(mount_width - mount.len()));
    let storage_info =
        format!(" [{}/{}]", size_by_doubles(used_space), size_by_doubles(total));
    let percent_str = if percent_used < 10.0 {
        format!(" {:>4.2}% ", percent_used)
    } else if percent_used < 100.0 {
        format!(" {:>5.2}% ", percent_used)
    } else {
        format!(" {:>3}% ", percent_used)
    };
    let bar_width = (term_width - partition_info.len() - storage_info.len()) & !1;
    let fifty_percent = (bar_width / 2).saturating_sub(((percent_str.len() + 1) & !1) / 2);
    let space_used = (percent_used / 100.0 * bar_width as f64).ceil() as usize;
    let space_free = bar_width.saturating_sub(space_used);
    let bar = if space_used < fifty_percent + percent_str.len() {
        format!(
            "[{}{}{}{}{}{}{}{}]",
            bar_color,
            "█".repeat(space_used),
            "░".repeat(if percent_used < 10.0 {
                fifty_percent.saturating_sub(space_used) + 1
            } else {
                fifty_percent.saturating_sub(space_used)
            }),
            reset,
            percent_str,
            bar_color,
            "░".repeat(fifty_percent),
            reset
        )
    } else {
        format!(
            "[{}{}{}{}{}{}{}{}]",
            bar_color,
            "█".repeat(fifty_percent),
            reset,
            percent_str,
            bar_color,
            "█".repeat(space_used.saturating_sub(fifty_percent + percent_str.len())),
            "░".repeat(space_free),
            reset
        )
    };
    let output = format!("{}{}{}", partition_info, bar, storage_info);
    format!("{:<width$}", output, width = term_width)
}

#[test]
fn a_silent_terminal_gets_eighty_columns() {
    assert_eq!(terminal_width_or_default(None), 80);
    assert_eq!(terminal_width_or_default(Some(132)), 132);
    assert_eq!(terminal_width_or_default(Some(0)), 0);
    assert_eq!(terminal_width_or_default(Some(u16::MAX)), 65535);
}

#[test]
fn the_alert_colour_starts_above_ninety_percent() {
    let at = PartitionUsage { used: 90, total: 100 };
    let over = PartitionUsage { used: 9001, total: 10000 };
    let under = PartitionUsage { used: 10, total: 100 };
    assert_eq!(color_for(&at), ColorChoice::Normal);
    assert_eq!(color_for(&over), ColorChoice::Alert);
    assert_eq!(color_for(&under), ColorChoice::Normal);
    assert_eq!(color_for(&PartitionUsage { used: 5, total: 1 }), ColorChoice::Alert);
}

#[test]
fn a_header_is_the_name_in_brackets() {
    assert_eq!(header_line("diskA"), "[diskA]");
    assert_eq!(header_line(""), "[]");
}

#[test]
fn the_left_fragment_fills_the_mount_point_column() {
    assert_eq!(left_fragment(false, "/", 5), " ├─ [/]     ");
    assert_eq!(left_fragment(true, "/boot", 5), " └─ [/boot] ");
    assert_eq!(left_fragment(true, "/boot", 0), " └─ [/boot] ");
    assert_eq!(left_fragment(false, "/é", 4), " ├─ [/é]  ");
}

#[test]
fn the_right_fragment_holds_used_and_total() {
    let usage = PartitionUsage { used: 2048, total: 5 * 1024 * 1024 * 1024 };
    assert_eq!(right_fragment(&usage), " [2.00 KB/5.00 GB]");
    assert_eq!(right_fragment(&PartitionUsage { used: 0, total: 1 }), " [0 B/1 B]");
}

#[test]
fn padding_counts_characters_and_never_cuts() {
    assert_eq!(pad_to_width(String::from("ab"), 5), "ab   ");
    assert_eq!(pad_to_width(String::from("├─"), 5), "├─   ");
    assert_eq!(pad_to_width(String::from("abcdef"), 5), "abcdef");
    assert_eq!(pad_to_width(String::new(), 0), "");
}

#[test]
fn the_first_record_without_capacity_is_found() {
    let whole = vec![record("sda", "/", 10, 1), record("sda", "/home", 1, 1)];
    assert_eq!(first_without_capacity(&whole), None);
    assert_eq!(first_without_capacity(&Vec::new()), None);
    let holed = vec![
        record("sda", "/", 10, 1),
        record("none", "/proc", 0, 0),
        record("none", "/sys", 0, 0),
    ];
    assert_eq!(first_without_capacity(&holed), Some(1));
}

#[test]
fn one_disk_with_two_partitions() {
    let records = vec![
        record("diskA", "/", 100_000_000_000, 10_000_000_000),
        record("diskA", "/boot", 1_000_000_000, 900_000_000),
    ];
    let lines = report(&records, 80, &ansi());
    let normal = "\x1b[38;5;6m";
    let reset = "\x1b[m";
    assert_eq!(lines.len(), 3);
    assert_eq!(lines[0], "[diskA]");
    assert_eq!(
        lines[1],
        format!(
            " ├─ [/]     [{normal}{}{reset} 90.00% {normal}{}{}{reset}] [83.82 GB/93.13 GB]",
            "█".repeat(18),
            "█".repeat(14),
            "░".repeat(4),
        )
    );
    assert_eq!(
        lines[2],
        format!(
            " └─ [/boot] [{normal}{}{}{reset} 10.00% {normal}{}{reset}] [95.37 MB/953.67 MB]",
            "█".repeat(5),
            "░".repeat(12),
            "░".repeat(17),
        )
    );
    assert!(lines[1].chars().count() >= 80);
    assert!(lines[2].chars().count() >= 80);
    assert!(!lines[1].contains("\x1b[38;5;1m"));
    assert!(!lines[2].contains("\x1b[38;5;1m"));
}

#[test]
fn rows_without_colour_are_padded_to_the_terminal_width() {
    let records = vec![
        record("diskA", "/", 100_000_000_000, 10_000_000_000),
        record("diskA", "/boot", 1_000_000_000, 900_000_000),
    ];
    let lines = report(&records, 80, &plain());
    assert_eq!(
        lines[1],
        format!(
            " ├─ [/]     [{} 90.00% {}{}] [83.82 GB/93.13 GB]  ",
            "█".repeat(18),
            "█".repeat(14),
            "░".repeat(4),
        )
    );
    assert_eq!(lines[1].chars().count(), 80);
    assert_eq!(lines[2].chars().count(), 80);
    assert!(lines[2].ends_with("░] [95.37 MB/953.67 MB]   "));
}

#[test]
fn just_above_ninety_percent_is_drawn_in_the_alert_colour() {
    let records = vec![record("diskA", "/", 100_000_000_000, 9_999_999_999)];
    let lines = report(&records, 80, &ansi());
    assert!(lines[1].starts_with(" └─ [/] [\x1b[38;5;1m█"));
    assert!(lines[1].contains(" 90.00% "));
    assert!(!lines[1].contains("\x1b[38;5;6m"));
}

#[test]
fn a_row_that_is_too_long_is_not_cut() {
    let line = partition_line(
        &record("sda", "/a/very/long/mount/point", 2048, 1024),
        true,
        &AlignmentMetrics { mount_point_width: 24, disk_name_width: 3 },
        10,
        &plain(),
    );
    assert_eq!(line, " └─ [/a/very/long/mount/point] [ 50.00% ] [1.00 KB/2.00 KB]");
}

#[test]
fn each_disk_has_its_block() {
    let records = vec![
        record("sda", "/", 4096, 1024),
        record("sdb", "/data", 4096, 4096),
        record("sda", "/home", 4096, 0),
    ];
    let lines = report(&records, 60, &plain());
    assert_eq!(lines.len(), 5);
    assert_eq!(lines[0], "[sda]");
    assert!(lines[1].starts_with(" ├─ [/]     ["));
    assert!(lines[1].contains(" 75.00% "));
    assert!(lines[2].starts_with(" └─ [/home] ["));
    assert!(lines[2].contains(" 100% "));
    assert_eq!(lines[3], "[sdb]");
    assert!(lines[4].starts_with(" └─ [/data] ["));
    assert!(lines[4].contains(" 0.00% "));
}

#[test]
fn a_report_is_the_blocks_of_its_groups() {
    let records = vec![
        record("sda", "/", 4096, 1024),
        record("sdb", "/data", 4096, 4096),
        record("sda", "/home", 4096, 0),
    ];
    let palette = ansi();
    let (groups, metrics) = group(&records);
    let mut blocks: Vec<String> = Vec::new();
    for disk in &groups {
        blocks.extend(group_lines(disk, &metrics, 72, &palette));
    }
    assert_eq!(report_lines(&groups, &metrics, 72, &palette), blocks);
    assert_eq!(report(&records, 72, &palette), blocks);
    assert_eq!(group_lines(&groups[1], &metrics, 72, &palette).len(), 2);
}

#[test]
fn no_records_make_an_empty_report() {
    assert!(report(&Vec::new(), 80, &ansi()).is_empty());
}

#[test]
fn reporting_twice_gives_the_same_lines() {
    let records = vec![
        record("sda", "/", 500_107_862_016, 123_456_789_012),
        record("sda", "/boot", 535_805_952, 400_000_000),
    ];
    assert_eq!(report(&records, 100, &ansi()), report(&records, 100, &ansi()));
}

#[test]
fn rows_agree_with_double_precision() {
    let palette = ansi();
    let mut seed: u64 = 0x9e3779b97f4a7c15;
    for round in 0..20000 {
        seed ^= seed << 13;
        seed ^= seed >> 7;
        seed ^= seed << 17;
        let total = 1 + (seed >> 20) % 2_000_000_000_000;
        seed ^= seed << 13;
        seed ^= seed >> 7;
        seed ^= seed << 17;
        let available = (seed >> 11) % (total + 1);
        let term_width = 60 + (round % 140) as usize;
        let metrics = AlignmentMetrics { mount_point_width: 9, disk_name_width: 4 };
        let last = round % 3 == 0;
        let line = partition_line(
            &record("sda", "/mnt/data", total, available),
            last,
            &metrics,
            term_width,
            &palette,
        );
        let expected = row_by_doubles("/mnt/data", total, available, last, 9, term_width);
        assert_eq!(line, expected, "total {} available {} width {}", total, available, term_width);
    }
}
