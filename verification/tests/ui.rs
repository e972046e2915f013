use std::collections::HashSet;

use caesar::app::{DirEntry, Mode};
use caesar::ui::{
    format_entry, format_size, pane_highlights, status_bar, status_line, truncate_path,
    EntryHighlight, SpanStyle, StatusBar,
};

fn entry(name: &str, path: &str, is_dir: bool, size: u64) -> DirEntry {
    DirEntry { name: name.to_string(), path: path.to_string(), is_dir, size, modified: None }
}

fn line_text(e: &DirEntry) -> String {
    format_entry(e).iter().map(|s| s.text.as_str()).collect()
}

/// The same size text, computed with floating point.
fn float_size(bytes: u64) -> String {
    const KB: u64 = 1_024;
    const MB: u64 = 1_024 * KB;
    const GB: u64 = 1_024 * MB;
    if bytes >= GB {
        format!("{:.1}G", bytes as f64 / GB as f64)
    } else if bytes >= MB {
        format!("{:.1}M", bytes as f64 / MB as f64)
    } else if bytes >= KB {
        format!("{:.1}K", bytes as f64 / KB as f64)
    } else {
        format!("{}B", bytes)
    }
}

#[test]
fn format_size_bytes() {
    assert_eq!(format_size(0), "0B");
    assert_eq!(format_size(512), "512B");
}

#[test]
fn format_size_kilobytes() {
    assert_eq!(format_size(1_024), "1.0K");
    assert_eq!(format_size(2_048), "2.0K");
}

#[test]
fn format_size_megabytes() {
    assert_eq!(format_size(1_048_576), "1.0M");
}

#[test]
fn format_size_gigabytes() {
    assert_eq!(format_size(1_073_741_824), "1.0G");
}

#[test]
fn format_size_rounds_ties_to_even() {
    assert_eq!(format_size(1_280), "1.2K");
    assert_eq!(format_size(1_536), "1.5K");
    assert_eq!(format_size(1_792), "1.8K");
    assert_eq!(format_size(1_023), "1023B");
    assert_eq!(format_size(1_048_575), "1024.0K");
}

#[test]
fn format_size_matches_floating_point() {
    let mut samples: Vec<u64> = (0..5000).collect();
    for shift in 0..64u32 {
        let p = 1u64 << shift;
        samples.extend([p - 1, p, p + 1, p.wrapping_mul(3) / 2, p / 10 * 9, p / 20 * 21]);
    }
    samples.extend([u64::MAX, u64::MAX - 1, u64::MAX / 3, (1u64 << 53) + 1, (1u64 << 63) + 4097]);
    let mut x: u64 = 0x9E37_79B9_7F4A_7C15;
    for _ in 0..20000 {
        x ^= x << 13;
        x ^= x >> 7;
        x ^= x << 17;
        samples.push(x);
        samples.push(x >> (x % 64));
    }
    for b in samples {
        assert_eq!(format_size(b), float_size(b), "size {}", b);
    }
}

#[test]
fn format_entry_dir_appends_slash() {
    let e = entry("docs", "/tmp/docs", true, 0);
    let text = line_text(&e);
    assert!(text.contains("docs/"), "directory entry must end with /");
}

#[test]
fn format_entry_file_no_slash() {
    let e = entry("readme.txt", "/tmp/readme.txt", false, 1_024);
    let text = line_text(&e);
    assert!(!text.contains("readme.txt/"), "file entry must not end with /");
    assert!(text.contains("1.0K"), "file entry must show size");
}

#[test]
fn format_entry_dir_has_no_size() {
    let e = entry("bin", "/usr/bin", true, 4096);
    let text = line_text(&e);
    assert!(!text.contains("4.0K"), "directory must not display its size");
}

#[test]
fn format_entry_pieces() {
    let d = format_entry(&entry("src", "/p/src", true, 0));
    assert_eq!(d.len(), 1);
    assert_eq!(d[0].text, "src/");
    assert_eq!(d[0].style, SpanStyle::Directory);
    let f = format_entry(&entry("a.rs", "/p/a.rs", false, 10));
    assert_eq!(f.len(), 2);
    assert_eq!(f[0].text, format!("{:<35}", "a.rs"));
    assert_eq!(f[0].style, SpanStyle::Plain);
    assert_eq!(f[1].text, "10B");
    let long = "x".repeat(40);
    let g = format_entry(&entry(&long, "/p/x", false, 0));
    assert_eq!(g[0].text, long);
    let wide = format_entry(&entry("ééé", "/p/e", false, 0));
    assert_eq!(wide[0].text, format!("{:<35}", "ééé"));
}

#[test]
fn truncate_path_short_string_unchanged() {
    let path = "/home/user";
    assert_eq!(truncate_path(path, 80), path);
}

#[test]
fn truncate_path_long_string_has_ellipsis() {
    let path = "/very/long/path/that/exceeds/the/available/width/by/a/lot";
    let result = truncate_path(path, 20);
    assert!(result.starts_with("..."));
}

#[test]
fn truncate_path_keeps_the_tail() {
    let path = "/very/long/path/that/exceeds/the/available/width/by/a/lot";
    assert_eq!(truncate_path(path, 20), "...idth/by/a/lot");
    assert_eq!(truncate_path(path, 20).len(), 16);
    assert_eq!(truncate_path(path, 5), "...");
    assert_eq!(truncate_path("/abcd", 9), "/abcd");
    assert_eq!(truncate_path("/abcde", 9), "...de");
}

#[test]
fn status_line_pads_to_width() {
    assert_eq!(status_line("/home", "NORMAL", 20), "/home         NORMAL");
    assert_eq!(status_line("/home/user/projects", "NORMAL", 20), "...r/projects NORMAL");
    assert_eq!(status_line("/a", "VISUAL", 0), "...VISUAL");
}

#[test]
fn status_bar_prompts() {
    match status_bar(Mode::Command, None, "wq", "/x", 10) {
        StatusBar::Prompt(p) => assert_eq!(p, ":wq"),
        _ => panic!("command mode shows the prompt"),
    }
    match status_bar(Mode::Normal, Some("foo"), "", "/x", 10) {
        StatusBar::Prompt(p) => assert_eq!(p, "/foo"),
        _ => panic!("search shows its prompt"),
    }
    match status_bar(Mode::Command, None, "q", "/éé", 12) {
        StatusBar::Prompt(p) => assert_eq!(p, ":q"),
        _ => panic!("command mode shows the prompt"),
    }
    match status_bar(Mode::Normal, Some("é"), "", "/éé", 12) {
        StatusBar::Prompt(p) => assert_eq!(p, "/é"),
        _ => panic!("search shows its prompt"),
    }
    match status_bar(Mode::Insert, None, "", "/x", 10) {
        StatusBar::Status(s) => assert_eq!(s, "/x  INSERT"),
        _ => panic!("normal status expected"),
    }
}

#[test]
fn highlights_follow_visual_selection_and_search() {
    let selection: HashSet<usize> = [4].into_iter().collect();
    let marks = pane_highlights(6, true, Mode::Visual, 1..3, &selection, &[2, 5]);
    assert_eq!(
        marks,
        vec![
            EntryHighlight::Plain,
            EntryHighlight::Marked,
            EntryHighlight::Marked,
            EntryHighlight::Plain,
            EntryHighlight::Marked,
            EntryHighlight::SearchMatch,
        ]
    );
    let normal = pane_highlights(3, true, Mode::Normal, 0..3, &HashSet::new(), &[]);
    assert_eq!(normal, vec![EntryHighlight::Plain; 3]);
    let inactive = pane_highlights(3, false, Mode::Visual, 0..3, &selection, &[0, 1]);
    assert_eq!(inactive, vec![EntryHighlight::Plain; 3]);
}

#[test]
fn truncate_path_fits_from_three_columns_on() {
    let path = "/very/long/path/that/exceeds/the/available/width/by/a/lot";
    for width in 3..80usize {
        assert!(truncate_path(path, width).len() <= width);
    }
    assert_eq!(truncate_path("", 0), "");
    assert_eq!(truncate_path("/ab", 2), "...");
}
