use shell_explorer::config::add_recent_file;
use shell_explorer::utils::{FileUtils, MathUtils, StringUtils, TimeUtils};

#[test]
fn test_string_truncate() {
    assert_eq!(StringUtils::truncate_with_ellipsis("hello", 5), "hello");
    assert_eq!(
        StringUtils::truncate_with_ellipsis("hello world", 8),
        "hello..."
    );
}

#[test]
fn test_filename_validation() {
    assert!(StringUtils::is_valid_filename("test.txt"));
    assert!(!StringUtils::is_valid_filename("test/txt"));
    assert!(!StringUtils::is_valid_filename(""));
}

#[test]
fn test_math_clamp() {
    assert_eq!(MathUtils::clamp(5, 0, 10), 5);
    assert_eq!(MathUtils::clamp(-1, 0, 10), 0);
    assert_eq!(MathUtils::clamp(15, 0, 10), 10);
}

#[test]
fn truncate_leaves_only_dots_when_there_is_no_room() {
    assert_eq!(StringUtils::truncate_with_ellipsis("hello world", 3), "...");
    assert_eq!(StringUtils::truncate_with_ellipsis("hello world", 0), "...");
    assert_eq!(StringUtils::truncate_with_ellipsis("hello world", 4), "h...");
}

#[test]
fn truncate_counts_bytes_not_characters() {
    // Each of the five characters takes three bytes.
    let text = "深色模式啊";
    assert_eq!(StringUtils::truncate_with_ellipsis(text, 15), text);
    assert_eq!(StringUtils::truncate_with_ellipsis(text, 9), "深色...");
    assert_eq!(StringUtils::truncate_with_ellipsis("", 0), "");
}

#[test]
fn every_reserved_character_spoils_a_filename() {
    for bad in ["a/b", "a\\b", "a:b", "a*b", "a?b", "a\"b", "a<b", "a>b", "a|b"] {
        assert!(!StringUtils::is_valid_filename(bad), "{}", bad);
    }
    assert!(StringUtils::is_valid_filename("报告 (final).txt"));
    assert!(StringUtils::is_valid_filename("."));
}

#[test]
fn blank_means_white_space_only() {
    assert!(StringUtils::is_blank(""));
    assert!(StringUtils::is_blank(" \t\r\n"));
    assert!(StringUtils::is_blank("\u{3000}\u{a0}"));
    assert!(!StringUtils::is_blank(" a "));
    assert!(!StringUtils::is_blank("_"));
}

#[test]
fn clamp_at_the_bounds() {
    assert_eq!(MathUtils::clamp(0, 0, 10), 0);
    assert_eq!(MathUtils::clamp(10, 0, 10), 10);
    assert_eq!(MathUtils::clamp(7u8, 9, 9), 9);
    assert_eq!(MathUtils::clamp('m', 'a', 'f'), 'f');
}

#[test]
fn filename_is_the_final_component() {
    assert_eq!(FileUtils::get_filename("/usr/bin/"), Some("bin".to_string()));
    assert_eq!(
        FileUtils::get_filename("tmp/foo.txt"),
        Some("foo.txt".to_string())
    );
    assert_eq!(FileUtils::get_filename("foo.txt/.."), None);
    assert_eq!(FileUtils::get_filename("/"), None);
    assert_eq!(FileUtils::get_filename(""), None);
}

#[test]
fn extension_is_lowercase_and_follows_the_last_dot() {
    assert_eq!(
        FileUtils::get_extension("/tmp/Photo.JPG"),
        Some("jpg".to_string())
    );
    assert_eq!(
        FileUtils::get_extension("archive.tar.GZ"),
        Some("gz".to_string())
    );
    assert_eq!(FileUtils::get_extension("Makefile"), None);
    assert_eq!(FileUtils::get_extension(".bashrc"), None);
    assert_eq!(FileUtils::get_extension(".config.TOML"), Some("toml".to_string()));
    assert_eq!(FileUtils::get_extension("name."), Some("".to_string()));
    assert_eq!(FileUtils::get_extension("/"), None);
}

#[test]
fn format_time_writes_utc() {
    assert_eq!(TimeUtils::format_time(0), "1970-01-01 00:00:00");
    assert_eq!(TimeUtils::format_time(1431648000), "2015-05-15 00:00:00");
    assert_eq!(TimeUtils::format_time(1_234_567_890), "2009-02-13 23:31:30");
    assert_eq!(TimeUtils::format_time(86_399), "1970-01-01 23:59:59");
}

#[test]
fn format_time_wraps_the_upper_half_to_dates_before_1970() {
    // The largest number stands for one second before the epoch.
    assert_eq!(TimeUtils::format_time(u64::MAX), "1969-12-31 23:59:59");
    assert_eq!(TimeUtils::to_signed(u64::MAX), -1);
    assert_eq!(TimeUtils::to_signed(1 << 63), i64::MIN);
    assert_eq!(TimeUtils::to_signed((1 << 63) - 1), i64::MAX);
}

#[test]
fn format_time_falls_back_to_the_epoch() {
    // Far beyond the years that can be written.
    assert_eq!(TimeUtils::format_time(i64::MAX as u64), "1970-01-01 00:00:00");
    assert_eq!(TimeUtils::format_time(1 << 63), "1970-01-01 00:00:00");
    assert_eq!(
        TimeUtils::choose_text(None, "epoch".to_string()),
        "epoch"
    );
    assert_eq!(
        TimeUtils::choose_text(Some("now".to_string()), "epoch".to_string()),
        "now"
    );
}

#[test]
fn the_clock_gives_a_time_that_formats() {
    let now = TimeUtils::current_timestamp().unwrap();
    // Later than the start of 2020.
    assert!(now > 1_577_836_800);
    let text = TimeUtils::current_time_string().unwrap();
    assert_eq!(text.len(), 19);
    assert!(text.as_str() >= "2020-01-01 00:00:00");
}

#[test]
fn recent_files_newest_first_without_repeats() {
    let mut files: Vec<String> = Vec::new();
    add_recent_file(&mut files, "a");
    add_recent_file(&mut files, "b");
    add_recent_file(&mut files, "c");
    assert_eq!(files, vec!["c", "b", "a"]);
    add_recent_file(&mut files, "a");
    assert_eq!(files, vec!["a", "c", "b"]);
    add_recent_file(&mut files, "a");
    assert_eq!(files, vec!["a", "c", "b"]);
}

#[test]
fn recent_files_keep_ten() {
    let mut files: Vec<String> = Vec::new();
    for i in 0..12 {
        add_recent_file(&mut files, &format!("f{}", i));
    }
    assert_eq!(
        files,
        vec!["f11", "f10", "f9", "f8", "f7", "f6", "f5", "f4", "f3", "f2"]
    );
    // A list that was longer and held repeats is cleaned on the next use.
    let mut long: Vec<String> = vec!["x"; 15].into_iter().map(String::from).collect();
    long.push("y".to_string());
    add_recent_file(&mut long, "z");
    assert_eq!(long, vec!["z", "x", "x", "x", "x", "x", "x", "x", "x", "x"]);
    add_recent_file(&mut long, "x");
    assert_eq!(long, vec!["x", "z"]);
}

#[test]
fn a_clock_reading_formats_and_no_reading_gives_none() {
    assert_eq!(
        TimeUtils::time_string_at(Some(1431648000)),
        Some("2015-05-15 00:00:00".to_string())
    );
    assert_eq!(
        TimeUtils::time_string_at(Some(0)),
        Some("1970-01-01 00:00:00".to_string())
    );
    assert_eq!(TimeUtils::time_string_at(None), None);
}
