use tonglan::detect::{detect_pattern, DirEntry};
use tonglan::reports::{
    build_regex, file_regex_source, parse_i32_exec, parse_u32_exec, scan_report_files,
    summarize_reports, ReportFile, ReportInfo,
};

fn file(name: &str, size: u64) -> ReportFile {
    ReportFile {
        name: name.to_string(),
        path: format!("/reports/{}", name),
        is_file: true,
        size,
        size_display: format!("{} B", size),
    }
}

fn report(date: &str, year: i32, month: u32, day: u32, size: u64) -> ReportInfo {
    ReportInfo {
        filename: format!("r_{}.html", date),
        path: format!("/r/r_{}.html", date),
        date: date.to_string(),
        year,
        month,
        day,
        size,
        size_display: String::new(),
    }
}

#[test]
fn test_build_regex_basic() {
    let re = build_regex("{name}_{YYYY}{MM}{DD}.html", "通览").unwrap();
    assert!(re.is_match("通览_20260623.html"));
    assert!(!re.is_match("科技新闻周报_20260623.html"));
}

#[test]
fn test_build_regex_literal_name() {
    let re = build_regex("科技新闻周报_{YYYY}{MM}{DD}.html", "通览").unwrap();
    assert!(re.is_match("科技新闻周报_20260623.html"));
    assert!(!re.is_match("通览_20260623.html"));
}

#[test]
fn test_build_regex_md() {
    let re = build_regex("{name}_{YYYY}{MM}{DD}.md", "news").unwrap();
    assert!(re.is_match("news_20260623.md"));
    assert!(!re.is_match("news_20260623.html"));
}

#[test]
fn test_file_regex_source_escapes() {
    assert_eq!(
        file_regex_source("{name}_{YYYY}{MM}{DD}.html", "a.b"),
        "^a\\.b_(\\d{4})(\\d{2})(\\d{2})\\.html$"
    );
    assert_eq!(file_regex_source("{YY}-{MM}-{DD}", "x"), "^(\\d{2})-(\\d{2})-(\\d{2})$");
    assert_eq!(file_regex_source("a{other}b", "x"), "^a{other}b$");
    assert_eq!(file_regex_source("a{open", "x"), "^a{open}$");
    assert_eq!(file_regex_source("{name}", "a-b#c~d/e"), "^a\\-b\\#c\\~d/e$");
}

#[test]
fn test_build_regex_invalid_pattern() {
    let err = build_regex("report_{foo}.html", "x").err().unwrap();
    assert!(err.starts_with("Invalid file pattern: "));
    assert!(err.len() > "Invalid file pattern: ".len());
}

#[test]
fn test_parse_numbers() {
    assert_eq!(parse_u32_exec("23"), Some(23));
    assert_eq!(parse_u32_exec("+7"), Some(7));
    assert_eq!(parse_u32_exec("-1"), None);
    assert_eq!(parse_u32_exec(""), None);
    assert_eq!(parse_u32_exec("4294967295"), Some(4294967295));
    assert_eq!(parse_u32_exec("4294967296"), None);
    assert_eq!(parse_i32_exec("-5"), Some(-5));
    assert_eq!(parse_i32_exec("2026"), Some(2026));
    assert_eq!(parse_i32_exec("-2147483648"), Some(-2147483648));
    assert_eq!(parse_i32_exec("2147483648"), None);
    assert_eq!(parse_i32_exec("1a"), None);
}

#[test]
fn test_scan_reports() {
    let files = vec![
        file("科技新闻周报_20260623.html", 30),
        file("科技新闻周报_20260620.html", 30),
        file("科技新闻周报_20260515.html", 30),
    ];
    let result = scan_report_files(&files, "科技新闻周报_{YYYY}{MM}{DD}.html", "通览")
        .unwrap()
        .unwrap();
    assert_eq!(result.total_count, 3);
    assert_eq!(result.reports.len(), 3);
    assert_eq!(result.reports[0].filename, "科技新闻周报_20260623.html");
    assert_eq!(result.reports[0].year, 2026);
    assert_eq!(result.reports[0].month, 6);
    assert_eq!(result.reports[0].day, 23);
    assert_eq!(result.reports[2].filename, "科技新闻周报_20260515.html");
    assert_eq!(result.years, vec![2026]);
    assert_eq!(result.latest_date, "2026-06-23");
    assert_eq!(result.earliest_date, "2026-05-15");
    assert_eq!(result.total_size, 90);
    assert_eq!(
        result.months,
        vec![("2026年 五月".to_string(), 5), ("2026年 六月".to_string(), 6)]
    );
}

#[test]
fn test_scan_reports_with_name_placeholder() {
    let files = vec![file("通览_20260627.html", 17)];
    let result = scan_report_files(&files, "{name}_{YYYY}{MM}{DD}.html", "通览").unwrap().unwrap();
    assert_eq!(result.total_count, 1);
    assert_eq!(result.reports[0].filename, "通览_20260627.html");
    assert_eq!(result.reports[0].date, "2026-06-27");
    assert_eq!(result.reports[0].path, "/reports/通览_20260627.html");
}

#[test]
fn test_scan_reports_empty_dir() {
    let files: Vec<ReportFile> = Vec::new();
    let result = scan_report_files(&files, "{name}_{YYYY}{MM}{DD}.html", "通览").unwrap().unwrap();
    assert_eq!(result.total_count, 0);
    assert_eq!(result.total_size, 0);
    assert!(result.years.is_empty());
    assert!(result.months.is_empty());
    assert_eq!(result.earliest_date, "");
    assert_eq!(result.latest_date, "");
}

#[test]
fn test_scan_reports_skips_others() {
    let mut dir = file("r_20260101.html", 1);
    dir.is_file = false;
    let files = vec![
        dir,
        file("r_20260000.html", 1),
        file("notes.txt", 1),
        file("r_20260102.html", 5),
    ];
    let result = scan_report_files(&files, "r_{YYYY}{MM}{DD}.html", "x").unwrap().unwrap();
    assert_eq!(result.total_count, 1);
    assert_eq!(result.reports[0].filename, "r_20260102.html");
}

#[test]
fn test_scan_reports_two_digit_year() {
    let files = vec![file("r_260301.html", 1)];
    let result = scan_report_files(&files, "r_{YY}{MM}{DD}.html", "x").unwrap().unwrap();
    assert_eq!(result.reports[0].year, 2026);
    assert_eq!(result.reports[0].date, "2026-03-01");
}

#[test]
fn test_scan_reports_bad_month_is_refused() {
    let files = vec![file("r_20261301.html", 1)];
    assert!(scan_report_files(&files, "r_{YYYY}{MM}{DD}.html", "x").unwrap().is_none());
}

#[test]
fn test_scan_reports_invalid_pattern() {
    let files = vec![file("r_20260101.html", 1)];
    let err = scan_report_files(&files, "r_{foo}.html", "x").err().unwrap();
    assert!(err.starts_with("Invalid file pattern: "));
}

#[test]
fn test_summary_years_and_months() {
    let found = vec![
        report("2025-12-01", 2025, 12, 1, 1),
        report("2026-02-03", 2026, 2, 3, 2),
        report("2025-03-09", 2025, 3, 9, 3),
        report("2026-02-10", 2026, 2, 10, 4),
        report("2025-12-20", 2025, 12, 20, 5),
    ];
    let d = summarize_reports(&found);
    assert_eq!(d.total_count, 5);
    assert_eq!(d.total_size, 15);
    assert_eq!(d.total_size_display, "");
    assert_eq!(d.years, vec![2025, 2026]);
    assert_eq!(
        d.months,
        vec![
            ("2025年 三月".to_string(), 3),
            ("2025年 十二月".to_string(), 12),
            ("2026年 二月".to_string(), 2),
        ]
    );
    let dates: Vec<&str> = d.reports.iter().map(|r| r.date.as_str()).collect();
    assert_eq!(dates, vec!["2026-02-10", "2026-02-03", "2025-12-20", "2025-12-01", "2025-03-09"]);
    assert_eq!(d.latest_date, "2026-02-10");
    assert_eq!(d.earliest_date, "2025-03-09");
}

#[test]
fn test_summary_keeps_order_of_equal_dates() {
    let mut a = report("2026-01-01", 2026, 1, 1, 1);
    a.filename = "first.html".to_string();
    let mut b = report("2026-01-01", 2026, 1, 1, 1);
    b.filename = "second.html".to_string();
    let c = report("2026-01-02", 2026, 1, 2, 1);
    let d = summarize_reports(&vec![a, b, c]);
    let names: Vec<&str> = d.reports.iter().map(|r| r.filename.as_str()).collect();
    assert_eq!(names, vec!["r_2026-01-02.html", "first.html", "second.html"]);
}

fn entry(name: &str, is_file: bool) -> DirEntry {
    DirEntry { name: name.to_string(), is_file }
}

#[test]
fn test_detect_pattern_underscore() {
    let entries = vec![
        entry("news_20260601.html", true),
        entry("news_20260608.html", true),
        entry(".hidden_20260601.html", true),
        entry("readme.txt", true),
    ];
    assert_eq!(detect_pattern(&entries), Some("news_{YYYY}{MM}{DD}.html".to_string()));
}

#[test]
fn test_detect_pattern_dashes() {
    let entries = vec![entry("r-2026-06-01.md", true), entry("r-2026-06-08.md", true)];
    assert_eq!(detect_pattern(&entries), Some("r-{YYYY}-{MM}-{DD}.md".to_string()));
}

#[test]
fn test_detect_pattern_date_first() {
    let entries = vec![entry("20260601_weekly.html", true), entry("20260608_weekly.html", true)];
    assert_eq!(detect_pattern(&entries), Some("{YYYY}{MM}{DD}_weekly.html".to_string()));
    let news = vec![entry("20260623_news.html", true), entry("20260620_news.html", true)];
    assert_eq!(detect_pattern(&news), Some("{YYYY}{MM}{DD}_news.html".to_string()));
}

#[test]
fn test_detect_pattern_needs_two_matches() {
    let entries = vec![entry("news_20260601.html", true), entry("notes.txt", true)];
    assert_eq!(detect_pattern(&entries), None);
    let hidden = vec![entry(".a_20260601.html", true), entry(".b_20260602.html", true)];
    assert_eq!(detect_pattern(&hidden), None);
    let dirs = vec![entry("a_20260601.html", false), entry("b_20260602.html", false)];
    assert_eq!(detect_pattern(&dirs), None);
    let none: Vec<DirEntry> = Vec::new();
    assert_eq!(detect_pattern(&none), None);
}
