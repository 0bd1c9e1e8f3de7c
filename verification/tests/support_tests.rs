use log_analyzer::chart_font::{FontChoice, FontLoader as ChartFontLoader};
use log_analyzer::remote::{parse_latest_date_dir, shell_escape, trimmed, validate_glob_pattern};
use log_analyzer::state::{format_duration, AppState, LogLevel};
use log_analyzer::text::{parse_i32_chars, parse_seconds_nanos};
use log_analyzer::visual_font::FontLoader;

#[test]
fn font_loader_test_font_loader_creation() {
    let loader = FontLoader::new(None);
    assert!(loader.is_ok());
    assert!(!loader.unwrap().is_available());
    let chart = ChartFontLoader::new(FontChoice::English("sans-serif".to_string()));
    assert!(chart.is_ok());
    assert!(!chart.unwrap().is_chinese_font());
}

#[test]
fn visual_font_loader_with_a_font() {
    let loader = FontLoader::new(Some("/opt/fonts/a.ttf".to_string())).unwrap();
    assert!(loader.is_available());
    assert_eq!(loader.font_path().map(|p| p.as_str()), Some("/opt/fonts/a.ttf"));
    assert_eq!(loader.font_family(), "Sarasa Term SC Nerd");
}

#[test]
fn chart_font_validation() {
    let chart = ChartFontLoader::new(FontChoice::Chinese("Noto Sans CJK SC".to_string())).unwrap();
    assert!(chart.is_chinese_font());
    assert_eq!(chart.font_name(), "Noto Sans CJK SC");
    assert!(chart.validate(true).is_ok());
    let err = chart.validate(false).unwrap_err();
    assert!(err.starts_with("字体 'Noto Sans CJK SC' 无法渲染"));
}

#[test]
fn seconds_and_signed_numbers() {
    let cs: Vec<char> = "12.5".chars().collect();
    assert_eq!(parse_seconds_nanos(&cs, 0, cs.len()), Some(12_500_000_000));
    let cs: Vec<char> = ".25".chars().collect();
    assert_eq!(parse_seconds_nanos(&cs, 0, cs.len()), Some(250_000_000));
    let cs: Vec<char> = "1.2.3".chars().collect();
    assert_eq!(parse_seconds_nanos(&cs, 0, cs.len()), None);
    let cs: Vec<char> = ".".chars().collect();
    assert_eq!(parse_seconds_nanos(&cs, 0, cs.len()), None);
    let cs: Vec<char> = "-2147483648".chars().collect();
    assert_eq!(parse_i32_chars(&cs, 0, cs.len()), Some(i32::MIN));
    let cs: Vec<char> = "2147483648".chars().collect();
    assert_eq!(parse_i32_chars(&cs, 0, cs.len()), None);
    let cs: Vec<char> = "+17".chars().collect();
    assert_eq!(parse_i32_chars(&cs, 0, cs.len()), Some(17));
}

#[test]
fn shell_and_listing_helpers() {
    assert_eq!(shell_escape("a'b"), "'a'\\''b'");
    assert!(validate_glob_pattern("*.log").is_ok());
    assert!(validate_glob_pattern("").is_err());
    assert!(validate_glob_pattern("a;rm").is_err());
    assert_eq!(parse_latest_date_dir("  /data/20250101\n").as_deref(), Some("/data/20250101"));
    assert!(parse_latest_date_dir(" \n").is_none());
    assert_eq!(trimmed("\t x y \n"), "x y");
}

#[test]
fn app_state_keeps_the_last_thousand_logs() {
    let mut s = AppState::new();
    for i in 0..1005 {
        s.add_log(LogLevel::Info, format!("m{}", i));
    }
    let all = s.all_logs();
    assert_eq!(all.len(), 1000);
    assert_eq!(all[0].message, "m5");
    let last = s.logs(2);
    assert_eq!(last.len(), 2);
    assert_eq!(last[1].message, "m1004");
}

#[test]
fn durations_are_formatted() {
    assert_eq!(format_duration(59), "59秒");
    assert_eq!(format_duration(125), "2分5秒");
    assert_eq!(format_duration(3660), "1时1分");
}

#[test]
fn trimming_takes_unicode_white_space() {
    assert_eq!(trimmed("\u{3000}\u{85} x y\u{2009}\t"), "x y");
    assert_eq!(trimmed("\u{200B}x"), "\u{200B}x");
}
