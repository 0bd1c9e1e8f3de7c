use log_analyzer::chart_font::{
    assumed_windows_font, is_chinese_codepage, lang_is_chinese, linux_font_candidates, macos_font_choice,
    text_mentions_zh, windows_font_candidates, windows_font_files, FontChoice,
};
use log_analyzer::cli::detect_locale;
use log_analyzer::plugins::{find_plugin, ArmDecisionAnalyzer, MasterControlAnalyzer};

fn names(v: &[FontChoice]) -> Vec<(bool, String)> {
    v.iter()
        .map(|c| match c {
            FontChoice::Chinese(n) => (true, n.clone()),
            FontChoice::English(n) => (false, n.clone()),
        })
        .collect()
}

#[test]
fn linux_candidates_follow_the_cjk_listing() {
    let listing = "/usr/share/fonts/noto/NotoSansCJK.ttc: Noto Sans CJK SC:style=Regular\n/usr/share/fonts/wqy.ttc: WenQuanYi Zen Hei\n";
    assert_eq!(
        names(&linux_font_candidates(listing)),
        vec![
            (true, "Noto Sans CJK SC".to_string()),
            (true, "Noto Sans CJK".to_string()),
            (true, "WenQuanYi Zen Hei".to_string()),
            (false, "DejaVu Sans".to_string()),
            (false, "Liberation Sans".to_string()),
            (false, "Noto Sans".to_string()),
        ]
    );
    assert_eq!(
        names(&linux_font_candidates(" \n\t")),
        vec![
            (false, "DejaVu Sans".to_string()),
            (false, "Liberation Sans".to_string()),
            (false, "Noto Sans".to_string()),
        ]
    );
}

#[test]
fn windows_candidates_and_font_files() {
    let zh = names(&windows_font_candidates(true));
    assert_eq!(zh.len(), 8);
    assert_eq!(zh[0], (true, "Microsoft YaHei".to_string()));
    assert_eq!(zh[5], (false, "Segoe UI".to_string()));
    assert_eq!(names(&windows_font_candidates(false))[0], (false, "Segoe UI".to_string()));
    assert_eq!(windows_font_files("Microsoft YaHei"), vec!["msyh.ttc", "msyh.ttf", "msyhbd.ttc"]);
    assert_eq!(windows_font_files("KaiTi"), vec!["simkai.ttf"]);
    assert!(windows_font_files("Comic Sans").is_empty());
    assert!(assumed_windows_font("SimHei"));
    assert!(!assumed_windows_font("SimSun"));
}

#[test]
fn language_detection() {
    assert!(lang_is_chinese("zh_CN.UTF-8"));
    assert!(lang_is_chinese("Chinese"));
    assert!(!lang_is_chinese("en_US.UTF-8"));
    assert!(text_mentions_zh("ZH-CN\r\n"));
    assert!(!text_mentions_zh("en-US"));
    assert!(is_chinese_codepage("活动代码页: 936"));
    assert!(!is_chinese_codepage("Active code page: 65001"));
    assert!(matches!(macos_font_choice(true), FontChoice::Chinese(n) if n == "PingFang SC"));
    assert!(matches!(macos_font_choice(false), FontChoice::English(n) if n == "Helvetica Neue"));
}

#[test]
fn locale_from_the_environment() {
    assert_eq!(detect_locale(Some("en_US.UTF-8")), "en");
    assert_eq!(detect_locale(Some("zh_CN.UTF-8")), "zh-CN");
    assert_eq!(detect_locale(Some("fr_FR")), "zh-CN");
    assert_eq!(detect_locale(None), "zh-CN");
}

#[test]
fn lib_test_plugin_metadata() {
    let meta = ArmDecisionAnalyzer.metadata();
    assert_eq!(meta.name.as_str(), "arm-decision-analyzer");
    assert!(meta.supported_extensions.iter().any(|ext| ext.as_str() == ".log"));
    let meta = MasterControlAnalyzer.metadata();
    assert_eq!(meta.name.as_str(), "master-control-analyzer");
    assert!(meta.supported_extensions.iter().any(|ext| ext.as_str() == ".log"));
}

#[test]
fn plugins_are_found_by_exact_or_unique_partial_name() {
    let names = vec![
        "arm-decision-analyzer".to_string(),
        "master-control-analyzer".to_string(),
        "master".to_string(),
    ];
    assert_eq!(find_plugin(&names, "master"), Some(2));
    assert_eq!(find_plugin(&names, "arm"), Some(0));
    assert_eq!(find_plugin(&names, "analyzer"), None);
    assert_eq!(find_plugin(&names, "control"), Some(1));
    assert_eq!(find_plugin(&names, "nav"), None);
}
