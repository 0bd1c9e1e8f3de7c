use log_analyzer::arm_decision::{build_arm_csv_records, ArmDecisionModule, ArmDecisionTask};
use log_analyzer::chart_style::{
    extract_short_module_name, find_action_state_suffix, gantt_file_name, get_action_color, get_substep_color,
    is_splittable, round_number_width,
};
use log_analyzer::cli::{default_outdir, normalize_locale, Args};
use log_analyzer::config::{AnalyzerConfig, AnalyzerMapping, ConfigError};
use log_analyzer::export::timestamp_to_beijing_time;
use log_analyzer::intervals::{compressed_time, paused_time_before, PauseEvent};
use log_analyzer::remote::parse_file_listing;
use log_analyzer::rounds::{completed_normal_durations, CycleType, Round};

#[test]
fn action_colors() {
    assert_eq!(get_action_color("navigation"), (173, 216, 230));
    assert_eq!(get_action_color("nav"), (173, 216, 230));
    assert_eq!(get_action_color("gripper"), (240, 230, 140));
    assert_eq!(get_action_color("unknown"), (192, 192, 192));
}

#[test]
fn phase_colors() {
    assert_eq!(get_substep_color("开始执行", 3), (100, 149, 237));
    assert_eq!(get_substep_color("执行完成，结果: 1", 0), (34, 139, 34));
    assert_eq!(get_substep_color("发送导航目标", 0), (255, 165, 0));
    assert_eq!(get_substep_color("GetReadyPoseAction 开始", 0), (135, 206, 250));
    assert_eq!(get_substep_color("GetReadyPoseAction 开始", 1), (176, 224, 230));
    assert_eq!(get_substep_color("xyz", 7), (255, 218, 185));
}

#[test]
fn short_module_names() {
    assert_eq!(extract_short_module_name("ExecuteGripperMotionAction (0.51s)"), ("夹爪".to_string(), "0.51s".to_string()));
    assert_eq!(extract_short_module_name("GetReadyPoseAction 开始"), ("准备▶".to_string(), String::new()));
    assert_eq!(extract_short_module_name("Foo 完成 完成"), ("Foo✓".to_string(), String::new()));
    assert_eq!(extract_short_module_name("VeryLongUnknownModule"), ("VeryLong".to_string(), String::new()));
    assert_eq!(find_action_state_suffix("ModifyArmObstacleAction"), Some("障碍"));
    assert_eq!(find_action_state_suffix("Other"), None);
    assert!(is_splittable("a (1s)"));
    assert!(!is_splittable("a ("));
    assert!(is_splittable("no paren"));
}

#[test]
fn chart_file_names() {
    assert_eq!(round_number_width(5), 1);
    assert_eq!(round_number_width(10), 2);
    assert_eq!(round_number_width(120), 3);
    assert_eq!(gantt_file_name("out", 7, 3), "out/round_007_gantt.png");
    assert_eq!(gantt_file_name("out", 1234, 2), "out/round_1234_gantt.png");
}

#[test]
fn locale_and_args() {
    assert_eq!(normalize_locale("EN_us"), "en");
    assert_eq!(normalize_locale("zh_CN.UTF-8"), "zh-CN");
    assert_eq!(normalize_locale("fr"), "zh-CN");
    assert_eq!(default_outdir(), "output");
    let a = Args::for_log("x.log".to_string());
    assert_eq!(a.outdir, "output");
    assert_eq!(a.log, "x.log");
}

#[test]
fn beijing_time() {
    assert_eq!(timestamp_to_beijing_time(0), "1970-01-01 08:00:00");
    assert_eq!(timestamp_to_beijing_time(1_756_803_704_695_000_000), "2025-09-02 17:01:44");
}

#[test]
fn path_join() {
    let files = parse_file_listing("/var/log", "a.log|12|34\n\nbad line\nb.log|x|5\n");
    assert_eq!(files.len(), 2);
    assert_eq!(files[0].path, "/var/log/a.log");
    assert_eq!(files[0].name, "a.log");
    assert_eq!(files[0].size, 12);
    assert_eq!(files[0].mtime, 34);
    assert_eq!(files[1].path, "/var/log/b.log");
    assert_eq!(files[1].size, 0);
    assert_eq!(files[1].mtime, 5);
}

#[test]
fn compressed_axis_leaves_out_pauses() {
    let pauses = vec![
        PauseEvent { pause_ts: 10, resume_ts: Some(20) },
        PauseEvent { pause_ts: 15, resume_ts: Some(30) },
    ];
    assert_eq!(paused_time_before(&pauses, 18), 8);
    assert_eq!(paused_time_before(&pauses, 40), 20);
    assert_eq!(compressed_time(&pauses, 0, 5), 5);
    assert_eq!(compressed_time(&pauses, 0, 50), 30);
    assert_eq!(compressed_time(&pauses, 12, 50), 20);
}

fn round(id: usize, ct: CycleType, start: i64, end: Option<i64>) -> Round {
    Round {
        id,
        loop_number: Some(1),
        cycle_type: ct,
        layer_index: 0,
        start_ts: start,
        end_ts: end,
        pose0: None,
        pose6: None,
        pause_events: vec![PauseEvent { pause_ts: start + 1, resume_ts: Some(start + 3) }],
    }
}

#[test]
fn normal_cycle_durations() {
    let rounds = vec![
        round(1, CycleType::Initial, 0, Some(10)),
        round(2, CycleType::Normal(1), 10, Some(30)),
        round(3, CycleType::Normal(2), 30, None),
        round(4, CycleType::Final, 40, Some(50)),
    ];
    assert_eq!(completed_normal_durations(&rounds), vec![18]);
}

#[test]
fn arm_records_one_row_per_module() {
    let module = ArmDecisionModule {
        name: "M".to_string(),
        cmd_code: Some(1),
        start_ts: 12,
        end_ts: Some(15),
        cost: None,
        status: "ok".to_string(),
    };
    let t1 = ArmDecisionTask {
        start_ts: 10,
        end_ts: Some(20),
        body_task_start_ts: None,
        body_task_end_ts: None,
        task_type: Some(3),
        result_status: Some(0),
        result_message: None,
        modules: vec![module.clone(), module],
    };
    let mut t2 = t1.clone();
    t2.modules.clear();
    t2.end_ts = None;
    let rows = build_arm_csv_records(&vec![t1, t2], 5);
    assert_eq!(rows.len(), 3);
    assert_eq!(rows[0].task_start_rel, 5);
    assert_eq!(rows[1].module_index, 1);
    assert_eq!(rows[1].module_duration, Some(3));
    assert_eq!(rows[2].module_name, "(no modules)");
    assert_eq!(rows[2].module_status, "n/a");
    assert_eq!(rows[2].task_index, 1);
    assert_eq!(rows[2].module_end_rel, None);
}

#[test]
fn configuration_defaults_merge_and_validation() {
    let base = AnalyzerConfig::default();
    assert!(base.validate().is_ok());
    assert_eq!(base.analyzers.len(), 1);
    let mut other = AnalyzerConfig::default();
    other.analyzers.push(AnalyzerMapping {
        name: "nav".to_string(),
        pattern: "nav_*.log".to_string(),
        plugin: "nav-analyzer".to_string(),
        description: String::new(),
        enabled: true,
        required: false,
        is_primary: false,
        priority: 1,
        config: None,
    });
    let merged = base.merge(other);
    assert_eq!(merged.analyzers.len(), 2);
    assert_eq!(merged.analyzers[1].name, "nav");
    let mut bad = AnalyzerConfig::default();
    bad.analyzers.clear();
    match bad.validate() {
        Err(e) => assert_eq!(e.message(), "配置验证失败: 至少需要一个分析器映射"),
        Ok(()) => panic!("an empty mapping list is refused"),
    }
    assert_eq!(ConfigError::FileNotFound("a.yaml".to_string()).message(), "配置文件不存在: a.yaml");
}

#[test]
fn merge_keeps_the_first_multi_file_settings() {
    let mut a = AnalyzerConfig::default();
    a.multi_file.enabled = true;
    let mut b = AnalyzerConfig::default();
    b.multi_file.auto_patterns.push("x_*.log".to_string());
    b.multi_file.alignment.primary_source = "other".to_string();
    let m = a.merge(b);
    assert!(m.multi_file.enabled);
    assert_eq!(m.multi_file.auto_patterns, vec!["master_control_*.log".to_string()]);
    assert_eq!(m.multi_file.alignment.primary_source, "master-control");
    assert_eq!(m.multi_file.track_priority.len(), 5);
    assert_eq!(m.multi_file.track_priority[2], ("Arm".to_string(), 2));
}
