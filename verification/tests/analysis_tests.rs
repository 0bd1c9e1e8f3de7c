use log_analyzer::arm_decision::{detect_arm_decision_tasks, ArmDetector, ArmKind, ArmPatterns};
use log_analyzer::export::{action_timeline, action_type_to_display, build_action_label, build_csv_records, timeline_stats, to_rel_ms};
use log_analyzer::flows::{detect_flows, remove_spaces, ActionOperation, FlowDetector, FlowKind, FlowPatterns};
use log_analyzer::intervals::{merge_pause_intervals, merged_pause_duration, PauseEvent};
use log_analyzer::logs::{parse_arm_decision_log_lines, parse_log_lines};
use log_analyzer::pipeline::{analyze_arm_decision_log, analyze_master_log, AnalysisError};
use log_analyzer::timeline::{AnalyzerContext, RoundTimeRange};
use log_analyzer::rounds::{
    copy_round, detect_major_flows, detect_rounds, ts_to_round_id, CycleType, LineKind, LogLine, Round, RoundDetector,
    RoundPatterns,
};

const S: i64 = 1_000_000_000;
const T0: i64 = 1_756_803_700 * S;

fn ln(sec: i64, text: &str) -> LogLine {
    LogLine { timestamp: T0 + sec * S, line: text.to_string() }
}

fn round(id: usize, loop_number: Option<u32>, start: i64, end: Option<i64>) -> Round {
    Round {
        id,
        loop_number,
        cycle_type: CycleType::Normal(loop_number.unwrap_or(0)),
        layer_index: 0,
        start_ts: start,
        end_ts: end,
        pose0: None,
        pose6: None,
        pause_events: Vec::new(),
    }
}

#[test]
fn parse_log_lines_keeps_timestamped_lines_in_time_order() {
    let content = "[INFO] [1756803704.695] [master_control]: b\nno timestamp here\r\n[WARN] [1756803701.5] [x]: a\n[DEBUG] [1756803704.695] [y]: c\n";
    let lines = parse_log_lines(content).unwrap();
    assert_eq!(lines.len(), 3);
    assert_eq!(lines[0].timestamp, 1_756_803_701_500_000_000);
    assert!(lines[0].line.ends_with(": a"));
    assert_eq!(lines[1].timestamp, 1_756_803_704_695_000_000);
    assert!(lines[1].line.ends_with(": b"));
    assert!(lines[2].line.ends_with(": c"));
}

#[test]
fn parse_log_lines_drops_digits_below_the_nanosecond() {
    let lines = parse_log_lines("[ERROR] [1766304091.7846940871] z").unwrap();
    assert_eq!(lines[0].timestamp, 1_766_304_091_784_694_087);
    assert!(parse_log_lines("[INFO] [12345.6] short seconds").unwrap().is_empty());
}

#[test]
fn parse_arm_decision_lines_keep_file_order() {
    let content = "[INFO] [20.5] [rclcpp]: later\n[INFO] [10.25] [rclcpp]: earlier\n[WARN] [30.0] skipped";
    let lines = parse_arm_decision_log_lines(content).unwrap();
    assert_eq!(lines.len(), 2);
    assert_eq!(lines[0].timestamp, 20_500_000_000);
    assert_eq!(lines[1].timestamp, 10_250_000_000);
}

fn round_log() -> Vec<LogLine> {
    vec![
        ln(0, "LogNode[x] - 初始化完成: message='[收尾循环] 最终循环完成'"),
        ln(1, "[初始循环] ===== 初始循环开始（气密设备为空）====="),
        ln(2, "[master_control]: 姿态字符串: {\"a\":1}"),
        ln(3, "[初始循环] 初始循环完成，气密设备中有工件"),
        ln(4, "[常规循环] 常规循环 1，目标工位 2"),
        ln(5, "PauseTaskNode[p]: 请求暂停任务，等待操作员 RESUME"),
        ln(7, "PauseTaskNode[p]: 任务已恢复，继续执行"),
        ln(6, "TaskGraphExecutor: 用户请求暂停任务 t1"),
        ln(8, "TaskGraphExecutor: 恢复任务 t1"),
        ln(10, "[常规循环] 常规循环 1 放置完成"),
        ln(11, "[收尾前校正] loaded_leak_station_count=2"),
        ln(12, "[收尾前校正] loaded_leak_station_count=1"),
        ln(15, "other line"),
    ]
}

#[test]
fn detect_rounds_follows_the_cycle_markers() {
    let lines = round_log();
    let t_last = T0 + 20 * S;
    let rounds = detect_rounds(&lines, t_last).unwrap();
    assert_eq!(rounds.len(), 3);
    assert_eq!(rounds[0].id, 1);
    assert_eq!(rounds[0].cycle_type, CycleType::Initial);
    assert_eq!(rounds[0].loop_number, Some(0));
    assert_eq!(rounds[0].start_ts, T0 + S);
    assert_eq!(rounds[0].end_ts, Some(T0 + 3 * S));
    assert_eq!(rounds[0].pose0.as_deref(), Some("{\"a\":1}"));
    assert_eq!(rounds[1].cycle_type, CycleType::Normal(1));
    assert_eq!(rounds[1].end_ts, Some(T0 + 10 * S));
    assert_eq!(rounds[1].pause_events.len(), 2);
    assert_eq!(rounds[1].total_pause_duration(), 3 * S as i128);
    assert_eq!(rounds[1].effective_duration(), 3 * S as i128);
    assert_eq!(rounds[2].cycle_type, CycleType::Final);
    assert_eq!(rounds[2].loop_number, Some(999));
    assert_eq!(rounds[2].start_ts, T0 + 11 * S);
    assert_eq!(rounds[2].end_ts, Some(t_last));
    assert_eq!(rounds[2].id, 3);
}

#[test]
fn cycle_labels() {
    assert_eq!(CycleType::Initial.label(), "初始循环");
    assert_eq!(CycleType::Normal(12).label(), "常规循环 12");
    assert_eq!(CycleType::Final.label(), "最终循环");
}

#[test]
fn ts_to_round_id_finds_the_containing_round() {
    let rounds = vec![round(1, Some(1), 10, Some(20)), round(2, Some(2), 20, Some(30))];
    assert_eq!(ts_to_round_id(15, &rounds), 1);
    assert_eq!(ts_to_round_id(20, &rounds), 2);
    assert_eq!(ts_to_round_id(35, &rounds), 2);
    assert_eq!(ts_to_round_id(5, &rounds), 0);
    assert_eq!(ts_to_round_id(5, &Vec::new()), 0);
}

#[test]
fn major_flows_run_from_cycle_1_to_cycle_8() {
    let mut rounds = Vec::new();
    for (i, n) in [1u32, 2, 3, 4, 6, 7, 8, 1, 2, 5, 1, 3].iter().enumerate() {
        let start = (i as i64) * 10;
        rounds.push(round(i + 1, Some(*n), start, Some(start + 8)));
    }
    rounds.push(round(99, None, 500, None));
    let majors = detect_major_flows(&rounds);
    assert_eq!(majors.len(), 3);
    assert_eq!(majors[0].id, 1);
    assert!(majors[0].is_complete);
    assert_eq!(majors[0].rounds.len(), 7);
    assert_eq!(majors[0].average_over, 8);
    assert_eq!(majors[0].start_ts, 0);
    assert_eq!(majors[0].end_ts, 68);
    assert_eq!(majors[0].duration, 68);
    assert!(majors[0].failure_point.is_none());
    assert!(!majors[1].is_complete);
    assert_eq!(majors[1].rounds.len(), 2);
    assert_eq!(majors[1].failure_point.as_deref(), Some("中断于循环2"));
    assert_eq!(majors[1].average_over, 2);
    assert_eq!(majors[2].id, 3);
    assert_eq!(majors[2].rounds.len(), 2);
    assert_eq!(majors[2].failure_point.as_deref(), Some("中断于循环3"));
}

#[test]
fn copy_round_keeps_every_field() {
    let mut r = round(4, Some(2), 1, Some(9));
    r.pose0 = Some("p".to_string());
    r.pause_events.push(PauseEvent { pause_ts: 2, resume_ts: Some(3) });
    let c = copy_round(&r);
    assert_eq!(c.id, 4);
    assert_eq!(c.pose0.as_deref(), Some("p"));
    assert_eq!(c.pause_events, r.pause_events);
}

fn flow_log() -> Vec<LogLine> {
    vec![
        ln(1, "[导航]: NavAction[NavAction] - 开始执行"),
        ln(2, "[导航]: 设置导航目标: pos(1.0, 2.0), ori(0, 0, 1)"),
        ln(3, "[机械臂]: DoubleArmAction[pick] - 开始执行"),
        ln(3, "[机械臂]: DoubleArmAction setGoal action_type_code: 3"),
        ln(4, "[机械臂]: 发送机械臂控制目标"),
        ln(5, "[机械臂]: [RESULT CALLBACK] - 机械臂动作完成，状态: 0"),
        ln(6, "[导航]: [RESULT CALLBACK] - 导航完成，结果代码: 4"),
        ln(7, "[头部控制]: HeadControlAction[head_control] - 开始执行"),
        ln(8, "[头部控制]: HeadControlAction[head_control] - 执行完成"),
        ln(9, "[导航]: NavAction2[NavAction2] - 开始执行"),
        ln(10, "[预打舵]: PrePlanNavigation[pp] - 开始执行"),
        ln(11, "[预打舵]: 设置预打舵目标: pos(3, 4), ori(0, 1) action: 7"),
        ln(12, "[预打舵]: PrePlanNavigation 响应: error_code=12"),
    ]
}

#[test]
fn detect_flows_groups_actions_under_navigations() {
    let lines = flow_log();
    let rounds = vec![round(1, Some(1), T0, Some(T0 + 100 * S))];
    let flows = detect_flows(&lines, &rounds).unwrap();
    assert_eq!(flows.len(), 2);
    let f = &flows[0];
    assert_eq!(f.round_id, 1);
    assert_eq!(f.nav_start_ts, Some(T0 + S));
    assert_eq!(f.nav_end_ts, Some(T0 + 6 * S));
    assert_eq!(f.nav_target_pos.as_deref(), Some("1.0,2.0"));
    assert_eq!(f.nav_target_ori.as_deref(), Some("0,0,1"));
    assert_eq!(f.nav_status, "ok");
    let names: Vec<&str> = f.nav_sub_steps.iter().map(|s| s.name.as_str()).collect();
    assert_eq!(names, vec!["开始执行", "设置导航目标", "导航完成"]);
    assert_eq!(f.operations.len(), 2);
    let arm = &f.operations[0];
    assert_eq!(arm.action_type, "arm");
    assert_eq!(arm.action_code, Some(3));
    assert_eq!(arm.label, "pick");
    assert_eq!(arm.status, "ok");
    assert_eq!(arm.end_ts, Some(T0 + 5 * S));
    let steps: Vec<&str> = arm.sub_steps.iter().map(|s| s.name.as_str()).collect();
    assert_eq!(steps, vec!["开始执行[pick]", "发送目标", "动作完成(状态:0)"]);
    let head = &f.operations[1];
    assert_eq!(head.action_type, "head");
    assert_eq!(head.status, "ok");
    assert_eq!(head.end_ts, Some(T0 + 8 * S));
    let g = &flows[1];
    assert_eq!(g.nav_status, "incomplete");
    assert_eq!(g.nav_end_ts, None);
    let pp = &g.operations[0];
    assert_eq!(pp.label, "预打舵[pp]");
    assert_eq!(pp.action_code, Some(7));
    assert_eq!(pp.status, "error_12");
    let steps: Vec<&str> = pp.sub_steps.iter().map(|s| s.name.as_str()).collect();
    assert_eq!(steps, vec!["开始执行", "设置目标→3,4", "响应(code=12)"]);
}

#[test]
fn new_navigation_interrupts_the_open_one() {
    let lines = vec![ln(1, "[导航]: NavAction[NavAction] - 开始执行"), ln(4, "[导航]: NavAction[NavAction] - 开始执行")];
    let flows = detect_flows(&lines, &Vec::new()).unwrap();
    assert_eq!(flows.len(), 2);
    assert_eq!(flows[0].nav_status, "incomplete");
    assert_eq!(flows[0].nav_end_ts, Some(T0 + 4 * S));
    assert_eq!(flows[0].round_id, 0);
}

#[test]
fn remove_spaces_drops_every_space() {
    assert_eq!(remove_spaces(" 1.0, 2 .0 "), "1.0,2.0");
    assert_eq!(remove_spaces(""), "");
}

#[test]
fn records_and_timeline_of_flows() {
    let lines = flow_log();
    let rounds = vec![round(1, Some(1), T0, Some(T0 + 100 * S))];
    let flows = detect_flows(&lines, &rounds).unwrap();
    let records = build_csv_records(&flows, &rounds, T0);
    assert_eq!(records.len(), 5);
    assert_eq!(records[0].step_type, "nav");
    assert_eq!(records[0].start_rel_ms, Some(1000));
    assert_eq!(records[0].end_rel_ms, Some(6000));
    assert_eq!(records[0].duration_ms, Some(5000));
    assert_eq!(records[0].round_duration_ms, Some(100_000));
    assert_eq!(records[1].step_idx, 2);
    assert_eq!(records[1].action_code, Some(3));
    assert_eq!(records[3].flow_id, 2);
    let rows = action_timeline(&flows, T0);
    assert_eq!(rows[0].action_type, "导航");
    assert_eq!(rows[0].action_label, "导航→1.0,2.0");
    assert_eq!(rows[0].phase, "");
    for w in rows.windows(2) {
        assert!(w[0].start_ts <= w[1].start_ts);
    }
    let arm_row = rows.iter().find(|r| r.action_type == "机械臂" && r.phase.is_empty()).unwrap();
    assert_eq!(arm_row.action_label, "机械臂:pick(code:3)");
    assert_eq!(arm_row.duration, Some(2 * S as i128));
    let stats = timeline_stats(&rows);
    assert_eq!(stats.total, rows.len());
    assert_eq!(stats.arm, 4);
    assert_eq!(stats.head, 3);
    assert!(stats.completed < stats.total);
}

#[test]
fn display_names_and_labels() {
    assert_eq!(action_type_to_display("waist"), "腰部");
    assert_eq!(action_type_to_display("preplan"), "预打舵");
    assert_eq!(action_type_to_display("gripper"), "gripper");
    let op = ActionOperation {
        action_type: "arm".to_string(),
        action_code: None,
        label: "place".to_string(),
        start_ts: None,
        end_ts: None,
        status: "pending".to_string(),
        sub_steps: Vec::new(),
        pause_events: Vec::new(),
    };
    assert_eq!(build_action_label(&op), "机械臂:place(code:0)");
    assert_eq!(to_rel_ms(T0 + 1_234_567_890, T0), 1234);
    assert_eq!(to_rel_ms(T0 - 5, T0), 0);
}

#[test]
fn overlapping_pauses_are_counted_once() {
    let es = vec![
        PauseEvent { pause_ts: 10, resume_ts: Some(20) },
        PauseEvent { pause_ts: 15, resume_ts: Some(25) },
        PauseEvent { pause_ts: 30, resume_ts: Some(35) },
        PauseEvent { pause_ts: 40, resume_ts: None },
    ];
    assert_eq!(merge_pause_intervals(&es), vec![(10, 25), (30, 35)]);
    assert_eq!(merged_pause_duration(&es), 20);
}

#[test]
fn arm_decision_tasks_and_modules() {
    let lines = vec![
        ln(1, "[rclcpp]: Received goal."),
        ln(2, "[rclcpp]: =====BodyTask start====="),
        ln(3, "[rclcpp]: ----------"),
        ln(3, "[rclcpp]: GetTaskTypeAction tick!"),
        ln(3, "[rclcpp]: task_type: 2015"),
        ln(4, "[rclcpp]: cmd_code: 7"),
        ln(4, "[rclcpp]: cost(s): 0.5"),
        ln(4, "[rclcpp]: GetTaskTypeAction ok."),
        ln(5, "[rclcpp]: ------------"),
        ln(5, "[rclcpp]: MoveAction tick!"),
        ln(6, "[rclcpp]: =====BodyTask end====="),
        ln(7, "[rclcpp]: result->status: -3"),
        ln(8, "[rclcpp]: result->message:  failed to plan  "),
        ln(9, "[rclcpp]: Received goal."),
        ln(10, "[rclcpp]: =====BodyTask start====="),
        ln(11, "[rclcpp]: ----------"),
    ];
    let tasks = detect_arm_decision_tasks(&lines).unwrap();
    assert_eq!(tasks.len(), 2);
    let t = &tasks[0];
    assert_eq!(t.start_ts, T0 + S);
    assert_eq!(t.end_ts, Some(T0 + 8 * S));
    assert_eq!(t.task_type, Some(2015));
    assert_eq!(t.result_status, Some(-3));
    assert_eq!(t.result_message.as_deref(), Some("failed to plan"));
    assert_eq!(t.modules.len(), 2);
    assert_eq!(t.modules[0].name, "GetTaskTypeAction");
    assert_eq!(t.modules[0].cmd_code, Some(7));
    assert_eq!(t.modules[0].cost, Some(500_000_000));
    assert_eq!(t.modules[0].status, "ok");
    assert_eq!(t.modules[1].name, "MoveAction");
    assert_eq!(t.modules[1].end_ts, Some(T0 + 6 * S));
    assert_eq!(t.modules[1].status, "pending");
    let last = &tasks[1];
    assert_eq!(last.modules.len(), 1);
    assert_eq!(last.modules[0].status, "incomplete");
    assert_eq!(last.modules[0].end_ts, None);
}

#[test]
fn one_arm_result_closes_one_arm_action() {
    let lines = vec![
        ln(1, "[导航]: NavAction2[NavAction2] - 开始执行"),
        ln(2, "[机械臂]: DoubleArmAction[a] - 开始执行"),
        ln(3, "[导航]: [RESULT CALLBACK] - 导航完成，结果代码: 0"),
        ln(4, "[导航]: NavAction2[NavAction2] - 开始执行"),
        ln(5, "[机械臂]: DoubleArmAction[b] - 开始执行"),
        ln(6, "[导航]: [RESULT CALLBACK] - 导航完成，结果代码: 0"),
        ln(7, "[机械臂]: [RESULT CALLBACK] - 机械臂动作完成，状态: 0"),
    ];
    let flows = detect_flows(&lines, &Vec::new()).unwrap();
    assert_eq!(flows.len(), 2);
    assert_eq!(flows[1].operations[0].end_ts, Some(T0 + 7 * S));
    assert_eq!(flows[1].operations[0].status, "ok");
    assert_eq!(flows[0].operations[0].end_ts, None);
    assert_eq!(flows[0].operations[0].status, "pending");
}

#[test]
fn flow_detector_takes_classified_lines() {
    let pats = FlowPatterns::new().unwrap();
    let k = pats.classify("[导航]: NavAction[NavAction] - 开始执行");
    assert!(matches!(k, FlowKind::NavStart));
    assert_eq!(pats.arm_code_of(Some("[机械臂]: DoubleArmAction setGoal action_type_code: 3")), Some(3));
    let mut d = FlowDetector::new();
    d.apply(k, 10, None, 3);
    d.apply(FlowKind::ArmStart("pick".to_string()), 11, Some(5), 0);
    d.apply(FlowKind::ArmResult("2".to_string()), 12, None, 0);
    let flows = d.finish();
    assert_eq!(flows.len(), 1);
    assert_eq!(flows[0].round_id, 3);
    assert_eq!(flows[0].nav_status, "incomplete");
    let arm = &flows[0].operations[0];
    assert_eq!(arm.label, "pick");
    assert_eq!(arm.action_code, Some(5));
    assert_eq!(arm.status, "status_2");
    assert_eq!(arm.end_ts, Some(12));
}

#[test]
fn round_detector_takes_classified_lines() {
    let pats = RoundPatterns::new().unwrap();
    assert!(matches!(pats.classify_line("[常规循环] 常规循环 1，目标工位 2"), LineKind::NormalStart(1)));
    assert!(matches!(pats.classify_line("PauseTaskNode[p]: 请求暂停任务，等待操作员 RESUME"), LineKind::Pause(0)));
    assert!(matches!(pats.classify_line("other line"), LineKind::Other));
    let mut d = RoundDetector::new();
    d.apply(LineKind::NormalStart(3), 10);
    d.apply(LineKind::Pause(1), 12);
    d.apply(LineKind::Resume(1), 15);
    d.apply(LineKind::Pose("p".to_string()), 16);
    d.apply(LineKind::NormalEnd(3), 20);
    d.apply(LineKind::FinalStart, 30);
    let rounds = d.finish(40);
    assert_eq!(rounds.len(), 2);
    assert_eq!(rounds[0].id, 1);
    assert_eq!(rounds[0].loop_number, Some(3));
    assert_eq!(rounds[0].end_ts, Some(20));
    assert_eq!(rounds[0].pause_events, vec![PauseEvent { pause_ts: 12, resume_ts: Some(15) }]);
    assert_eq!(rounds[0].pose0.as_deref(), Some("p"));
    assert_eq!(rounds[1].cycle_type, CycleType::Final);
    assert_eq!(rounds[1].end_ts, Some(40));
}

#[test]
fn arm_detector_takes_classified_lines() {
    let pats = ArmPatterns::new().unwrap();
    assert!(matches!(pats.classify("[rclcpp]: Received goal."), ArmKind::NewTask));
    assert!(matches!(pats.classify("[rclcpp]: cmd_code: 7"), ArmKind::CmdCode(Some(7))));
    let mut d = ArmDetector::new();
    d.apply(ArmKind::CmdCode(Some(1)), 1);
    d.apply(ArmKind::NewTask, 2);
    d.apply(ArmKind::Separator, 3);
    d.apply(ArmKind::BodyStart, 4);
    d.apply(ArmKind::Separator, 5);
    d.apply(ArmKind::Tick("MoveAction".to_string()), 5);
    d.apply(ArmKind::CmdCode(Some(9)), 6);
    d.apply(ArmKind::ModuleOk, 7);
    d.apply(ArmKind::BodyEnd, 8);
    d.apply(ArmKind::Status(Some(0)), 9);
    let tasks = d.finish();
    assert_eq!(tasks.len(), 1);
    assert_eq!(tasks[0].start_ts, 2);
    assert_eq!(tasks[0].body_task_start_ts, Some(4));
    assert_eq!(tasks[0].body_task_end_ts, Some(8));
    assert_eq!(tasks[0].result_status, Some(0));
    assert_eq!(tasks[0].modules.len(), 1);
    assert_eq!(tasks[0].modules[0].name, "MoveAction");
    assert_eq!(tasks[0].modules[0].cmd_code, Some(9));
    assert_eq!(tasks[0].modules[0].end_ts, Some(7));
    assert_eq!(tasks[0].modules[0].status, "ok");
}

fn round_summary(rs: &[Round]) -> Vec<(usize, Option<u32>, i64, Option<i64>, usize)> {
    rs.iter().map(|r| (r.id, r.loop_number, r.start_ts, r.end_ts, r.pause_events.len())).collect()
}

#[test]
fn registration_lines_anywhere_change_no_round() {
    let plain: Vec<LogLine> = round_log().into_iter().filter(|l| !l.line.starts_with("LogNode")).collect();
    let mut with_more = round_log();
    with_more.insert(4, ln(3, "LogNode[fin] - 初始化完成: message='[收尾循环] 双工位收尾完成'"));
    with_more.insert(7, ln(5, "LogNode[n] - 初始化完成: message='[常规循环] 常规循环 2，目标工位 1'"));
    let a = detect_rounds(&plain, T0 + 20 * S).unwrap();
    let b = detect_rounds(&with_more, T0 + 20 * S).unwrap();
    assert_eq!(round_summary(&a), round_summary(&b));
    assert!(!a.is_empty());
}

#[test]
fn registration_lines_change_no_flow() {
    let plain = flow_log();
    let mut with_more = flow_log();
    with_more.insert(1, ln(1, "LogNode[nav] - 初始化完成: message='[导航]: NavAction[NavAction] - 开始执行'"));
    with_more.insert(6, ln(5, "LogNode[arm] - 初始化完成: message='[机械臂]: [RESULT CALLBACK] - 机械臂动作完成，状态: 3'"));
    let a = detect_flows(&plain, &Vec::new()).unwrap();
    let b = detect_flows(&with_more, &Vec::new()).unwrap();
    assert_eq!(a.len(), b.len());
    for (x, y) in a.iter().zip(b.iter()) {
        assert_eq!(x.nav_start_ts, y.nav_start_ts);
        assert_eq!(x.nav_end_ts, y.nav_end_ts);
        assert_eq!(x.nav_status, y.nav_status);
        assert_eq!(x.operations.len(), y.operations.len());
        for (o, p) in x.operations.iter().zip(y.operations.iter()) {
            assert_eq!(o.status, p.status);
            assert_eq!(o.end_ts, p.end_ts);
            assert_eq!(o.action_code, p.action_code);
        }
    }
}

#[test]
fn master_analysis_from_text() {
    assert!(matches!(analyze_master_log("no timestamps\n", "x.log"), Err(AnalysisError::NoTimestampedLines)));
    let e = analyze_master_log("", "x.log").err().unwrap();
    assert_eq!(e.message(), "日志文件中未找到有效的时间戳行");
    let content = "[INFO] [1756803700.0] [m]: [常规循环] 常规循环 1，目标工位 2\n\
[INFO] [1756803701.0] [m]: [导航]: NavAction[NavAction] - 开始执行\n\
[INFO] [1756803702.0] [m]: [机械臂]: DoubleArmAction[pick] - 开始执行\n\
[INFO] [1756803703.0] [m]: [机械臂]: [RESULT CALLBACK] - 机械臂动作完成，状态: 0\n\
[INFO] [1756803704.0] [m]: [导航]: [RESULT CALLBACK] - 导航完成，结果代码: 0\n\
[INFO] [1756803705.0] [m]: [常规循环] 常规循环 1 放置完成\n";
    let a = analyze_master_log(content, "m.log").unwrap();
    assert_eq!(a.t0, T0);
    assert_eq!(a.t_last, T0 + 5 * S);
    assert_eq!(a.rounds.len(), 1);
    assert_eq!(a.rounds[0].end_ts, Some(T0 + 5 * S));
    assert_eq!(a.flows.len(), 1);
    assert_eq!(a.flows[0].round_id, 1);
    assert_eq!(a.counts.navigation, 1);
    assert_eq!(a.counts.arm, 1);
    assert_eq!(a.stats.total, a.rows.len());
    assert_eq!(a.timeline.source_file, "m.log");
    assert_eq!(a.round_ranges.len(), 1);
}

#[test]
fn arm_analysis_keeps_tasks_in_rounds() {
    let content = "[INFO] [10.0] [rclcpp]: Received goal.\n[INFO] [11.0] [rclcpp]: result->status: 0\n\
[INFO] [50.0] [rclcpp]: Received goal.\n[INFO] [51.0] [rclcpp]: result->status: 1\n";
    let all = analyze_arm_decision_log(content, None).unwrap();
    assert_eq!(all.t0, 10 * S);
    assert_eq!(all.tasks.len(), 2);
    assert_eq!(all.summary.len(), 2);
    let ctx = AnalyzerContext { round_time_ranges: vec![RoundTimeRange { round_id: 1, start: 45 * S, end: 60 * S }] };
    let kept = analyze_arm_decision_log(content, Some(&ctx)).unwrap();
    assert_eq!(kept.tasks.len(), 1);
    assert_eq!(kept.tasks[0].start_ts, 50 * S);
    assert!(matches!(analyze_arm_decision_log("", None), Err(AnalysisError::NoTimestampedLines)));
}
