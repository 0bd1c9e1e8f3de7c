use log_analyzer::analysis::{count_actions, find_arm_decision_logs, is_arm_decision_log_name};
use log_analyzer::arm_decision::{build_task_summary, ArmDecisionModule, ArmDecisionTask};
use log_analyzer::flows::{ActionOperation, NavigationFlow, SubStep};
use log_analyzer::rounds::{CycleType, Round};
use log_analyzer::timeline::{
    build_arm_timeline, build_master_timeline, extract_round_time_ranges, keep_tasks_in_rounds, AnalyzerContext,
    EventDetails, EventStatus, RoundTimeRange, Track, TimelineInfo,
};

const S: i64 = 1_000_000_000;

fn round(id: usize, start: i64, end: Option<i64>) -> Round {
    Round {
        id,
        loop_number: Some(id as u32),
        cycle_type: CycleType::Normal(id as u32),
        layer_index: 0,
        start_ts: start,
        end_ts: end,
        pose0: Some("p0".to_string()),
        pose6: None,
        pause_events: Vec::new(),
    }
}

fn op(kind: &str, label: &str, start: Option<i64>, end: Option<i64>, status: &str) -> ActionOperation {
    ActionOperation {
        action_type: kind.to_string(),
        action_code: Some(7),
        label: label.to_string(),
        start_ts: start,
        end_ts: end,
        status: status.to_string(),
        sub_steps: vec![SubStep { name: "s".to_string(), timestamp: start.unwrap_or(0) }],
        pause_events: Vec::new(),
    }
}

fn flow(round_id: usize, start: Option<i64>, end: Option<i64>, ops: Vec<ActionOperation>) -> NavigationFlow {
    NavigationFlow {
        nav_start_ts: start,
        nav_end_ts: end,
        nav_target_pos: Some("1,2".to_string()),
        nav_target_ori: None,
        nav_status: "ok".to_string(),
        nav_sub_steps: Vec::new(),
        round_id,
        operations: ops,
    }
}

fn sample() -> (Vec<Round>, Vec<NavigationFlow>) {
    let rounds = vec![round(1, 0, Some(10 * S)), round(2, 10 * S, None), round(3, 20 * S, Some(30 * S))];
    let flows = vec![
        flow(
            1,
            Some(S),
            Some(2 * S),
            vec![
                op("arm", "抓取", Some(3 * S), Some(4 * S), "失败"),
                op("preplan", "预转向", Some(4 * S), Some(5 * S), "ok"),
                op("head", "抬头", Some(5 * S), None, "ok"),
                op("waist", "转腰", Some(6 * S), Some(7 * S), "cancelled"),
            ],
        ),
        flow(3, Some(21 * S), None, vec![op("head", "低头", Some(22 * S), Some(23 * S), "in_progress")]),
    ];
    (rounds, flows)
}

#[test]
fn master_timeline_lists_round_markers_then_flow_events() {
    let (rounds, flows) = sample();
    let t = build_master_timeline("mc.log", &rounds, &flows, 0, 40 * S, "0.5.8");
    assert_eq!(t.name, "master_control");
    assert!(t.is_primary);
    assert!(matches!(t.info, TimelineInfo::MasterControl { round_count: 3, flow_count: 2, .. }));
    let ids: Vec<&str> = t.events.iter().map(|e| e.id.as_str()).collect();
    assert_eq!(ids, vec!["round_1", "round_2", "round_3", "nav_0", "arm_0_op_0", "waist_0_op_3", "head_1_op_0"]);
    assert_eq!(t.events[0].name, "轮次 1");
    assert_eq!(t.events[0].status, EventStatus::Success);
    assert_eq!(t.events[1].status, EventStatus::InProgress);
    assert_eq!(t.events[0].color_hint.as_deref(), Some("#E8F4F8"));
    assert!(matches!(&t.events[0].details, EventDetails::Round { round_index: 0, pose0: Some(p), .. } if p == "p0"));
    let nav = &t.events[3];
    assert!(matches!(nav.track, Track::Navigation));
    assert_eq!(nav.parent_id.as_deref(), Some("round_1"));
    assert_eq!(nav.status, EventStatus::Success);
    let arm = &t.events[4];
    assert!(matches!(arm.track, Track::Arm));
    assert_eq!(arm.name, "抓取");
    assert_eq!(arm.status, EventStatus::Failed);
    assert_eq!(arm.parent_id.as_deref(), Some("nav_0"));
    assert_eq!(arm.color_hint.as_deref(), Some("#90EE90"));
    assert_eq!(t.events[5].status, EventStatus::Cancelled);
    assert_eq!(t.events[6].status, EventStatus::InProgress);
    assert_eq!(t.events[6].parent_id.as_deref(), Some("nav_1"));
}

#[test]
fn round_ranges_come_from_finished_round_markers() {
    let (rounds, flows) = sample();
    let t = build_master_timeline("mc.log", &rounds, &flows, 0, 40 * S, "0.5.8");
    let ranges = extract_round_time_ranges(&t);
    assert_eq!(
        ranges,
        vec![
            RoundTimeRange { round_id: 1, start: 0, end: 10 * S },
            RoundTimeRange { round_id: 2, start: 20 * S, end: 30 * S },
        ]
    );
}

fn task(start: i64, end: Option<i64>, body: Option<(i64, i64)>, status: Option<i32>) -> ArmDecisionTask {
    ArmDecisionTask {
        start_ts: start,
        end_ts: end,
        body_task_start_ts: body.map(|b| b.0),
        body_task_end_ts: body.map(|b| b.1),
        task_type: Some(3),
        result_status: status,
        result_message: Some("done".to_string()),
        modules: vec![ArmDecisionModule {
            name: "GetTaskTypeAction".to_string(),
            cmd_code: None,
            start_ts: start,
            end_ts: end,
            cost: None,
            status: "ok".to_string(),
        }],
    }
}

fn context() -> AnalyzerContext {
    AnalyzerContext {
        round_time_ranges: vec![
            RoundTimeRange { round_id: 1, start: 0, end: 10 * S },
            RoundTimeRange { round_id: 2, start: 20 * S, end: 30 * S },
        ],
    }
}

#[test]
fn find_round_for_task_takes_the_first_overlapping_range() {
    let ctx = context();
    assert_eq!(ctx.find_round_for_task(5 * S, Some(25 * S)), Some(1));
    assert_eq!(ctx.find_round_for_task(12 * S, Some(21 * S)), Some(2));
    assert_eq!(ctx.find_round_for_task(12 * S, Some(15 * S)), None);
    assert_eq!(ctx.find_round_for_task(30 * S, None), Some(2));
    assert_eq!(ctx.find_round_for_task(31 * S, None), None);
}

#[test]
fn tasks_outside_every_round_are_dropped() {
    let tasks = vec![
        task(S, Some(2 * S), None, Some(0)),
        task(12 * S, Some(15 * S), None, Some(0)),
        task(16 * S, Some(17 * S), Some((16 * S, 22 * S)), Some(1)),
    ];
    let kept = keep_tasks_in_rounds(tasks, &context());
    assert_eq!(kept.len(), 2);
    assert_eq!(kept[0].start_ts, S);
    assert_eq!(kept[1].start_ts, 16 * S);
}

#[test]
fn arm_timeline_has_one_event_per_task() {
    let tasks = vec![
        task(S, Some(2 * S), None, Some(0)),
        task(16 * S, Some(25 * S), Some((21 * S, 24 * S)), Some(2)),
        task(40 * S, None, None, None),
    ];
    let ctx = context();
    let t = build_arm_timeline("arm.log", &tasks, 0, 50 * S, Some(&ctx), "0.5.8");
    assert_eq!(t.name, "arm_decision");
    assert!(!t.is_primary);
    assert_eq!(t.events.len(), 3);
    assert_eq!(t.events[0].id, "arm_decision_task_0");
    assert_eq!(t.events[0].name, "手臂决策(type=3)");
    assert_eq!(t.events[0].status, EventStatus::Success);
    assert!(matches!(&t.events[0].track, Track::Custom(n) if n == "ArmDecision"));
    assert_eq!(t.events[1].start_time, 21 * S);
    assert_eq!(t.events[1].end_time, Some(24 * S));
    assert_eq!(t.events[1].status, EventStatus::Failed);
    assert!(matches!(t.events[1].details, EventDetails::ArmTask { round_id: Some(2), module_count: 1, .. }));
    assert_eq!(t.events[2].status, EventStatus::InProgress);
    assert!(matches!(t.events[2].details, EventDetails::ArmTask { round_id: None, .. }));
    let without = build_arm_timeline("arm.log", &tasks, 0, 50 * S, None, "0.5.8");
    assert!(matches!(without.events[0].details, EventDetails::ArmTask { round_id: None, .. }));
}

#[test]
fn task_summary_has_relative_times_and_module_counts() {
    let tasks = vec![task(3 * S, Some(5 * S), None, Some(0)), task(7 * S, None, None, None)];
    let rows = build_task_summary(&tasks, S);
    assert_eq!(rows.len(), 2);
    assert_eq!(rows[0].task_index, 0);
    assert_eq!(rows[0].start_rel, 2 * S as i128);
    assert_eq!(rows[0].end_rel, Some(4 * S as i128));
    assert_eq!(rows[0].duration, Some(2 * S as i128));
    assert_eq!(rows[0].module_count, 1);
    assert_eq!(rows[0].result_message.as_deref(), Some("done"));
    assert_eq!(rows[1].end_rel, None);
    assert_eq!(rows[1].duration, None);
}

#[test]
fn action_counts_by_kind() {
    let (_, flows) = sample();
    let c = count_actions(&flows);
    assert_eq!((c.navigation, c.arm, c.head, c.waist), (2, 1, 2, 1));
}

#[test]
fn arm_decision_logs_are_found_by_name() {
    assert!(is_arm_decision_log_name("arm_decision_20250101.log"));
    assert!(!is_arm_decision_log_name("arm_decision.txt"));
    assert!(!is_arm_decision_log_name("master_control_1.log"));
    let names = vec![
        "master_control_1.log".to_string(),
        "arm_decision_a.log".to_string(),
        "arm_decision.log".to_string(),
        "x_arm_decision.log".to_string(),
    ];
    assert_eq!(find_arm_decision_logs(&names), vec!["arm_decision_a.log".to_string(), "arm_decision.log".to_string()]);
}
