use log_analyzer::flows::{ActionOperation, NavigationFlow, SubStep};
use log_analyzer::gantt::{chart_labels_splittable, gantt_lanes, main_label_of, round_bars, round_chart, MainLabel};
use log_analyzer::intervals::PauseEvent;
use log_analyzer::rounds::{CycleType, Round};

const S: i64 = 1_000_000_000;
const T: i64 = 1_700_000_000 * S;

fn round(id: usize, end: Option<i64>, pauses: Vec<PauseEvent>) -> Round {
    Round {
        id,
        loop_number: Some(1),
        cycle_type: CycleType::Normal(1),
        layer_index: 0,
        start_ts: T,
        end_ts: end,
        pose0: None,
        pose6: None,
        pause_events: pauses,
    }
}

fn op(kind: &str, code: Option<u32>, label: &str, start: Option<i64>, end: Option<i64>, steps: Vec<SubStep>) -> ActionOperation {
    ActionOperation {
        action_type: kind.to_string(),
        action_code: code,
        label: label.to_string(),
        start_ts: start,
        end_ts: end,
        status: "ok".to_string(),
        sub_steps: steps,
        pause_events: Vec::new(),
    }
}

fn flow(round_id: usize, nav: Option<(i64, Option<i64>)>, ops: Vec<ActionOperation>) -> NavigationFlow {
    NavigationFlow {
        nav_start_ts: nav.map(|n| n.0),
        nav_end_ts: nav.and_then(|n| n.1),
        nav_target_pos: Some("(1,2)".to_string()),
        nav_target_ori: None,
        nav_status: "ok".to_string(),
        nav_sub_steps: Vec::new(),
        round_id,
        operations: ops,
    }
}

fn step(name: &str, ts: i64) -> SubStep {
    SubStep { name: name.to_string(), timestamp: ts }
}

#[test]
fn bars_are_built_per_flow_of_the_round_and_ordered_by_start() {
    let r = round(2, Some(T + 100 * S), Vec::new());
    let flows = vec![
        flow(1, Some((T - 50 * S, Some(T - 40 * S))), Vec::new()),
        flow(
            2,
            Some((T + 10 * S, Some(T + 20 * S))),
            vec![
                op("navigation", None, "nav", Some(T + 10 * S + 5_000_000), Some(T + 20 * S), Vec::new()),
                op("arm", Some(7), "抓取", Some(T + 5 * S), None, Vec::new()),
                op("preplan", None, "预转向", Some(T + 30 * S), Some(T + 31 * S), Vec::new()),
                op("gripper", None, "夹爪闭合", None, None, Vec::new()),
            ],
        ),
        flow(2, None, vec![op("head", None, "抬头", Some(T + 40 * S), Some(T + 42 * S), Vec::new())]),
    ];
    let bars = round_bars(&r, &flows);
    let labels: Vec<&str> = bars.iter().map(|b| b.label.as_str()).collect();
    assert_eq!(labels, vec!["F1-arm-7", "F1-nav", "F1-preplan-0", "F2-head"]);
    assert_eq!(bars[0].detail, "手臂:7[未完成]");
    assert_eq!(bars[0].duration, 1_000_000_000);
    assert_eq!(bars[1].detail, "导航→(1,2)");
    assert_eq!(bars[1].start, 10 * S as i128);
    assert_eq!(bars[1].duration, 10 * S as i128);
    assert_eq!(bars[2].detail, "预打舵(action=0)");
    assert_eq!(bars[3].detail, "头部控制");
}

#[test]
fn repeated_bars_are_dropped() {
    let r = round(1, Some(T + 100 * S), Vec::new());
    let a = op("head", None, "h", Some(T + S), Some(T + 2 * S), Vec::new());
    let flows = vec![flow(1, None, vec![a.clone(), a])];
    assert_eq!(round_bars(&r, &flows).len(), 1);
}

#[test]
fn pauses_are_left_out_of_the_axis() {
    let pauses = vec![PauseEvent { pause_ts: T + 10 * S, resume_ts: Some(T + 30 * S) }];
    let r = round(1, Some(T + 60 * S), pauses);
    let flows = vec![flow(1, None, vec![op("arm", Some(1), "a", Some(T + 5 * S), Some(T + 40 * S), Vec::new())])];
    let chart = round_chart(&r, &flows);
    assert_eq!(chart.bars.len(), 1);
    assert_eq!(chart.bars[0].bar.start, 5 * S as i128);
    assert_eq!(chart.bars[0].bar.duration, 15 * S as i128);
    assert_eq!(chart.time_range, 40 * S as i128);
}

#[test]
fn lanes_follow_the_configured_order_then_others() {
    let r = round(1, Some(T + 100 * S), Vec::new());
    let flows = vec![flow(
        1,
        Some((T, Some(T + 2 * S))),
        vec![
            op("custom", None, "c", Some(T + S), Some(T + 2 * S), Vec::new()),
            op("arm", Some(1), "a", Some(T + 3 * S), Some(T + 5 * S), Vec::new()),
            op("arm", Some(2), "b", Some(T + 6 * S), Some(T + 7 * S), Vec::new()),
        ],
    )];
    let bars = round_bars(&r, &flows);
    let lanes = gantt_lanes(&bars);
    let names: Vec<(&str, i128)> = lanes.iter().map(|l| (l.name.as_str(), l.total)).collect();
    assert_eq!(names, vec![("导航", 2 * S as i128), ("手臂", 3 * S as i128), ("custom", S as i128)]);
    let chart = round_chart(&r, &flows);
    let arm = chart.bars.iter().find(|c| c.bar.kind == "arm").unwrap();
    assert_eq!(arm.lane, 1);
}

#[test]
fn phases_are_held_within_their_bar_and_labelled_when_wide() {
    let r = round(1, Some(T + 100 * S), Vec::new());
    let steps = vec![step("开始执行", T), step("GetTaskTypeAction (0.51s)", T + 2 * S), step("执行完成", T + 50 * S)];
    let flows = vec![flow(1, None, vec![op("arm", Some(1), "a", Some(T + S), Some(T + 10 * S), steps)])];
    assert!(chart_labels_splittable(&r, &flows));
    let chart = round_chart(&r, &flows);
    let segs = &chart.bars[0].segments;
    assert_eq!(segs.len(), 2);
    assert_eq!((segs[0].start, segs[0].end), (S as i128, 2 * S as i128));
    assert_eq!((segs[1].start, segs[1].end), (2 * S as i128, 10 * S as i128));
    assert_eq!(segs[0].color, (100, 149, 237));
    assert_eq!(segs[1].index, 1);
    let (name, time, size) = segs[1].label.clone().unwrap();
    assert_eq!(name, "获取类型");
    assert_eq!(time, "0.51s");
    assert_eq!(size, 48);
}

#[test]
fn unsplittable_labelled_phase_is_reported() {
    let r = round(1, Some(T + 100 * S), Vec::new());
    let steps = vec![step("坏名字 (", T + S)];
    let flows = vec![flow(1, None, vec![op("arm", Some(1), "a", Some(T + S), Some(T + 50 * S), steps)])];
    assert!(!chart_labels_splittable(&r, &flows));
}

#[test]
fn bar_labels_depend_on_length() {
    assert!(main_label_of("x", "arm", 500_000_000).is_none());
    assert!(matches!(main_label_of("手臂:3", "arm", S as i128), Some((MainLabel::Dashed(t), 64)) if t == "手臂:3"));
    assert!(matches!(main_label_of("导航→(1,2)", "navigation", 25 * S as i128), Some((MainLabel::WithTotal(_), 88))));
    assert!(matches!(main_label_of("导航→(1,2)", "navigation", 12 * S as i128), Some((MainLabel::Bracketed(_), 80))));
    assert!(matches!(main_label_of("一二三四五六七八九十十一", "head", 6 * S as i128), Some((MainLabel::Bracketed(t), 72)) if t == "一二三四五六七..."));
    assert!(matches!(main_label_of("头部控制", "head", 3 * S as i128), Some((MainLabel::Bracketed(t), 72)) if t == "头部"));
    assert!(matches!(main_label_of("x", "gripper", 3 * S as i128), Some((MainLabel::Bracketed(t), 72)) if t == "动作"));
    assert!(matches!(main_label_of("x", "head", S as i128), Some((MainLabel::SecondsOnly, 64))));
}
