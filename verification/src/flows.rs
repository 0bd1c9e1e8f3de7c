//! Navigation flows and the actions that belong to them, detected from the action
//! markers of a master-control log.

use vstd::prelude::*;
use crate::config::str_eq;
use crate::intervals::{merged_pause_duration, merged_pause_total, PauseEvent};
use crate::pattern::{group_text, groups_view, regex_captures, regex_is_match, regex_valid, take_group_text, Matcher};
use crate::remote::{trim, trimmed};
use crate::rounds::{
    is_registration, line_view, line_views, non_negative, round_for, round_views, ts_to_round_id,
    without_registrations, LogLine, Round, RoundView, REGISTRATION_PATTERN,
};
use crate::text::{owned, parse_u32_chars, parse_u32_spec, push_char, push_str, to_chars};

verus! {

/// A named step inside an action.
#[derive(Debug, Clone)]
pub struct SubStep {
    pub name: String,
    pub timestamp: i64,
}

/// A step as plain values.
pub struct SubStepView {
    pub name: Seq<char>,
    pub timestamp: i64,
}

impl View for SubStep {
    type V = SubStepView;

    open spec fn view(&self) -> SubStepView {
        SubStepView { name: self.name@, timestamp: self.timestamp }
    }
}

/// The views of a sequence of steps.
pub open spec fn steps_view(v: Seq<SubStep>) -> Seq<SubStepView> {
    v.map_values(|s: SubStep| s@)
}

/// An action of the robot: navigation, arm, head, waist, pre-steering.
#[derive(Debug, Clone)]
pub struct ActionOperation {
    /// `arm`, `navigation`, `head`, `waist` or `preplan`.
    pub action_type: String,
    pub action_code: Option<u32>,
    pub label: String,
    pub start_ts: Option<i64>,
    pub end_ts: Option<i64>,
    pub status: String,
    pub sub_steps: Vec<SubStep>,
    pub pause_events: Vec<PauseEvent>,
}

/// An action as plain values.
pub struct OpView {
    pub action_type: Seq<char>,
    pub action_code: Option<u32>,
    pub label: Seq<char>,
    pub start_ts: Option<i64>,
    pub end_ts: Option<i64>,
    pub status: Seq<char>,
    pub sub_steps: Seq<SubStepView>,
    pub pause_events: Seq<PauseEvent>,
}

impl View for ActionOperation {
    type V = OpView;

    open spec fn view(&self) -> OpView {
        OpView {
            action_type: self.action_type@,
            action_code: self.action_code,
            label: self.label@,
            start_ts: self.start_ts,
            end_ts: self.end_ts,
            status: self.status@,
            sub_steps: steps_view(self.sub_steps@),
            pause_events: self.pause_events@,
        }
    }
}

/// The views of a sequence of actions.
pub open spec fn ops_view(v: Seq<ActionOperation>) -> Seq<OpView> {
    v.map_values(|o: ActionOperation| o@)
}

impl ActionOperation {
    /// The paused time of the action, overlapping pauses counted once.
    pub fn total_pause_duration(&self) -> (r: i128)
        ensures
            r == merged_pause_total(self.pause_events@),
    {
        merged_pause_duration(&self.pause_events)
    }

    /// The working time of the action: end minus start minus the paused time, never
    /// negative; 0 unless both ends are known.
    pub fn effective_duration(&self) -> (r: i128)
        ensures
            r == (match (self.start_ts, self.end_ts) {
                (Some(s), Some(e)) => non_negative(e - s - merged_pause_total(self.pause_events@)),
                _ => 0,
            }),
    {
        match (self.start_ts, self.end_ts) {
            (Some(start), Some(end)) => {
                let pause = self.total_pause_duration();
                proof {
                    crate::intervals::lemma_merged_total_bounds(self.pause_events@);
                }
                let d = end as i128 - start as i128 - pause;
                if d > 0 {
                    d
                } else {
                    0
                }
            },
            _ => 0,
        }
    }
}

/// A navigation and the actions that belong to it.
#[derive(Debug, Clone)]
pub struct NavigationFlow {
    pub nav_start_ts: Option<i64>,
    pub nav_end_ts: Option<i64>,
    pub nav_target_pos: Option<String>,
    pub nav_target_ori: Option<String>,
    /// `ok` or `incomplete`.
    pub nav_status: String,
    pub nav_sub_steps: Vec<SubStep>,
    /// The round the navigation started in (0 when none).
    pub round_id: usize,
    pub operations: Vec<ActionOperation>,
}

/// A flow as plain values.
pub struct FlowView {
    pub nav_start_ts: Option<i64>,
    pub nav_end_ts: Option<i64>,
    pub nav_target_pos: Option<Seq<char>>,
    pub nav_target_ori: Option<Seq<char>>,
    pub nav_status: Seq<char>,
    pub nav_sub_steps: Seq<SubStepView>,
    pub round_id: usize,
    pub operations: Seq<OpView>,
}

/// The characters of an optional string.
pub open spec fn opt_text(o: Option<String>) -> Option<Seq<char>> {
    match o {
        Some(s) => Some(s@),
        None => None,
    }
}

impl View for NavigationFlow {
    type V = FlowView;

    open spec fn view(&self) -> FlowView {
        FlowView {
            nav_start_ts: self.nav_start_ts,
            nav_end_ts: self.nav_end_ts,
            nav_target_pos: opt_text(self.nav_target_pos),
            nav_target_ori: opt_text(self.nav_target_ori),
            nav_status: self.nav_status@,
            nav_sub_steps: steps_view(self.nav_sub_steps@),
            round_id: self.round_id,
            operations: ops_view(self.operations@),
        }
    }
}

/// The views of a sequence of flows.
pub open spec fn flows_view(v: Seq<NavigationFlow>) -> Seq<FlowView> {
    v.map_values(|f: NavigationFlow| f@)
}

// ---------------------------------------------------------------------------
// Markers
// ---------------------------------------------------------------------------

pub const NAV_START_PATTERN: &'static str = r"\[导航\]:\s*NavAction2?\[NavAction2?\]\s*-\s*开始执行";
pub const NAV_START_ALT_PATTERN: &'static str = r"\[导航\]:\s*NavAction\[NavAction\]\s*-\s*开始执行";
/// Groups 1 and 2: position and orientation.
pub const NAV_TARGET_PATTERN: &'static str = r"设置导航目标:\s*pos\(([^)]+)\),\s*ori\(([^)]+)\)";
pub const NAV_SEND_PATTERN: &'static str = r"\[导航\]:\s*发送导航目标";
pub const NAV_RESPONSE_PATTERN: &'static str = r"\[导航\]:\s*\[RESPONSE CALLBACK\]\s*-\s*目标已被服务端接受";
pub const NAV_RESULT_PATTERN: &'static str = r"\[导航\]:\s*\[RESULT CALLBACK\]";
pub const NAV_COMPLETE_PATTERN: &'static str = r"\[导航\]:\s*\[RESULT CALLBACK\]\s*-\s*导航完成，结果代码:";
pub const NAV_END_PATTERN: &'static str = r"\[导航\]:\s*NavAction2?\[NavAction2?\]\s*-\s*执行完成，结果:";
/// Group 1: the label of the arm action.
pub const ARM_START_PATTERN: &'static str = r"\[机械臂\]:\s*DoubleArmAction\[([^\]]+)\]\s*-\s*开始执行";
/// Group 1: the action code.
pub const ARM_SETGOAL_PATTERN: &'static str = r"\[机械臂\]:\s*DoubleArmAction\s+setGoal\s+action_type_code:\s*(\d+)";
pub const ARM_SEND_PATTERN: &'static str = r"\[机械臂\]:\s*发送机械臂控制目标";
pub const ARM_RESPONSE_PATTERN: &'static str = r"\[机械臂\]:\s*\[RESPONSE CALLBACK\]\s*-\s*目标已被服务端接受";
/// Group 1: the status.
pub const ARM_RESULT_PATTERN: &'static str = r"\[机械臂\]:\s*\[RESULT CALLBACK\]\s*-\s*机械臂动作完成，状态:\s*(\d+)";
pub const ARM_COMPLETE_PATTERN: &'static str = r"\[机械臂\]:\s*DoubleArmAction\[([^\]]+)\]\s*-\s*执行完成，结果:";
pub const HEAD_START_PATTERN: &'static str = r"\[头部控制\]:\s*HeadControlAction2?\[head_control\]\s*-\s*开始执行";
pub const HEAD_SEND_PATTERN: &'static str = r"\[头部控制\]:\s*发送头部控制目标";
pub const HEAD_RESPONSE_PATTERN: &'static str = r"\[头部控制\]:\s*\[RESPONSE CALLBACK\]\s*-\s*目标已被服务端接受";
pub const HEAD_RESULT_PATTERN: &'static str = r"\[头部控制\]:\s*\[RESULT CALLBACK\]\s*-\s*头部动作完成";
pub const HEAD_END_PATTERN: &'static str = r"\[头部控制\]:\s*HeadControlAction2?\[head_control\]\s*-\s*执行完成";
pub const WAIST_START_PATTERN: &'static str = r"\[腰部\]:\s*WaistAction2?\[WaistAction2?\]\s*-\s*开始执行";
pub const WAIST_SEND_PATTERN: &'static str = r"\[腰部\]:\s*发送腰部控制目标";
pub const WAIST_RESPONSE_PATTERN: &'static str = r"\[腰部\]:\s*\[RESPONSE CALLBACK\]\s*-\s*目标已被服务端接受";
pub const WAIST_RESULT_PATTERN: &'static str = r"\[腰部\]:\s*\[RESULT CALLBACK\]\s*-\s*腰部动作完成";
pub const WAIST_END_PATTERN: &'static str = r"\[腰部\]:\s*WaistAction2?\[WaistAction2?\]\s*-\s*执行完成，结果:";
/// Group 1: the label of the pre-steering.
pub const PREPLAN_START_PATTERN: &'static str = r"\[预打舵\]:\s*PrePlanNavigation\[([^\]]+)\]\s*-\s*开始执行";
/// Groups 1, 2, 3: position, orientation, action code.
pub const PREPLAN_TARGET_PATTERN: &'static str = r"\[预打舵\]:\s*设置预打舵目标:\s*pos\(([^)]+)\),\s*ori\(([^)]+)\)\s+action:\s*(\d+)";
/// Group 1: the error code.
pub const PREPLAN_RESPONSE_PATTERN: &'static str = r"\[预打舵\]:\s*PrePlanNavigation 响应:\s*error_code=(\d+)";

/// The number of flow markers.
pub const FLOW_PATTERN_COUNT: usize = 28;

/// Flow marker `k`, in the order in which a line is checked against them.
pub open spec fn flow_pattern(k: int) -> Seq<char> {
    if k == 0 { REGISTRATION_PATTERN@ }
    else if k == 1 { NAV_START_PATTERN@ }
    else if k == 2 { NAV_START_ALT_PATTERN@ }
    else if k == 3 { NAV_TARGET_PATTERN@ }
    else if k == 4 { NAV_SEND_PATTERN@ }
    else if k == 5 { NAV_RESPONSE_PATTERN@ }
    else if k == 6 { NAV_RESULT_PATTERN@ }
    else if k == 7 { NAV_COMPLETE_PATTERN@ }
    else if k == 8 { NAV_END_PATTERN@ }
    else if k == 9 { ARM_START_PATTERN@ }
    else if k == 10 { ARM_SETGOAL_PATTERN@ }
    else if k == 11 { ARM_SEND_PATTERN@ }
    else if k == 12 { ARM_RESPONSE_PATTERN@ }
    else if k == 13 { ARM_RESULT_PATTERN@ }
    else if k == 14 { ARM_COMPLETE_PATTERN@ }
    else if k == 15 { HEAD_START_PATTERN@ }
    else if k == 16 { HEAD_SEND_PATTERN@ }
    else if k == 17 { HEAD_RESPONSE_PATTERN@ }
    else if k == 18 { HEAD_RESULT_PATTERN@ }
    else if k == 19 { HEAD_END_PATTERN@ }
    else if k == 20 { WAIST_START_PATTERN@ }
    else if k == 21 { WAIST_SEND_PATTERN@ }
    else if k == 22 { WAIST_RESPONSE_PATTERN@ }
    else if k == 23 { WAIST_RESULT_PATTERN@ }
    else if k == 24 { WAIST_END_PATTERN@ }
    else if k == 25 { PREPLAN_START_PATTERN@ }
    else if k == 26 { PREPLAN_TARGET_PATTERN@ }
    else { PREPLAN_RESPONSE_PATTERN@ }
}

/// Flow marker `k`.
pub fn flow_pattern_str(k: usize) -> (r: &'static str)
    requires
        k < FLOW_PATTERN_COUNT,
    ensures
        r@ == flow_pattern(k as int),
{
    match k {
        0 => REGISTRATION_PATTERN,
        1 => NAV_START_PATTERN,
        2 => NAV_START_ALT_PATTERN,
        3 => NAV_TARGET_PATTERN,
        4 => NAV_SEND_PATTERN,
        5 => NAV_RESPONSE_PATTERN,
        6 => NAV_RESULT_PATTERN,
        7 => NAV_COMPLETE_PATTERN,
        8 => NAV_END_PATTERN,
        9 => ARM_START_PATTERN,
        10 => ARM_SETGOAL_PATTERN,
        11 => ARM_SEND_PATTERN,
        12 => ARM_RESPONSE_PATTERN,
        13 => ARM_RESULT_PATTERN,
        14 => ARM_COMPLETE_PATTERN,
        15 => HEAD_START_PATTERN,
        16 => HEAD_SEND_PATTERN,
        17 => HEAD_RESPONSE_PATTERN,
        18 => HEAD_RESULT_PATTERN,
        19 => HEAD_END_PATTERN,
        20 => WAIST_START_PATTERN,
        21 => WAIST_SEND_PATTERN,
        22 => WAIST_RESPONSE_PATTERN,
        23 => WAIST_RESULT_PATTERN,
        24 => WAIST_END_PATTERN,
        25 => PREPLAN_START_PATTERN,
        26 => PREPLAN_TARGET_PATTERN,
        _ => PREPLAN_RESPONSE_PATTERN,
    }
}

/// Every flow marker compiles.
pub open spec fn flow_patterns_valid() -> bool {
    forall|k: int| 0 <= k < FLOW_PATTERN_COUNT ==> #[trigger] regex_valid(flow_pattern(k))
}

/// Marker `k` matches `line`.
pub open spec fn fm(k: int, line: Seq<char>) -> bool {
    regex_is_match(flow_pattern(k), line)
}

/// The text of group `i` of the first match of marker `k` in `line` (empty when none).
pub open spec fn fcap(k: int, line: Seq<char>, i: int) -> Seq<char> {
    match regex_captures(flow_pattern(k), line) {
        Some(c) => group_text(c, i),
        None => Seq::empty(),
    }
}

/// `s` without its spaces.
pub open spec fn without_spaces(s: Seq<char>) -> Seq<char>
    decreases s.len(),
{
    if s.len() == 0 {
        s
    } else if s.last() == ' ' {
        without_spaces(s.drop_last())
    } else {
        without_spaces(s.drop_last()).push(s.last())
    }
}

/// What a log line means for flow detection.
pub enum FlowEvent {
    Skip,
    NavStart,
    /// Position and orientation, without spaces.
    NavTarget(Seq<char>, Seq<char>),
    NavStep(Seq<char>),
    NavFinish(Seq<char>),
    /// The label of the arm action.
    ArmStart(Seq<char>),
    /// The kind of action and the name of the step.
    OpStep(Seq<char>, Seq<char>),
    /// The reported status.
    ArmResult(Seq<char>),
    ArmComplete,
    /// The kind and the label of the action.
    OpStart(Seq<char>, Seq<char>),
    OpEnd(Seq<char>),
    PreplanStart(Seq<char>),
    /// Position (without spaces) and action code.
    PreplanTarget(Seq<char>, u32),
    /// The error code.
    PreplanResponse(Seq<char>),
    Other,
}

/// The meaning of a line: the first marker, in the order of the checks, that matches.
pub open spec fn flow_event(line: Seq<char>) -> FlowEvent {
    if fm(0, line) { FlowEvent::Skip }
    else if fm(1, line) || fm(2, line) { FlowEvent::NavStart }
    else if fm(3, line) { FlowEvent::NavTarget(without_spaces(fcap(3, line, 1)), without_spaces(fcap(3, line, 2))) }
    else if fm(4, line) { FlowEvent::NavStep("发送导航目标"@) }
    else if fm(5, line) { FlowEvent::NavStep("服务端接受"@) }
    else if fm(6, line) && !fm(7, line) { FlowEvent::NavStep("结果回调"@) }
    else if fm(7, line) { FlowEvent::NavFinish("导航完成"@) }
    else if fm(8, line) { FlowEvent::NavFinish("执行完成"@) }
    else if fm(9, line) { FlowEvent::ArmStart(fcap(9, line, 1)) }
    else if fm(11, line) { FlowEvent::OpStep("arm"@, "发送目标"@) }
    else if fm(12, line) { FlowEvent::OpStep("arm"@, "服务端接受"@) }
    else if fm(13, line) { FlowEvent::ArmResult(trim(fcap(13, line, 1))) }
    else if fm(14, line) { FlowEvent::ArmComplete }
    else if fm(15, line) { FlowEvent::OpStart("head"@, "头部控制"@) }
    else if fm(16, line) { FlowEvent::OpStep("head"@, "发送目标"@) }
    else if fm(17, line) { FlowEvent::OpStep("head"@, "服务端接受"@) }
    else if fm(18, line) { FlowEvent::OpStep("head"@, "动作完成"@) }
    else if fm(19, line) { FlowEvent::OpEnd("head"@) }
    else if fm(20, line) { FlowEvent::OpStart("waist"@, "腰部控制"@) }
    else if fm(21, line) { FlowEvent::OpStep("waist"@, "发送目标"@) }
    else if fm(22, line) { FlowEvent::OpStep("waist"@, "服务端接受"@) }
    else if fm(23, line) { FlowEvent::OpStep("waist"@, "动作完成"@) }
    else if fm(24, line) { FlowEvent::OpEnd("waist"@) }
    else if fm(25, line) { FlowEvent::PreplanStart(fcap(25, line, 1)) }
    else if fm(26, line) {
        FlowEvent::PreplanTarget(
            without_spaces(fcap(26, line, 1)),
            match parse_u32_spec(fcap(26, line, 3)) {
                Some(c) => c,
                None => 0,
            },
        )
    }
    else if fm(27, line) { FlowEvent::PreplanResponse(trim(fcap(27, line, 1))) }
    else { FlowEvent::Other }
}

/// The action code announced by the line that follows an arm start, if any.
pub open spec fn arm_code(next: Option<Seq<char>>) -> Option<u32> {
    match next {
        Some(l) => match regex_captures(flow_pattern(10), l) {
            Some(c) => parse_u32_spec(group_text(c, 1)),
            None => None,
        },
        None => None,
    }
}

// ---------------------------------------------------------------------------
// Detection as a function of the lines
// ---------------------------------------------------------------------------

/// A step at `ts`.
pub open spec fn step_at(name: Seq<char>, ts: i64) -> SubStepView {
    SubStepView { name, timestamp: ts }
}

/// An edit of an action: which action of a flow it applies to (the last one of
/// kind `ty`, among the unfinished ones when `open_only`), and what it does: add a
/// step named `name` at `ts`, finish the action with `status` when given, and set
/// its code when given.
pub struct OpEdit {
    pub open_only: bool,
    pub ty: Seq<char>,
    pub name: Seq<char>,
    pub ts: i64,
    pub status: Option<Seq<char>>,
    pub code: Option<u32>,
}

/// The index of the last action of `ops` that an edit applies to.
pub open spec fn pick(ops: Seq<OpView>, open_only: bool, ty: Seq<char>) -> Option<int>
    decreases ops.len(),
{
    if ops.len() == 0 {
        None
    } else if ops.last().action_type == ty && (!open_only || ops.last().end_ts is None) {
        Some(ops.len() - 1)
    } else {
        pick(ops.drop_last(), open_only, ty)
    }
}

/// An action after an edit.
pub open spec fn apply_edit(o: OpView, e: OpEdit) -> OpView {
    OpView {
        sub_steps: o.sub_steps.push(step_at(e.name, e.ts)),
        end_ts: if e.status is Some {
            Some(e.ts)
        } else {
            o.end_ts
        },
        status: match e.status {
            Some(s) => s,
            None => o.status,
        },
        action_code: if e.code is Some {
            e.code
        } else {
            o.action_code
        },
        ..o
    }
}

/// The actions after an edit (unchanged when no action fits it).
pub open spec fn edit_ops(ops: Seq<OpView>, e: OpEdit) -> Seq<OpView> {
    match pick(ops, e.open_only, e.ty) {
        Some(k) => ops.update(k, apply_edit(ops[k], e)),
        None => ops,
    }
}

/// A flow after an edit of its actions.
pub open spec fn edit_flow(f: FlowView, e: OpEdit) -> FlowView {
    FlowView { operations: edit_ops(f.operations, e), ..f }
}

/// A flow with one more action.
pub open spec fn flow_with_op(f: FlowView, o: OpView) -> FlowView {
    FlowView { operations: f.operations.push(o), ..f }
}

/// The state of detection after some lines: the finished flows and the open one.
pub struct FlowState {
    pub flows: Seq<FlowView>,
    pub current: Option<FlowView>,
}

/// Applies an edit to the flow that actions attach to: the open flow, or else the
/// last finished one (nothing when there is neither).
pub open spec fn edit_target(st: FlowState, e: OpEdit) -> FlowState {
    match st.current {
        Some(c) => FlowState { current: Some(edit_flow(c, e)), ..st },
        None => if st.flows.len() > 0 {
            FlowState { flows: st.flows.update(st.flows.len() - 1, edit_flow(st.flows.last(), e)), ..st }
        } else {
            st
        },
    }
}

/// Adds an action to the flow that actions attach to (dropped when there is none).
pub open spec fn add_to_target(st: FlowState, o: OpView) -> FlowState {
    match st.current {
        Some(c) => FlowState { current: Some(flow_with_op(c, o)), ..st },
        None => if st.flows.len() > 0 {
            FlowState { flows: st.flows.update(st.flows.len() - 1, flow_with_op(st.flows.last(), o)), ..st }
        } else {
            st
        },
    }
}

/// The index of the newest of `flows` that holds an action the edit applies to.
pub open spec fn newest_fitting(flows: Seq<FlowView>, e: OpEdit) -> Option<int>
    decreases flows.len(),
{
    if flows.len() == 0 {
        None
    } else if pick(flows.last().operations, e.open_only, e.ty) is Some {
        Some(flows.len() - 1)
    } else {
        newest_fitting(flows.drop_last(), e)
    }
}

/// The flows after an edit of the newest one that holds a fitting action (unchanged
/// when none does): one edit changes one action.
pub open spec fn edit_newest_fitting(flows: Seq<FlowView>, e: OpEdit) -> Seq<FlowView> {
    match newest_fitting(flows, e) {
        Some(k) => flows.update(k, edit_flow(flows[k], e)),
        None => flows,
    }
}

/// Applies an edit to the open flow when an action of it fits the edit; otherwise to
/// the newest finished flow that holds a fitting action.
pub open spec fn edit_current_or_newest(st: FlowState, e: OpEdit) -> FlowState {
    match st.current {
        Some(c) => if pick(c.operations, e.open_only, e.ty) is Some {
            FlowState { current: Some(edit_flow(c, e)), ..st }
        } else {
            FlowState { flows: edit_newest_fitting(st.flows, e), ..st }
        },
        None => FlowState { flows: edit_newest_fitting(st.flows, e), ..st },
    }
}

/// A new action of kind `ty` started at `ts` with its first step.
pub open spec fn new_op(ty: Seq<char>, code: Option<u32>, label: Seq<char>, step: Seq<char>, ts: i64) -> OpView {
    OpView {
        action_type: ty,
        action_code: code,
        label,
        start_ts: Some(ts),
        end_ts: None,
        status: "pending"@,
        sub_steps: seq![step_at(step, ts)],
        pause_events: seq![],
    }
}

/// A navigation started at `ts` in round `round_id`.
pub open spec fn new_flow(ts: i64, round_id: usize) -> FlowView {
    FlowView {
        nav_start_ts: Some(ts),
        nav_end_ts: None,
        nav_target_pos: None,
        nav_target_ori: None,
        nav_status: "ok"@,
        nav_sub_steps: seq![step_at("开始执行"@, ts)],
        round_id,
        operations: seq![],
    }
}

/// The open flow as it is left when a new navigation starts at `ts`: ended at `ts`
/// and marked incomplete when it has no end yet.
pub open spec fn interrupted(f: FlowView, ts: i64) -> FlowView {
    if f.nav_end_ts is None {
        FlowView { nav_end_ts: Some(ts), nav_status: "incomplete"@, ..f }
    } else {
        f
    }
}

/// A flow with one more navigation step.
pub open spec fn flow_with_step(f: FlowView, name: Seq<char>, ts: i64) -> FlowView {
    FlowView { nav_sub_steps: f.nav_sub_steps.push(step_at(name, ts)), ..f }
}

/// The status that an arm result reports.
pub open spec fn arm_status(status: Seq<char>) -> Seq<char> {
    if status == "0"@ {
        "ok"@
    } else {
        "status_"@ + status
    }
}

/// The status that a pre-steering response reports.
pub open spec fn preplan_status(code: Seq<char>) -> Seq<char> {
    if code == "10"@ {
        "ok"@
    } else {
        "error_"@ + code
    }
}

/// An edit with the given fields.
pub open spec fn op_edit(open_only: bool, ty: Seq<char>, name: Seq<char>, ts: i64, status: Option<Seq<char>>, code: Option<u32>) -> OpEdit {
    OpEdit { open_only, ty, name, ts, status, code }
}

/// The state after a line at `ts` that means `ev`: `code` is the action code that
/// the next line announces (read by an arm start only) and `round_id` the round the
/// line falls in (read by a navigation start only).
pub open spec fn flow_apply(st: FlowState, ts: i64, ev: FlowEvent, code: Option<u32>, round_id: usize) -> FlowState {
    match ev {
        FlowEvent::Skip => st,
        FlowEvent::Other => st,
        FlowEvent::NavStart => FlowState {
            flows: match st.current {
                Some(c) => st.flows.push(interrupted(c, ts)),
                None => st.flows,
            },
            current: Some(new_flow(ts, round_id)),
        },
        FlowEvent::NavTarget(pos, ori) => match st.current {
            Some(c) => if c.nav_target_pos is None {
                FlowState {
                    current: Some(
                        flow_with_step(
                            FlowView { nav_target_pos: Some(pos), nav_target_ori: Some(ori), ..c },
                            "设置导航目标"@,
                            ts,
                        ),
                    ),
                    ..st
                }
            } else {
                st
            },
            None => st,
        },
        FlowEvent::NavStep(name) => match st.current {
            Some(c) => FlowState { current: Some(flow_with_step(c, name, ts)), ..st },
            None => st,
        },
        FlowEvent::NavFinish(name) => match st.current {
            Some(c) => FlowState {
                flows: st.flows.push(flow_with_step(FlowView { nav_end_ts: Some(ts), ..c }, name, ts)),
                current: None,
            },
            None => st,
        },
        FlowEvent::ArmStart(label) => add_to_target(
            st,
            new_op("arm"@, code, label, "开始执行["@ + label + "]"@, ts),
        ),
        FlowEvent::OpStep(ty, name) => edit_target(st, op_edit(true, ty, name, ts, None, None)),
        FlowEvent::ArmResult(status) => edit_current_or_newest(
            st,
            op_edit(true, "arm"@, "动作完成(状态:"@ + status + ")"@, ts, Some(arm_status(status)), None),
        ),
        FlowEvent::ArmComplete => edit_current_or_newest(
            st,
            op_edit(false, "arm"@, "执行完成"@, ts, None, None),
        ),
        FlowEvent::OpStart(ty, label) => add_to_target(st, new_op(ty, None, label, "开始执行"@, ts)),
        FlowEvent::OpEnd(ty) => edit_target(st, op_edit(true, ty, "执行完成"@, ts, Some("ok"@), None)),
        FlowEvent::PreplanStart(label) => add_to_target(
            st,
            new_op("preplan"@, None, "预打舵["@ + label + "]"@, "开始执行"@, ts),
        ),
        FlowEvent::PreplanTarget(pos, code) => edit_target(
            st,
            op_edit(true, "preplan"@, "设置目标→"@ + pos, ts, None, Some(code)),
        ),
        FlowEvent::PreplanResponse(code) => edit_target(
            st,
            op_edit(true, "preplan"@, "响应(code="@ + code + ")"@, ts, Some(preplan_status(code)), None),
        ),
    }
}

/// The state after one line at `ts`, `next` being the text of the line after it.
pub open spec fn flow_step(
    st: FlowState,
    ts: i64,
    line: Seq<char>,
    next: Option<Seq<char>>,
    rounds: Seq<RoundView>,
) -> FlowState {
    flow_apply(st, ts, flow_event(line), arm_code(next), round_for(ts, rounds))
}

/// The flows once detection ends: an open navigation is kept, marked incomplete.
pub open spec fn finished_flows(st: FlowState) -> Seq<FlowView> {
    match st.current {
        Some(c) => st.flows.push(FlowView { nav_status: "incomplete"@, ..c }),
        None => st.flows,
    }
}

/// The text of the line after line `i`, if any.
pub open spec fn next_text(lines: Seq<(i64, Seq<char>)>, i: int) -> Option<Seq<char>> {
    if 0 <= i && i + 1 < lines.len() {
        Some(lines[i + 1].1)
    } else {
        None
    }
}

/// The state after the first `n` lines.
pub open spec fn flow_run(lines: Seq<(i64, Seq<char>)>, n: nat, rounds: Seq<RoundView>) -> FlowState
    decreases n,
{
    if n == 0 {
        FlowState { flows: seq![], current: None }
    } else {
        let i = n - 1;
        flow_step(flow_run(lines, (n - 1) as nat, rounds), lines[i].0, lines[i].1, next_text(lines, i), rounds)
    }
}

/// The flows of a log: the navigations found by the markers with their actions, a
/// navigation still open at the end marked incomplete.
pub open spec fn detected_flows(lines: Seq<(i64, Seq<char>)>, rounds: Seq<RoundView>) -> Seq<FlowView> {
    finished_flows(flow_run(lines, lines.len(), rounds))
}

// ---------------------------------------------------------------------------
// Detection
// ---------------------------------------------------------------------------

/// `s` without its spaces (`str::replace(' ', "")`).
pub fn remove_spaces(s: &str) -> (r: String)
    ensures
        r@ == without_spaces(s@),
{
    let cs = to_chars(s);
    let mut r = String::new();
    let mut i: usize = 0;
    assert(cs@.take(0) =~= Seq::<char>::empty());
    while i < cs.len()
        invariant
            cs@ == s@,
            i <= cs.len(),
            r@ == without_spaces(cs@.take(i as int)),
        decreases cs.len() - i,
    {
        proof {
            assert(cs@.take(i + 1).drop_last() =~= cs@.take(i as int));
            assert(cs@.take(i + 1).last() == cs@[i as int]);
        }
        if cs[i] != ' ' {
            push_char(&mut r, cs[i]);
        }
        i += 1;
    }
    assert(cs@.take(cs.len() as int) =~= cs@);
    r
}

/// The compiled flow markers.
pub struct FlowPatterns {
    ms: Vec<Matcher>,
}

/// The meaning of a line as computed (see `FlowEvent`).
pub enum FlowKind {
    Skip,
    NavStart,
    NavTarget(String, String),
    NavStep(String),
    NavFinish(String),
    ArmStart(String),
    OpStep(String, String),
    ArmResult(String),
    ArmComplete,
    OpStart(String, String),
    OpEnd(String),
    PreplanStart(String),
    PreplanTarget(String, u32),
    PreplanResponse(String),
    Other,
}

impl FlowKind {
    /// The meaning as plain values.
    pub open spec fn event(&self) -> FlowEvent {
        match self {
            FlowKind::Skip => FlowEvent::Skip,
            FlowKind::NavStart => FlowEvent::NavStart,
            FlowKind::NavTarget(p, o) => FlowEvent::NavTarget(p@, o@),
            FlowKind::NavStep(n) => FlowEvent::NavStep(n@),
            FlowKind::NavFinish(n) => FlowEvent::NavFinish(n@),
            FlowKind::ArmStart(l) => FlowEvent::ArmStart(l@),
            FlowKind::OpStep(t, n) => FlowEvent::OpStep(t@, n@),
            FlowKind::ArmResult(s) => FlowEvent::ArmResult(s@),
            FlowKind::ArmComplete => FlowEvent::ArmComplete,
            FlowKind::OpStart(t, l) => FlowEvent::OpStart(t@, l@),
            FlowKind::OpEnd(t) => FlowEvent::OpEnd(t@),
            FlowKind::PreplanStart(l) => FlowEvent::PreplanStart(l@),
            FlowKind::PreplanTarget(p, c) => FlowEvent::PreplanTarget(p@, *c),
            FlowKind::PreplanResponse(c) => FlowEvent::PreplanResponse(c@),
            FlowKind::Other => FlowEvent::Other,
        }
    }
}

/// The text of an optional line.
pub open spec fn opt_line(o: Option<&str>) -> Option<Seq<char>> {
    match o {
        Some(s) => Some(s@),
        None => None,
    }
}

impl FlowPatterns {
    /// Marker `k` is compiled from `flow_pattern(k)`.
    pub closed spec fn wf(&self) -> bool {
        &&& self.ms@.len() == FLOW_PATTERN_COUNT
        &&& forall|k: int| 0 <= k < FLOW_PATTERN_COUNT ==> (#[trigger] self.ms@[k]).source() == flow_pattern(k)
    }

    /// Compiles the markers; `None` when one of them does not compile.
    pub fn new() -> (r: Option<FlowPatterns>)
        ensures
            r is Some <==> flow_patterns_valid(),
            r matches Some(p) ==> p.wf(),
    {
        let mut ms: Vec<Matcher> = Vec::new();
        let mut k: usize = 0;
        while k < FLOW_PATTERN_COUNT
            invariant
                k <= FLOW_PATTERN_COUNT,
                ms@.len() == k,
                forall|j: int| 0 <= j < k ==> (#[trigger] ms@[j]).source() == flow_pattern(j),
                forall|j: int| 0 <= j < k ==> #[trigger] regex_valid(flow_pattern(j)),
            decreases FLOW_PATTERN_COUNT - k,
        {
            match Matcher::compile(flow_pattern_str(k)) {
                Some(m) => ms.push(m),
                None => return None,
            }
            k += 1;
        }
        Some(FlowPatterns { ms })
    }

    fn m(&self, k: usize, line: &str) -> (r: bool)
        requires
            self.wf(),
            k < FLOW_PATTERN_COUNT,
        ensures
            r == fm(k as int, line@),
    {
        self.ms[k].is_match(line)
    }

    fn cap(&self, k: usize, line: &str, i: usize) -> (r: String)
        requires
            self.wf(),
            k < FLOW_PATTERN_COUNT,
        ensures
            r@ == fcap(k as int, line@, i as int),
    {
        match self.ms[k].captures(line) {
            Some(v) => take_group_text(&v, i),
            None => String::new(),
        }
    }

    /// The action code announced by the line after an arm start.
    pub fn arm_code_of(&self, next: Option<&str>) -> (r: Option<u32>)
        requires
            self.wf(),
        ensures
            r == arm_code(opt_line(next)),
    {
        match next {
            Some(l) => match self.ms[10].captures(l) {
                Some(v) => {
                    let g = take_group_text(&v, 1);
                    let cs = to_chars(g.as_str());
                    assert(cs@.subrange(0, cs@.len() as int) =~= cs@);
                    parse_u32_chars(&cs, 0, cs.len())
                },
                None => None,
            },
            None => None,
        }
    }

    /// The meaning of a line (see `flow_event`).
    #[verifier::rlimit(40)]
    pub fn classify(&self, line: &str) -> (r: FlowKind)
        requires
            self.wf(),
        ensures
            r.event() == flow_event(line@),
    {
        if self.m(0, line) {
            return FlowKind::Skip;
        }
        if self.m(1, line) || self.m(2, line) {
            return FlowKind::NavStart;
        }
        if self.m(3, line) {
            let p = self.cap(3, line, 1);
            let o = self.cap(3, line, 2);
            return FlowKind::NavTarget(remove_spaces(p.as_str()), remove_spaces(o.as_str()));
        }
        if self.m(4, line) {
            return FlowKind::NavStep(owned("发送导航目标"));
        }
        if self.m(5, line) {
            return FlowKind::NavStep(owned("服务端接受"));
        }
        if self.m(6, line) && !self.m(7, line) {
            return FlowKind::NavStep(owned("结果回调"));
        }
        if self.m(7, line) {
            return FlowKind::NavFinish(owned("导航完成"));
        }
        if self.m(8, line) {
            return FlowKind::NavFinish(owned("执行完成"));
        }
        if self.m(9, line) {
            return FlowKind::ArmStart(self.cap(9, line, 1));
        }
        if self.m(11, line) {
            return FlowKind::OpStep(owned("arm"), owned("发送目标"));
        }
        if self.m(12, line) {
            return FlowKind::OpStep(owned("arm"), owned("服务端接受"));
        }
        if self.m(13, line) {
            let s = self.cap(13, line, 1);
            return FlowKind::ArmResult(trimmed(s.as_str()));
        }
        if self.m(14, line) {
            return FlowKind::ArmComplete;
        }
        if self.m(15, line) {
            return FlowKind::OpStart(owned("head"), owned("头部控制"));
        }
        if self.m(16, line) {
            return FlowKind::OpStep(owned("head"), owned("发送目标"));
        }
        if self.m(17, line) {
            return FlowKind::OpStep(owned("head"), owned("服务端接受"));
        }
        if self.m(18, line) {
            return FlowKind::OpStep(owned("head"), owned("动作完成"));
        }
        if self.m(19, line) {
            return FlowKind::OpEnd(owned("head"));
        }
        if self.m(20, line) {
            return FlowKind::OpStart(owned("waist"), owned("腰部控制"));
        }
        if self.m(21, line) {
            return FlowKind::OpStep(owned("waist"), owned("发送目标"));
        }
        if self.m(22, line) {
            return FlowKind::OpStep(owned("waist"), owned("服务端接受"));
        }
        if self.m(23, line) {
            return FlowKind::OpStep(owned("waist"), owned("动作完成"));
        }
        if self.m(24, line) {
            return FlowKind::OpEnd(owned("waist"));
        }
        if self.m(25, line) {
            return FlowKind::PreplanStart(self.cap(25, line, 1));
        }
        if self.m(26, line) {
            let p = self.cap(26, line, 1);
            let c = self.cap(26, line, 3);
            let cs = to_chars(c.as_str());
            assert(cs@.subrange(0, cs@.len() as int) =~= cs@);
            let code = match parse_u32_chars(&cs, 0, cs.len()) {
                Some(n) => n,
                None => 0,
            };
            return FlowKind::PreplanTarget(remove_spaces(p.as_str()), code);
        }
        if self.m(27, line) {
            let c = self.cap(27, line, 1);
            return FlowKind::PreplanResponse(trimmed(c.as_str()));
        }
        FlowKind::Other
    }
}

/// An edit of an action as computed (see `OpEdit`).
struct Edit {
    open_only: bool,
    ty: String,
    name: String,
    ts: i64,
    status: Option<String>,
    code: Option<u32>,
}

impl View for Edit {
    type V = OpEdit;

    closed spec fn view(&self) -> OpEdit {
        OpEdit {
            open_only: self.open_only,
            ty: self.ty@,
            name: self.name@,
            ts: self.ts,
            status: opt_text(self.status),
            code: self.code,
        }
    }
}

/// The index of the last action that an edit applies to.
fn pick_op(ops: &Vec<ActionOperation>, open_only: bool, ty: &str) -> (r: Option<usize>)
    ensures
        match r {
            Some(k) => k < ops@.len() && pick(ops_view(ops@), open_only, ty@) == Some(k as int),
            None => pick(ops_view(ops@), open_only, ty@) is None,
        },
{
    let ghost v = ops_view(ops@);
    let mut i: usize = ops.len();
    assert(v.take(i as int) =~= v);
    while i > 0
        invariant
            i <= ops@.len(),
            v == ops_view(ops@),
            v.len() == ops@.len(),
            pick(v, open_only, ty@) == pick(v.take(i as int), open_only, ty@),
        decreases i,
    {
        let o = &ops[i - 1];
        proof {
            assert(v.take(i as int).last() == ops@[i - 1]@);
            assert(v.take(i as int).drop_last() =~= v.take(i - 1));
        }
        if str_eq(o.action_type.as_str(), ty) && (!open_only || o.end_ts.is_none()) {
            return Some(i - 1);
        }
        i -= 1;
    }
    None
}

/// An action after an edit.
fn apply_edit_exec(op: ActionOperation, e: &Edit) -> (r: ActionOperation)
    ensures
        r@ == apply_edit(op@, e@),
{
    let mut op = op;
    let ghost before = op@;
    let ghost old_steps = op.sub_steps@;
    op.sub_steps.push(SubStep { name: e.name.clone(), timestamp: e.ts });
    match &e.status {
        Some(s) => {
            op.end_ts = Some(e.ts);
            op.status = s.clone();
        },
        None => {},
    }
    if e.code.is_some() {
        op.action_code = e.code;
    }
    proof {
        assert(steps_view(op.sub_steps@) =~= steps_view(old_steps).push(step_at(e@.name, e.ts)));
    }
    op
}

/// Applies an edit to a list of actions; tells whether an action fitted it.
fn edit_ops_exec(ops: &mut Vec<ActionOperation>, e: &Edit) -> (found: bool)
    ensures
        ops_view(final(ops)@) == edit_ops(ops_view(old(ops)@), e@),
        found == pick(ops_view(old(ops)@), e@.open_only, e@.ty) is Some,
{
    match pick_op(ops, e.open_only, e.ty.as_str()) {
        Some(k) => {
            let ghost old_v = ops_view(ops@);
            let op = ops.remove(k);
            let op2 = apply_edit_exec(op, e);
            ops.insert(k, op2);
            proof {
                assert(ops_view(ops@) =~= old_v.update(k as int, apply_edit(old_v[k as int], e@)));
            }
            true
        },
        None => false,
    }
}

/// A flow after an edit of its actions; tells whether an action fitted the edit.
fn edit_flow_exec(f: NavigationFlow, e: &Edit) -> (r: (NavigationFlow, bool))
    ensures
        r.0@ == edit_flow(f@, e@),
        r.1 == pick(f@.operations, e@.open_only, e@.ty) is Some,
{
    let mut f = f;
    let found = edit_ops_exec(&mut f.operations, e);
    (f, found)
}

/// The index of the newest flow that holds an action the edit applies to.
fn newest_fitting_index(flows: &Vec<NavigationFlow>, e: &Edit) -> (r: Option<usize>)
    ensures
        match r {
            Some(k) => k < flows@.len() && newest_fitting(flows_view(flows@), e@) == Some(k as int),
            None => newest_fitting(flows_view(flows@), e@) is None,
        },
{
    let ghost v = flows_view(flows@);
    let mut i: usize = flows.len();
    assert(v.take(i as int) =~= v);
    while i > 0
        invariant
            i <= flows@.len(),
            v == flows_view(flows@),
            v.len() == flows@.len(),
            newest_fitting(v, e@) == newest_fitting(v.take(i as int), e@),
        decreases i,
    {
        proof {
            assert(v.take(i as int).last() == flows@[i - 1]@);
            assert(v.take(i as int).drop_last() =~= v.take(i - 1));
        }
        if pick_op(&flows[i - 1].operations, e.open_only, e.ty.as_str()).is_some() {
            return Some(i - 1);
        }
        i -= 1;
    }
    None
}

/// A new action with its first step.
fn new_op_exec(ty: String, code: Option<u32>, label: String, step: String, ts: i64) -> (r: ActionOperation)
    ensures
        r@ == new_op(ty@, code, label@, step@, ts),
{
    let mut steps: Vec<SubStep> = Vec::new();
    steps.push(SubStep { name: step, timestamp: ts });
    let r = ActionOperation {
        action_type: ty,
        action_code: code,
        label,
        start_ts: Some(ts),
        end_ts: None,
        status: owned("pending"),
        sub_steps: steps,
        pause_events: Vec::new(),
    };
    assert(steps_view(r.sub_steps@) =~= seq![step_at(step@, ts)]);
    assert(r.pause_events@ =~= seq![]);
    r
}

/// The view of an optional flow.
pub open spec fn opt_flow_view(o: Option<NavigationFlow>) -> Option<FlowView> {
    match o {
        Some(f) => Some(f@),
        None => None,
    }
}

proof fn lemma_flows_view_push(v: Seq<NavigationFlow>, f: NavigationFlow)
    ensures
        flows_view(v.push(f)) == flows_view(v).push(f@),
{
    assert(flows_view(v.push(f)) =~= flows_view(v).push(f@));
}

proof fn lemma_steps_view_push(v: Seq<SubStep>, s: SubStep)
    ensures
        steps_view(v.push(s)) == steps_view(v).push(s@),
{
    assert(steps_view(v.push(s)) =~= steps_view(v).push(s@));
}

proof fn lemma_ops_view_push(v: Seq<ActionOperation>, o: ActionOperation)
    ensures
        ops_view(v.push(o)) == ops_view(v).push(o@),
{
    assert(ops_view(v.push(o)) =~= ops_view(v).push(o@));
}

/// Flow detection under way: the finished flows and the open one.
pub struct FlowDetector {
    flows: Vec<NavigationFlow>,
    current: Option<NavigationFlow>,
}

impl View for FlowDetector {
    type V = FlowState;

    closed spec fn view(&self) -> FlowState {
        self.state()
    }
}

impl FlowDetector {
    spec fn state(&self) -> FlowState {
        FlowState { flows: flows_view(self.flows@), current: opt_flow_view(self.current) }
    }

    /// Detection before any line: no flow.
    pub fn new() -> (r: FlowDetector)
        ensures
            r@ == (FlowState { flows: seq![], current: None }),
    {
        let r = FlowDetector { flows: Vec::new(), current: None };
        assert(flows_view(r.flows@) =~= seq![]);
        r
    }

    /// The flows found, an open navigation kept and marked incomplete.
    pub fn finish(self) -> (r: Vec<NavigationFlow>)
        ensures
            flows_view(r@) == finished_flows(self@),
    {
        let mut flows = self.flows;
        match self.current {
            Some(mut c) => {
                c.nav_status = owned("incomplete");
                proof {
                    lemma_flows_view_push(flows@, c);
                }
                flows.push(c);
            },
            None => {},
        }
        flows
    }

    fn edit_target(&mut self, e: &Edit)
        ensures
            final(self).state() == edit_target(old(self).state(), e@),
    {
        match self.current.take() {
            Some(c) => {
                let (c2, _) = edit_flow_exec(c, e);
                self.current = Some(c2);
            },
            None => {
                let ghost old_flows = self.flows@;
                match self.flows.pop() {
                    Some(f) => {
                        let (f2, _) = edit_flow_exec(f, e);
                        proof {
                            lemma_flows_view_push(self.flows@, f2);
                            assert(flows_view(self.flows@).push(f2@) =~= flows_view(old_flows).update(
                                old_flows.len() - 1,
                                edit_flow(flows_view(old_flows).last(), e@),
                            ));
                        }
                        self.flows.push(f2);
                    },
                    None => {},
                }
            },
        }
    }

    fn add_to_target(&mut self, o: ActionOperation)
        ensures
            final(self).state() == add_to_target(old(self).state(), o@),
    {
        match self.current.take() {
            Some(mut c) => {
                proof {
                    lemma_ops_view_push(c.operations@, o);
                }
                c.operations.push(o);
                self.current = Some(c);
            },
            None => {
                let ghost old_flows = self.flows@;
                match self.flows.pop() {
                    Some(mut f) => {
                        proof {
                            lemma_ops_view_push(f.operations@, o);
                        }
                        f.operations.push(o);
                        proof {
                            lemma_flows_view_push(self.flows@, f);
                            assert(flows_view(self.flows@).push(f@) =~= flows_view(old_flows).update(
                                old_flows.len() - 1,
                                flow_with_op(flows_view(old_flows).last(), o@),
                            ));
                        }
                        self.flows.push(f);
                    },
                    None => {},
                }
            },
        }
    }

    /// Applies an edit to the newest finished flow that holds a fitting action.
    fn edit_newest(&mut self, e: &Edit)
        ensures
            final(self).state() == (FlowState {
                flows: edit_newest_fitting(old(self).state().flows, e@),
                current: old(self).state().current,
            }),
    {
        let mut flows: Vec<NavigationFlow> = Vec::new();
        std::mem::swap(&mut flows, &mut self.flows);
        let ghost old_v = flows_view(flows@);
        match newest_fitting_index(&flows, e) {
            Some(k) => {
                let f = flows.remove(k);
                let (g, _) = edit_flow_exec(f, e);
                flows.insert(k, g);
                assert(flows_view(flows@) =~= old_v.update(k as int, edit_flow(old_v[k as int], e@)));
            },
            None => {},
        }
        self.flows = flows;
    }

    fn edit_current_or_newest(&mut self, e: &Edit)
        ensures
            final(self).state() == edit_current_or_newest(old(self).state(), e@),
    {
        match self.current.take() {
            Some(c) => {
                let (c2, found) = edit_flow_exec(c, e);
                self.current = Some(c2);
                if !found {
                    self.edit_newest(e);
                }
            },
            None => self.edit_newest(e),
        }
    }

    fn nav_start(&mut self, ts: i64, round_id: usize)
        ensures
            final(self).state() == (FlowState {
                flows: match old(self).state().current {
                    Some(c) => old(self).state().flows.push(interrupted(c, ts)),
                    None => old(self).state().flows,
                },
                current: Some(new_flow(ts, round_id)),
            }),
    {
        match self.current.take() {
            Some(mut c) => {
                if c.nav_end_ts.is_none() {
                    c.nav_end_ts = Some(ts);
                    c.nav_status = owned("incomplete");
                }
                proof {
                    lemma_flows_view_push(self.flows@, c);
                }
                self.flows.push(c);
            },
            None => {},
        }
        let mut steps: Vec<SubStep> = Vec::new();
        steps.push(SubStep { name: owned("开始执行"), timestamp: ts });
        let f = NavigationFlow {
            nav_start_ts: Some(ts),
            nav_end_ts: None,
            nav_target_pos: None,
            nav_target_ori: None,
            nav_status: owned("ok"),
            nav_sub_steps: steps,
            round_id,
            operations: Vec::new(),
        };
        assert(steps_view(f.nav_sub_steps@) =~= seq![step_at("开始执行"@, ts)]);
        assert(ops_view(f.operations@) =~= seq![]);
        self.current = Some(f);
    }

    fn nav_target(&mut self, pos: String, ori: String, ts: i64)
        ensures
            final(self).state() == (match old(self).state().current {
                Some(c) => if c.nav_target_pos is None {
                    FlowState {
                        current: Some(
                            flow_with_step(
                                FlowView { nav_target_pos: Some(pos@), nav_target_ori: Some(ori@), ..c },
                                "设置导航目标"@,
                                ts,
                            ),
                        ),
                        ..old(self).state()
                    }
                } else {
                    old(self).state()
                },
                None => old(self).state(),
            }),
    {
        match self.current.take() {
            Some(mut c) => {
                if c.nav_target_pos.is_none() {
                    c.nav_target_pos = Some(pos);
                    c.nav_target_ori = Some(ori);
                    let s = SubStep { name: owned("设置导航目标"), timestamp: ts };
                    proof {
                        lemma_steps_view_push(c.nav_sub_steps@, s);
                    }
                    c.nav_sub_steps.push(s);
                }
                self.current = Some(c);
            },
            None => {},
        }
    }

    fn nav_step(&mut self, name: String, ts: i64)
        ensures
            final(self).state() == (match old(self).state().current {
                Some(c) => FlowState { current: Some(flow_with_step(c, name@, ts)), ..old(self).state() },
                None => old(self).state(),
            }),
    {
        match self.current.take() {
            Some(mut c) => {
                let s = SubStep { name, timestamp: ts };
                proof {
                    lemma_steps_view_push(c.nav_sub_steps@, s);
                }
                c.nav_sub_steps.push(s);
                self.current = Some(c);
            },
            None => {},
        }
    }

    fn nav_finish(&mut self, name: String, ts: i64)
        ensures
            final(self).state() == (match old(self).state().current {
                Some(c) => FlowState {
                    flows: old(self).state().flows.push(
                        flow_with_step(FlowView { nav_end_ts: Some(ts), ..c }, name@, ts),
                    ),
                    current: None,
                },
                None => old(self).state(),
            }),
    {
        match self.current.take() {
            Some(mut c) => {
                c.nav_end_ts = Some(ts);
                let s = SubStep { name, timestamp: ts };
                proof {
                    lemma_steps_view_push(c.nav_sub_steps@, s);
                }
                c.nav_sub_steps.push(s);
                proof {
                    lemma_flows_view_push(self.flows@, c);
                }
                self.flows.push(c);
            },
            None => {},
        }
    }

    /// Takes line `i` into account.
    #[verifier::rlimit(40)]
    fn step(&mut self, pats: &FlowPatterns, lines: &Vec<LogLine>, i: usize, rounds: &Vec<Round>)
        requires
            pats.wf(),
            i < lines@.len(),
        ensures
            final(self)@ == flow_step(
                old(self)@,
                lines@[i as int].timestamp,
                lines@[i as int].line@,
                next_text(line_views(lines@), i as int),
                round_views(rounds@),
            ),
    {
        let line = &lines[i];
        let ts = line.timestamp;
        let next: Option<&str> = if i < lines.len() - 1 {
            Some(lines[i + 1].line.as_str())
        } else {
            None
        };
        assert(opt_line(next) == next_text(line_views(lines@), i as int));
        let kind = pats.classify(line.line.as_str());
        let code = match kind {
            FlowKind::ArmStart(_) => pats.arm_code_of(next),
            _ => None,
        };
        let rid = match kind {
            FlowKind::NavStart => ts_to_round_id(ts, rounds),
            _ => 0,
        };
        self.apply(kind, ts, code, rid);
    }

    /// Takes into account a line at `ts` that means `kind`: `code` is the action code
    /// that the next line announces (read by an arm start only), `round_id` the round
    /// the line falls in (read by a navigation start only).
    #[verifier::rlimit(40)]
    pub fn apply(&mut self, kind: FlowKind, ts: i64, code: Option<u32>, round_id: usize)
        ensures
            final(self)@ == flow_apply(old(self)@, ts, kind.event(), code, round_id),
    {
        match kind {
            FlowKind::Skip => {},
            FlowKind::Other => {},
            FlowKind::NavStart => {
                self.nav_start(ts, round_id);
            },
            FlowKind::NavTarget(p, o) => self.nav_target(p, o, ts),
            FlowKind::NavStep(n) => self.nav_step(n, ts),
            FlowKind::NavFinish(n) => self.nav_finish(n, ts),
            FlowKind::ArmStart(label) => {
                let mut step = owned("开始执行[");
                push_str(&mut step, label.as_str());
                push_str(&mut step, "]");
                let op = new_op_exec(owned("arm"), code, label, step, ts);
                self.add_to_target(op);
            },
            FlowKind::OpStep(ty, name) => {
                let e = Edit { open_only: true, ty, name, ts, status: None, code: None };
                self.edit_target(&e);
            },
            FlowKind::ArmResult(status) => {
                let mut name = owned("动作完成(状态:");
                push_str(&mut name, status.as_str());
                push_str(&mut name, ")");
                let st = if str_eq(status.as_str(), "0") {
                    owned("ok")
                } else {
                    let mut s = owned("status_");
                    push_str(&mut s, status.as_str());
                    s
                };
                let e = Edit { open_only: true, ty: owned("arm"), name, ts, status: Some(st), code: None };
                self.edit_current_or_newest(&e);
            },
            FlowKind::ArmComplete => {
                let e = Edit {
                    open_only: false,
                    ty: owned("arm"),
                    name: owned("执行完成"),
                    ts,
                    status: None,
                    code: None,
                };
                self.edit_current_or_newest(&e);
            },
            FlowKind::OpStart(ty, label) => {
                let op = new_op_exec(ty, None, label, owned("开始执行"), ts);
                self.add_to_target(op);
            },
            FlowKind::OpEnd(ty) => {
                let e = Edit {
                    open_only: true,
                    ty,
                    name: owned("执行完成"),
                    ts,
                    status: Some(owned("ok")),
                    code: None,
                };
                self.edit_target(&e);
            },
            FlowKind::PreplanStart(label) => {
                let mut l = owned("预打舵[");
                push_str(&mut l, label.as_str());
                push_str(&mut l, "]");
                let op = new_op_exec(owned("preplan"), None, l, owned("开始执行"), ts);
                self.add_to_target(op);
            },
            FlowKind::PreplanTarget(pos, code) => {
                let mut name = owned("设置目标→");
                push_str(&mut name, pos.as_str());
                let e = Edit { open_only: true, ty: owned("preplan"), name, ts, status: None, code: Some(code) };
                self.edit_target(&e);
            },
            FlowKind::PreplanResponse(code) => {
                let mut name = owned("响应(code=");
                push_str(&mut name, code.as_str());
                push_str(&mut name, ")");
                let st = if str_eq(code.as_str(), "10") {
                    owned("ok")
                } else {
                    let mut s = owned("error_");
                    push_str(&mut s, code.as_str());
                    s
                };
                let e = Edit { open_only: true, ty: owned("preplan"), name, ts, status: Some(st), code: None };
                self.edit_target(&e);
            },
        }
    }
}

/// Detects the navigation flows of a log with compiled markers: exactly the flows
/// that `detected_flows` gives for the lines and rounds.
pub fn detect_flows_with(pats: &FlowPatterns, lines: &Vec<LogLine>, rounds: &Vec<Round>) -> (r: Vec<NavigationFlow>)
    requires
        pats.wf(),
    ensures
        flows_view(r@) == detected_flows(line_views(lines@), round_views(rounds@)),
{
    let ghost lv = line_views(lines@);
    let ghost rv = round_views(rounds@);
    let mut d = FlowDetector::new();
    let mut i: usize = 0;
    while i < lines.len()
        invariant
            pats.wf(),
            i <= lines@.len(),
            lv == line_views(lines@),
            rv == round_views(rounds@),
            lv.len() == lines@.len(),
            d@ == flow_run(lv, i as nat, rv),
        decreases lines.len() - i,
    {
        assert(lv[i as int] == line_view(lines@[i as int]));
        d.step(pats, lines, i, rounds);
        i += 1;
    }
    d.finish()
}

/// Detects the navigation flows of a log (see `detected_flows`). Fails only when one
/// of the markers does not compile.
pub fn detect_flows(lines: &Vec<LogLine>, rounds: &Vec<Round>) -> (r: Result<Vec<NavigationFlow>, String>)
    ensures
        r is Ok <==> flow_patterns_valid(),
        r matches Ok(fs) ==> flows_view(fs@) == detected_flows(line_views(lines@), round_views(rounds@)),
{
    match FlowPatterns::new() {
        Some(pats) => Ok(detect_flows_with(&pats, lines, rounds)),
        None => Err(owned("flow detection pattern does not compile")),
    }
}


/// A LogNode template registration line changes nothing in flow detection.
pub proof fn lemma_flow_registration_line_skipped(
    st: FlowState,
    ts: i64,
    line: Seq<char>,
    next: Option<Seq<char>>,
    rounds: Seq<RoundView>,
)
    requires
        regex_is_match(REGISTRATION_PATTERN@, line),
    ensures
        flow_step(st, ts, line, next, rounds) == st,
{
}

/// No registration line comes right after an arm start (whose action code is read
/// from the line after it).
pub open spec fn no_registration_after_arm_start(lines: Seq<(i64, Seq<char>)>) -> bool {
    forall|i: int|
        0 <= i && i + 1 < lines.len() && (#[trigger] flow_event(lines[i].1)) is ArmStart
            ==> !is_registration(lines[i + 1].1)
}

proof fn lemma_without_registrations_take_step(s: Seq<(i64, Seq<char>)>, n: int)
    requires
        0 <= n < s.len(),
    ensures
        without_registrations(s.take(n + 1)) == (if is_registration(s[n].1) {
            without_registrations(s.take(n))
        } else {
            without_registrations(s.take(n)).push(s[n])
        }),
{
    assert(s.take(n + 1).drop_last() =~= s.take(n));
    assert(s.take(n + 1).last() == s[n]);
}

proof fn lemma_without_registrations_prefix(s: Seq<(i64, Seq<char>)>, n: int)
    requires
        0 <= n <= s.len(),
    ensures
        without_registrations(s.take(n)).len() <= without_registrations(s).len(),
        forall|j: int|
            0 <= j < without_registrations(s.take(n)).len() ==> #[trigger] without_registrations(s)[j]
                == without_registrations(s.take(n))[j],
    decreases s.len() - n,
{
    if n == s.len() {
        assert(s.take(n) =~= s);
    } else {
        lemma_without_registrations_prefix(s, n + 1);
        lemma_without_registrations_take_step(s, n);
    }
}

proof fn lemma_flow_run_skips_registrations(lines: Seq<(i64, Seq<char>)>, n: nat, rounds: Seq<RoundView>)
    requires
        n <= lines.len(),
        no_registration_after_arm_start(lines),
    ensures
        without_registrations(lines.take(n as int)).len() <= without_registrations(lines).len(),
        flow_run(lines, n, rounds) == flow_run(
            without_registrations(lines),
            without_registrations(lines.take(n as int)).len(),
            rounds,
        ),
    decreases n,
{
    let f = without_registrations(lines);
    lemma_without_registrations_prefix(lines, n as int);
    if n == 0 {
        assert(lines.take(0) =~= seq![]);
    } else {
        let i = n - 1;
        lemma_flow_run_skips_registrations(lines, (n - 1) as nat, rounds);
        lemma_without_registrations_take_step(lines, i);
        let k = without_registrations(lines.take(i)).len();
        if is_registration(lines[i].1) {
            lemma_flow_registration_line_skipped(
                flow_run(lines, (n - 1) as nat, rounds),
                lines[i].0,
                lines[i].1,
                next_text(lines, i),
                rounds,
            );
        } else {
            assert(f[k as int] == lines[i]);
            if flow_event(lines[i].1) is ArmStart {
                if i + 1 < lines.len() {
                    assert(!is_registration(lines[i + 1].1));
                    lemma_without_registrations_prefix(lines, (n + 1) as int);
                    lemma_without_registrations_take_step(lines, n as int);
                    assert(f[(k + 1) as int] == lines[i + 1]);
                } else {
                    assert(lines.take(n as int) =~= lines);
                }
                assert(next_text(f, k as int) == next_text(lines, i));
            }
        }
    }
}

/// Registration lines never take part in flow detection: two logs that are the same
/// once their LogNode template registration lines are left out give the same flows,
/// as long as no such line comes right after an arm start (whose action code is read
/// from the next line).
pub proof fn lemma_registrations_change_no_flow(
    a: Seq<(i64, Seq<char>)>,
    b: Seq<(i64, Seq<char>)>,
    rounds: Seq<RoundView>,
)
    requires
        without_registrations(a) == without_registrations(b),
        no_registration_after_arm_start(a),
        no_registration_after_arm_start(b),
    ensures
        detected_flows(a, rounds) == detected_flows(b, rounds),
{
    lemma_flow_run_skips_registrations(a, a.len(), rounds);
    lemma_flow_run_skips_registrations(b, b.len(), rounds);
    assert(a.take(a.len() as int) =~= a);
    assert(b.take(b.len() as int) =~= b);
}

/// A pre-steering response line with error code `c` finishes the last unfinished
/// pre-steering action of the open flow: at the line's time, with status `ok` when the
/// code is `10` (the success code) and `error_` followed by the code otherwise, and
/// with a step that names the code; the other actions and flows stay as they were.
pub proof fn lemma_preplan_response_status(
    st: FlowState,
    ts: i64,
    line: Seq<char>,
    next: Option<Seq<char>>,
    rounds: Seq<RoundView>,
    c: Seq<char>,
    k: int,
)
    requires
        flow_event(line) == FlowEvent::PreplanResponse(c),
        st.current matches Some(f) && pick(f.operations, true, "preplan"@) == Some(k),
    ensures
        ({
            let f = st.current->0;
            let after = flow_step(st, ts, line, next, rounds);
            &&& after.flows == st.flows
            &&& after.current matches Some(g) && g.operations.len() == f.operations.len() && {
                let o = g.operations[k];
                &&& o.status == (if c == "10"@ {
                    "ok"@
                } else {
                    "error_"@ + c
                })
                &&& o.end_ts == Some(ts)
                &&& o.action_type == "preplan"@
                &&& o.sub_steps == f.operations[k].sub_steps.push(
                    SubStepView { name: "响应(code="@ + c + ")"@, timestamp: ts },
                )
                &&& forall|j: int| 0 <= j < f.operations.len() && j != k ==> #[trigger] g.operations[j]
                    == f.operations[j]
            }
        }),
{
    lemma_pick_fits(st.current->0.operations, true, "preplan"@);
}

proof fn lemma_pick_fits(ops: Seq<OpView>, open_only: bool, ty: Seq<char>)
    ensures
        pick(ops, open_only, ty) matches Some(k) ==> 0 <= k < ops.len() && ops[k].action_type == ty
            && (open_only ==> ops[k].end_ts is None),
    decreases ops.len(),
{
    if ops.len() > 0 {
        lemma_pick_fits(ops.drop_last(), open_only, ty);
    }
}
} // verus!
