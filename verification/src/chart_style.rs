//! Colours and short labels of the Gantt charts: which colour an action or a phase
//! is drawn in, and how a phase name is shortened to fit its bar.

use vstd::prelude::*;
use crate::config::str_eq;
use crate::text::{owned, push_char, push_str, to_chars};

verus! {

/// An RGB colour.
pub type Rgb = (u8, u8, u8);

// ---------------------------------------------------------------------------
// Text search on characters
// ---------------------------------------------------------------------------

/// `p` occurs in `s` at position `i`.
pub open spec fn occurs_at(s: Seq<char>, p: Seq<char>, i: int) -> bool {
    0 <= i && i + p.len() <= s.len() && s.subrange(i, i + p.len()) == p
}

/// `p` occurs somewhere in `s` (`str::contains`).
pub open spec fn contains_text(s: Seq<char>, p: Seq<char>) -> bool {
    exists|i: int| occurs_at(s, p, i)
}

/// `s` begins with `p` (`str::starts_with`).
pub open spec fn starts_with_text(s: Seq<char>, p: Seq<char>) -> bool {
    occurs_at(s, p, 0)
}

/// `s` ends with `p` (`str::ends_with`).
pub open spec fn ends_with_text(s: Seq<char>, p: Seq<char>) -> bool {
    occurs_at(s, p, s.len() - p.len())
}

/// Whether `p` occurs in `s` at position `i`.
fn occurs_at_exec(s: &Vec<char>, p: &Vec<char>, i: usize) -> (r: bool)
    ensures
        r == occurs_at(s@, p@, i as int),
{
    if i > s.len() || p.len() > s.len() - i {
        return false;
    }
    let mut k: usize = 0;
    while k < p.len()
        invariant
            i + p@.len() <= s@.len(),
            s@.len() == s.len(),
            k <= p@.len(),
            forall|j: int| 0 <= j < k ==> s@[i + j] == p@[j],
        decreases p.len() - k,
    {
        if s[i + k] != p[k] {
            assert(s@.subrange(i as int, i + p@.len())[k as int] != p@[k as int]);
            return false;
        }
        k += 1;
    }
    assert(s@.subrange(i as int, i + p@.len()) =~= p@);
    true
}

/// Whether `p` occurs in `s` (`str::contains`).
pub fn contains_exec(s: &Vec<char>, p: &Vec<char>) -> (r: bool)
    ensures
        r == contains_text(s@, p@),
{
    if p.len() > s.len() {
        assert forall|i: int| !occurs_at(s@, p@, i) by {}
        return false;
    }
    let last = s.len() - p.len();
    let mut i: usize = 0;
    while i < last
        invariant
            p@.len() <= s@.len(),
            last == s@.len() - p@.len(),
            i <= last,
            forall|j: int| 0 <= j < i ==> !occurs_at(s@, p@, j),
        decreases last - i,
    {
        if occurs_at_exec(s, p, i) {
            return true;
        }
        i += 1;
    }
    if occurs_at_exec(s, p, last) {
        return true;
    }
    assert forall|j: int| !occurs_at(s@, p@, j) by {
        if 0 <= j < last {
        }
    }
    false
}

/// `s` contains the literal `p`.
pub(crate) fn contains_str(s: &Vec<char>, p: &str) -> (r: bool)
    ensures
        r == contains_text(s@, p@),
{
    let pc = to_chars(p);
    contains_exec(s, &pc)
}

/// `s` begins with the literal `p`.
pub(crate) fn starts_with_str(s: &Vec<char>, p: &str) -> (r: bool)
    ensures
        r == starts_with_text(s@, p@),
{
    let pc = to_chars(p);
    occurs_at_exec(s, &pc, 0)
}

/// `s` ends with the literal `p`.
pub(crate) fn ends_with_str(s: &Vec<char>, p: &str) -> (r: bool)
    ensures
        r == ends_with_text(s@, p@),
{
    let pc = to_chars(p);
    if pc.len() > s.len() {
        return false;
    }
    occurs_at_exec(s, &pc, s.len() - pc.len())
}

/// The characters of `s` as a vector, compared with a literal.
fn equals_str(s: &Vec<char>, p: &str) -> (r: bool)
    ensures
        r == (s@ == p@),
{
    let pc = to_chars(p);
    if pc.len() != s.len() {
        return false;
    }
    let r = occurs_at_exec(s, &pc, 0);
    assert(r ==> s@.subrange(0, s@.len() as int) =~= s@);
    assert(s@ == pc@ ==> s@.subrange(0, pc@.len() as int) =~= s@);
    r
}

// ---------------------------------------------------------------------------
// Action colours
// ---------------------------------------------------------------------------

/// The kinds of actions with their own colour, with that colour.
pub open spec fn action_color_entry(k: int) -> (Seq<char>, Rgb) {
    if k == 0 { ("navigation"@, (173, 216, 230)) }
    else if k == 1 { ("preplan"@, (255, 255, 150)) }
    else if k == 2 { ("arm"@, (144, 238, 144)) }
    else if k == 3 { ("head"@, (255, 218, 185)) }
    else if k == 4 { ("waist"@, (221, 160, 221)) }
    else if k == 5 { ("ready_pose"@, (176, 224, 230)) }
    else if k == 6 { ("det_obj_pose"@, (255, 228, 181)) }
    else if k == 7 { ("obstacle"@, (255, 182, 193)) }
    else if k == 8 { ("transition"@, (216, 191, 216)) }
    else if k == 9 { ("arm_move"@, (152, 251, 152)) }
    else { ("gripper"@, (240, 230, 140)) }
}

/// The number of kinds with their own colour.
pub const ACTION_COLOR_COUNT: usize = 11;

/// The colour of an action kind: its own colour, that of `navigation` for `nav`,
/// grey for any other kind.
pub open spec fn action_color(t: Seq<char>) -> Rgb {
    if t == "nav"@ {
        action_color_entry(0).1
    } else if exists|k: int| 0 <= k < ACTION_COLOR_COUNT && (#[trigger] action_color_entry(k)).0 == t {
        action_color_entry(choose|k: int| 0 <= k < ACTION_COLOR_COUNT && (#[trigger] action_color_entry(k)).0 == t).1
    } else {
        (192, 192, 192)
    }
}

fn action_color_key(k: usize) -> (r: (&'static str, Rgb))
    requires
        k < ACTION_COLOR_COUNT,
    ensures
        r.0@ == action_color_entry(k as int).0,
        r.1 == action_color_entry(k as int).1,
{
    match k {
        0 => ("navigation", (173, 216, 230)),
        1 => ("preplan", (255, 255, 150)),
        2 => ("arm", (144, 238, 144)),
        3 => ("head", (255, 218, 185)),
        4 => ("waist", (221, 160, 221)),
        5 => ("ready_pose", (176, 224, 230)),
        6 => ("det_obj_pose", (255, 228, 181)),
        7 => ("obstacle", (255, 182, 193)),
        8 => ("transition", (216, 191, 216)),
        9 => ("arm_move", (152, 251, 152)),
        _ => ("gripper", (240, 230, 140)),
    }
}

proof fn lemma_action_color_keys_distinct(a: int, b: int)
    requires
        0 <= a < ACTION_COLOR_COUNT,
        0 <= b < ACTION_COLOR_COUNT,
        action_color_entry(a).0 == action_color_entry(b).0,
    ensures
        action_color_entry(a).1 == action_color_entry(b).1,
{
    reveal_strlit("navigation");
    reveal_strlit("preplan");
    reveal_strlit("arm");
    reveal_strlit("head");
    reveal_strlit("waist");
    reveal_strlit("ready_pose");
    reveal_strlit("det_obj_pose");
    reveal_strlit("obstacle");
    reveal_strlit("transition");
    reveal_strlit("arm_move");
    reveal_strlit("gripper");
    if a != b {
        let x = action_color_entry(a).0;
        let y = action_color_entry(b).0;
        assert(x.len() != y.len() || x[0] != y[0] || x[1] != y[1] || x[2] != y[2] || x[3] != y[3] || x[4] != y[4]);
    }
}

/// The colour of an action kind (see `action_color`).
pub fn get_action_color(action_type: &str) -> (r: Rgb)
    ensures
        r == action_color(action_type@),
{
    if str_eq(action_type, "nav") {
        return (173, 216, 230);
    }
    let mut k: usize = 0;
    while k < ACTION_COLOR_COUNT
        invariant
            k <= ACTION_COLOR_COUNT,
            action_type@ != "nav"@,
            forall|j: int| 0 <= j < k ==> (#[trigger] action_color_entry(j)).0 != action_type@,
        decreases ACTION_COLOR_COUNT - k,
    {
        let (key, color) = action_color_key(k);
        if str_eq(key, action_type) {
            proof {
                let c = choose|j: int| 0 <= j < ACTION_COLOR_COUNT && (#[trigger] action_color_entry(j)).0 == action_type@;
                lemma_action_color_keys_distinct(c, k as int);
            }
            return color;
        }
        k += 1;
    }
    (192, 192, 192)
}


// ---------------------------------------------------------------------------
// Phase colours
// ---------------------------------------------------------------------------

/// The phase-name fragments with their own colour, in the order they are tried.
pub open spec fn phase_color_entry(k: int) -> (Seq<char>, Rgb) {
    if k == 0 { ("GetReadyPose"@, (135, 206, 250)) }
    else if k == 1 { ("DetObjPose"@, (255, 228, 181)) }
    else if k == 2 { ("ArmObstacle"@, (255, 182, 193)) }
    else if k == 3 { ("ModifyArmObstacle"@, (255, 182, 193)) }
    else if k == 4 { ("GetGoalPose"@, (152, 251, 152)) }
    else if k == 5 { ("ArmTransitionPoint"@, (216, 191, 216)) }
    else if k == 6 { ("transition"@, (216, 191, 216)) }
    else if k == 7 { ("ExecuteDoubleArmMove"@, (152, 251, 152)) }
    else if k == 8 { ("arm_move"@, (152, 251, 152)) }
    else if k == 9 { ("gripper"@, (240, 230, 140)) }
    else if k == 10 { ("节点开始"@, (100, 149, 237)) }
    else if k == 11 { ("节点结束"@, (34, 139, 34)) }
    else if k == 12 { ("等待服务器"@, (255, 215, 0)) }
    else if k == 13 { ("服务器已就绪"@, (50, 205, 50)) }
    else if k == 14 { ("[RESULT]"@, (147, 112, 219)) }
    else if k == 15 { ("完成"@, (34, 139, 34)) }
    else { ("开始"@, (100, 149, 237)) }
}

/// The number of phase-name fragments with their own colour.
pub const PHASE_COLOR_COUNT: usize = 17;

fn phase_color_key(k: usize) -> (r: (&'static str, Rgb))
    requires
        k < PHASE_COLOR_COUNT,
    ensures
        r.0@ == phase_color_entry(k as int).0,
        r.1 == phase_color_entry(k as int).1,
{
    match k {
        0 => ("GetReadyPose", (135, 206, 250)),
        1 => ("DetObjPose", (255, 228, 181)),
        2 => ("ArmObstacle", (255, 182, 193)),
        3 => ("ModifyArmObstacle", (255, 182, 193)),
        4 => ("GetGoalPose", (152, 251, 152)),
        5 => ("ArmTransitionPoint", (216, 191, 216)),
        6 => ("transition", (216, 191, 216)),
        7 => ("ExecuteDoubleArmMove", (152, 251, 152)),
        8 => ("arm_move", (152, 251, 152)),
        9 => ("gripper", (240, 230, 140)),
        10 => ("节点开始", (100, 149, 237)),
        11 => ("节点结束", (34, 139, 34)),
        12 => ("等待服务器", (255, 215, 0)),
        13 => ("服务器已就绪", (50, 205, 50)),
        14 => ("[RESULT]", (147, 112, 219)),
        15 => ("完成", (34, 139, 34)),
        _ => ("开始", (100, 149, 237)),
    }
}

/// The first fragment, from `k` on, that occurs in `name`.
pub open spec fn first_phase_fragment(name: Seq<char>, k: int) -> Option<int>
    decreases PHASE_COLOR_COUNT - k,
{
    if k < 0 || k >= PHASE_COLOR_COUNT {
        None
    } else if contains_text(name, phase_color_entry(k).0) {
        Some(k)
    } else {
        first_phase_fragment(name, k + 1)
    }
}

/// The colours that phases without a colour of their own take in turn.
pub open spec fn palette(i: int) -> Rgb {
    if i == 0 { (144, 238, 144) }
    else if i == 1 { (255, 218, 185) }
    else if i == 2 { (173, 216, 230) }
    else if i == 3 { (255, 182, 193) }
    else if i == 4 { (221, 160, 221) }
    else { (255, 255, 150) }
}

/// The colour of phase number `index` named `name`.
pub open spec fn phase_color(name: Seq<char>, index: nat) -> Rgb {
    if name == "开始执行"@ {
        (100, 149, 237)
    } else if name == "发送目标"@ {
        (255, 165, 0)
    } else if name == "执行中"@ {
        (135, 206, 250)
    } else if starts_with_text(name, "执行完成"@) {
        (34, 139, 34)
    } else if name == "设置导航目标"@ {
        (70, 130, 180)
    } else if starts_with_text(name, "发送导航目标"@) || starts_with_text(name, "发送头部控制目标"@)
        || starts_with_text(name, "发送腰部控制目标"@) {
        (255, 165, 0)
    } else if name == "服务端接受"@ {
        (60, 179, 113)
    } else if name == "结果回调"@ || starts_with_text(name, "动作完成"@) {
        (147, 112, 219)
    } else {
        fragment_color(name, index)
    }
}

/// The colour of a phase by the first fragment of its name (the fragment
/// `GetReadyPose` alternating with a paler blue), or by its number in turn.
pub open spec fn fragment_color(name: Seq<char>, index: nat) -> Rgb {
    match first_phase_fragment(name, 0) {
        Some(k) => if k == 0 && index % 2 != 0 {
            (176, 224, 230)
        } else {
            phase_color_entry(k).1
        },
        None => palette((index % 6) as int),
    }
}

/// The colour of phase number `index` named `name` (see `phase_color`).
pub fn get_substep_color(name: &str, index: usize) -> (r: Rgb)
    ensures
        r == phase_color(name@, index as nat),
{
    let cs = to_chars(name);
    if equals_str(&cs, "开始执行") {
        return (100, 149, 237);
    }
    if equals_str(&cs, "发送目标") {
        return (255, 165, 0);
    }
    if equals_str(&cs, "执行中") {
        return (135, 206, 250);
    }
    if starts_with_str(&cs, "执行完成") {
        return (34, 139, 34);
    }
    if equals_str(&cs, "设置导航目标") {
        return (70, 130, 180);
    }
    if starts_with_str(&cs, "发送导航目标") || starts_with_str(&cs, "发送头部控制目标") || starts_with_str(
        &cs,
        "发送腰部控制目标",
    ) {
        return (255, 165, 0);
    }
    if equals_str(&cs, "服务端接受") {
        return (60, 179, 113);
    }
    if equals_str(&cs, "结果回调") || starts_with_str(&cs, "动作完成") {
        return (147, 112, 219);
    }
    assert(phase_color(name@, index as nat) == fragment_color(name@, index as nat));
    let mut k: usize = 0;
    while k < PHASE_COLOR_COUNT
        invariant
            k <= PHASE_COLOR_COUNT,
            cs@ == name@,
            phase_color(name@, index as nat) == fragment_color(name@, index as nat),
            first_phase_fragment(name@, 0) == first_phase_fragment(name@, k as int),
        decreases PHASE_COLOR_COUNT - k,
    {
        let (frag, color) = phase_color_key(k);
        if contains_str(&cs, frag) {
            if k == 0 && index % 2 != 0 {
                return (176, 224, 230);
            }
            return color;
        }
        k += 1;
    }
    match index % 6 {
        0 => (144, 238, 144),
        1 => (255, 218, 185),
        2 => (173, 216, 230),
        3 => (255, 182, 193),
        4 => (221, 160, 221),
        _ => (255, 255, 150),
    }
}

// ---------------------------------------------------------------------------
// Short phase labels
// ---------------------------------------------------------------------------

/// Module names shortened when they start or finish (`XXX 开始` / `XXX 完成`).
pub open spec fn state_suffix_entry(k: int) -> (Seq<char>, Seq<char>) {
    if k == 0 { ("GetReadyPose"@, "准备"@) }
    else if k == 1 { ("ModifyArmObstacle"@, "障碍"@) }
    else if k == 2 { ("GetGoalPose"@, "目标"@) }
    else if k == 3 { ("ArmTransitionPoint"@, "过渡"@) }
    else { ("ExecuteDoubleArmMove"@, "运动"@) }
}

/// The number of module names shortened on start and finish.
pub const STATE_SUFFIX_COUNT: usize = 5;

fn state_suffix_key(k: usize) -> (r: (&'static str, &'static str))
    requires
        k < STATE_SUFFIX_COUNT,
    ensures
        r.0@ == state_suffix_entry(k as int).0,
        r.1@ == state_suffix_entry(k as int).1,
{
    match k {
        0 => ("GetReadyPose", "准备"),
        1 => ("ModifyArmObstacle", "障碍"),
        2 => ("GetGoalPose", "目标"),
        3 => ("ArmTransitionPoint", "过渡"),
        _ => ("ExecuteDoubleArmMove", "运动"),
    }
}

/// The short name of the first entry, from `k` on, whose module name occurs in `module`.
pub open spec fn state_suffix_from(module: Seq<char>, k: int) -> Option<Seq<char>>
    decreases STATE_SUFFIX_COUNT - k,
{
    if k < 0 || k >= STATE_SUFFIX_COUNT {
        None
    } else if contains_text(module, state_suffix_entry(k).0) {
        Some(state_suffix_entry(k).1)
    } else {
        state_suffix_from(module, k + 1)
    }
}

/// The short name of a starting or finishing module, if it has one.
pub fn find_action_state_suffix(module: &str) -> (r: Option<&'static str>)
    ensures
        match state_suffix_from(module@, 0) {
            Some(t) => r matches Some(x) && x@ == t,
            None => r is None,
        },
{
    let cs = to_chars(module);
    let mut k: usize = 0;
    while k < STATE_SUFFIX_COUNT
        invariant
            k <= STATE_SUFFIX_COUNT,
            cs@ == module@,
            state_suffix_from(module@, 0) == state_suffix_from(module@, k as int),
        decreases STATE_SUFFIX_COUNT - k,
    {
        let (pat, short) = state_suffix_key(k);
        if contains_str(&cs, pat) {
            return Some(short);
        }
        k += 1;
    }
    None
}

/// Phase-name fragments and their short labels, in the order they are tried.
pub open spec fn module_name_entry(k: int) -> (Seq<char>, Seq<char>) {
    if k == 0 { ("开始执行"@, "开始"@) }
    else if k == 1 { ("服务器已就绪"@, "就绪"@) }
    else if k == 2 { ("发送目标"@, "发送"@) }
    else if k == 3 { ("执行中"@, "执行中"@) }
    else if k == 4 { ("节点开始"@, "开始"@) }
    else if k == 5 { ("节点结束"@, "结束"@) }
    else if k == 6 { ("ExecuteGripperMotion"@, "夹爪"@) }
    else if k == 7 { ("GetTaskType"@, "获取类型"@) }
    else if k == 8 { ("GetDetObjPose"@, "检测位姿"@) }
    else if k == 9 { ("DetObjPose"@, "检测位姿"@) }
    else if k == 10 { ("GetArmPose"@, "手臂位姿"@) }
    else if k == 11 { ("CalcPutDownPose"@, "计算放置"@) }
    else if k == 12 { ("CalcArmPose"@, "计算位姿"@) }
    else if k == 13 { ("CalcGripperPos"@, "夹爪位置"@) }
    else if k == 14 { ("CheckSafe"@, "安全检查"@) }
    else if k == 15 { ("ArmControl"@, "手臂控制"@) }
    else if k == 16 { ("ExecutePose"@, "执行位姿"@) }
    else if k == 17 { ("WaitForTrigger"@, "等待触发"@) }
    else if k == 18 { ("gripper"@, "夹爪"@) }
    else if k == 19 { ("SendGoal"@, "发送目标"@) }
    else if k == 20 { ("等待服务器"@, "等待服务器"@) }
    else if k == 21 { ("[RESULT]"@, "结果"@) }
    else if k == 22 { ("执行完成"@, "完成"@) }
    else if k == 23 { ("ArmObstacle"@, "障碍物"@) }
    else if k == 24 { ("ModifyArmObstacle"@, "障碍物"@) }
    else if k == 25 { ("ArmTransitionPoint"@, "过渡点"@) }
    else if k == 26 { ("transition"@, "过渡点"@) }
    else if k == 27 { ("ExecuteDoubleArmMove"@, "手臂运动"@) }
    else if k == 28 { ("arm_move"@, "手臂运动"@) }
    else if k == 29 { ("GetGoalPose"@, "目标位姿"@) }
    else { ("GetReadyPose"@, "准备"@) }
}

/// The number of phase-name fragments with a short label.
pub const MODULE_NAME_COUNT: usize = 31;

fn module_name_key(k: usize) -> (r: (&'static str, &'static str))
    requires
        k < MODULE_NAME_COUNT,
    ensures
        r.0@ == module_name_entry(k as int).0,
        r.1@ == module_name_entry(k as int).1,
{
    match k {
        0 => ("开始执行", "开始"),
        1 => ("服务器已就绪", "就绪"),
        2 => ("发送目标", "发送"),
        3 => ("执行中", "执行中"),
        4 => ("节点开始", "开始"),
        5 => ("节点结束", "结束"),
        6 => ("ExecuteGripperMotion", "夹爪"),
        7 => ("GetTaskType", "获取类型"),
        8 => ("GetDetObjPose", "检测位姿"),
        9 => ("DetObjPose", "检测位姿"),
        10 => ("GetArmPose", "手臂位姿"),
        11 => ("CalcPutDownPose", "计算放置"),
        12 => ("CalcArmPose", "计算位姿"),
        13 => ("CalcGripperPos", "夹爪位置"),
        14 => ("CheckSafe", "安全检查"),
        15 => ("ArmControl", "手臂控制"),
        16 => ("ExecutePose", "执行位姿"),
        17 => ("WaitForTrigger", "等待触发"),
        18 => ("gripper", "夹爪"),
        19 => ("SendGoal", "发送目标"),
        20 => ("等待服务器", "等待服务器"),
        21 => ("[RESULT]", "结果"),
        22 => ("执行完成", "完成"),
        23 => ("ArmObstacle", "障碍物"),
        24 => ("ModifyArmObstacle", "障碍物"),
        25 => ("ArmTransitionPoint", "过渡点"),
        26 => ("transition", "过渡点"),
        27 => ("ExecuteDoubleArmMove", "手臂运动"),
        28 => ("arm_move", "手臂运动"),
        29 => ("GetGoalPose", "目标位姿"),
        _ => ("GetReadyPose", "准备"),
    }
}

/// The short label of the first fragment, from `k` on, that occurs in `name`.
pub open spec fn module_label_from(name: Seq<char>, k: int) -> Option<Seq<char>>
    decreases MODULE_NAME_COUNT - k,
{
    if k < 0 || k >= MODULE_NAME_COUNT {
        None
    } else if contains_text(name, module_name_entry(k).0) {
        Some(module_name_entry(k).1)
    } else {
        module_label_from(name, k + 1)
    }
}

/// The position of the last ` (` in `s`, searching below `end`.
pub open spec fn last_paren_below(s: Seq<char>, end: int) -> Option<int>
    decreases end,
{
    if end <= 0 {
        None
    } else if occurs_at(s, " ("@, end - 1) {
        Some(end - 1)
    } else {
        last_paren_below(s, end - 1)
    }
}

/// The position of the last ` (` in `s` (`str::rfind`).
pub open spec fn last_paren(s: Seq<char>) -> Option<int> {
    last_paren_below(s, s.len() as int)
}

/// `s` without every repetition of `suffix` at its end (`str::trim_end_matches`).
pub open spec fn strip_suffixes(s: Seq<char>, suffix: Seq<char>) -> Seq<char>
    decreases s.len(),
{
    if suffix.len() > 0 && suffix.len() <= s.len() && ends_with_text(s, suffix) {
        strip_suffixes(s.take(s.len() - suffix.len()), suffix)
    } else {
        s
    }
}

/// A phase name that can be split into a name and a time: it has no ` (`, or
/// something follows the last ` (` and the name ends in an ASCII character (the
/// closing bracket).
pub open spec fn splittable(full: Seq<char>) -> bool {
    match last_paren(full) {
        Some(k) => k + 3 <= full.len() && (full.last() as u32) < 128,
        None => true,
    }
}

/// The name part and the time part of a phase name `name (time)`.
pub open spec fn name_and_time(full: Seq<char>) -> (Seq<char>, Seq<char>) {
    match last_paren(full) {
        Some(k) => (full.take(k), full.subrange(k + 2, full.len() - 1)),
        None => (full, Seq::empty()),
    }
}

/// A module name with its short name when it has one.
pub open spec fn shortened(module: Seq<char>) -> Seq<char> {
    match state_suffix_from(module, 0) {
        Some(t) => t,
        None => module,
    }
}

/// The short label and the time of a phase name, e.g.
/// `ExecuteGripperMotionAction (0.51s)` gives `夹爪` and `0.51s`.
pub open spec fn short_module_name(full: Seq<char>) -> (Seq<char>, Seq<char>) {
    let (name, time) = name_and_time(full);
    if ends_with_text(name, " 开始"@) {
        (shortened(strip_suffixes(name, " 开始"@)) + "▶"@, time)
    } else if ends_with_text(name, " 完成"@) {
        (shortened(strip_suffixes(name, " 完成"@)) + "✓"@, time)
    } else {
        (plain_label(name), time)
    }
}

/// The label of a phase name that neither starts nor finishes a module: the short
/// label of its first known fragment, or its first eight characters.
pub open spec fn plain_label(name: Seq<char>) -> Seq<char> {
    match module_label_from(name, 0) {
        Some(l) => l,
        None => if name.len() > 8 {
            name.take(8)
        } else {
            name
        },
    }
}

/// The position of the last ` (` in `s`.
fn rfind_paren(s: &Vec<char>) -> (r: Option<usize>)
    ensures
        match last_paren(s@) {
            Some(k) => r matches Some(x) && x as int == k,
            None => r is None,
        },
        r matches Some(k) ==> k < s@.len(),
{
    let p = to_chars(" (");
    let mut end = s.len();
    while end > 0
        invariant
            end <= s@.len(),
            p@ == " ("@,
            last_paren(s@) == last_paren_below(s@, end as int),
        decreases end,
    {
        if occurs_at_exec(s, &p, end - 1) {
            return Some(end - 1);
        }
        end -= 1;
    }
    None
}

/// `s` without every repetition of `suffix` at its end.
fn strip_suffixes_exec(s: &Vec<char>, suffix: &str) -> (r: Vec<char>)
    ensures
        r@ == strip_suffixes(s@, suffix@),
{
    let p = to_chars(suffix);
    let mut cur: Vec<char> = Vec::new();
    let mut i: usize = 0;
    while i < s.len()
        invariant
            i <= s@.len(),
            cur@ == s@.take(i as int),
        decreases s.len() - i,
    {
        cur.push(s[i]);
        i += 1;
        assert(cur@ =~= s@.take(i as int));
    }
    assert(s@.take(s@.len() as int) =~= s@);
    while p.len() > 0 && p.len() <= cur.len() && occurs_at_exec(&cur, &p, cur.len() - p.len())
        invariant
            p@ == suffix@,
            strip_suffixes(s@, suffix@) == strip_suffixes(cur@, suffix@),
        decreases cur.len(),
    {
        let keep = cur.len() - p.len();
        let ghost before = cur@;
        cur.truncate(keep);
        assert(cur@ =~= before.take(keep as int));
    }
    cur
}

/// The first `n` characters of `cs` as a string.
fn prefix_string(cs: &Vec<char>, n: usize) -> (r: String)
    requires
        n <= cs@.len(),
    ensures
        r@ == cs@.take(n as int),
{
    let r = crate::text::string_from_chars(cs, 0, n);
    assert(cs@.subrange(0, n as int) =~= cs@.take(n as int));
    r
}

/// A short label with a mark appended, for a module that starts or finishes.
fn marked(module: &Vec<char>, mark: &str) -> (r: String)
    ensures
        r@ == shortened(module@) + mark@,
{
    let m = prefix_string(module, module.len());
    assert(module@.take(module@.len() as int) =~= module@);
    let mut out = match find_action_state_suffix(m.as_str()) {
        Some(t) => owned(t),
        None => m,
    };
    push_str(&mut out, mark);
    out
}

/// Whether a phase name can be split into a name and a time (see `splittable`).
pub fn is_splittable(full_name: &str) -> (r: bool)
    ensures
        r == splittable(full_name@),
{
    let cs = to_chars(full_name);
    match rfind_paren(&cs) {
        Some(k) => k < cs.len() && cs.len() - k >= 3 && (cs[cs.len() - 1] as u32) < 128,
        None => true,
    }
}

/// The short label and the time of a phase name (see `short_module_name`).
pub fn extract_short_module_name(full_name: &str) -> (r: (String, String))
    requires
        splittable(full_name@),
    ensures
        r.0@ == short_module_name(full_name@).0,
        r.1@ == short_module_name(full_name@).1,
{
    let cs = to_chars(full_name);
    let (name, time): (Vec<char>, String) = match rfind_paren(&cs) {
        Some(k) => {
            assert(last_paren(full_name@) == Some(k as int));
            assert(k + 3 <= cs@.len());
            let n = crate::text::string_from_chars(&cs, 0, k);
            let t = crate::text::string_from_chars(&cs, k + 2, cs.len() - 1);
            assert(cs@.subrange(0, k as int) =~= cs@.take(k as int));
            (to_chars(n.as_str()), t)
        },
        None => (to_chars(full_name), String::new()),
    };
    proof {
        assert(name@ == name_and_time(full_name@).0);
        assert(time@ == name_and_time(full_name@).1);
    }
    if ends_with_str(&name, " 开始") {
        let module = strip_suffixes_exec(&name, " 开始");
        return (marked(&module, "▶"), time);
    }
    if ends_with_str(&name, " 完成") {
        let module = strip_suffixes_exec(&name, " 完成");
        return (marked(&module, "✓"), time);
    }
    assert(short_module_name(full_name@) == (plain_label(name@), time@));
    let mut k: usize = 0;
    while k < MODULE_NAME_COUNT
        invariant
            k <= MODULE_NAME_COUNT,
            short_module_name(full_name@) == (plain_label(name@), time@),
            module_label_from(name@, 0) == module_label_from(name@, k as int),
        decreases MODULE_NAME_COUNT - k,
    {
        let (pat, short) = module_name_key(k);
        if contains_str(&name, pat) {
            return (owned(short), time);
        }
        k += 1;
    }
    let n = if name.len() > 8 {
        8
    } else {
        name.len()
    };
    let label = prefix_string(&name, n);
    proof {
        if name@.len() <= 8 {
            assert(name@.take(n as int) =~= name@);
        }
    }
    (label, time)
}

// ---------------------------------------------------------------------------
// Chart file names
// ---------------------------------------------------------------------------

/// The number of digits used to number the round charts of `total` rounds.
pub open spec fn number_width(total: nat) -> nat {
    if total >= 100 {
        3
    } else if total >= 10 {
        2
    } else {
        1
    }
}

/// The number of digits used to number the round charts of `total` rounds.
pub fn round_number_width(total: usize) -> (r: usize)
    ensures
        r == number_width(total as nat),
{
    if total >= 100 {
        3
    } else if total >= 10 {
        2
    } else {
        1
    }
}

/// `n` in decimal, padded with zeros on the left to `width` digits.
pub open spec fn zero_padded(n: nat, width: nat) -> Seq<char> {
    let d = crate::text::decimal(n);
    if d.len() < width {
        Seq::new((width - d.len()) as nat, |i: int| '0') + d
    } else {
        d
    }
}

/// The file of the chart of round `id`: `<outdir>/round_<id>_gantt.png`, the id
/// padded with zeros to `width` digits.
pub open spec fn gantt_file(outdir: Seq<char>, id: nat, width: nat) -> Seq<char> {
    outdir + "/round_"@ + zero_padded(id, width) + "_gantt.png"@
}

/// The file of the chart of a round (see `gantt_file`).
pub fn gantt_file_name(outdir: &str, id: usize, width: usize) -> (r: String)
    ensures
        r@ == gantt_file(outdir@, id as nat, width as nat),
{
    let mut digits = String::new();
    crate::text::push_decimal(&mut digits, id as u64);
    let dc = to_chars(digits.as_str());
    let mut s = owned(outdir);
    push_str(&mut s, "/round_");
    let ghost base = s@;
    let mut pad: usize = 0;
    if dc.len() < width {
        let missing = width - dc.len();
        while pad < missing
            invariant
                pad <= missing,
                s@ == base + Seq::new(pad as nat, |i: int| '0'),
            decreases missing - pad,
        {
            push_char(&mut s, '0');
            pad += 1;
            assert(s@ =~= base + Seq::new(pad as nat, |i: int| '0'));
        }
    }
    push_str(&mut s, digits.as_str());
    push_str(&mut s, "_gantt.png");
    proof {
        let d = crate::text::decimal(id as nat);
        assert(dc@ == d);
        if d.len() < width {
            assert(s@ =~= outdir@ + "/round_"@ + (Seq::new((width - d.len()) as nat, |i: int| '0') + d) + "_gantt.png"@);
        } else {
            assert(Seq::new(0, |i: int| '0') + d =~= d);
            assert(s@ =~= outdir@ + "/round_"@ + d + "_gantt.png"@);
        }
    }
    s
}
} // verus!
