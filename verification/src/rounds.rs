//! Master-control log analysis: log lines, task rounds with their pauses, and the
//! detection of rounds from the cycle markers of the log. Timestamps are
//! nanoseconds since the epoch.

use vstd::prelude::*;
use crate::intervals::{merged_pause_duration, merged_pause_total, PauseEvent};
use crate::pattern::{regex_captures_group1, regex_is_match, regex_valid, Matcher};
use crate::text::{owned, parse_u32_chars, parse_u32_spec, push_char, push_decimal, push_str, to_chars};

verus! {

/// A timestamped line of the log.
#[derive(Debug, Clone)]
pub struct LogLine {
    /// Nanoseconds since the epoch.
    pub timestamp: i64,
    /// The raw text of the line.
    pub line: String,
}

/// The kind of a cycle.
#[derive(Debug, Clone, Copy, PartialEq, Eq, Structural)]
pub enum CycleType {
    /// Initial cycle (the leak-test station is empty).
    Initial,
    /// Regular cycle, numbered from 1.
    Normal(u32),
    /// Final cycle (the tested pieces are taken out).
    Final,
}

/// The label of a cycle kind.
pub open spec fn cycle_label(c: CycleType) -> Seq<char> {
    match c {
        CycleType::Initial => "初始循环"@,
        CycleType::Normal(n) => "常规循环 "@ + crate::text::decimal(n as nat),
        CycleType::Final => "最终循环"@,
    }
}

impl CycleType {
    /// The label shown for a cycle kind, e.g. `常规循环 3`.
    pub fn label(&self) -> (r: String)
        ensures
            r@ == cycle_label(*self),
    {
        match self {
            CycleType::Initial => owned("初始循环"),
            CycleType::Normal(n) => {
                let mut s = owned("常规循环 ");
                push_decimal(&mut s, *n as u64);
                s
            },
            CycleType::Final => owned("最终循环"),
        }
    }
}

/// A task round.
#[derive(Debug, Clone)]
pub struct Round {
    /// Number of the round, from 1.
    pub id: usize,
    /// Cycle number (0 for the initial cycle, 999 for the final one).
    pub loop_number: Option<u32>,
    pub cycle_type: CycleType,
    /// Layer index (always 0 here).
    pub layer_index: u32,
    pub start_ts: i64,
    pub end_ts: Option<i64>,
    /// First pose reported in the round.
    pub pose0: Option<String>,
    /// Second pose reported in the round.
    pub pose6: Option<String>,
    pub pause_events: Vec<PauseEvent>,
}

/// A round as plain values.
pub struct RoundView {
    pub id: usize,
    pub loop_number: Option<u32>,
    pub cycle_type: CycleType,
    pub layer_index: u32,
    pub start_ts: i64,
    pub end_ts: Option<i64>,
    pub pose0: Option<Seq<char>>,
    pub pose6: Option<Seq<char>>,
    pub pause_events: Seq<PauseEvent>,
}

/// The characters of an optional string.
pub open spec fn opt_chars(o: Option<String>) -> Option<Seq<char>> {
    match o {
        Some(s) => Some(s@),
        None => None,
    }
}

impl View for Round {
    type V = RoundView;

    open spec fn view(&self) -> RoundView {
        RoundView {
            id: self.id,
            loop_number: self.loop_number,
            cycle_type: self.cycle_type,
            layer_index: self.layer_index,
            start_ts: self.start_ts,
            end_ts: self.end_ts,
            pose0: opt_chars(self.pose0),
            pose6: opt_chars(self.pose6),
            pause_events: self.pause_events@,
        }
    }
}

/// The wall-clock length of a round: end minus start, 0 while it has no end.
pub open spec fn round_span(start: i64, end: Option<i64>) -> int {
    match end {
        Some(e) => e - start,
        None => 0,
    }
}

/// `x` when positive, 0 otherwise.
pub open spec fn non_negative(x: int) -> int {
    if x > 0 {
        x
    } else {
        0
    }
}

impl Round {
    /// The paused time of the round, overlapping pauses counted once.
    pub fn total_pause_duration(&self) -> (r: i128)
        ensures
            r == merged_pause_total(self.pause_events@),
    {
        merged_pause_duration(&self.pause_events)
    }

    /// The working time of the round: its length minus the paused time, never negative.
    pub fn effective_duration(&self) -> (r: i128)
        ensures
            r == non_negative(round_span(self.start_ts, self.end_ts) - merged_pause_total(
                self.pause_events@,
            )),
    {
        let total: i128 = match self.end_ts {
            Some(end) => end as i128 - self.start_ts as i128,
            None => 0,
        };
        let pause = self.total_pause_duration();
        proof {
            crate::intervals::lemma_merged_total_bounds(self.pause_events@);
        }
        let d = total - pause;
        if d > 0 {
            d
        } else {
            0
        }
    }
}

/// The round that contains `ts`: the first round with `start <= ts < end` (an open
/// round extends forever); otherwise the last round if `ts` is at or after its end
/// (an open last round counting as ended at 0); otherwise 0.
pub open spec fn round_for(ts: i64, rounds: Seq<RoundView>) -> usize
    decreases rounds.len(),
{
    match first_containing(ts, rounds) {
        Some(i) => rounds[i].id,
        None => if rounds.len() > 0 && ts >= (match rounds.last().end_ts {
            Some(e) => e,
            None => 0,
        }) {
            rounds.last().id
        } else {
            0
        },
    }
}

/// `ts` lies within round `r`.
pub open spec fn round_contains(r: RoundView, ts: i64) -> bool {
    ts >= r.start_ts && match r.end_ts {
        Some(e) => ts < e,
        None => true,
    }
}

/// The index of the first round that contains `ts`.
pub open spec fn first_containing(ts: i64, rounds: Seq<RoundView>) -> Option<int>
    decreases rounds.len(),
{
    if rounds.len() == 0 {
        None
    } else if round_contains(rounds[0], ts) {
        Some(0)
    } else {
        match first_containing(ts, rounds.drop_first()) {
            Some(i) => Some(i + 1),
            None => None,
        }
    }
}

/// The views of a sequence of rounds.
pub open spec fn round_views(rs: Seq<Round>) -> Seq<RoundView> {
    rs.map_values(|r: Round| r@)
}

/// The id of the round that a timestamp falls in (see `round_for`).
pub fn ts_to_round_id(ts: i64, rounds: &Vec<Round>) -> (r: usize)
    ensures
        r == round_for(ts, round_views(rounds@)),
{
    let ghost views = round_views(rounds@);
    let mut i: usize = 0;
    assert(views.skip(0) == views);
    while i < rounds.len()
        invariant
            i <= rounds@.len(),
            views == round_views(rounds@),
            views.len() == rounds@.len(),
            first_containing(ts, views) == (match first_containing(ts, views.skip(i as int)) {
                Some(j) => Some(j + i),
                None => None,
            }),
        decreases rounds.len() - i,
    {
        let r = &rounds[i];
        let ghost rest = views.skip(i as int);
        assert(rest[0] == rounds@[i as int]@);
        assert(rest.drop_first() == views.skip(i + 1));
        let inside = ts >= r.start_ts && match r.end_ts {
            Some(e) => ts < e,
            None => true,
        };
        if inside {
            return r.id;
        }
        i += 1;
    }
    let n = rounds.len();
    if n > 0 {
        let last = &rounds[n - 1];
        let end = match last.end_ts {
            Some(e) => e,
            None => 0,
        };
        if ts >= end {
            return last.id;
        }
    }
    0
}

// ---------------------------------------------------------------------------
// Round detection
// ---------------------------------------------------------------------------

/// A LogNode template registration line (it looks like a real event and is skipped).
pub const REGISTRATION_PATTERN: &'static str = r"LogNode\[.*?\]\s*-\s*初始化完成:";

/// Start of the initial cycle (new and old log formats).
pub const INIT_START_PATTERN: &'static str = r"\[初始循环\]\s*=+\s*(?:初始填充开始，已上件工位数\s+\d+|初始循环开始（气密设备为空）)\s*=+";

/// End of the initial cycle (all log formats).
pub const INIT_END_PATTERN: &'static str = r"\[初始循环\]\s*(?:初始填充完成，已上件工位数\s+\d+|初始循环完成，气密设备中有工件|初始循环结束，扫码成功=(?:true|false),\s*气密位状态=\d+)";

/// Start of a regular cycle; group 1 is the cycle number.
pub const NORMAL_START_PATTERN: &'static str = r"\[常规循环\]\s*常规循环\s*(\d+)(?:，目标工位\s+\d+|\s*$)";

/// End of a regular cycle; group 1 is the cycle number.
pub const NORMAL_END_PATTERN: &'static str = r"\[常规循环\]\s*常规循环\s*(\d+)\s*放置完成";

/// Start of the final cycle (new and old log formats).
pub const FINAL_START_PATTERN: &'static str = r"\[收尾前校正\]\s+loaded_leak_station_count=\d+|\[最终循环\]\s*最终循环：取出气密工件并放置";

/// End of the final cycle (all log formats).
pub const FINAL_END_PATTERN: &'static str = r"\[收尾循环\]\s*(?:双工位收尾完成|最终循环完成)|\[最终循环\]\s*最终循环完成";

/// A pose report; group 1 is the pose.
pub const POSE_PATTERN: &'static str = r"\[master_control\]:\s*姿态字符串:\s*(\{.*\})";

/// Operator pause of a task node.
pub const PAUSE_PATTERN: &'static str = r"PauseTaskNode\[.*?\]:\s*请求暂停任务，等待操作员 RESUME";

/// Resumption after an operator pause.
pub const RESUME_PATTERN: &'static str = r"PauseTaskNode\[.*?\]:\s*任务已恢复，继续执行";

/// Pause after a failed node.
pub const FAIL_PAUSE_PATTERN: &'static str = r"TaskGraphExecutor:\s*节点\s+\S+\s+失败，进入失败暂停状态";

/// Resumption after a failed node: the node is retried or skipped.
pub const RETRY_RESUME_PATTERN: &'static str = r"TaskGraphExecutor:\s*(?:重试节点|跳过节点)\s+\S+";

/// Pause of an action adapter.
pub const ADAPTER_PAUSE_PATTERN: &'static str = r"ROS2ActionAdapter\[\w+\]\s*-\s*暂停";

/// Resumption of an action adapter.
pub const ADAPTER_RESUME_PATTERN: &'static str = r"ROS2ActionAdapter\[\w+\]\s*-\s*恢复";

/// Pause requested by the user.
pub const USER_PAUSE_PATTERN: &'static str = r"TaskGraphExecutor:\s*用户请求暂停任务\s+\S+";

/// Resumption requested by the user.
pub const USER_RESUME_PATTERN: &'static str = r"TaskGraphExecutor:\s*恢复任务\s+\S+";

/// The pattern that starts pause kind `k` (0: operator, 1: failure, 2: adapter, 3: user).
pub open spec fn pause_pattern(k: int) -> Seq<char> {
    if k == 0 {
        PAUSE_PATTERN@
    } else if k == 1 {
        FAIL_PAUSE_PATTERN@
    } else if k == 2 {
        ADAPTER_PAUSE_PATTERN@
    } else {
        USER_PAUSE_PATTERN@
    }
}

/// The pattern that ends pause kind `k`.
pub open spec fn resume_pattern(k: int) -> Seq<char> {
    if k == 0 {
        RESUME_PATTERN@
    } else if k == 1 {
        RETRY_RESUME_PATTERN@
    } else if k == 2 {
        ADAPTER_RESUME_PATTERN@
    } else {
        USER_RESUME_PATTERN@
    }
}

/// Every pattern of round detection compiles.
pub open spec fn round_patterns_valid() -> bool {
    &&& regex_valid(REGISTRATION_PATTERN@)
    &&& regex_valid(INIT_START_PATTERN@)
    &&& regex_valid(INIT_END_PATTERN@)
    &&& regex_valid(NORMAL_START_PATTERN@)
    &&& regex_valid(NORMAL_END_PATTERN@)
    &&& regex_valid(FINAL_START_PATTERN@)
    &&& regex_valid(FINAL_END_PATTERN@)
    &&& regex_valid(POSE_PATTERN@)
    &&& forall|k: int| 0 <= k < 4 ==> #[trigger] kind_patterns_valid(k)
}

/// Both patterns of pause kind `k` compile.
pub open spec fn kind_patterns_valid(k: int) -> bool {
    regex_valid(pause_pattern(k)) && regex_valid(resume_pattern(k))
}

/// What a log line means for round detection.
pub enum LineEvent {
    Skip,
    InitStart,
    InitEnd,
    NormalStart(u32),
    NormalEnd(u32),
    FinalStart,
    FinalEnd,
    Pause(int),
    Resume(int),
    Pose(Seq<char>),
    Other,
}

/// The cycle number read from group 1 of a cycle marker: its decimal value, or 1
/// when it does not fit a `u32` or is not an ASCII number.
pub open spec fn cycle_number(pattern: Seq<char>, line: Seq<char>) -> u32 {
    match regex_captures_group1(pattern, line) {
        Some(Some(g)) => match parse_u32_spec(g) {
            Some(n) => n,
            None => 1,
        },
        _ => 1,
    }
}

/// The first pause or resume pattern, in the order operator, failure, adapter, user
/// (pause before resume within each kind), that matches `line`, from kind `k` on.
pub open spec fn pause_event_from(line: Seq<char>, k: int) -> LineEvent
    decreases 4 - k,
{
    if k >= 4 || k < 0 {
        LineEvent::Other
    } else if regex_is_match(pause_pattern(k), line) {
        LineEvent::Pause(k)
    } else if regex_is_match(resume_pattern(k), line) {
        LineEvent::Resume(k)
    } else {
        pause_event_from(line, k + 1)
    }
}

proof fn lemma_pause_event_range(line: Seq<char>, j: int)
    requires
        0 <= j,
    ensures
        pause_event_from(line, j) matches LineEvent::Pause(k) ==> j <= k < 4,
        pause_event_from(line, j) matches LineEvent::Resume(k) ==> j <= k < 4,
        pause_event_from(line, j) is Pause || pause_event_from(line, j) is Resume
            || pause_event_from(line, j) is Other,
    decreases 4 - j,
{
    if j < 4 {
        lemma_pause_event_range(line, j + 1);
    }
}

/// The classification of a line: the first pattern, in the order of the checks,
/// that matches it.
pub open spec fn classify(line: Seq<char>) -> LineEvent {
    if regex_is_match(REGISTRATION_PATTERN@, line) {
        LineEvent::Skip
    } else if regex_is_match(INIT_START_PATTERN@, line) {
        LineEvent::InitStart
    } else if regex_is_match(INIT_END_PATTERN@, line) {
        LineEvent::InitEnd
    } else if regex_is_match(NORMAL_START_PATTERN@, line) {
        LineEvent::NormalStart(cycle_number(NORMAL_START_PATTERN@, line))
    } else if regex_is_match(NORMAL_END_PATTERN@, line) {
        LineEvent::NormalEnd(cycle_number(NORMAL_END_PATTERN@, line))
    } else if regex_is_match(FINAL_START_PATTERN@, line) {
        LineEvent::FinalStart
    } else if regex_is_match(FINAL_END_PATTERN@, line) {
        LineEvent::FinalEnd
    } else {
        match pause_event_from(line, 0) {
            LineEvent::Other => match regex_captures_group1(POSE_PATTERN@, line) {
                Some(Some(g)) => LineEvent::Pose(g),
                _ => LineEvent::Other,
            },
            e => e,
        }
    }
}

/// The state of detection after some lines: finished rounds, the open round and
/// the pause of each kind waiting for its resumption.
pub struct DetectionState {
    pub rounds: Seq<RoundView>,
    pub current: Option<RoundView>,
    pub pending: Seq<Option<i64>>,
}

/// The state before any line.
pub open spec fn initial_state() -> DetectionState {
    DetectionState { rounds: seq![], current: None, pending: seq![None, None, None, None] }
}

/// A new round opened at `ts` after `n` finished rounds.
pub open spec fn new_round(n: nat, cycle_type: CycleType, loop_number: u32, ts: i64) -> RoundView {
    RoundView {
        id: (n + 1) as usize,
        loop_number: Some(loop_number),
        cycle_type: cycle_type,
        layer_index: 0,
        start_ts: ts,
        end_ts: None,
        pose0: None,
        pose6: None,
        pause_events: seq![],
    }
}

/// The finished rounds after closing the open round at `ts` (if it has no end yet).
pub open spec fn closed_rounds(st: DetectionState, ts: i64) -> Seq<RoundView> {
    match st.current {
        Some(r) => st.rounds.push(
            if r.end_ts is None {
                RoundView { end_ts: Some(ts), ..r }
            } else {
                r
            },
        ),
        None => st.rounds,
    }
}

/// The state after opening a round at `ts`, the open one being closed first.
pub open spec fn open_round(st: DetectionState, cycle_type: CycleType, loop_number: u32, ts: i64) -> DetectionState {
    let rs = closed_rounds(st, ts);
    DetectionState {
        rounds: rs,
        current: Some(new_round(rs.len(), cycle_type, loop_number, ts)),
        pending: st.pending,
    }
}

/// The state after the open round, if `matches` holds of it, ends at `ts`.
pub open spec fn end_round(st: DetectionState, matches: bool, ts: i64) -> DetectionState {
    match st.current {
        Some(r) => if matches {
            DetectionState {
                rounds: st.rounds.push(RoundView { end_ts: Some(ts), ..r }),
                current: None,
                pending: st.pending,
            }
        } else {
            st
        },
        None => st,
    }
}

/// The state after a line at `ts` that means `ev` (a pause or resumption of a kind
/// other than the four changes nothing).
pub open spec fn round_apply(st: DetectionState, ts: i64, ev: LineEvent) -> DetectionState {
    match ev {
        LineEvent::Skip => st,
        LineEvent::InitStart => open_round(st, CycleType::Initial, 0, ts),
        LineEvent::InitEnd => end_round(
            st,
            st.current matches Some(r) && r.cycle_type == CycleType::Initial,
            ts,
        ),
        LineEvent::NormalStart(n) => open_round(st, CycleType::Normal(n), n, ts),
        LineEvent::NormalEnd(n) => end_round(
            st,
            st.current matches Some(r) && r.cycle_type == CycleType::Normal(n),
            ts,
        ),
        LineEvent::FinalStart => if st.current matches Some(r) && r.cycle_type == CycleType::Final {
            st
        } else {
            open_round(st, CycleType::Final, 999, ts)
        },
        LineEvent::FinalEnd => end_round(
            st,
            st.current matches Some(r) && r.cycle_type == CycleType::Final,
            ts,
        ),
        LineEvent::Pause(k) => if 0 <= k < 4 {
            DetectionState { pending: st.pending.update(k, Some(ts)), ..st }
        } else {
            st
        },
        LineEvent::Resume(k) => if !(0 <= k < 4) {
            st
        } else {
            match st.pending[k] {
            Some(p) => DetectionState {
                pending: st.pending.update(k, None),
                current: match st.current {
                    Some(r) => Some(
                        RoundView {
                            pause_events: r.pause_events.push(
                                PauseEvent { pause_ts: p, resume_ts: Some(ts) },
                            ),
                            ..r
                        },
                    ),
                    None => None,
                },
                ..st
            },
            None => st,
        }
        },
        LineEvent::Pose(g) => match st.current {
            Some(r) => if r.pose0 is None {
                DetectionState { current: Some(RoundView { pose0: Some(g), ..r }), ..st }
            } else if r.pose6 is None {
                DetectionState { current: Some(RoundView { pose6: Some(g), ..r }), ..st }
            } else {
                st
            },
            None => st,
        },
        LineEvent::Other => st,
    }
}

/// The state after one line.
pub open spec fn detect_step(st: DetectionState, ts: i64, line: Seq<char>) -> DetectionState {
    round_apply(st, ts, classify(line))
}

/// The state after the lines, in order.
pub open spec fn detect_run(lines: Seq<(i64, Seq<char>)>) -> DetectionState
    decreases lines.len(),
{
    if lines.len() == 0 {
        initial_state()
    } else {
        let prev = detect_run(lines.drop_last());
        detect_step(prev, lines.last().0, lines.last().1)
    }
}

/// The rounds of a log: the rounds found by the cycle markers, the open round at the
/// end closed at `t_last` when it has no end.
pub open spec fn detected_rounds(lines: Seq<(i64, Seq<char>)>, t_last: i64) -> Seq<RoundView> {
    closed_rounds(detect_run(lines), t_last)
}

/// A log line as plain values.
pub open spec fn line_view(l: LogLine) -> (i64, Seq<char>) {
    (l.timestamp, l.line@)
}

/// The lines as plain values.
pub open spec fn line_views(ls: Seq<LogLine>) -> Seq<(i64, Seq<char>)> {
    ls.map_values(|l: LogLine| line_view(l))
}

/// A LogNode template registration line (see `REGISTRATION_PATTERN`).
pub open spec fn is_registration(line: Seq<char>) -> bool {
    regex_is_match(REGISTRATION_PATTERN@, line)
}

/// The lines without the LogNode template registration lines, in order.
pub open spec fn without_registrations(lines: Seq<(i64, Seq<char>)>) -> Seq<(i64, Seq<char>)>
    decreases lines.len(),
{
    if lines.len() == 0 {
        lines
    } else {
        let prev = without_registrations(lines.drop_last());
        if is_registration(lines.last().1) {
            prev
        } else {
            prev.push(lines.last())
        }
    }
}

/// The compiled patterns of round detection.
pub struct RoundPatterns {
    registration: Matcher,
    init_start: Matcher,
    init_end: Matcher,
    normal_start: Matcher,
    normal_end: Matcher,
    final_start: Matcher,
    final_end: Matcher,
    pose: Matcher,
    pauses: Vec<Matcher>,
    resumes: Vec<Matcher>,
}

impl RoundPatterns {
    /// Each matcher was compiled from its pattern.
    pub closed spec fn wf(&self) -> bool {
        &&& self.registration.source() == REGISTRATION_PATTERN@
        &&& self.init_start.source() == INIT_START_PATTERN@
        &&& self.init_end.source() == INIT_END_PATTERN@
        &&& self.normal_start.source() == NORMAL_START_PATTERN@
        &&& self.normal_end.source() == NORMAL_END_PATTERN@
        &&& self.final_start.source() == FINAL_START_PATTERN@
        &&& self.final_end.source() == FINAL_END_PATTERN@
        &&& self.pose.source() == POSE_PATTERN@
        &&& self.pauses@.len() == 4
        &&& self.resumes@.len() == 4
        &&& forall|k: int| 0 <= k < 4 ==> (#[trigger] self.pauses@[k]).source() == pause_pattern(k)
        &&& forall|k: int| 0 <= k < 4 ==> (#[trigger] self.resumes@[k]).source() == resume_pattern(k)
    }

    /// Compiles the patterns; `None` when one of them does not compile.
    pub fn new() -> (r: Option<RoundPatterns>)
        ensures
            r is Some <==> round_patterns_valid(),
            r matches Some(p) ==> p.wf(),
    {
        let registration = match Matcher::compile(REGISTRATION_PATTERN) { Some(m) => m, None => return None };
        let init_start = match Matcher::compile(INIT_START_PATTERN) { Some(m) => m, None => return None };
        let init_end = match Matcher::compile(INIT_END_PATTERN) { Some(m) => m, None => return None };
        let normal_start = match Matcher::compile(NORMAL_START_PATTERN) { Some(m) => m, None => return None };
        let normal_end = match Matcher::compile(NORMAL_END_PATTERN) { Some(m) => m, None => return None };
        let final_start = match Matcher::compile(FINAL_START_PATTERN) { Some(m) => m, None => return None };
        let final_end = match Matcher::compile(FINAL_END_PATTERN) { Some(m) => m, None => return None };
        let pose = match Matcher::compile(POSE_PATTERN) { Some(m) => m, None => return None };
        let p0 = match Matcher::compile(PAUSE_PATTERN) { Some(m) => m, None => { assert(!kind_patterns_valid(0)); return None } };
        let r0 = match Matcher::compile(RESUME_PATTERN) { Some(m) => m, None => { assert(!kind_patterns_valid(0)); return None } };
        let p1 = match Matcher::compile(FAIL_PAUSE_PATTERN) { Some(m) => m, None => { assert(!kind_patterns_valid(1)); return None } };
        let r1 = match Matcher::compile(RETRY_RESUME_PATTERN) { Some(m) => m, None => { assert(!kind_patterns_valid(1)); return None } };
        let p2 = match Matcher::compile(ADAPTER_PAUSE_PATTERN) { Some(m) => m, None => { assert(!kind_patterns_valid(2)); return None } };
        let r2 = match Matcher::compile(ADAPTER_RESUME_PATTERN) { Some(m) => m, None => { assert(!kind_patterns_valid(2)); return None } };
        let p3 = match Matcher::compile(USER_PAUSE_PATTERN) { Some(m) => m, None => { assert(!kind_patterns_valid(3)); return None } };
        let r3 = match Matcher::compile(USER_RESUME_PATTERN) { Some(m) => m, None => { assert(!kind_patterns_valid(3)); return None } };
        let mut pauses: Vec<Matcher> = Vec::new();
        pauses.push(p0);
        pauses.push(p1);
        pauses.push(p2);
        pauses.push(p3);
        let mut resumes: Vec<Matcher> = Vec::new();
        resumes.push(r0);
        resumes.push(r1);
        resumes.push(r2);
        resumes.push(r3);
        let r = RoundPatterns {
            registration,
            init_start,
            init_end,
            normal_start,
            normal_end,
            final_start,
            final_end,
            pose,
            pauses,
            resumes,
        };
        proof {
            assert forall|k: int| 0 <= k < 4 implies #[trigger] kind_patterns_valid(k) by {
                if k == 0 {
                } else if k == 1 {
                } else if k == 2 {
                } else {
                }
            }
            assert forall|k: int| 0 <= k < 4 implies (#[trigger] r.pauses@[k]).source() == pause_pattern(k) by {
                if k == 0 {
                } else if k == 1 {
                } else if k == 2 {
                } else {
                }
            }
            assert forall|k: int| 0 <= k < 4 implies (#[trigger] r.resumes@[k]).source() == resume_pattern(k) by {
                if k == 0 {
                } else if k == 1 {
                } else if k == 2 {
                } else {
                }
            }
        }
        Some(r)
    }

    /// The cycle number of a marker line, from the captured group (1 when missing
    /// or not a `u32`).
    fn cycle_number_of(m: &Matcher, line: &str) -> (r: u32)
        ensures
            r == cycle_number(m.source(), line@),
    {
        match m.captures_group1(line) {
            Some(Some(g)) => {
                let cs = to_chars(g.as_str());
                match parse_u32_chars(&cs, 0, cs.len()) {
                    Some(n) => {
                        assert(cs@.subrange(0, cs@.len() as int) == g@);
                        n
                    },
                    None => {
                        assert(cs@.subrange(0, cs@.len() as int) == g@);
                        1
                    },
                }
            },
            _ => 1,
        }
    }

    /// The pause or resume event of a line, from kind `k` on.
    fn pause_event(&self, line: &str) -> (r: Option<(bool, usize)>)
        requires
            self.wf(),
        ensures
            match pause_event_from(line@, 0) {
                LineEvent::Pause(k) => r == Some((true, k as usize)),
                LineEvent::Resume(k) => r == Some((false, k as usize)),
                _ => r is None,
            },
            r matches Some((_, k)) ==> k < 4,
    {
        proof {
            lemma_pause_event_range(line@, 0);
        }
        let mut k: usize = 0;
        while k < 4
            invariant
                self.wf(),
                k <= 4,
                pause_event_from(line@, 0) == pause_event_from(line@, k as int),
            decreases 4 - k,
        {
            if self.pauses[k].is_match(line) {
                return Some((true, k));
            }
            if self.resumes[k].is_match(line) {
                return Some((false, k));
            }
            k += 1;
        }
        None
    }

    /// The classification of a line (see `classify`).
    pub fn classify_line(&self, line: &str) -> (r: LineKind)
        requires
            self.wf(),
        ensures
            r.event() == classify(line@),
    {
        if self.registration.is_match(line) {
            return LineKind::Skip;
        }
        if self.init_start.is_match(line) {
            return LineKind::InitStart;
        }
        if self.init_end.is_match(line) {
            return LineKind::InitEnd;
        }
        if self.normal_start.is_match(line) {
            return LineKind::NormalStart(Self::cycle_number_of(&self.normal_start, line));
        }
        if self.normal_end.is_match(line) {
            return LineKind::NormalEnd(Self::cycle_number_of(&self.normal_end, line));
        }
        if self.final_start.is_match(line) {
            return LineKind::FinalStart;
        }
        if self.final_end.is_match(line) {
            return LineKind::FinalEnd;
        }
        proof {
            lemma_pause_event_range(line@, 0);
        }
        match self.pause_event(line) {
            Some((true, k)) => return LineKind::Pause(k),
            Some((false, k)) => return LineKind::Resume(k),
            None => {},
        }
        match self.pose.captures_group1(line) {
            Some(Some(g)) => LineKind::Pose(g),
            _ => LineKind::Other,
        }
    }
}

/// The classification of a line as computed (see `LineEvent`).
pub enum LineKind {
    Skip,
    InitStart,
    InitEnd,
    NormalStart(u32),
    NormalEnd(u32),
    FinalStart,
    FinalEnd,
    Pause(usize),
    Resume(usize),
    Pose(String),
    Other,
}

impl LineKind {
    /// The classification as plain values.
    pub open spec fn event(&self) -> LineEvent {
        match self {
            LineKind::Skip => LineEvent::Skip,
            LineKind::InitStart => LineEvent::InitStart,
            LineKind::InitEnd => LineEvent::InitEnd,
            LineKind::NormalStart(n) => LineEvent::NormalStart(*n),
            LineKind::NormalEnd(n) => LineEvent::NormalEnd(*n),
            LineKind::FinalStart => LineEvent::FinalStart,
            LineKind::FinalEnd => LineEvent::FinalEnd,
            LineKind::Pause(k) => LineEvent::Pause(*k as int),
            LineKind::Resume(k) => LineEvent::Resume(*k as int),
            LineKind::Pose(g) => LineEvent::Pose(g@),
            LineKind::Other => LineEvent::Other,
        }
    }
}


/// The view of an optional round.
pub open spec fn opt_round_view(o: Option<Round>) -> Option<RoundView> {
    match o {
        Some(r) => Some(r@),
        None => None,
    }
}

/// The number of rounds opened so far: the finished ones and the open one.
pub open spec fn opened_count(st: DetectionState) -> nat {
    st.rounds.len() + if st.current is Some {
        1nat
    } else {
        0nat
    }
}

proof fn lemma_round_views_push(rs: Seq<Round>, r: Round)
    ensures
        round_views(rs.push(r)) == round_views(rs).push(r@),
{
    assert(round_views(rs.push(r)) =~= round_views(rs).push(r@));
}

/// Round detection under way: the finished rounds, the open round and the pause of
/// each kind waiting for its resumption.
pub struct RoundDetector {
    rounds: Vec<Round>,
    current: Option<Round>,
    pending: Vec<Option<i64>>,
}

impl View for RoundDetector {
    type V = DetectionState;

    closed spec fn view(&self) -> DetectionState {
        self.state()
    }
}

impl RoundDetector {
    /// One pending pause is kept for each of the four kinds.
    pub closed spec fn wf(&self) -> bool {
        self.pending@.len() == 4
    }

    spec fn state(&self) -> DetectionState {
        DetectionState {
            rounds: round_views(self.rounds@),
            current: opt_round_view(self.current),
            pending: self.pending@,
        }
    }

    /// Detection before any line.
    pub fn new() -> (r: RoundDetector)
        ensures
            r@ == initial_state(),
            r.wf(),
    {
        let mut pending: Vec<Option<i64>> = Vec::new();
        pending.push(None);
        pending.push(None);
        pending.push(None);
        pending.push(None);
        let r = RoundDetector { rounds: Vec::new(), current: None, pending };
        assert(r.state().rounds =~= seq![]);
        assert(r.state().pending =~= seq![None, None, None, None]);
        r
    }

    /// The rounds found, the open one closed at `t_last` when it has no end.
    pub fn finish(self, t_last: i64) -> (r: Vec<Round>)
        ensures
            round_views(r@) == closed_rounds(self@, t_last),
    {
        let mut d = self;
        d.close_current(t_last);
        d.rounds
    }

    /// Closes the open round at `ts` (keeping an end it already has).
    fn close_current(&mut self, ts: i64)
        ensures
            final(self).state() == (DetectionState {
                rounds: closed_rounds(old(self).state(), ts),
                current: None,
                pending: old(self).state().pending,
            }),
            final(self).rounds@.len() <= old(self).rounds@.len() + 1,
    {
        match self.current.take() {
            Some(mut r) => {
                let ghost before = r@;
                if r.end_ts.is_none() {
                    r.end_ts = Some(ts);
                }
                proof {
                    lemma_round_views_push(self.rounds@, r);
                    assert(r@ == (if before.end_ts is None {
                        RoundView { end_ts: Some(ts), ..before }
                    } else {
                        before
                    }));
                }
                self.rounds.push(r);
            },
            None => {},
        }
    }

    /// Opens a round of the given kind at `ts`, closing the open one first.
    fn open(&mut self, cycle_type: CycleType, loop_number: u32, ts: i64)
        requires
            opened_count(old(self).state()) < usize::MAX,
        ensures
            final(self).state() == open_round(old(self).state(), cycle_type, loop_number, ts),
            opened_count(final(self).state()) <= opened_count(old(self).state()) + 1,
    {
        self.close_current(ts);
        let id = self.rounds.len() + 1;
        self.current = Some(
            Round {
                id,
                loop_number: Some(loop_number),
                cycle_type,
                layer_index: 0,
                start_ts: ts,
                end_ts: None,
                pose0: None,
                pose6: None,
                pause_events: Vec::new(),
            },
        );
        proof {
            let nr = self.current->0;
            assert(nr@.pause_events =~= seq![]);
            assert(nr@ == new_round(round_views(self.rounds@).len(), cycle_type, loop_number, ts));
        }
    }

    /// Ends the open round at `ts` when `matches` holds.
    fn end_if(&mut self, matches: bool, ts: i64)
        requires
            old(self).current is Some || !matches,
        ensures
            final(self).state() == end_round(old(self).state(), matches, ts),
            opened_count(final(self).state()) == opened_count(old(self).state()),
    {
        if matches {
            match self.current.take() {
                Some(mut r) => {
                    let ghost before = r@;
                    r.end_ts = Some(ts);
                    proof {
                        lemma_round_views_push(self.rounds@, r);
                        assert(r@ == RoundView { end_ts: Some(ts), ..before });
                    }
                    self.rounds.push(r);
                },
                None => {},
            }
        }
    }

    /// The open round is of the given kind.
    fn current_is(&self, cycle_type: CycleType) -> (r: bool)
        ensures
            r == (self.state().current matches Some(c) && c.cycle_type == cycle_type),
    {
        match &self.current {
            Some(c) => c.cycle_type == cycle_type,
            None => false,
        }
    }

    /// Takes one line into account.
    fn step(&mut self, pats: &RoundPatterns, line: &LogLine)
        requires
            pats.wf(),
            old(self).wf(),
            opened_count(old(self)@) < usize::MAX,
        ensures
            final(self)@ == detect_step(old(self)@, line.timestamp, line.line@),
            final(self).wf(),
            opened_count(final(self)@) <= opened_count(old(self)@) + 1,
    {
        let kind = pats.classify_line(line.line.as_str());
        self.apply(kind, line.timestamp);
    }

    /// Takes into account a line at `ts` classified as `kind`.
    pub fn apply(&mut self, kind: LineKind, ts: i64)
        requires
            old(self).wf(),
            opened_count(old(self)@) < usize::MAX,
        ensures
            final(self)@ == round_apply(old(self)@, ts, kind.event()),
            final(self).wf(),
            opened_count(final(self)@) <= opened_count(old(self)@) + 1,
    {
        match kind {
            LineKind::Skip => {},
            LineKind::Other => {},
            LineKind::InitStart => self.open(CycleType::Initial, 0, ts),
            LineKind::InitEnd => {
                let m = self.current_is(CycleType::Initial);
                self.end_if(m, ts);
            },
            LineKind::NormalStart(n) => self.open(CycleType::Normal(n), n, ts),
            LineKind::NormalEnd(n) => {
                let m = self.current_is(CycleType::Normal(n));
                self.end_if(m, ts);
            },
            LineKind::FinalStart => {
                if !self.current_is(CycleType::Final) {
                    self.open(CycleType::Final, 999, ts);
                }
            },
            LineKind::FinalEnd => {
                let m = self.current_is(CycleType::Final);
                self.end_if(m, ts);
            },
            LineKind::Pause(k) => {
                if k < 4 {
                    self.pending.set(k, Some(ts));
                }
            },
            LineKind::Resume(k) => {
                if k >= 4 {
                    return;
                }
                match self.pending[k] {
                    Some(p) => {
                        self.pending.set(k, None);
                        match self.current.take() {
                            Some(mut r) => {
                                let ghost before = r@;
                                r.pause_events.push(PauseEvent { pause_ts: p, resume_ts: Some(ts) });
                                proof {
                                    assert(r@ == RoundView {
                                        pause_events: before.pause_events.push(
                                            PauseEvent { pause_ts: p, resume_ts: Some(ts) },
                                        ),
                                        ..before
                                    });
                                }
                                self.current = Some(r);
                            },
                            None => {},
                        }
                    },
                    None => {},
                }
            },
            LineKind::Pose(g) => {
                match self.current.take() {
                    Some(mut r) => {
                        let ghost before = r@;
                        let ghost gv = g@;
                        if r.pose0.is_none() {
                            r.pose0 = Some(g);
                        } else if r.pose6.is_none() {
                            r.pose6 = Some(g);
                        }
                        proof {
                            if before.pose0 is None {
                                assert(r@ == RoundView { pose0: Some(gv), ..before });
                            } else if before.pose6 is None {
                                assert(r@ == RoundView { pose6: Some(gv), ..before });
                            } else {
                                assert(r@ == before);
                            }
                        }
                        self.current = Some(r);
                    },
                    None => {},
                }
            },
        }
    }
}

/// Detects the rounds of a log with compiled patterns: exactly the rounds that
/// `detected_rounds` gives for the lines, the last open round closed at `t_last`.
pub fn detect_rounds_with(pats: &RoundPatterns, lines: &Vec<LogLine>, t_last: i64) -> (r: Vec<Round>)
    requires
        pats.wf(),
    ensures
        round_views(r@) == detected_rounds(line_views(lines@), t_last),
{
    let ghost lv = line_views(lines@);
    let mut d = RoundDetector::new();
    let mut i: usize = 0;
    assert(lv.take(0) =~= seq![]);
    while i < lines.len()
        invariant
            pats.wf(),
            i <= lines@.len(),
            lv == line_views(lines@),
            lv.len() == lines@.len(),
            d@ == detect_run(lv.take(i as int)),
            d.wf(),
            opened_count(d@) <= i,
        decreases lines.len() - i,
    {
        let line = &lines[i];
        proof {
            assert(lv.take(i + 1).drop_last() =~= lv.take(i as int));
            assert(lv.take(i + 1).last() == line_view(lines@[i as int]));
        }
        d.step(pats, line);
        i += 1;
    }
    assert(lv.take(lines@.len() as int) =~= lv);
    d.finish(t_last)
}

/// Detects the task rounds of a log (see `detected_rounds`). Fails only when one
/// of the detection patterns does not compile.
pub fn detect_rounds(lines: &Vec<LogLine>, t_last: i64) -> (r: Result<Vec<Round>, String>)
    ensures
        r is Ok <==> round_patterns_valid(),
        r matches Ok(rs) ==> round_views(rs@) == detected_rounds(line_views(lines@), t_last),
{
    match RoundPatterns::new() {
        Some(pats) => Ok(detect_rounds_with(&pats, lines, t_last)),
        None => Err(owned("round detection pattern does not compile")),
    }
}


// ---------------------------------------------------------------------------
// Major flows: from cycle 1 to cycle 8
// ---------------------------------------------------------------------------

/// A copy of a round.
pub fn copy_round(r: &Round) -> (c: Round)
    ensures
        c@ == r@,
{
    let mut pauses: Vec<PauseEvent> = Vec::new();
    let mut i: usize = 0;
    while i < r.pause_events.len()
        invariant
            i <= r.pause_events@.len(),
            pauses@ == r.pause_events@.take(i as int),
        decreases r.pause_events.len() - i,
    {
        pauses.push(r.pause_events[i]);
        i += 1;
        assert(pauses@ =~= r.pause_events@.take(i as int));
    }
    assert(r.pause_events@.take(i as int) =~= r.pause_events@);
    let pose0 = match &r.pose0 {
        Some(p) => Some(p.clone()),
        None => None,
    };
    let pose6 = match &r.pose6 {
        Some(p) => Some(p.clone()),
        None => None,
    };
    Round {
        id: r.id,
        loop_number: r.loop_number,
        cycle_type: r.cycle_type,
        layer_index: r.layer_index,
        start_ts: r.start_ts,
        end_ts: r.end_ts,
        pose0,
        pose6,
        pause_events: pauses,
    }
}

/// A run of rounds from cycle 1 towards cycle 8.
#[derive(Debug, Clone)]
pub struct MajorFlow {
    /// Number of the flow, from 1.
    pub id: usize,
    pub rounds: Vec<Round>,
    /// Start of the first round.
    pub start_ts: i64,
    /// End of the last round (its start while it has no end).
    pub end_ts: i64,
    /// End minus start, in nanoseconds.
    pub duration: i128,
    /// The number of rounds the average round duration is taken over: 8 for a flow
    /// that reached cycle 8, otherwise its number of rounds.
    pub average_over: usize,
    /// The flow reached cycle 8.
    pub is_complete: bool,
    /// Where an incomplete flow stopped, e.g. `中断于循环3`.
    pub failure_point: Option<String>,
}

/// A major flow as plain values.
pub struct MajorView {
    pub id: usize,
    pub rounds: Seq<RoundView>,
    pub start_ts: i64,
    pub end_ts: i64,
    pub duration: int,
    pub average_over: usize,
    pub is_complete: bool,
    pub failure_point: Option<Seq<char>>,
}

impl View for MajorFlow {
    type V = MajorView;

    open spec fn view(&self) -> MajorView {
        MajorView {
            id: self.id,
            rounds: round_views(self.rounds@),
            start_ts: self.start_ts,
            end_ts: self.end_ts,
            duration: self.duration as int,
            average_over: self.average_over,
            is_complete: self.is_complete,
            failure_point: opt_chars(self.failure_point),
        }
    }
}

/// The views of a sequence of major flows.
pub open spec fn majors_view(v: Seq<MajorFlow>) -> Seq<MajorView> {
    v.map_values(|m: MajorFlow| m@)
}

/// The name of a cycle number: `循环N`, or `未知` without one.
pub open spec fn loop_label(n: Option<u32>) -> Seq<char> {
    match n {
        Some(k) => "循环"@ + crate::text::decimal(k as nat),
        None => "未知"@,
    }
}

/// The major flow made of the rounds `cur` (not empty), numbered `id`.
pub open spec fn major_of(id: nat, cur: Seq<RoundView>, complete: bool, average_over: nat) -> MajorView {
    let end = match cur.last().end_ts {
        Some(e) => e,
        None => cur.last().start_ts,
    };
    MajorView {
        id: id as usize,
        rounds: cur,
        start_ts: cur[0].start_ts,
        end_ts: end,
        duration: end - cur[0].start_ts,
        average_over: average_over as usize,
        is_complete: complete,
        failure_point: if complete {
            None
        } else {
            Some("中断于"@ + loop_label(cur.last().loop_number))
        },
    }
}

/// The finished flows after closing the rounds `cur` as a flow, when there are any.
pub open spec fn flush(majors: Seq<MajorView>, cur: Seq<RoundView>, complete: bool, average_over: nat) -> Seq<MajorView> {
    if cur.len() > 0 {
        majors.push(major_of(majors.len() + 1, cur, complete, average_over))
    } else {
        majors
    }
}

/// The finished flows and the rounds of the open flow after one more round: rounds
/// without a cycle number are ignored; cycle 5 interrupts the open flow and belongs
/// to none; cycle 1 starts a new flow, the open one being closed as incomplete;
/// cycle 8 completes the open flow.
pub open spec fn major_step(st: (Seq<MajorView>, Seq<RoundView>), r: RoundView) -> (Seq<MajorView>, Seq<RoundView>) {
    let (majors, cur) = st;
    match r.loop_number {
        None => st,
        Some(n) => if n == 5 {
            (flush(majors, cur, false, cur.len()), seq![])
        } else {
            let majors1 = if n == 1 {
                flush(majors, cur, false, cur.len())
            } else {
                majors
            };
            let cur1 = if n == 1 {
                seq![r]
            } else {
                cur.push(r)
            };
            if n == 8 {
                (flush(majors1, cur1, true, 8), seq![])
            } else {
                (majors1, cur1)
            }
        },
    }
}

/// The state after the rounds, in order.
pub open spec fn major_run(rounds: Seq<RoundView>) -> (Seq<MajorView>, Seq<RoundView>)
    decreases rounds.len(),
{
    if rounds.len() == 0 {
        (seq![], seq![])
    } else {
        major_step(major_run(rounds.drop_last()), rounds.last())
    }
}

/// The major flows of the rounds: the flows found while going through them, and a
/// last open flow, complete only if its last round is cycle 8.
pub open spec fn detected_majors(rounds: Seq<RoundView>) -> Seq<MajorView> {
    let (majors, cur) = major_run(rounds);
    flush(
        majors,
        cur,
        cur.len() > 0 && cur.last().loop_number == Some(8u32),
        cur.len(),
    )
}

/// The failure text of a flow whose last round has cycle number `n`.
fn failure_text(n: Option<u32>) -> (r: String)
    ensures
        r@ == "中断于"@ + loop_label(n),
{
    let mut s = owned("中断于");
    match n {
        Some(k) => {
            push_str(&mut s, "循环");
            push_decimal(&mut s, k as u64);
        },
        None => push_str(&mut s, "未知"),
    }
    s
}

/// Closes the rounds `cur` (not empty) as the next major flow.
fn flush_major(majors: &mut Vec<MajorFlow>, cur: Vec<Round>, complete: bool, average_over: usize)
    requires
        cur@.len() > 0,
        old(majors)@.len() < usize::MAX,
    ensures
        majors_view(final(majors)@) == majors_view(old(majors)@).push(
            major_of(old(majors)@.len() + 1, round_views(cur@), complete, average_over as nat),
        ),
        final(majors)@.len() == old(majors)@.len() + 1,
{
    let n = cur.len();
    let start = cur[0].start_ts;
    let end = match cur[n - 1].end_ts {
        Some(e) => e,
        None => cur[n - 1].start_ts,
    };
    let fp = if complete {
        None
    } else {
        Some(failure_text(cur[n - 1].loop_number))
    };
    let id = majors.len() + 1;
    let m = MajorFlow {
        id,
        rounds: cur,
        start_ts: start,
        end_ts: end,
        duration: end as i128 - start as i128,
        average_over,
        is_complete: complete,
        failure_point: fp,
    };
    proof {
        let rv = round_views(cur@);
        assert(rv[0] == cur@[0]@);
        assert(rv.last() == cur@[n - 1]@);
        assert(m@ == major_of(old(majors)@.len() + 1, rv, complete, average_over as nat));
    }
    let ghost before = majors@;
    majors.push(m);
    assert(majors_view(majors@) =~= majors_view(before).push(m@));
}

/// Groups the rounds into major flows (see `detected_majors`).
pub fn detect_major_flows(rounds: &Vec<Round>) -> (r: Vec<MajorFlow>)
    ensures
        majors_view(r@) == detected_majors(round_views(rounds@)),
{
    let ghost rv = round_views(rounds@);
    let mut majors: Vec<MajorFlow> = Vec::new();
    let mut cur: Vec<Round> = Vec::new();
    let mut i: usize = 0;
    assert(rv.take(0) =~= seq![]);
    assert(majors_view(majors@) =~= seq![]);
    assert(round_views(cur@) =~= seq![]);
    while i < rounds.len()
        invariant
            i <= rounds@.len(),
            rv == round_views(rounds@),
            rv.len() == rounds@.len(),
            (majors_view(majors@), round_views(cur@)) == major_run(rv.take(i as int)),
            majors@.len() + cur@.len() <= i,
        decreases rounds.len() - i,
    {
        let r = &rounds[i];
        proof {
            assert(rv.take(i + 1).drop_last() =~= rv.take(i as int));
            assert(rv.take(i + 1).last() == r@);
        }
        match r.loop_number {
            None => {},
            Some(n) => {
                if n == 5 {
                    if cur.len() > 0 {
                        let k = cur.len();
                        let mut done: Vec<Round> = Vec::new();
                        std::mem::swap(&mut done, &mut cur);
                        flush_major(&mut majors, done, false, k);
                    }
                    assert(round_views(cur@) =~= seq![]);
                } else {
                    if n == 1 && cur.len() > 0 {
                        let k = cur.len();
                        let mut done: Vec<Round> = Vec::new();
                        std::mem::swap(&mut done, &mut cur);
                        flush_major(&mut majors, done, false, k);
                        assert(round_views(cur@) =~= seq![]);
                    }
                    let ghost before = cur@;
                    cur.push(copy_round(r));
                    proof {
                        lemma_round_views_push(before, cur@.last());
                        assert(cur@ == before.push(cur@.last()));
                    }
                    if n == 8 {
                        let mut done: Vec<Round> = Vec::new();
                        std::mem::swap(&mut done, &mut cur);
                        flush_major(&mut majors, done, true, 8);
                        assert(round_views(cur@) =~= seq![]);
                    }
                }
            },
        }
        i += 1;
    }
    assert(rv.take(rounds@.len() as int) =~= rv);
    if cur.len() > 0 {
        let k = cur.len();
        let complete = cur[k - 1].loop_number == Some(8u32);
        proof {
            assert(round_views(cur@).last() == cur@[k - 1]@);
        }
        flush_major(&mut majors, cur, complete, k);
    }
    majors
}


// ---------------------------------------------------------------------------
// Laws of round detection
// ---------------------------------------------------------------------------

/// The finished rounds are numbered 1, 2, ... in order and have an end; the open
/// round, if any, carries the next number.
pub open spec fn numbered(st: DetectionState) -> bool {
    &&& forall|i: int|
        0 <= i < st.rounds.len() ==> (#[trigger] st.rounds[i]).id == i + 1 && st.rounds[i].end_ts is Some
    &&& st.current matches Some(c) ==> c.id == st.rounds.len() + 1
}

proof fn lemma_closed_rounds_numbered(st: DetectionState, ts: i64)
    requires
        numbered(st),
    ensures
        forall|i: int|
            0 <= i < closed_rounds(st, ts).len() ==> (#[trigger] closed_rounds(st, ts)[i]).id == i + 1
                && closed_rounds(st, ts)[i].end_ts is Some,
        closed_rounds(st, ts).len() == opened_count(st),
{
}

proof fn lemma_detect_step_numbered(st: DetectionState, ts: i64, line: Seq<char>)
    requires
        numbered(st),
        opened_count(st) < usize::MAX,
        st.pending.len() == 4,
    ensures
        numbered(detect_step(st, ts, line)),
        opened_count(detect_step(st, ts, line)) <= opened_count(st) + 1,
        detect_step(st, ts, line).pending.len() == 4,
{
    lemma_pause_event_range(line, 0);
    lemma_closed_rounds_numbered(st, ts);
    let next = detect_step(st, ts, line);
    match classify(line) {
        LineEvent::Pause(k) => {
            assert(next.rounds == st.rounds);
        },
        LineEvent::Resume(k) => {
            assert(next.rounds == st.rounds);
        },
        _ => {},
    }
}

proof fn lemma_detect_run_numbered(lines: Seq<(i64, Seq<char>)>)
    requires
        lines.len() <= usize::MAX,
    ensures
        numbered(detect_run(lines)),
        opened_count(detect_run(lines)) <= lines.len(),
        detect_run(lines).pending.len() == 4,
    decreases lines.len(),
{
    if lines.len() > 0 {
        lemma_detect_run_numbered(lines.drop_last());
        lemma_detect_step_numbered(detect_run(lines.drop_last()), lines.last().0, lines.last().1);
    }
}

/// The detected rounds are numbered 1, 2, ... in the order in which they started,
/// and each of them has an end.
pub proof fn lemma_detected_rounds_numbered(lines: Seq<(i64, Seq<char>)>, t_last: i64)
    requires
        lines.len() <= usize::MAX,
    ensures
        forall|i: int|
            0 <= i < detected_rounds(lines, t_last).len() ==> (#[trigger] detected_rounds(lines, t_last)[i]).id
                == i + 1,
        forall|i: int|
            0 <= i < detected_rounds(lines, t_last).len() ==> (#[trigger] detected_rounds(lines, t_last)[i]).end_ts
                is Some,
        detected_rounds(lines, t_last).len() <= lines.len(),
{
    lemma_detect_run_numbered(lines);
    lemma_closed_rounds_numbered(detect_run(lines), t_last);
}

/// The round that a timestamp falls in is one of the rounds, or 0.
pub proof fn lemma_round_for_is_a_round(ts: i64, rounds: Seq<RoundView>)
    ensures
        round_for(ts, rounds) == 0 || exists|i: int| 0 <= i < rounds.len() && (#[trigger] rounds[i]).id == round_for(ts, rounds),
{
    lemma_first_containing_range(ts, rounds);
    match first_containing(ts, rounds) {
        Some(i) => {
            assert(rounds[i].id == round_for(ts, rounds));
        },
        None => {
            if rounds.len() > 0 && round_for(ts, rounds) != 0 {
                assert(rounds[rounds.len() - 1].id == round_for(ts, rounds));
            }
        },
    }
}

proof fn lemma_first_containing_range(ts: i64, rounds: Seq<RoundView>)
    ensures
        first_containing(ts, rounds) matches Some(i) ==> 0 <= i < rounds.len() && round_contains(rounds[i], ts),
    decreases rounds.len(),
{
    if rounds.len() > 0 && !round_contains(rounds[0], ts) {
        lemma_first_containing_range(ts, rounds.drop_first());
        match first_containing(ts, rounds.drop_first()) {
            Some(j) => {
                assert(rounds[j + 1] == rounds.drop_first()[j]);
            },
            None => {},
        }
    }
}

// ---------------------------------------------------------------------------
// Laws of major flows
// ---------------------------------------------------------------------------

/// A round that can belong to a major flow: it has a cycle number other than 5.
pub open spec fn groupable(r: RoundView) -> bool {
    r.loop_number matches Some(n) && n != 5
}

/// Every round of `s` can belong to a major flow.
pub open spec fn all_groupable(s: Seq<RoundView>) -> bool {
    forall|j: int| 0 <= j < s.len() ==> groupable(#[trigger] s[j])
}

/// Major flow `m` is flow number `i + 1`, made of groupable rounds, complete exactly
/// when it has no failure point, and a complete flow ends with cycle 8.
pub open spec fn well_formed_major(m: MajorView, i: int) -> bool {
    &&& m.id == i + 1
    &&& m.rounds.len() > 0
    &&& (m.is_complete <==> m.failure_point is None)
    &&& (m.is_complete ==> m.rounds.last().loop_number == Some(8u32))
    &&& all_groupable(m.rounds)
}

/// Every flow of `ms` is well formed at its position.
pub open spec fn well_grouped(ms: Seq<MajorView>) -> bool {
    forall|i: int| 0 <= i < ms.len() ==> well_formed_major(#[trigger] ms[i], i)
}

proof fn lemma_flush_grouped(ms: Seq<MajorView>, cur: Seq<RoundView>, complete: bool, k: nat)
    requires
        well_grouped(ms),
        all_groupable(cur),
        ms.len() < usize::MAX,
        k <= usize::MAX,
        complete ==> cur.len() > 0 && cur.last().loop_number == Some(8u32),
    ensures
        well_grouped(flush(ms, cur, complete, k)),
        flush(ms, cur, complete, k).len() <= ms.len() + 1,
{
    if cur.len() > 0 {
        let out = flush(ms, cur, complete, k);
        assert forall|i: int| 0 <= i < out.len() implies well_formed_major(#[trigger] out[i], i) by {
            if i < ms.len() {
                assert(out[i] == ms[i]);
            }
        }
    }
}

proof fn lemma_major_run_grouped(rounds: Seq<RoundView>)
    requires
        rounds.len() <= usize::MAX,
    ensures
        well_grouped(major_run(rounds).0),
        all_groupable(major_run(rounds).1),
        major_run(rounds).0.len() + major_run(rounds).1.len() <= rounds.len(),
    decreases rounds.len(),
{
    if rounds.len() > 0 {
        let prev = rounds.drop_last();
        lemma_major_run_grouped(prev);
        let (ms, cur) = major_run(prev);
        let r = rounds.last();
        match r.loop_number {
            None => {},
            Some(n) => {
                if n == 5 {
                    lemma_flush_grouped(ms, cur, false, cur.len());
                } else {
                    lemma_flush_grouped(ms, cur, false, cur.len());
                    let ms1 = if n == 1 {
                        flush(ms, cur, false, cur.len())
                    } else {
                        ms
                    };
                    let cur1 = if n == 1 {
                        seq![r]
                    } else {
                        cur.push(r)
                    };
                    assert(all_groupable(cur1)) by {
                        assert forall|j: int| 0 <= j < cur1.len() implies groupable(#[trigger] cur1[j]) by {
                            if n != 1 && j < cur.len() {
                                assert(cur1[j] == cur[j]);
                            }
                        }
                    }
                    if n == 8 {
                        lemma_flush_grouped(ms1, cur1, true, 8);
                    }
                }
            },
        }
    }
}

/// The major flows are numbered 1, 2, ... in order; each holds at least one round,
/// none of them cycle 5 or without a cycle number; a flow is complete exactly when it
/// has no failure point, and a complete flow ends with cycle 8.
pub proof fn lemma_major_flows_well_grouped(rounds: Seq<RoundView>)
    requires
        rounds.len() <= usize::MAX,
    ensures
        well_grouped(detected_majors(rounds)),
{
    lemma_major_run_grouped(rounds);
    let (ms, cur) = major_run(rounds);
    if cur.len() > 0 {
        lemma_flush_grouped(ms, cur, cur.last().loop_number == Some(8u32), cur.len());
    }
}

// ---------------------------------------------------------------------------
// Cycle statistics
// ---------------------------------------------------------------------------

/// The working time of a round: its length minus its paused time, never negative.
pub open spec fn effective(r: RoundView) -> int {
    non_negative(round_span(r.start_ts, r.end_ts) - merged_pause_total(r.pause_events))
}

/// The working times of the finished regular cycles, in order.
pub open spec fn normal_cycle_durations(rounds: Seq<RoundView>) -> Seq<int>
    decreases rounds.len(),
{
    if rounds.len() == 0 {
        seq![]
    } else {
        let prev = normal_cycle_durations(rounds.drop_last());
        let r = rounds.last();
        if r.cycle_type is Normal && r.end_ts is Some {
            prev.push(effective(r))
        } else {
            prev
        }
    }
}

/// The working times of the finished regular cycles (see `normal_cycle_durations`).
pub fn completed_normal_durations(rounds: &Vec<Round>) -> (r: Vec<i128>)
    ensures
        r@.map_values(|d: i128| d as int) == normal_cycle_durations(round_views(rounds@)),
{
    let ghost rv = round_views(rounds@);
    let mut out: Vec<i128> = Vec::new();
    let mut i: usize = 0;
    assert(rv.take(0) =~= seq![]);
    assert(out@.map_values(|d: i128| d as int) =~= seq![]);
    while i < rounds.len()
        invariant
            i <= rounds@.len(),
            rv == round_views(rounds@),
            rv.len() == rounds@.len(),
            out@.map_values(|d: i128| d as int) == normal_cycle_durations(rv.take(i as int)),
        decreases rounds.len() - i,
    {
        let r = &rounds[i];
        proof {
            assert(rv.take(i + 1).drop_last() =~= rv.take(i as int));
            assert(rv.take(i + 1).last() == r@);
        }
        let normal = match r.cycle_type {
            CycleType::Normal(_) => true,
            _ => false,
        };
        if normal && r.end_ts.is_some() {
            let d = r.effective_duration();
            let ghost before = out@;
            out.push(d);
            assert(out@.map_values(|d: i128| d as int) =~= before.map_values(|d: i128| d as int).push(d as int));
        }
        i += 1;
    }
    assert(rv.take(rounds@.len() as int) =~= rv);
    out
}

/// A LogNode template registration line changes nothing in round detection.
pub proof fn lemma_registration_line_skipped(st: DetectionState, ts: i64, line: Seq<char>)
    requires
        regex_is_match(REGISTRATION_PATTERN@, line),
    ensures
        detect_step(st, ts, line) == st,
{
}

/// A repeated start of the final cycle, while the final cycle is open, changes nothing.
pub proof fn lemma_final_start_idempotent(st: DetectionState, ts: i64, line: Seq<char>)
    requires
        classify(line) is FinalStart,
        st.current matches Some(r) && r.cycle_type == CycleType::Final,
    ensures
        detect_step(st, ts, line) == st,
{
}

proof fn lemma_detect_run_skips_registrations(lines: Seq<(i64, Seq<char>)>)
    ensures
        detect_run(lines) == detect_run(without_registrations(lines)),
    decreases lines.len(),
{
    if lines.len() > 0 {
        let prev = lines.drop_last();
        lemma_detect_run_skips_registrations(prev);
        let f = without_registrations(prev);
        if !is_registration(lines.last().1) {
            assert(f.push(lines.last()).drop_last() =~= f);
        }
    }
}

/// Registration lines never take part in round detection: two logs that are the same
/// once their LogNode template registration lines are left out (such lines inserted
/// anywhere, or removed) give the same rounds.
pub proof fn lemma_registrations_change_no_round(a: Seq<(i64, Seq<char>)>, b: Seq<(i64, Seq<char>)>, t_last: i64)
    requires
        without_registrations(a) == without_registrations(b),
    ensures
        detected_rounds(a, t_last) == detected_rounds(b, t_last),
{
    lemma_detect_run_skips_registrations(a);
    lemma_detect_run_skips_registrations(b);
}

// ---------------------------------------------------------------------------
// Laws of round detection and major-flow grouping
// ---------------------------------------------------------------------------

/// A line that starts an initial or a regular cycle.
pub open spec fn is_cycle_start(line: Seq<char>) -> bool {
    classify(line) is InitStart || classify(line) is NormalStart
}

/// The number of lines that start an initial or a regular cycle.
pub open spec fn cycle_start_count(lines: Seq<(i64, Seq<char>)>) -> nat
    decreases lines.len(),
{
    if lines.len() == 0 {
        0
    } else {
        cycle_start_count(lines.drop_last()) + if is_cycle_start(lines.last().1) {
            1nat
        } else {
            0nat
        }
    }
}

/// A line that starts an initial or regular cycle ends the open round at its time
/// (unless the round already has an end), keeps every finished round, and opens a
/// new round of that cycle at its time, numbered after all the rounds opened so far.
pub proof fn lemma_cycle_start_opens_round(st: DetectionState, ts: i64, line: Seq<char>)
    requires
        is_cycle_start(line),
        opened_count(st) < usize::MAX,
    ensures
        ({
            let next = detect_step(st, ts, line);
            &&& next.pending == st.pending
            &&& next.rounds == match st.current {
                Some(r) => st.rounds.push(
                    if r.end_ts is None {
                        RoundView { end_ts: Some(ts), ..r }
                    } else {
                        r
                    },
                ),
                None => st.rounds,
            }
            &&& next.current matches Some(c) && c.start_ts == ts && c.end_ts is None
                && c.id == opened_count(st) + 1 && c.pause_events.len() == 0
                && (classify(line) is InitStart ==> c.cycle_type == CycleType::Initial
                    && c.loop_number == Some(0u32))
                && (classify(line) matches LineEvent::NormalStart(n) ==> c.cycle_type
                    == CycleType::Normal(n) && c.loop_number == Some(n))
        }),
{
}

/// No line loses a round: the finished rounds stay as they were (more may follow), and
/// the number of rounds opened never goes down.
pub proof fn lemma_step_keeps_rounds(st: DetectionState, ts: i64, line: Seq<char>)
    ensures
        st.rounds.len() <= detect_step(st, ts, line).rounds.len(),
        forall|i: int| 0 <= i < st.rounds.len() ==> #[trigger] detect_step(st, ts, line).rounds[i] == st.rounds[i],
        opened_count(st) <= opened_count(detect_step(st, ts, line)),
        is_cycle_start(line) ==> opened_count(detect_step(st, ts, line)) == opened_count(st) + 1,
{
}

proof fn lemma_run_opens_at_least(lines: Seq<(i64, Seq<char>)>)
    ensures
        cycle_start_count(lines) <= opened_count(detect_run(lines)),
    decreases lines.len(),
{
    if lines.len() > 0 {
        lemma_run_opens_at_least(lines.drop_last());
        lemma_step_keeps_rounds(detect_run(lines.drop_last()), lines.last().0, lines.last().1);
    }
}

/// Every line that starts an initial or regular cycle gives a round of its own: a log
/// has at least as many detected rounds as such lines (a start before the previous
/// cycle ended closes that cycle's round rather than dropping it).
pub proof fn lemma_every_cycle_start_is_a_round(lines: Seq<(i64, Seq<char>)>, t_last: i64)
    ensures
        cycle_start_count(lines) <= detected_rounds(lines, t_last).len(),
{
    lemma_run_opens_at_least(lines);
}

/// A round that carries a cycle number other than 5.
pub open spec fn groupable_round(r: RoundView) -> bool {
    r.loop_number matches Some(n) && n != 5
}

/// The rounds with a cycle number other than 5, in order.
pub open spec fn groupable_rounds(rounds: Seq<RoundView>) -> Seq<RoundView>
    decreases rounds.len(),
{
    if rounds.len() == 0 {
        seq![]
    } else if groupable_round(rounds.last()) {
        groupable_rounds(rounds.drop_last()).push(rounds.last())
    } else {
        groupable_rounds(rounds.drop_last())
    }
}

/// The rounds of the major flows, one flow after the other.
pub open spec fn rounds_of_majors(ms: Seq<MajorView>) -> Seq<RoundView>
    decreases ms.len(),
{
    if ms.len() == 0 {
        seq![]
    } else {
        rounds_of_majors(ms.drop_last()) + ms.last().rounds
    }
}

proof fn lemma_rounds_of_majors_push(ms: Seq<MajorView>, m: MajorView)
    ensures
        rounds_of_majors(ms.push(m)) == rounds_of_majors(ms) + m.rounds,
{
    assert(ms.push(m).drop_last() =~= ms);
}

proof fn lemma_rounds_of_flush(ms: Seq<MajorView>, cur: Seq<RoundView>, complete: bool, k: nat)
    ensures
        rounds_of_majors(flush(ms, cur, complete, k)) == rounds_of_majors(ms) + cur,
{
    if cur.len() > 0 {
        lemma_rounds_of_majors_push(ms, major_of(ms.len() + 1, cur, complete, k));
    } else {
        assert(rounds_of_majors(ms) + cur =~= rounds_of_majors(ms));
    }
}

proof fn lemma_major_run_keeps_rounds(rounds: Seq<RoundView>)
    ensures
        rounds_of_majors(major_run(rounds).0) + major_run(rounds).1 == groupable_rounds(rounds),
    decreases rounds.len(),
{
    if rounds.len() > 0 {
        let prev = rounds.drop_last();
        let r = rounds.last();
        lemma_major_run_keeps_rounds(prev);
        let (ms, cur) = major_run(prev);
        let base = rounds_of_majors(ms);
        match r.loop_number {
            None => {},
            Some(n) => {
                if n == 5 {
                    lemma_rounds_of_flush(ms, cur, false, cur.len());
                    assert(base + cur + seq![] =~= base + cur);
                } else {
                    let ms1 = if n == 1 { flush(ms, cur, false, cur.len()) } else { ms };
                    let cur1 = if n == 1 { seq![r] } else { cur.push(r) };
                    lemma_rounds_of_flush(ms, cur, false, cur.len());
                    assert(rounds_of_majors(ms1) + cur1 =~= (base + cur).push(r));
                    if n == 8 {
                        lemma_rounds_of_flush(ms1, cur1, true, 8);
                        assert(rounds_of_majors(ms1) + cur1 + seq![] =~= rounds_of_majors(ms1) + cur1);
                    }
                }
            },
        }
    }
}

/// No round is lost or repeated by the grouping into major flows: the rounds of the
/// flows, one flow after the other, are exactly the rounds with a cycle number other
/// than 5, in order (also when a new cycle 1 starts before cycle 8 ends a flow).
pub proof fn lemma_major_flows_partition_rounds(rounds: Seq<RoundView>)
    ensures
        rounds_of_majors(detected_majors(rounds)) == groupable_rounds(rounds),
{
    lemma_major_run_keeps_rounds(rounds);
    let (ms, cur) = major_run(rounds);
    lemma_rounds_of_flush(ms, cur, cur.len() > 0 && cur.last().loop_number == Some(8u32), cur.len());
}
} // verus!
