//! One analysis of a log, from its text to everything that is written out: the
//! master-control analysis (rounds, major flows, navigation flows, tables, timeline)
//! and the arm-decision analysis (tasks and their tables).

use vstd::prelude::*;
use crate::analysis::{count_actions, flows_count_kind, total_actions, ActionCounts};
use crate::arm_decision::{
    arm_patterns_valid, arm_records, arm_records_view, build_arm_csv_records, build_task_summary,
    detect_arm_decision_tasks, detected_tasks, summaries_view, task_summary, tasks_view, ArmCsvRecord,
    ArmDecisionTask, TaskSummaryRecord, TaskView,
};
use crate::export::{
    action_timeline, actions_view, build_csv_records, count_rows, csv_records, records_view, timeline,
    timeline_stats, ActionRecord, ActionView, CsvRecord, TimelineStats,
};
use crate::flows::{detect_flows, detected_flows, flow_patterns_valid, flows_view, FlowView, NavigationFlow};
use crate::logs::{
    parse_arm_decision_log_lines, parse_log_lines, parsed_arm_decision_log, parsed_log,
    ARM_DECISION_TIMESTAMP_PATTERN, LOG_TIMESTAMP_PATTERN,
};
use crate::pattern::regex_valid;
use crate::plugins::ANALYZER_VERSION;
use crate::rounds::{
    detect_major_flows, detect_rounds, detected_majors, detected_rounds, majors_view, round_patterns_valid,
    round_views, MajorFlow, Round,
};
use crate::text::owned;
use crate::timeline::{
    build_master_timeline, extract_round_time_ranges, keep_tasks_in_rounds, master_timeline, ranges_of,
    tasks_in_rounds, AnalyzerContext, RoundTimeRange, Timeline,
};

verus! {

/// Why the analysis of a log fails.
#[derive(Debug)]
pub enum AnalysisError {
    /// A detection pattern does not compile; the text says which.
    Pattern(String),
    /// The log has no timestamped line.
    NoTimestampedLines,
    /// A flow holds more actions than the tables can number.
    TooManyActions,
}

impl AnalysisError {
    /// The text shown for the error.
    pub fn message(&self) -> (r: String)
        ensures
            self is NoTimestampedLines ==> r@ == "日志文件中未找到有效的时间戳行"@,
            self is TooManyActions ==> r@ == "流程中的动作过多"@,
            self matches AnalysisError::Pattern(m) ==> r@ == m@,
    {
        match self {
            AnalysisError::Pattern(m) => m.clone(),
            AnalysisError::NoTimestampedLines => owned("日志文件中未找到有效的时间戳行"),
            AnalysisError::TooManyActions => owned("流程中的动作过多"),
        }
    }
}

/// The flows fit the tables: the number of all their actions fits a `usize`, and
/// every flow can number its actions and the row before them.
pub open spec fn actions_fit(fv: Seq<FlowView>) -> bool {
    &&& total_actions(fv) <= usize::MAX
    &&& forall|i: int| 0 <= i < fv.len() ==> (#[trigger] fv[i]).operations.len() < usize::MAX - 1
}

proof fn lemma_total_actions_step(fv: Seq<FlowView>, i: int)
    requires
        0 <= i < fv.len(),
    ensures
        total_actions(fv.take(i + 1)) == total_actions(fv.take(i)) + fv[i].operations.len(),
{
    assert(fv.take(i + 1).drop_last() =~= fv.take(i));
}

/// Whether the flows fit the tables (see `actions_fit`).
fn flows_fit(flows: &Vec<NavigationFlow>) -> (r: bool)
    ensures
        r == actions_fit(flows_view(flows@)),
{
    let ghost fv = flows_view(flows@);
    let mut total: usize = 0;
    let mut i: usize = 0;
    while i < flows.len()
        invariant
            i <= flows@.len(),
            fv == flows_view(flows@),
            fv.len() == flows@.len(),
            total == total_actions(fv.take(i as int)),
            forall|j: int| 0 <= j < i ==> (#[trigger] fv[j]).operations.len() < usize::MAX - 1,
        decreases flows.len() - i,
    {
        let n = flows[i].operations.len();
        proof {
            assert(fv[i as int] == flows@[i as int]@);
            lemma_total_actions_step(fv, i as int);
        }
        if n >= usize::MAX - 1 {
            return false;
        }
        if n > usize::MAX - total {
            proof {
                lemma_total_prefix_bound(fv, i + 1);
            }
            return false;
        }
        total = total + n;
        i += 1;
    }
    assert(fv.take(flows@.len() as int) =~= fv);
    true
}

/// The total of a prefix never exceeds the total of all the flows.
proof fn lemma_total_prefix_bound(fv: Seq<FlowView>, n: int)
    requires
        0 <= n <= fv.len(),
    ensures
        total_actions(fv.take(n)) <= total_actions(fv),
    decreases fv.len() - n,
{
    if n < fv.len() {
        lemma_total_prefix_bound(fv, n + 1);
        lemma_total_actions_step(fv, n);
    } else {
        assert(fv.take(n) =~= fv);
    }
}

/// The statistics hold of the timeline rows.
pub open spec fn stats_of_rows(s: TimelineStats, rows: Seq<ActionView>) -> bool {
    &&& s.total == rows.len()
    &&& s.completed == count_rows(rows, |a: ActionView| a.end_ts is Some)
    &&& s.navigation == count_rows(rows, |a: ActionView| a.action_type == "导航"@)
    &&& s.arm == count_rows(rows, |a: ActionView| a.action_type == "机械臂"@)
    &&& s.head == count_rows(rows, |a: ActionView| a.action_type == "头部"@)
    &&& s.waist == count_rows(rows, |a: ActionView| a.action_type == "腰部"@)
}

/// Everything that the analysis of a master-control log gives.
pub struct MasterAnalysis {
    /// The time of the first and of the last timestamped line.
    pub t0: i64,
    pub t_last: i64,
    pub rounds: Vec<Round>,
    pub major_flows: Vec<MajorFlow>,
    pub flows: Vec<NavigationFlow>,
    pub counts: ActionCounts,
    /// The rows of the analysis table.
    pub records: Vec<CsvRecord>,
    /// The action timeline and its statistics.
    pub rows: Vec<ActionRecord>,
    pub stats: TimelineStats,
    /// The standard timeline of the log and the time ranges of its finished rounds.
    pub timeline: Timeline,
    pub round_ranges: Vec<RoundTimeRange>,
}

/// The master-control analysis fails on a pattern: the timestamp pattern does not
/// compile, or the log has lines and a round or flow pattern does not compile.
pub open spec fn master_pattern_failure(content: Seq<char>) -> bool {
    ||| !regex_valid(LOG_TIMESTAMP_PATTERN@)
    ||| (parsed_log(content).len() > 0 && (!round_patterns_valid() || !flow_patterns_valid()))
}

/// The flows that the analysis of a log with lines detects.
pub open spec fn master_flows(content: Seq<char>) -> Seq<FlowView> {
    let lv = parsed_log(content);
    detected_flows(lv, detected_rounds(lv, lv.last().0))
}

/// Analyses a master-control log from its text: its timestamped lines, rounds (the
/// last open one closed at the last line), major flows, navigation flows, action
/// counts, table rows and action timeline relative to the first line, and the standard
/// timeline of `source_file` with its round ranges. Fails when a pattern does not
/// compile, when no line is timestamped, or when a flow holds too many actions.
pub fn analyze_master_log(content: &str, source_file: &str) -> (r: Result<MasterAnalysis, AnalysisError>)
    ensures
        (r matches Err(AnalysisError::Pattern(_))) <==> master_pattern_failure(content@),
        (r matches Err(AnalysisError::NoTimestampedLines)) <==> (regex_valid(LOG_TIMESTAMP_PATTERN@)
            && parsed_log(content@).len() == 0),
        (r matches Err(AnalysisError::TooManyActions)) <==> (!master_pattern_failure(content@)
            && parsed_log(content@).len() > 0 && !actions_fit(master_flows(content@))),
        r matches Ok(a) ==> {
            let lv = parsed_log(content@);
            let rv = detected_rounds(lv, lv.last().0);
            let fv = detected_flows(lv, rv);
            &&& a.t0 == lv[0].0
            &&& a.t_last == lv.last().0
            &&& round_views(a.rounds@) == rv
            &&& majors_view(a.major_flows@) == detected_majors(rv)
            &&& flows_view(a.flows@) == fv
            &&& a.counts.navigation == fv.len()
            &&& a.counts.arm == flows_count_kind(fv, "arm"@)
            &&& a.counts.head == flows_count_kind(fv, "head"@)
            &&& a.counts.waist == flows_count_kind(fv, "waist"@)
            &&& records_view(a.records@) == csv_records(fv, rv, lv[0].0)
            &&& actions_view(a.rows@) == timeline(fv, lv[0].0)
            &&& stats_of_rows(a.stats, actions_view(a.rows@))
            &&& a.timeline@ == master_timeline(source_file@, rv, fv, lv[0].0, lv.last().0, ANALYZER_VERSION@)
            &&& a.round_ranges@ == ranges_of(a.timeline@.events)
        },
{
    let lines = match parse_log_lines(content) {
        Ok(l) => l,
        Err(m) => return Err(AnalysisError::Pattern(m)),
    };
    if lines.len() == 0 {
        return Err(AnalysisError::NoTimestampedLines);
    }
    let t0 = lines[0].timestamp;
    let t_last = lines[lines.len() - 1].timestamp;
    let rounds = match detect_rounds(&lines, t_last) {
        Ok(r) => r,
        Err(m) => return Err(AnalysisError::Pattern(m)),
    };
    let major_flows = detect_major_flows(&rounds);
    let flows = match detect_flows(&lines, &rounds) {
        Ok(f) => f,
        Err(m) => return Err(AnalysisError::Pattern(m)),
    };
    if !flows_fit(&flows) {
        return Err(AnalysisError::TooManyActions);
    }
    assert forall|i: int| 0 <= i < flows@.len() implies (#[trigger] flows@[i]).operations@.len() < usize::MAX - 1 by {
        assert(flows_view(flows@)[i] == flows@[i]@);
    }
    let counts = count_actions(&flows);
    let records = build_csv_records(&flows, &rounds, t0);
    let rows = action_timeline(&flows, t0);
    let stats = timeline_stats(&rows);
    let timeline = build_master_timeline(source_file, &rounds, &flows, t0, t_last, ANALYZER_VERSION);
    let round_ranges = extract_round_time_ranges(&timeline);
    Ok(MasterAnalysis { t0, t_last, rounds, major_flows, flows, counts, records, rows, stats, timeline, round_ranges })
}

/// Everything that the analysis of an arm-decision log gives.
pub struct ArmAnalysis {
    /// The time of the first timestamped line.
    pub t0: i64,
    pub tasks: Vec<ArmDecisionTask>,
    /// The rows of the module table and of the task summary.
    pub records: Vec<ArmCsvRecord>,
    pub summary: Vec<TaskSummaryRecord>,
}

/// The arm-decision analysis fails on a pattern: the timestamp pattern does not
/// compile, or the log has lines and a task pattern does not compile.
pub open spec fn arm_pattern_failure(content: Seq<char>) -> bool {
    ||| !regex_valid(ARM_DECISION_TIMESTAMP_PATTERN@)
    ||| (parsed_arm_decision_log(content).len() > 0 && !arm_patterns_valid())
}

/// The tasks kept: all the detected ones, or with the round ranges of the primary
/// log those that overlap a round.
pub open spec fn kept_tasks(tasks: Seq<TaskView>, ctx: Option<AnalyzerContext>) -> Seq<TaskView> {
    match ctx {
        Some(c) => tasks_in_rounds(c.round_time_ranges@, tasks),
        None => tasks,
    }
}

/// Analyses an arm-decision log from its text: its tasks (with the round ranges of
/// the primary log, only those that overlap a round), their module table and their
/// summary, relative to the first timestamped line. Fails when a pattern does not
/// compile or when no line is timestamped.
pub fn analyze_arm_decision_log(content: &str, ctx: Option<&AnalyzerContext>) -> (r: Result<ArmAnalysis, AnalysisError>)
    ensures
        (r matches Err(AnalysisError::Pattern(_))) <==> arm_pattern_failure(content@),
        (r matches Err(AnalysisError::NoTimestampedLines)) <==> (regex_valid(ARM_DECISION_TIMESTAMP_PATTERN@)
            && parsed_arm_decision_log(content@).len() == 0),
        !(r matches Err(AnalysisError::TooManyActions)),
        r matches Ok(a) ==> {
            let lv = parsed_arm_decision_log(content@);
            let tv = kept_tasks(detected_tasks(lv), opt_ctx(ctx));
            &&& a.t0 == lv[0].0
            &&& tasks_view(a.tasks@) == tv
            &&& arm_records_view(a.records@) == arm_records(tv, lv[0].0)
            &&& summaries_view(a.summary@) == Seq::new(tv.len(), |i: int| task_summary(i as nat, tv[i], lv[0].0))
        },
{
    let lines = match parse_arm_decision_log_lines(content) {
        Ok(l) => l,
        Err(m) => return Err(AnalysisError::Pattern(m)),
    };
    if lines.len() == 0 {
        return Err(AnalysisError::NoTimestampedLines);
    }
    let t0 = lines[0].timestamp;
    let all = match detect_arm_decision_tasks(&lines) {
        Ok(t) => t,
        Err(m) => return Err(AnalysisError::Pattern(m)),
    };
    let tasks = match ctx {
        Some(c) => keep_tasks_in_rounds(all, c),
        None => all,
    };
    let records = build_arm_csv_records(&tasks, t0);
    let summary = build_task_summary(&tasks, t0);
    Ok(ArmAnalysis { t0, tasks, records, summary })
}

/// The context as a plain value.
pub open spec fn opt_ctx(ctx: Option<&AnalyzerContext>) -> Option<AnalyzerContext> {
    match ctx {
        Some(c) => Some(*c),
        None => None,
    }
}

} // verus!
