//! Standard timelines: the events of an analysed log on named tracks, so that the
//! timelines of several logs can be laid side by side, and the round time ranges
//! that the master-control timeline hands on to the analysers that follow it.

use vstd::prelude::*;
use crate::arm_decision::{tasks_view, ArmDecisionTask, TaskView};
use crate::config::str_eq;
use crate::flows::{
    flows_view, opt_text, ops_view, steps_view, ActionOperation, FlowView, NavigationFlow, OpView,
    SubStep, SubStepView,
};
use crate::rounds::{round_views, Round, RoundView};
use crate::text::{decimal, owned, push_decimal, push_str};

verus! {

/// The track (swim lane) an event is drawn on.
#[derive(Debug, Clone)]
pub enum Track {
    RoundMarker,
    Navigation,
    Arm,
    Head,
    Waist,
    Custom(String),
}

/// A track as plain values.
pub enum TrackView {
    RoundMarker,
    Navigation,
    Arm,
    Head,
    Waist,
    Custom(Seq<char>),
}

impl View for Track {
    type V = TrackView;

    open spec fn view(&self) -> TrackView {
        match self {
            Track::RoundMarker => TrackView::RoundMarker,
            Track::Navigation => TrackView::Navigation,
            Track::Arm => TrackView::Arm,
            Track::Head => TrackView::Head,
            Track::Waist => TrackView::Waist,
            Track::Custom(s) => TrackView::Custom(s@),
        }
    }
}

/// How an event ended.
#[derive(Debug, Clone, Copy, PartialEq, Eq, Structural)]
pub enum EventStatus {
    Success,
    Failed,
    InProgress,
    Cancelled,
}

/// What an event carries besides its times, by kind of event.
#[derive(Debug, Clone)]
pub enum EventDetails {
    Round { loop_number: Option<u32>, round_index: usize, pose0: Option<String>, pose6: Option<String> },
    Navigation { target_pos: Option<String>, target_ori: Option<String>, sub_steps: Vec<SubStep> },
    Action { action_code: Option<u32>, action_type: String, sub_steps: Vec<SubStep> },
    ArmTask {
        task_type: Option<u32>,
        result_status: Option<i32>,
        result_message: Option<String>,
        module_count: usize,
        round_id: Option<usize>,
    },
}

/// Event details as plain values.
pub enum DetailsView {
    Round { loop_number: Option<u32>, round_index: usize, pose0: Option<Seq<char>>, pose6: Option<Seq<char>> },
    Navigation { target_pos: Option<Seq<char>>, target_ori: Option<Seq<char>>, sub_steps: Seq<SubStepView> },
    Action { action_code: Option<u32>, action_type: Seq<char>, sub_steps: Seq<SubStepView> },
    ArmTask {
        task_type: Option<u32>,
        result_status: Option<i32>,
        result_message: Option<Seq<char>>,
        module_count: nat,
        round_id: Option<usize>,
    },
}

impl View for EventDetails {
    type V = DetailsView;

    open spec fn view(&self) -> DetailsView {
        match self {
            EventDetails::Round { loop_number, round_index, pose0, pose6 } => DetailsView::Round {
                loop_number: *loop_number,
                round_index: *round_index,
                pose0: opt_text(*pose0),
                pose6: opt_text(*pose6),
            },
            EventDetails::Navigation { target_pos, target_ori, sub_steps } => DetailsView::Navigation {
                target_pos: opt_text(*target_pos),
                target_ori: opt_text(*target_ori),
                sub_steps: steps_view(sub_steps@),
            },
            EventDetails::Action { action_code, action_type, sub_steps } => DetailsView::Action {
                action_code: *action_code,
                action_type: action_type@,
                sub_steps: steps_view(sub_steps@),
            },
            EventDetails::ArmTask { task_type, result_status, result_message, module_count, round_id } =>
                DetailsView::ArmTask {
                task_type: *task_type,
                result_status: *result_status,
                result_message: opt_text(*result_message),
                module_count: *module_count as nat,
                round_id: *round_id,
            },
        }
    }
}

/// An event of a timeline.
#[derive(Debug, Clone)]
pub struct TimelineEvent {
    pub id: String,
    pub track: Track,
    pub name: String,
    pub start_time: i64,
    pub end_time: Option<i64>,
    pub status: EventStatus,
    /// The analyser that produced the event.
    pub source: String,
    /// The event this one belongs to.
    pub parent_id: Option<String>,
    pub details: EventDetails,
    /// Suggested colour, `#RRGGBB`.
    pub color_hint: Option<String>,
}

/// An event as plain values.
pub struct EventView {
    pub id: Seq<char>,
    pub track: TrackView,
    pub name: Seq<char>,
    pub start_time: i64,
    pub end_time: Option<i64>,
    pub status: EventStatus,
    pub source: Seq<char>,
    pub parent_id: Option<Seq<char>>,
    pub details: DetailsView,
    pub color_hint: Option<Seq<char>>,
}

impl View for TimelineEvent {
    type V = EventView;

    open spec fn view(&self) -> EventView {
        EventView {
            id: self.id@,
            track: self.track@,
            name: self.name@,
            start_time: self.start_time,
            end_time: self.end_time,
            status: self.status,
            source: self.source@,
            parent_id: opt_text(self.parent_id),
            details: self.details@,
            color_hint: opt_text(self.color_hint),
        }
    }
}

/// The views of a sequence of events.
pub open spec fn events_view(v: Seq<TimelineEvent>) -> Seq<EventView> {
    v.map_values(|e: TimelineEvent| e@)
}

/// What a whole timeline carries besides its events.
#[derive(Debug, Clone)]
pub enum TimelineInfo {
    MasterControl { round_count: usize, flow_count: usize, analyzer_version: String },
    ArmDecision { task_count: usize, analyzer_version: String },
}

/// Timeline information as plain values.
pub enum InfoView {
    MasterControl { round_count: nat, flow_count: nat, analyzer_version: Seq<char> },
    ArmDecision { task_count: nat, analyzer_version: Seq<char> },
}

impl View for TimelineInfo {
    type V = InfoView;

    open spec fn view(&self) -> InfoView {
        match self {
            TimelineInfo::MasterControl { round_count, flow_count, analyzer_version } => InfoView::MasterControl {
                round_count: *round_count as nat,
                flow_count: *flow_count as nat,
                analyzer_version: analyzer_version@,
            },
            TimelineInfo::ArmDecision { task_count, analyzer_version } => InfoView::ArmDecision {
                task_count: *task_count as nat,
                analyzer_version: analyzer_version@,
            },
        }
    }
}

/// The timeline of one analysed log.
#[derive(Debug, Clone)]
pub struct Timeline {
    /// The analyser, e.g. `master_control`.
    pub name: String,
    pub source_file: String,
    pub log_start_time: i64,
    pub log_end_time: i64,
    pub events: Vec<TimelineEvent>,
    /// Whether the other timelines are aligned on this one.
    pub is_primary: bool,
    pub info: TimelineInfo,
}

/// A timeline as plain values.
pub struct TimelineView {
    pub name: Seq<char>,
    pub source_file: Seq<char>,
    pub log_start_time: i64,
    pub log_end_time: i64,
    pub events: Seq<EventView>,
    pub is_primary: bool,
    pub info: InfoView,
}

impl View for Timeline {
    type V = TimelineView;

    open spec fn view(&self) -> TimelineView {
        TimelineView {
            name: self.name@,
            source_file: self.source_file@,
            log_start_time: self.log_start_time,
            log_end_time: self.log_end_time,
            events: events_view(self.events@),
            is_primary: self.is_primary,
            info: self.info@,
        }
    }
}

// ---------------------------------------------------------------------------
// The master-control timeline
// ---------------------------------------------------------------------------

/// The marker event of round `r`, the `idx`-th round of the log (from 0).
pub open spec fn round_event(idx: nat, r: RoundView) -> EventView {
    EventView {
        id: "round_"@ + decimal(r.id as nat),
        track: TrackView::RoundMarker,
        name: "轮次 "@ + decimal(r.id as nat),
        start_time: r.start_ts,
        end_time: r.end_ts,
        status: if r.end_ts is Some {
            EventStatus::Success
        } else {
            EventStatus::InProgress
        },
        source: "master_control"@,
        parent_id: None,
        details: DetailsView::Round {
            loop_number: r.loop_number,
            round_index: idx as usize,
            pose0: r.pose0,
            pose6: r.pose6,
        },
        color_hint: Some("#E8F4F8"@),
    }
}

/// The status of a navigation, from its status text (success unless it says
/// otherwise).
pub open spec fn nav_event_status(s: Seq<char>) -> EventStatus {
    if s == "失败"@ {
        EventStatus::Failed
    } else if s == "进行中"@ {
        EventStatus::InProgress
    } else {
        EventStatus::Success
    }
}

/// The status of an action, from its status text, in Chinese or English (success
/// unless it says otherwise).
pub open spec fn op_event_status(s: Seq<char>) -> EventStatus {
    if s == "失败"@ || s == "failed"@ {
        EventStatus::Failed
    } else if s == "进行中"@ || s == "in_progress"@ {
        EventStatus::InProgress
    } else if s == "取消"@ || s == "cancelled"@ {
        EventStatus::Cancelled
    } else {
        EventStatus::Success
    }
}

/// The event of the navigation of flow `i` (from 0), when both its ends are known;
/// it belongs to the marker of the flow's round.
pub open spec fn nav_events(i: nat, f: FlowView) -> Seq<EventView> {
    match (f.nav_start_ts, f.nav_end_ts) {
        (Some(s), Some(e)) => seq![
            EventView {
                id: "nav_"@ + decimal(i),
                track: TrackView::Navigation,
                name: "导航"@,
                start_time: s,
                end_time: Some(e),
                status: nav_event_status(f.nav_status),
                source: "master_control"@,
                parent_id: Some("round_"@ + decimal(f.round_id as nat)),
                details: DetailsView::Navigation {
                    target_pos: f.nav_target_pos,
                    target_ori: f.nav_target_ori,
                    sub_steps: f.nav_sub_steps,
                },
                color_hint: Some("#ADD8E6"@),
            },
        ],
        _ => seq![],
    }
}

/// The track and colour of a kind of action; none for kinds not drawn.
pub open spec fn op_track(t: Seq<char>) -> Option<(TrackView, Seq<char>)> {
    if t == "arm"@ {
        Some((TrackView::Arm, "#90EE90"@))
    } else if t == "head"@ {
        Some((TrackView::Head, "#FFB366"@))
    } else if t == "waist"@ {
        Some((TrackView::Waist, "#DDA0DD"@))
    } else {
        None
    }
}

/// The event of action `k` (from 0) of flow `i`, when both its ends are known and its
/// kind is drawn; it belongs to the navigation of the flow.
pub open spec fn op_event(i: nat, k: nat, o: OpView) -> Seq<EventView> {
    match (o.start_ts, o.end_ts, op_track(o.action_type)) {
        (Some(s), Some(e), Some((track, color))) => seq![
            EventView {
                id: o.action_type + "_"@ + decimal(i) + "_op_"@ + decimal(k),
                track: track,
                name: o.label,
                start_time: s,
                end_time: Some(e),
                status: op_event_status(o.status),
                source: "master_control"@,
                parent_id: Some("nav_"@ + decimal(i)),
                details: DetailsView::Action {
                    action_code: o.action_code,
                    action_type: o.action_type,
                    sub_steps: o.sub_steps,
                },
                color_hint: Some(color),
            },
        ],
        _ => seq![],
    }
}

/// The events of the actions of flow `i`, in order.
pub open spec fn op_events(i: nat, ops: Seq<OpView>) -> Seq<EventView>
    decreases ops.len(),
{
    if ops.len() == 0 {
        seq![]
    } else {
        op_events(i, ops.drop_last()) + op_event(i, (ops.len() - 1) as nat, ops.last())
    }
}

/// The events of the flows: for each flow, its navigation and then its actions.
pub open spec fn flows_events(flows: Seq<FlowView>) -> Seq<EventView>
    decreases flows.len(),
{
    if flows.len() == 0 {
        seq![]
    } else {
        let i = (flows.len() - 1) as nat;
        flows_events(flows.drop_last()) + nav_events(i, flows.last()) + op_events(i, flows.last().operations)
    }
}

/// The marker events of the rounds, in order.
pub open spec fn round_events(rounds: Seq<RoundView>) -> Seq<EventView> {
    Seq::new(rounds.len(), |i: int| round_event(i as nat, rounds[i]))
}

/// The master-control timeline: the round markers, then the events of the flows.
pub open spec fn master_timeline(
    source_file: Seq<char>,
    rounds: Seq<RoundView>,
    flows: Seq<FlowView>,
    log_start_time: i64,
    log_end_time: i64,
    version: Seq<char>,
) -> TimelineView {
    TimelineView {
        name: "master_control"@,
        source_file: source_file,
        log_start_time: log_start_time,
        log_end_time: log_end_time,
        events: round_events(rounds) + flows_events(flows),
        is_primary: true,
        info: InfoView::MasterControl {
            round_count: rounds.len(),
            flow_count: flows.len(),
            analyzer_version: version,
        },
    }
}

/// A copy of a sequence of steps.
pub fn copy_steps(v: &Vec<SubStep>) -> (r: Vec<SubStep>)
    ensures
        steps_view(r@) == steps_view(v@),
{
    let mut out: Vec<SubStep> = Vec::new();
    let mut i: usize = 0;
    while i < v.len()
        invariant
            i <= v@.len(),
            steps_view(out@) == steps_view(v@.take(i as int)),
        decreases v.len() - i,
    {
        let s = SubStep { name: v[i].name.clone(), timestamp: v[i].timestamp };
        assert(s@ == v@[i as int]@);
        assert(v@.take(i + 1) =~= v@.take(i as int).push(v@[i as int]));
        assert(steps_view(v@.take(i + 1)) =~= steps_view(v@.take(i as int)).push(v@[i as int]@));
        let ghost before = out@;
        out.push(s);
        assert(steps_view(out@) =~= steps_view(before).push(s@));
        i += 1;
    }
    assert(v@.take(v@.len() as int) =~= v@);
    out
}

/// A copy of an optional string.
fn copy_text(o: &Option<String>) -> (r: Option<String>)
    ensures
        opt_text(r) == opt_text(*o),
{
    match o {
        Some(s) => Some(s.clone()),
        None => None,
    }
}

/// `head` followed by the decimal digits of `n`.
fn numbered(head: &str, n: usize) -> (r: String)
    ensures
        r@ == head@ + decimal(n as nat),
{
    let mut s = owned(head);
    push_decimal(&mut s, n as u64);
    s
}

/// The marker event of round `r`, the `idx`-th round (see `round_event`).
fn round_event_of(idx: usize, r: &Round) -> (e: TimelineEvent)
    ensures
        e@ == round_event(idx as nat, r@),
{
    TimelineEvent {
        id: numbered("round_", r.id),
        track: Track::RoundMarker,
        name: numbered("轮次 ", r.id),
        start_time: r.start_ts,
        end_time: r.end_ts,
        status: if r.end_ts.is_some() {
            EventStatus::Success
        } else {
            EventStatus::InProgress
        },
        source: owned("master_control"),
        parent_id: None,
        details: EventDetails::Round {
            loop_number: r.loop_number,
            round_index: idx,
            pose0: copy_text(&r.pose0),
            pose6: copy_text(&r.pose6),
        },
        color_hint: Some(owned("#E8F4F8")),
    }
}

/// The navigation event of flow `i`, if it has one (see `nav_events`).
fn nav_event_of(i: usize, f: &NavigationFlow) -> (r: Option<TimelineEvent>)
    ensures
        match r {
            Some(e) => nav_events(i as nat, f@) == seq![e@],
            None => nav_events(i as nat, f@) == Seq::<EventView>::empty(),
        },
{
    match (f.nav_start_ts, f.nav_end_ts) {
        (Some(s), Some(e)) => {
            let status = if str_eq(f.nav_status.as_str(), "失败") {
                EventStatus::Failed
            } else if str_eq(f.nav_status.as_str(), "进行中") {
                EventStatus::InProgress
            } else {
                EventStatus::Success
            };
            let ev = TimelineEvent {
                id: numbered("nav_", i),
                track: Track::Navigation,
                name: owned("导航"),
                start_time: s,
                end_time: Some(e),
                status,
                source: owned("master_control"),
                parent_id: Some(numbered("round_", f.round_id)),
                details: EventDetails::Navigation {
                    target_pos: copy_text(&f.nav_target_pos),
                    target_ori: copy_text(&f.nav_target_ori),
                    sub_steps: copy_steps(&f.nav_sub_steps),
                },
                color_hint: Some(owned("#ADD8E6")),
            };
            assert(nav_events(i as nat, f@) =~= seq![ev@]);
            Some(ev)
        },
        _ => None,
    }
}

/// The status of an action from its status text (see `op_event_status`).
fn op_status_of(s: &str) -> (r: EventStatus)
    ensures
        r == op_event_status(s@),
{
    if str_eq(s, "失败") || str_eq(s, "failed") {
        EventStatus::Failed
    } else if str_eq(s, "进行中") || str_eq(s, "in_progress") {
        EventStatus::InProgress
    } else if str_eq(s, "取消") || str_eq(s, "cancelled") {
        EventStatus::Cancelled
    } else {
        EventStatus::Success
    }
}

/// The event of action `k` of flow `i`, if it is drawn (see `op_event`).
fn op_event_of(i: usize, k: usize, o: &ActionOperation) -> (r: Option<TimelineEvent>)
    ensures
        match r {
            Some(e) => op_event(i as nat, k as nat, o@) == seq![e@],
            None => op_event(i as nat, k as nat, o@) == Seq::<EventView>::empty(),
        },
{
    let t = o.action_type.as_str();
    let (track, color) = if str_eq(t, "arm") {
        (Track::Arm, "#90EE90")
    } else if str_eq(t, "head") {
        (Track::Head, "#FFB366")
    } else if str_eq(t, "waist") {
        (Track::Waist, "#DDA0DD")
    } else {
        return None;
    };
    assert(op_track(o.action_type@) == Some((track@, color@)));
    match (o.start_ts, o.end_ts) {
        (Some(s), Some(e)) => {
            let mut id = owned(t);
            push_str(&mut id, "_");
            push_decimal(&mut id, i as u64);
            push_str(&mut id, "_op_");
            push_decimal(&mut id, k as u64);
            let ev = TimelineEvent {
                id,
                track,
                name: o.label.clone(),
                start_time: s,
                end_time: Some(e),
                status: op_status_of(o.status.as_str()),
                source: owned("master_control"),
                parent_id: Some(numbered("nav_", i)),
                details: EventDetails::Action {
                    action_code: o.action_code,
                    action_type: o.action_type.clone(),
                    sub_steps: copy_steps(&o.sub_steps),
                },
                color_hint: Some(owned(color)),
            };
            assert(op_event(i as nat, k as nat, o@) =~= seq![ev@]);
            Some(ev)
        },
        _ => None,
    }
}

/// Appends the event, if there is one.
fn push_opt(out: &mut Vec<TimelineEvent>, e: Option<TimelineEvent>)
    ensures
        events_view(final(out)@) == events_view(old(out)@) + match e {
            Some(x) => seq![x@],
            None => Seq::<EventView>::empty(),
        },
{
    let ghost before = events_view(out@);
    match e {
        Some(x) => {
            out.push(x);
            assert(events_view(out@) =~= before + seq![x@]);
        },
        None => {
            assert(before + Seq::<EventView>::empty() =~= before);
        },
    }
}

/// The standard timeline of a master-control log (see `master_timeline`): one
/// marker per round, then for each flow its navigation and its arm, head and waist
/// actions, each with both ends known.
pub fn build_master_timeline(
    source_file: &str,
    rounds: &Vec<Round>,
    flows: &Vec<NavigationFlow>,
    log_start_time: i64,
    log_end_time: i64,
    analyzer_version: &str,
) -> (r: Timeline)
    ensures
        r@ == master_timeline(
            source_file@,
            round_views(rounds@),
            flows_view(flows@),
            log_start_time,
            log_end_time,
            analyzer_version@,
        ),
{
    let ghost rv = round_views(rounds@);
    let ghost fv = flows_view(flows@);
    let mut events: Vec<TimelineEvent> = Vec::new();
    let mut i: usize = 0;
    while i < rounds.len()
        invariant
            i <= rounds@.len(),
            rv == round_views(rounds@),
            rv.len() == rounds@.len(),
            events_view(events@) == round_events(rv.take(i as int)),
        decreases rounds.len() - i,
    {
        let e = round_event_of(i, &rounds[i]);
        assert(rv[i as int] == rounds@[i as int]@);
        let ghost before = events_view(events@);
        events.push(e);
        assert(events_view(events@) =~= before.push(e@));
        assert(round_events(rv.take(i + 1)) =~= round_events(rv.take(i as int)).push(e@));
        i += 1;
    }
    assert(rv.take(rounds@.len() as int) =~= rv);
    let ghost markers = events_view(events@);
    let mut j: usize = 0;
    assert(fv.take(0) =~= Seq::<FlowView>::empty());
    assert(markers + flows_events(fv.take(0)) =~= markers);
    while j < flows.len()
        invariant
            j <= flows@.len(),
            fv == flows_view(flows@),
            fv.len() == flows@.len(),
            markers == round_events(rv),
            events_view(events@) == markers + flows_events(fv.take(j as int)),
        decreases flows.len() - j,
    {
        let f = &flows[j];
        let ghost fj = fv[j as int];
        assert(fj == f@);
        let ghost base = events_view(events@);
        push_opt(&mut events, nav_event_of(j, f));
        let ghost with_nav = events_view(events@);
        assert(with_nav == base + nav_events(j as nat, fj));
        let ghost ov = fj.operations;
        assert(ov == ops_view(f.operations@));
        let mut k: usize = 0;
        assert(ov.take(0) =~= Seq::<OpView>::empty());
        assert(with_nav + op_events(j as nat, ov.take(0)) =~= with_nav);
        while k < f.operations.len()
            invariant
                k <= f.operations@.len(),
                ov == ops_view(f.operations@),
                ov.len() == f.operations@.len(),
                events_view(events@) == with_nav + op_events(j as nat, ov.take(k as int)),
            decreases f.operations.len() - k,
        {
            let o = &f.operations[k];
            assert(ov[k as int] == o@);
            let ghost pre = events_view(events@);
            push_opt(&mut events, op_event_of(j, k, o));
            proof {
                assert(ov.take(k + 1).drop_last() =~= ov.take(k as int));
                assert(ov.take(k + 1).last() == o@);
                assert(events_view(events@) =~= with_nav + op_events(j as nat, ov.take(k + 1)));
            }
            k += 1;
        }
        proof {
            assert(ov.take(ov.len() as int) =~= ov);
            assert(fv.take(j + 1).drop_last() =~= fv.take(j as int));
            assert(fv.take(j + 1).last() == fj);
            assert(events_view(events@) =~= markers + flows_events(fv.take(j + 1)));
        }
        j += 1;
    }
    assert(fv.take(flows@.len() as int) =~= fv);
    Timeline {
        name: owned("master_control"),
        source_file: owned(source_file),
        log_start_time,
        log_end_time,
        events,
        is_primary: true,
        info: TimelineInfo::MasterControl {
            round_count: rounds.len(),
            flow_count: flows.len(),
            analyzer_version: owned(analyzer_version),
        },
    }
}


// ---------------------------------------------------------------------------
// Round time ranges handed on to the analysers that follow
// ---------------------------------------------------------------------------

/// The time range of a finished round, numbered from 1 among the finished rounds of
/// the primary timeline.
#[derive(Debug, Clone, Copy, PartialEq, Eq, Structural)]
pub struct RoundTimeRange {
    pub round_id: usize,
    pub start: i64,
    pub end: i64,
}

/// What the primary (master-control) analysis hands on to the analysers after it.
#[derive(Debug, Clone)]
pub struct AnalyzerContext {
    pub round_time_ranges: Vec<RoundTimeRange>,
}

/// The ranges of the finished round markers among the events, numbered from 1 in
/// order.
pub open spec fn ranges_of(events: Seq<EventView>) -> Seq<RoundTimeRange>
    decreases events.len(),
{
    if events.len() == 0 {
        seq![]
    } else {
        let prev = ranges_of(events.drop_last());
        let e = events.last();
        if e.track is RoundMarker && e.end_time is Some {
            prev.push(RoundTimeRange { round_id: (prev.len() + 1) as usize, start: e.start_time, end: e.end_time->0 })
        } else {
            prev
        }
    }
}

/// The time ranges of the finished round markers of a timeline, numbered from 1 in
/// order (see `ranges_of`).
pub fn extract_round_time_ranges(timeline: &Timeline) -> (r: Vec<RoundTimeRange>)
    ensures
        r@ == ranges_of(timeline@.events),
{
    let ghost ev = events_view(timeline.events@);
    let mut out: Vec<RoundTimeRange> = Vec::new();
    let mut round_id: usize = 0;
    let mut i: usize = 0;
    while i < timeline.events.len()
        invariant
            i <= timeline.events@.len(),
            ev == events_view(timeline.events@),
            ev.len() == timeline.events@.len(),
            out@ == ranges_of(ev.take(i as int)),
            round_id == out@.len(),
            round_id <= i,
        decreases timeline.events.len() - i,
    {
        let e = &timeline.events[i];
        assert(ev[i as int] == e@);
        proof {
            assert(ev.take(i + 1).drop_last() =~= ev.take(i as int));
            assert(ev.take(i + 1).last() == e@);
        }
        let is_marker = match e.track {
            Track::RoundMarker => true,
            _ => false,
        };
        if is_marker {
            if let Some(end) = e.end_time {
                round_id += 1;
                out.push(RoundTimeRange { round_id, start: e.start_time, end });
            }
        }
        i += 1;
    }
    assert(ev.take(timeline.events@.len() as int) =~= ev);
    out
}

/// The ranges of the finished rounds, numbered from 1 among them, in order.
pub open spec fn finished_ranges(rounds: Seq<RoundView>) -> Seq<RoundTimeRange>
    decreases rounds.len(),
{
    if rounds.len() == 0 {
        seq![]
    } else {
        let prev = finished_ranges(rounds.drop_last());
        match rounds.last().end_ts {
            Some(e) => prev.push(
                RoundTimeRange { round_id: (prev.len() + 1) as usize, start: rounds.last().start_ts, end: e },
            ),
            None => prev,
        }
    }
}

/// No event of the sequence is a round marker.
pub open spec fn no_markers(s: Seq<EventView>) -> bool {
    forall|j: int| 0 <= j < s.len() ==> !((#[trigger] s[j]).track is RoundMarker)
}

proof fn lemma_ranges_skip_unmarked(a: Seq<EventView>, b: Seq<EventView>)
    requires
        no_markers(b),
    ensures
        ranges_of(a + b) == ranges_of(a),
    decreases b.len(),
{
    if b.len() == 0 {
        assert(a + b =~= a);
    } else {
        assert((a + b).drop_last() =~= a + b.drop_last());
        assert((a + b).last() == b[b.len() - 1]);
        lemma_ranges_skip_unmarked(a, b.drop_last());
    }
}

proof fn lemma_op_events_unmarked(i: nat, ops: Seq<OpView>)
    ensures
        no_markers(op_events(i, ops)),
    decreases ops.len(),
{
    if ops.len() > 0 {
        lemma_op_events_unmarked(i, ops.drop_last());
        let k = (ops.len() - 1) as nat;
        let a = op_events(i, ops.drop_last());
        let b = op_event(i, k, ops.last());
        assert forall|j: int| 0 <= j < (a + b).len() implies !((#[trigger] (a + b)[j]).track is RoundMarker) by {
            if j >= a.len() {
                assert((a + b)[j] == b[j - a.len()]);
            } else {
                assert((a + b)[j] == a[j]);
            }
        }
    }
}

proof fn lemma_flow_events_unmarked(flows: Seq<FlowView>)
    ensures
        no_markers(flows_events(flows)),
    decreases flows.len(),
{
    if flows.len() > 0 {
        let i = (flows.len() - 1) as nat;
        lemma_flow_events_unmarked(flows.drop_last());
        lemma_op_events_unmarked(i, flows.last().operations);
        let a = flows_events(flows.drop_last());
        let b = nav_events(i, flows.last());
        let c = op_events(i, flows.last().operations);
        assert forall|j: int| 0 <= j < (a + b + c).len() implies !((#[trigger] (a + b + c)[j]).track is RoundMarker) by {
            if j >= a.len() + b.len() {
                assert((a + b + c)[j] == c[j - a.len() - b.len()]);
            } else if j >= a.len() {
                assert((a + b + c)[j] == b[j - a.len()]);
            } else {
                assert((a + b + c)[j] == a[j]);
            }
        }
    }
}

proof fn lemma_round_event_ranges(rounds: Seq<RoundView>)
    ensures
        ranges_of(round_events(rounds)) == finished_ranges(rounds),
    decreases rounds.len(),
{
    if rounds.len() > 0 {
        lemma_round_event_ranges(rounds.drop_last());
        assert(round_events(rounds).drop_last() =~= round_events(rounds.drop_last()));
    } else {
        assert(round_events(rounds) =~= Seq::<EventView>::empty());
    }
}

/// The round ranges that the master-control timeline hands on are those of its
/// finished rounds, in order and numbered from 1: navigation and action events
/// never add a range.
pub proof fn lemma_master_ranges_are_finished_rounds(
    source_file: Seq<char>,
    rounds: Seq<RoundView>,
    flows: Seq<FlowView>,
    log_start_time: i64,
    log_end_time: i64,
    version: Seq<char>,
)
    ensures
        ranges_of(master_timeline(source_file, rounds, flows, log_start_time, log_end_time, version).events)
            == finished_ranges(rounds),
{
    lemma_flow_events_unmarked(flows);
    lemma_ranges_skip_unmarked(round_events(rounds), flows_events(flows));
    lemma_round_event_ranges(rounds);
}

/// Whether a task from `start` to `end` overlaps the range.
pub open spec fn overlaps(r: RoundTimeRange, start: i64, end: i64) -> bool {
    start <= r.end && end >= r.start
}

/// The round of the first range that a task overlaps; a task without an end is taken
/// as the instant it started.
pub open spec fn round_for_task(ranges: Seq<RoundTimeRange>, start: i64, end: Option<i64>) -> Option<usize>
    decreases ranges.len(),
{
    if ranges.len() == 0 {
        None
    } else {
        let e = match end {
            Some(x) => x,
            None => start,
        };
        if overlaps(ranges[0], start, e) {
            Some(ranges[0].round_id)
        } else {
            round_for_task(ranges.drop_first(), start, end)
        }
    }
}

impl AnalyzerContext {
    /// The round a task belongs to: that of the first range it overlaps (see
    /// `round_for_task`).
    pub fn find_round_for_task(&self, task_start: i64, task_end: Option<i64>) -> (r: Option<usize>)
        ensures
            r == round_for_task(self.round_time_ranges@, task_start, task_end),
    {
        let end = match task_end {
            Some(e) => e,
            None => task_start,
        };
        let ghost rs = self.round_time_ranges@;
        let mut i: usize = 0;
        assert(rs.skip(0) =~= rs);
        while i < self.round_time_ranges.len()
            invariant
                i <= rs.len(),
                rs == self.round_time_ranges@,
                end == match task_end {
                    Some(x) => x,
                    None => task_start,
                },
                round_for_task(rs, task_start, task_end) == round_for_task(rs.skip(i as int), task_start, task_end),
            decreases self.round_time_ranges.len() - i,
        {
            let range = self.round_time_ranges[i];
            assert(rs.skip(i as int)[0] == range);
            assert(rs.skip(i as int).drop_first() =~= rs.skip(i + 1));
            if task_start <= range.end && end >= range.start {
                return Some(range.round_id);
            }
            i += 1;
        }
        None
    }
}

/// A task is given the round of the first range it overlaps, and none when it
/// overlaps no range.
pub proof fn lemma_round_for_task_first(ranges: Seq<RoundTimeRange>, start: i64, end: Option<i64>)
    ensures
        ({
            let e = match end {
                Some(x) => x,
                None => start,
            };
            match round_for_task(ranges, start, end) {
                Some(id) => exists|k: int|
                    0 <= k < ranges.len() && overlaps(#[trigger] ranges[k], start, e) && ranges[k].round_id == id
                        && forall|j: int| 0 <= j < k ==> !overlaps(#[trigger] ranges[j], start, e),
                None => forall|k: int| 0 <= k < ranges.len() ==> !overlaps(#[trigger] ranges[k], start, e),
            }
        }),
    decreases ranges.len(),
{
    let e = match end {
        Some(x) => x,
        None => start,
    };
    if ranges.len() > 0 {
        let rest = ranges.drop_first();
        lemma_round_for_task_first(rest, start, end);
        if !overlaps(ranges[0], start, e) {
            match round_for_task(rest, start, end) {
                Some(id) => {
                    let k = choose|k: int|
                        0 <= k < rest.len() && overlaps(#[trigger] rest[k], start, e) && rest[k].round_id == id
                            && forall|j: int| 0 <= j < k ==> !overlaps(#[trigger] rest[j], start, e);
                    assert(ranges[k + 1] == rest[k]);
                    assert forall|j: int| 0 <= j < k + 1 implies !overlaps(#[trigger] ranges[j], start, e) by {
                        if j > 0 {
                            assert(ranges[j] == rest[j - 1]);
                        }
                    }
                },
                None => {
                    assert forall|k: int| 0 <= k < ranges.len() implies !overlaps(#[trigger] ranges[k], start, e) by {
                        if k > 0 {
                            assert(ranges[k] == rest[k - 1]);
                        }
                    }
                },
            }
        }
    }
}

/// The end a task is matched to rounds with: the end of its body when known, else
/// the end of the task.
pub open spec fn task_end_for_rounds(t: TaskView) -> Option<i64> {
    match t.body_task_end_ts {
        Some(e) => Some(e),
        None => t.end_ts,
    }
}

/// Whether the task overlaps one of the ranges.
pub open spec fn in_some_round(ranges: Seq<RoundTimeRange>, t: TaskView) -> bool {
    round_for_task(ranges, t.start_ts, task_end_for_rounds(t)) is Some
}

/// The tasks that overlap one of the ranges, in their order.
pub open spec fn tasks_in_rounds(ranges: Seq<RoundTimeRange>, ts: Seq<TaskView>) -> Seq<TaskView>
    decreases ts.len(),
{
    if ts.len() == 0 {
        seq![]
    } else {
        let rest = tasks_in_rounds(ranges, ts.drop_first());
        if in_some_round(ranges, ts[0]) {
            seq![ts[0]] + rest
        } else {
            rest
        }
    }
}

/// The tasks that overlap a round of the context, in their order (see
/// `tasks_in_rounds`).
pub fn keep_tasks_in_rounds(tasks: Vec<ArmDecisionTask>, ctx: &AnalyzerContext) -> (r: Vec<ArmDecisionTask>)
    ensures
        tasks_view(r@) == tasks_in_rounds(ctx.round_time_ranges@, tasks_view(tasks@)),
{
    let ghost ranges = ctx.round_time_ranges@;
    let ghost all = tasks_view(tasks@);
    let mut rest = tasks;
    let mut out: Vec<ArmDecisionTask> = Vec::new();
    assert(tasks_view(out@) + tasks_in_rounds(ranges, tasks_view(rest@)) =~= tasks_in_rounds(ranges, all));
    while rest.len() > 0
        invariant
            ranges == ctx.round_time_ranges@,
            tasks_view(out@) + tasks_in_rounds(ranges, tasks_view(rest@)) == tasks_in_rounds(ranges, all),
        decreases rest.len(),
    {
        let ghost rv = tasks_view(rest@);
        let t = rest.remove(0);
        assert(t@ == rv[0]);
        assert(tasks_view(rest@) =~= rv.drop_first());
        let end = match t.body_task_end_ts {
            Some(e) => Some(e),
            None => t.end_ts,
        };
        let ghost before = tasks_view(out@);
        if ctx.find_round_for_task(t.start_ts, end).is_some() {
            out.push(t);
            assert(tasks_view(out@) =~= before.push(rv[0]));
            assert(before.push(rv[0]) + tasks_in_rounds(ranges, rv.drop_first()) =~= before + (seq![rv[0]]
                + tasks_in_rounds(ranges, rv.drop_first())));
        }
    }
    assert(tasks_in_rounds(ranges, tasks_view(rest@)) =~= Seq::<TaskView>::empty());
    assert(tasks_view(out@) + Seq::<TaskView>::empty() =~= tasks_view(out@));
    out
}


// ---------------------------------------------------------------------------
// The arm-decision timeline
// ---------------------------------------------------------------------------

/// The span drawn for a task: that of its body when both ends of the body are known,
/// else that of the task.
pub open spec fn task_span(t: TaskView) -> (i64, Option<i64>) {
    match (t.body_task_start_ts, t.body_task_end_ts) {
        (Some(s), Some(e)) => (s, Some(e)),
        _ => (t.start_ts, t.end_ts),
    }
}

/// The round of a task's span, when a context was handed on.
pub open spec fn task_round(ranges: Option<Seq<RoundTimeRange>>, t: TaskView) -> Option<usize> {
    match ranges {
        Some(rs) => round_for_task(rs, task_span(t).0, task_span(t).1),
        None => None,
    }
}

/// The task type as text; empty when unknown.
pub open spec fn task_type_text(tt: Option<u32>) -> Seq<char> {
    match tt {
        Some(x) => decimal(x as nat),
        None => Seq::<char>::empty(),
    }
}

/// The status of a task from its result code: 0 is success, any other code a
/// failure, no code a task still running.
pub open spec fn result_event_status(s: Option<i32>) -> EventStatus {
    match s {
        Some(c) => if c == 0 {
            EventStatus::Success
        } else {
            EventStatus::Failed
        },
        None => EventStatus::InProgress,
    }
}

/// The event of task `i` (from 0).
pub open spec fn arm_task_event(i: nat, t: TaskView, ranges: Option<Seq<RoundTimeRange>>) -> EventView {
    EventView {
        id: "arm_decision_task_"@ + decimal(i),
        track: TrackView::Custom("ArmDecision"@),
        name: "手臂决策(type="@ + task_type_text(t.task_type) + ")"@,
        start_time: task_span(t).0,
        end_time: task_span(t).1,
        status: result_event_status(t.result_status),
        source: "arm_decision"@,
        parent_id: None,
        details: DetailsView::ArmTask {
            task_type: t.task_type,
            result_status: t.result_status,
            result_message: t.result_message,
            module_count: t.modules.len(),
            round_id: task_round(ranges, t),
        },
        color_hint: Some("#98FB98"@),
    }
}

/// The ranges of an optional context.
pub open spec fn context_ranges(ctx: Option<&AnalyzerContext>) -> Option<Seq<RoundTimeRange>> {
    match ctx {
        Some(c) => Some(c.round_time_ranges@),
        None => None,
    }
}

/// The arm-decision timeline: one event per task, in order.
pub open spec fn arm_timeline(
    source_file: Seq<char>,
    tasks: Seq<TaskView>,
    log_start_time: i64,
    log_end_time: i64,
    ranges: Option<Seq<RoundTimeRange>>,
    version: Seq<char>,
) -> TimelineView {
    TimelineView {
        name: "arm_decision"@,
        source_file: source_file,
        log_start_time: log_start_time,
        log_end_time: log_end_time,
        events: Seq::new(tasks.len(), |i: int| arm_task_event(i as nat, tasks[i], ranges)),
        is_primary: false,
        info: InfoView::ArmDecision { task_count: tasks.len(), analyzer_version: version },
    }
}

/// The event of task `i` (see `arm_task_event`).
fn arm_task_event_of(i: usize, t: &ArmDecisionTask, context: Option<&AnalyzerContext>) -> (e: TimelineEvent)
    ensures
        e@ == arm_task_event(i as nat, t@, context_ranges(context)),
{
    let (start, end) = match (t.body_task_start_ts, t.body_task_end_ts) {
        (Some(s), Some(e)) => (s, Some(e)),
        _ => (t.start_ts, t.end_ts),
    };
    let round_id = match context {
        Some(c) => c.find_round_for_task(start, end),
        None => None,
    };
    let mut name = owned("手臂决策(type=");
    if let Some(tt) = t.task_type {
        push_decimal(&mut name, tt as u64);
    }
    push_str(&mut name, ")");
    let status = match t.result_status {
        Some(c) => if c == 0 {
            EventStatus::Success
        } else {
            EventStatus::Failed
        },
        None => EventStatus::InProgress,
    };
    let e = TimelineEvent {
        id: numbered("arm_decision_task_", i),
        track: Track::Custom(owned("ArmDecision")),
        name,
        start_time: start,
        end_time: end,
        status,
        source: owned("arm_decision"),
        parent_id: None,
        details: EventDetails::ArmTask {
            task_type: t.task_type,
            result_status: t.result_status,
            result_message: copy_text(&t.result_message),
            module_count: t.modules.len(),
            round_id,
        },
        color_hint: Some(owned("#98FB98")),
    };
    assert(e@.name =~= "手臂决策(type="@ + task_type_text(t.task_type) + ")"@);
    e
}

/// The standard timeline of an arm-decision log (see `arm_timeline`): one event per
/// task over the span of its body, with the round it overlaps when a context is
/// given.
pub fn build_arm_timeline(
    source_file: &str,
    tasks: &Vec<ArmDecisionTask>,
    log_start_time: i64,
    log_end_time: i64,
    context: Option<&AnalyzerContext>,
    analyzer_version: &str,
) -> (r: Timeline)
    ensures
        r@ == arm_timeline(
            source_file@,
            tasks_view(tasks@),
            log_start_time,
            log_end_time,
            context_ranges(context),
            analyzer_version@,
        ),
{
    let ghost tv = tasks_view(tasks@);
    let ghost ranges = context_ranges(context);
    let mut events: Vec<TimelineEvent> = Vec::new();
    let mut i: usize = 0;
    while i < tasks.len()
        invariant
            i <= tasks@.len(),
            tv == tasks_view(tasks@),
            tv.len() == tasks@.len(),
            ranges == context_ranges(context),
            events_view(events@) == Seq::new(i as nat, |k: int| arm_task_event(k as nat, tv[k], ranges)),
        decreases tasks.len() - i,
    {
        assert(tv[i as int] == tasks@[i as int]@);
        let e = arm_task_event_of(i, &tasks[i], context);
        let ghost before = events_view(events@);
        events.push(e);
        assert(events_view(events@) =~= before.push(e@));
        i += 1;
        assert(events_view(events@) =~= Seq::new(i as nat, |k: int| arm_task_event(k as nat, tv[k], ranges)));
    }
    Timeline {
        name: owned("arm_decision"),
        source_file: owned(source_file),
        log_start_time,
        log_end_time,
        events,
        is_primary: false,
        info: TimelineInfo::ArmDecision { task_count: tasks.len(), analyzer_version: owned(analyzer_version) },
    }
}

} // verus!
