//! The tables made from the detected rounds and flows: one record per navigation
//! and action, and the action timeline with the phases of each action. Times are
//! nanoseconds, relative times milliseconds (records) or nanoseconds (timeline).

use vstd::prelude::*;
use crate::config::str_eq;
use crate::flows::{ActionOperation, FlowView, NavigationFlow, OpView, SubStep, SubStepView, flows_view, opt_text};
use crate::intervals::merged_pause_total;
use crate::rounds::{non_negative, round_span, round_views, Round, RoundView};
use crate::text::{decimal, owned, push_decimal, push_str};

verus! {

// ---------------------------------------------------------------------------
// Display names
// ---------------------------------------------------------------------------

/// The display name of an action kind.
pub open spec fn type_display(t: Seq<char>) -> Seq<char> {
    if t == "navigation"@ {
        "导航"@
    } else if t == "arm"@ {
        "机械臂"@
    } else if t == "head"@ {
        "头部"@
    } else if t == "waist"@ {
        "腰部"@
    } else if t == "preplan"@ {
        "预打舵"@
    } else {
        t
    }
}

/// The display name of an action kind (the kind itself when it has none).
pub fn action_type_to_display(action_type: &str) -> (r: String)
    ensures
        r@ == type_display(action_type@),
{
    if str_eq(action_type, "navigation") {
        owned("导航")
    } else if str_eq(action_type, "arm") {
        owned("机械臂")
    } else if str_eq(action_type, "head") {
        owned("头部")
    } else if str_eq(action_type, "waist") {
        owned("腰部")
    } else if str_eq(action_type, "preplan") {
        owned("预打舵")
    } else {
        owned(action_type)
    }
}

/// The label shown for an action.
pub open spec fn action_label(o: OpView) -> Seq<char> {
    if o.action_type == "navigation"@ {
        "导航"@
    } else if o.action_type == "arm"@ {
        "机械臂:"@ + o.label + "(code:"@ + decimal(
            match o.action_code {
                Some(c) => c as nat,
                None => 0,
            },
        ) + ")"@
    } else if o.action_type == "head"@ {
        "头部控制"@
    } else if o.action_type == "waist"@ {
        "腰部控制"@
    } else {
        o.label
    }
}

/// The label shown for an action, e.g. `机械臂:pick(code:3)`.
pub fn build_action_label(operation: &ActionOperation) -> (r: String)
    ensures
        r@ == action_label(operation@),
{
    let t = operation.action_type.as_str();
    if str_eq(t, "navigation") {
        owned("导航")
    } else if str_eq(t, "arm") {
        let mut s = owned("机械臂:");
        push_str(&mut s, operation.label.as_str());
        push_str(&mut s, "(code:");
        let code: u32 = match operation.action_code {
            Some(c) => c,
            None => 0,
        };
        push_decimal(&mut s, code as u64);
        push_str(&mut s, ")");
        s
    } else if str_eq(t, "head") {
        owned("头部控制")
    } else if str_eq(t, "waist") {
        owned("腰部控制")
    } else {
        operation.label.clone()
    }
}

// ---------------------------------------------------------------------------
// Records
// ---------------------------------------------------------------------------

/// Milliseconds from `t0` to `ts`, truncated; 0 when `ts` is not after `t0`.
pub open spec fn rel_ms(ts: i64, t0: i64) -> nat {
    if ts - t0 <= 0 {
        0
    } else {
        ((ts - t0) / 1_000_000) as nat
    }
}

/// Milliseconds from `t0` to `ts` (see `rel_ms`).
pub fn to_rel_ms(ts: i64, t0: i64) -> (r: u64)
    ensures
        r == rel_ms(ts, t0),
        r < 0x1_0000_0000_0000,
{
    let d: i128 = ts as i128 - t0 as i128;
    if d <= 0 {
        0
    } else {
        (d / 1_000_000) as u64
    }
}

/// An optional time relative to `t0`, in milliseconds.
pub open spec fn opt_rel_ms(ts: Option<i64>, t0: i64) -> Option<u64> {
    match ts {
        Some(t) => Some(rel_ms(t, t0) as u64),
        None => None,
    }
}

/// End minus start when both are known.
pub open spec fn opt_span(s: Option<u64>, e: Option<u64>) -> Option<i64> {
    match (s, e) {
        (Some(a), Some(b)) => Some((b - a) as i64),
        _ => None,
    }
}

/// One row of the analysis table.
#[derive(Debug, Clone)]
pub struct CsvRecord {
    pub round_id: usize,
    pub round_start_rel_ms: Option<u64>,
    pub round_end_rel_ms: Option<u64>,
    /// The working time of the round (pauses deducted).
    pub round_duration_ms: Option<u64>,
    /// Number of the flow, from 1.
    pub flow_id: usize,
    /// 1 for the navigation, 2 and on for its actions.
    pub step_idx: usize,
    pub step_type: String,
    pub nav_target_pos: Option<String>,
    pub nav_target_ori: Option<String>,
    pub action_type: Option<String>,
    pub action_code: Option<u32>,
    pub action_label: Option<String>,
    pub start_rel_ms: Option<u64>,
    pub end_rel_ms: Option<u64>,
    pub duration_ms: Option<i64>,
    pub status: String,
}

/// A record as plain values.
pub struct CsvView {
    pub round_id: usize,
    pub round_start_rel_ms: Option<u64>,
    pub round_end_rel_ms: Option<u64>,
    pub round_duration_ms: Option<u64>,
    pub flow_id: usize,
    pub step_idx: usize,
    pub step_type: Seq<char>,
    pub nav_target_pos: Option<Seq<char>>,
    pub nav_target_ori: Option<Seq<char>>,
    pub action_type: Option<Seq<char>>,
    pub action_code: Option<u32>,
    pub action_label: Option<Seq<char>>,
    pub start_rel_ms: Option<u64>,
    pub end_rel_ms: Option<u64>,
    pub duration_ms: Option<i64>,
    pub status: Seq<char>,
}

impl View for CsvRecord {
    type V = CsvView;

    open spec fn view(&self) -> CsvView {
        CsvView {
            round_id: self.round_id,
            round_start_rel_ms: self.round_start_rel_ms,
            round_end_rel_ms: self.round_end_rel_ms,
            round_duration_ms: self.round_duration_ms,
            flow_id: self.flow_id,
            step_idx: self.step_idx,
            step_type: self.step_type@,
            nav_target_pos: opt_text(self.nav_target_pos),
            nav_target_ori: opt_text(self.nav_target_ori),
            action_type: opt_text(self.action_type),
            action_code: self.action_code,
            action_label: opt_text(self.action_label),
            start_rel_ms: self.start_rel_ms,
            end_rel_ms: self.end_rel_ms,
            duration_ms: self.duration_ms,
            status: self.status@,
        }
    }
}

/// The views of a sequence of records.
pub open spec fn records_view(v: Seq<CsvRecord>) -> Seq<CsvView> {
    v.map_values(|r: CsvRecord| r@)
}

/// The first round with the given id.
pub open spec fn round_with_id(rounds: Seq<RoundView>, id: usize) -> Option<RoundView>
    decreases rounds.len(),
{
    if rounds.len() == 0 {
        None
    } else if rounds[0].id == id {
        Some(rounds[0])
    } else {
        round_with_id(rounds.drop_first(), id)
    }
}

/// The start, end and working time of a round, in milliseconds from `t0`.
pub open spec fn round_times(r: Option<RoundView>, t0: i64) -> (Option<u64>, Option<u64>, Option<u64>) {
    match r {
        Some(x) => (
            Some(rel_ms(x.start_ts, t0) as u64),
            opt_rel_ms(x.end_ts, t0),
            if x.end_ts is Some {
                Some(
                    (non_negative(round_span(x.start_ts, x.end_ts) - merged_pause_total(x.pause_events))
                        / 1_000_000) as u64,
                )
            } else {
                None
            },
        ),
        None => (None, None, None),
    }
}

/// The record of the navigation of flow `flow_id`.
pub open spec fn nav_record(flow_id: nat, f: FlowView, rounds: Seq<RoundView>, t0: i64) -> CsvView {
    let rt = round_times(round_with_id(rounds, f.round_id), t0);
    let s = opt_rel_ms(f.nav_start_ts, t0);
    let e = opt_rel_ms(f.nav_end_ts, t0);
    CsvView {
        round_id: f.round_id,
        round_start_rel_ms: rt.0,
        round_end_rel_ms: rt.1,
        round_duration_ms: rt.2,
        flow_id: flow_id as usize,
        step_idx: 1,
        step_type: "nav"@,
        nav_target_pos: f.nav_target_pos,
        nav_target_ori: f.nav_target_ori,
        action_type: Some("navigation"@),
        action_code: None,
        action_label: None,
        start_rel_ms: s,
        end_rel_ms: e,
        duration_ms: opt_span(s, e),
        status: f.nav_status,
    }
}

/// The record of action `k` of flow `flow_id`.
pub open spec fn op_record(flow_id: nat, k: int, f: FlowView, rounds: Seq<RoundView>, t0: i64) -> CsvView {
    let o = f.operations[k];
    let rt = round_times(round_with_id(rounds, f.round_id), t0);
    let s = opt_rel_ms(o.start_ts, t0);
    let e = opt_rel_ms(o.end_ts, t0);
    CsvView {
        round_id: f.round_id,
        round_start_rel_ms: rt.0,
        round_end_rel_ms: rt.1,
        round_duration_ms: rt.2,
        flow_id: flow_id as usize,
        step_idx: (k + 2) as usize,
        step_type: o.action_type,
        nav_target_pos: f.nav_target_pos,
        nav_target_ori: f.nav_target_ori,
        action_type: Some(o.action_type),
        action_code: o.action_code,
        action_label: Some(o.label),
        start_rel_ms: s,
        end_rel_ms: e,
        duration_ms: opt_span(s, e),
        status: o.status,
    }
}

/// The records of flow `flow_id`: its navigation, then each of its actions.
pub open spec fn flow_records(flow_id: nat, f: FlowView, rounds: Seq<RoundView>, t0: i64) -> Seq<CsvView> {
    seq![nav_record(flow_id, f, rounds, t0)] + Seq::new(
        f.operations.len(),
        |k: int| op_record(flow_id, k, f, rounds, t0),
    )
}

/// The records of the flows, numbered from 1, in order.
pub open spec fn csv_records(flows: Seq<FlowView>, rounds: Seq<RoundView>, t0: i64) -> Seq<CsvView>
    decreases flows.len(),
{
    if flows.len() == 0 {
        seq![]
    } else {
        csv_records(flows.drop_last(), rounds, t0) + flow_records(flows.len(), flows.last(), rounds, t0)
    }
}

/// A copy of an optional string.
pub fn copy_opt_string(o: &Option<String>) -> (r: Option<String>)
    ensures
        opt_text(r) == opt_text(*o),
{
    match o {
        Some(s) => Some(s.clone()),
        None => None,
    }
}

/// An optional time relative to `t0`, in milliseconds.
fn opt_rel(ts: Option<i64>, t0: i64) -> (r: Option<u64>)
    ensures
        r == opt_rel_ms(ts, t0),
        r matches Some(v) ==> v < 0x1_0000_0000_0000,
{
    match ts {
        Some(t) => {
            let v = to_rel_ms(t, t0);
            assert(v <= 0x1_0000_0000_0000_0000int / 1_000_000);
            Some(v)
        },
        None => None,
    }
}

/// End minus start when both are known.
fn span(s: Option<u64>, e: Option<u64>) -> (r: Option<i64>)
    requires
        s matches Some(a) ==> a < 0x1_0000_0000_0000,
        e matches Some(b) ==> b < 0x1_0000_0000_0000,
    ensures
        r == opt_span(s, e),
{
    match (s, e) {
        (Some(a), Some(b)) => Some(b as i64 - a as i64),
        _ => None,
    }
}

/// The position of the first round with the given id.
fn find_round(rounds: &Vec<Round>, id: usize) -> (r: Option<usize>)
    ensures
        match r {
            Some(k) => k < rounds@.len() && round_with_id(round_views(rounds@), id) == Some(
                round_views(rounds@)[k as int],
            ),
            None => round_with_id(round_views(rounds@), id) is None,
        },
{
    let ghost rv = round_views(rounds@);
    let mut i: usize = 0;
    assert(rv.skip(0) =~= rv);
    while i < rounds.len()
        invariant
            i <= rounds@.len(),
            rv == round_views(rounds@),
            rv.len() == rounds@.len(),
            round_with_id(rv, id) == round_with_id(rv.skip(i as int), id),
        decreases rounds.len() - i,
    {
        proof {
            assert(rv.skip(i as int)[0] == rounds@[i as int]@);
            assert(rv.skip(i as int).drop_first() =~= rv.skip(i + 1));
        }
        if rounds[i].id == id {
            return Some(i);
        }
        i += 1;
    }
    None
}

/// The start, end and working time of the round with the given id (see `round_times`).
fn round_times_of(rounds: &Vec<Round>, id: usize, t0: i64) -> (r: (Option<u64>, Option<u64>, Option<u64>))
    ensures
        r == round_times(round_with_id(round_views(rounds@), id), t0),
{
    match find_round(rounds, id) {
        Some(k) => {
            let r = &rounds[k];
            let start = to_rel_ms(r.start_ts, t0);
            let end = opt_rel(r.end_ts, t0);
            let dur = if r.end_ts.is_some() {
                let eff = r.effective_duration();
                proof {
                    crate::intervals::lemma_merged_total_bounds(r.pause_events@);
                }
                Some((eff / 1_000_000) as u64)
            } else {
                None
            };
            (Some(start), end, dur)
        },
        None => (None, None, None),
    }
}

/// The records of the flows: for each flow, numbered from 1, the record of its
/// navigation and then one record per action (see `csv_records`).
pub fn build_csv_records(flows: &Vec<NavigationFlow>, rounds: &Vec<Round>, t0: i64) -> (r: Vec<CsvRecord>)
    requires
        forall|i: int| 0 <= i < flows@.len() ==> (#[trigger] flows@[i]).operations@.len() < usize::MAX - 1,
    ensures
        records_view(r@) == csv_records(flows_view(flows@), round_views(rounds@), t0),
{
    let ghost fv = flows_view(flows@);
    let ghost rv = round_views(rounds@);
    let mut out: Vec<CsvRecord> = Vec::new();
    let mut i: usize = 0;
    assert(fv.take(0) =~= seq![]);
    assert(records_view(out@) =~= seq![]);
    while i < flows.len()
        invariant
            i <= flows@.len(),
            fv == flows_view(flows@),
            rv == round_views(rounds@),
            fv.len() == flows@.len(),
            forall|j: int| 0 <= j < flows@.len() ==> (#[trigger] flows@[j]).operations@.len() < usize::MAX - 1,
            records_view(out@) == csv_records(fv.take(i as int), rv, t0),
        decreases flows.len() - i,
    {
        let f = &flows[i];
        let flow_id = i + 1;
        let ghost fvi = fv[i as int];
        assert(fvi == f@);
        let rt = round_times_of(rounds, f.round_id, t0);
        let ns = opt_rel(f.nav_start_ts, t0);
        let ne = opt_rel(f.nav_end_ts, t0);
        let nav = CsvRecord {
            round_id: f.round_id,
            round_start_rel_ms: rt.0,
            round_end_rel_ms: rt.1,
            round_duration_ms: rt.2,
            flow_id,
            step_idx: 1,
            step_type: owned("nav"),
            nav_target_pos: copy_opt_string(&f.nav_target_pos),
            nav_target_ori: copy_opt_string(&f.nav_target_ori),
            action_type: Some(owned("navigation")),
            action_code: None,
            action_label: None,
            start_rel_ms: ns,
            end_rel_ms: ne,
            duration_ms: span(ns, ne),
            status: f.nav_status.clone(),
        };
        let ghost base = records_view(out@);
        out.push(nav);
        assert(records_view(out@) =~= base.push(nav@));
        assert(nav@ == nav_record(flow_id as nat, fvi, rv, t0));
        let ops = &f.operations;
        let ghost ov = fvi.operations;
        assert(ov == crate::flows::ops_view(ops@));
        let mut k: usize = 0;
        assert(records_view(out@) =~= base + seq![nav_record(flow_id as nat, fvi, rv, t0)] + Seq::new(
            0,
            |j: int| op_record(flow_id as nat, j, fvi, rv, t0),
        ));
        while k < ops.len()
            invariant
                k <= ops@.len(),
                ops@.len() < usize::MAX - 1,
                ov == crate::flows::ops_view(ops@),
                ov.len() == ops@.len(),
                fvi.operations == ov,
                fvi.round_id == f.round_id,
                fvi.nav_target_pos == opt_text(f.nav_target_pos),
                fvi.nav_target_ori == opt_text(f.nav_target_ori),
                rt == round_times(round_with_id(rv, f.round_id), t0),
                records_view(out@) == base + seq![nav_record(flow_id as nat, fvi, rv, t0)] + Seq::new(
                    k as nat,
                    |j: int| op_record(flow_id as nat, j, fvi, rv, t0),
                ),
            decreases ops.len() - k,
        {
            let o = &ops[k];
            assert(ov[k as int] == o@);
            let s = opt_rel(o.start_ts, t0);
            let e = opt_rel(o.end_ts, t0);
            let rec = CsvRecord {
                round_id: f.round_id,
                round_start_rel_ms: rt.0,
                round_end_rel_ms: rt.1,
                round_duration_ms: rt.2,
                flow_id,
                step_idx: k + 2,
                step_type: o.action_type.clone(),
                nav_target_pos: copy_opt_string(&f.nav_target_pos),
                nav_target_ori: copy_opt_string(&f.nav_target_ori),
                action_type: Some(o.action_type.clone()),
                action_code: o.action_code,
                action_label: Some(o.label.clone()),
                start_rel_ms: s,
                end_rel_ms: e,
                duration_ms: span(s, e),
                status: o.status.clone(),
            };
            assert(rec@ == op_record(flow_id as nat, k as int, fvi, rv, t0));
            let ghost before = records_view(out@);
            out.push(rec);
            assert(records_view(out@) =~= before.push(rec@));
            k += 1;
            assert(records_view(out@) =~= base + seq![nav_record(flow_id as nat, fvi, rv, t0)] + Seq::new(
                k as nat,
                |j: int| op_record(flow_id as nat, j, fvi, rv, t0),
            ));
        }
        proof {
            assert(fv.take(i + 1).drop_last() =~= fv.take(i as int));
            assert(fv.take(i + 1).last() == fvi);
            assert(csv_records(fv.take(i + 1), rv, t0) == csv_records(fv.take(i as int), rv, t0)
                + flow_records(flow_id as nat, fvi, rv, t0));
            assert(records_view(out@) =~= csv_records(fv.take(i as int), rv, t0) + flow_records(
                flow_id as nat,
                fvi,
                rv,
                t0,
            ));
        }
        i += 1;
    }
    assert(fv.take(flows@.len() as int) =~= fv);
    out
}


// ---------------------------------------------------------------------------
// Action timeline
// ---------------------------------------------------------------------------

/// One row of the action timeline: an action, or one phase of it.
#[derive(Debug, Clone)]
pub struct ActionRecord {
    pub round_id: usize,
    pub flow_id: usize,
    /// Display name of the kind of action.
    pub action_type: String,
    pub action_label: String,
    /// Name of the phase; empty for the action itself.
    pub phase: String,
    pub start_ts: i64,
    /// Start minus the start of the log.
    pub start_rel: i128,
    pub end_ts: Option<i64>,
    pub end_rel: Option<i128>,
    /// End minus start.
    pub duration: Option<i128>,
    pub status: String,
}

/// A timeline row as plain values.
pub struct ActionView {
    pub round_id: usize,
    pub flow_id: usize,
    pub action_type: Seq<char>,
    pub action_label: Seq<char>,
    pub phase: Seq<char>,
    pub start_ts: i64,
    pub start_rel: int,
    pub end_ts: Option<i64>,
    pub end_rel: Option<int>,
    pub duration: Option<int>,
    pub status: Seq<char>,
}

impl View for ActionRecord {
    type V = ActionView;

    open spec fn view(&self) -> ActionView {
        ActionView {
            round_id: self.round_id,
            flow_id: self.flow_id,
            action_type: self.action_type@,
            action_label: self.action_label@,
            phase: self.phase@,
            start_ts: self.start_ts,
            start_rel: self.start_rel as int,
            end_ts: self.end_ts,
            end_rel: match self.end_rel {
                Some(v) => Some(v as int),
                None => None,
            },
            duration: match self.duration {
                Some(v) => Some(v as int),
                None => None,
            },
            status: self.status@,
        }
    }
}

/// The views of a sequence of timeline rows.
pub open spec fn actions_view(v: Seq<ActionRecord>) -> Seq<ActionView> {
    v.map_values(|a: ActionRecord| a@)
}

/// A timeline row.
pub open spec fn row(
    round_id: usize,
    flow_id: nat,
    ty: Seq<char>,
    label: Seq<char>,
    phase: Seq<char>,
    start: i64,
    end: Option<i64>,
    status: Seq<char>,
    t0: i64,
) -> ActionView {
    ActionView {
        round_id,
        flow_id: flow_id as usize,
        action_type: ty,
        action_label: label,
        phase,
        start_ts: start,
        start_rel: start - t0,
        end_ts: end,
        end_rel: match end {
            Some(e) => Some(e - t0),
            None => None,
        },
        duration: match end {
            Some(e) => Some(e - start),
            None => None,
        },
        status,
    }
}

/// The rows of the phases of an action: each step lasts until the next one, the
/// last until the end of the action.
pub open spec fn phase_rows(
    round_id: usize,
    flow_id: nat,
    ty: Seq<char>,
    label: Seq<char>,
    steps: Seq<SubStepView>,
    end: Option<i64>,
    t0: i64,
) -> Seq<ActionView> {
    Seq::new(
        steps.len(),
        |i: int|
            row(
                round_id,
                flow_id,
                ty,
                label,
                steps[i].name,
                steps[i].timestamp,
                if i + 1 < steps.len() {
                    Some(steps[i + 1].timestamp)
                } else {
                    end
                },
                "phase"@,
                t0,
            ),
    )
}

/// The label of a navigation in the timeline.
pub open spec fn nav_label(f: FlowView) -> Seq<char> {
    match f.nav_target_pos {
        Some(p) => "导航→"@ + p,
        None => "导航"@,
    }
}

/// The rows of the navigation of a flow (none when it has no start).
pub open spec fn nav_rows(flow_id: nat, f: FlowView, t0: i64) -> Seq<ActionView> {
    match f.nav_start_ts {
        Some(s) => seq![row(f.round_id, flow_id, "导航"@, nav_label(f), Seq::<char>::empty(), s, f.nav_end_ts, f.nav_status, t0)]
            + phase_rows(f.round_id, flow_id, "导航"@, nav_label(f), f.nav_sub_steps, f.nav_end_ts, t0),
        None => seq![],
    }
}

/// A navigation action that repeats the navigation of its flow (it starts within
/// 10 ms of it).
pub open spec fn repeats_nav(f: FlowView, o: OpView) -> bool {
    o.action_type == "navigation"@ && match (f.nav_start_ts, o.start_ts) {
        (Some(n), Some(s)) => -10_000_000 < n - s < 10_000_000,
        _ => false,
    }
}

/// The rows of an action of a flow (none when it repeats the navigation or has no
/// start).
pub open spec fn op_rows(flow_id: nat, f: FlowView, o: OpView, t0: i64) -> Seq<ActionView> {
    if repeats_nav(f, o) {
        seq![]
    } else {
        match o.start_ts {
            Some(s) => seq![row(f.round_id, flow_id, type_display(o.action_type), action_label(o), Seq::<char>::empty(), s, o.end_ts, o.status, t0)]
                + phase_rows(f.round_id, flow_id, type_display(o.action_type), action_label(o), o.sub_steps, o.end_ts, t0),
            None => seq![],
        }
    }
}

/// The rows of the actions `ops` of a flow, in order.
pub open spec fn ops_rows(flow_id: nat, f: FlowView, ops: Seq<OpView>, t0: i64) -> Seq<ActionView>
    decreases ops.len(),
{
    if ops.len() == 0 {
        seq![]
    } else {
        ops_rows(flow_id, f, ops.drop_last(), t0) + op_rows(flow_id, f, ops.last(), t0)
    }
}

/// The rows of the flows, numbered from 1, in order.
pub open spec fn all_rows(flows: Seq<FlowView>, t0: i64) -> Seq<ActionView>
    decreases flows.len(),
{
    if flows.len() == 0 {
        seq![]
    } else {
        let f = flows.last();
        all_rows(flows.drop_last(), t0) + nav_rows(flows.len(), f, t0) + ops_rows(flows.len(), f, f.operations, t0)
    }
}

/// Where a stable sort by start puts a row starting at `t` among sorted rows `s`.
pub open spec fn start_pos(s: Seq<ActionView>, t: i64) -> int
    decreases s.len(),
{
    if s.len() == 0 {
        0
    } else if t < s.last().start_ts {
        start_pos(s.drop_last(), t)
    } else {
        s.len() as int
    }
}

/// The rows sorted by start, rows with equal starts in their original order.
pub open spec fn sort_by_start(s: Seq<ActionView>) -> Seq<ActionView>
    decreases s.len(),
{
    if s.len() == 0 {
        s
    } else {
        let prev = sort_by_start(s.drop_last());
        prev.insert(start_pos(prev, s.last().start_ts), s.last())
    }
}

/// The action timeline: every row, sorted by start.
pub open spec fn timeline(flows: Seq<FlowView>, t0: i64) -> Seq<ActionView> {
    sort_by_start(all_rows(flows, t0))
}

/// A timeline row.
fn make_row(
    round_id: usize,
    flow_id: usize,
    ty: &String,
    label: &String,
    phase: String,
    start: i64,
    end: Option<i64>,
    status: String,
    t0: i64,
) -> (r: ActionRecord)
    ensures
        r@ == row(round_id, flow_id as nat, ty@, label@, phase@, start, end, status@, t0),
{
    ActionRecord {
        round_id,
        flow_id,
        action_type: ty.clone(),
        action_label: label.clone(),
        phase,
        start_ts: start,
        start_rel: start as i128 - t0 as i128,
        end_ts: end,
        end_rel: match end {
            Some(e) => Some(e as i128 - t0 as i128),
            None => None,
        },
        duration: match end {
            Some(e) => Some(e as i128 - start as i128),
            None => None,
        },
        status,
    }
}

/// Appends the rows of the phases of an action.
fn push_phase_rows(
    out: &mut Vec<ActionRecord>,
    round_id: usize,
    flow_id: usize,
    ty: &String,
    label: &String,
    steps: &Vec<SubStep>,
    end: Option<i64>,
    t0: i64,
)
    ensures
        actions_view(final(out)@) == actions_view(old(out)@) + phase_rows(
            round_id,
            flow_id as nat,
            ty@,
            label@,
            crate::flows::steps_view(steps@),
            end,
            t0,
        ),
{
    let ghost sv = crate::flows::steps_view(steps@);
    let ghost base = actions_view(out@);
    let ghost all = phase_rows(round_id, flow_id as nat, ty@, label@, sv, end, t0);
    let mut i: usize = 0;
    assert(actions_view(out@) =~= base + all.take(0));
    while i < steps.len()
        invariant
            i <= steps@.len(),
            sv == crate::flows::steps_view(steps@),
            sv.len() == steps@.len(),
            all == phase_rows(round_id, flow_id as nat, ty@, label@, sv, end, t0),
            all.len() == steps@.len(),
            actions_view(out@) == base + all.take(i as int),
        decreases steps.len() - i,
    {
        let se = if i + 1 < steps.len() {
            Some(steps[i + 1].timestamp)
        } else {
            end
        };
        let r = make_row(round_id, flow_id, ty, label, steps[i].name.clone(), steps[i].timestamp, se, owned("phase"), t0);
        proof {
            assert(sv[i as int] == steps@[i as int]@);
            if i + 1 < steps.len() {
                assert(sv[i + 1] == steps@[i + 1]@);
            }
            assert(r@ == all[i as int]);
        }
        let ghost before = actions_view(out@);
        out.push(r);
        assert(actions_view(out@) =~= before.push(r@));
        i += 1;
        assert(all.take(i as int) =~= all.take(i - 1).push(all[i - 1]));
    }
    assert(all.take(steps@.len() as int) =~= all);
}

/// Appends the rows of the navigation of a flow.
fn push_nav_rows(out: &mut Vec<ActionRecord>, flow_id: usize, f: &NavigationFlow, t0: i64)
    ensures
        actions_view(final(out)@) == actions_view(old(out)@) + nav_rows(flow_id as nat, f@, t0),
{
    match f.nav_start_ts {
        Some(s) => {
            let label = match &f.nav_target_pos {
                Some(p) => {
                    let mut l = owned("导航→");
                    push_str(&mut l, p.as_str());
                    l
                },
                None => owned("导航"),
            };
            let ty = owned("导航");
            let r = make_row(f.round_id, flow_id, &ty, &label, String::new(), s, f.nav_end_ts, f.nav_status.clone(), t0);
            let ghost base = actions_view(out@);
            out.push(r);
            assert(actions_view(out@) =~= base + seq![r@]);
            assert(label@ == nav_label(f@));
            push_phase_rows(out, f.round_id, flow_id, &ty, &label, &f.nav_sub_steps, f.nav_end_ts, t0);
            assert(actions_view(out@) =~= base + (seq![r@] + phase_rows(
                f.round_id,
                flow_id as nat,
                ty@,
                label@,
                crate::flows::steps_view(f.nav_sub_steps@),
                f.nav_end_ts,
                t0,
            )));
        },
        None => {
            assert(actions_view(out@) =~= actions_view(out@) + seq![]);
        },
    }
}

/// Whether a navigation action repeats the navigation of its flow.
fn repeats_nav_exec(f: &NavigationFlow, o: &ActionOperation) -> (r: bool)
    ensures
        r == repeats_nav(f@, o@),
{
    if !str_eq(o.action_type.as_str(), "navigation") {
        return false;
    }
    match (f.nav_start_ts, o.start_ts) {
        (Some(n), Some(s)) => {
            let d: i128 = n as i128 - s as i128;
            -10_000_000 < d && d < 10_000_000
        },
        _ => false,
    }
}

/// Appends the rows of an action of a flow.
fn push_op_rows(out: &mut Vec<ActionRecord>, flow_id: usize, f: &NavigationFlow, o: &ActionOperation, t0: i64)
    ensures
        actions_view(final(out)@) == actions_view(old(out)@) + op_rows(flow_id as nat, f@, o@, t0),
{
    if repeats_nav_exec(f, o) {
        assert(actions_view(out@) =~= actions_view(out@) + seq![]);
        return;
    }
    match o.start_ts {
        Some(s) => {
            let ty = action_type_to_display(o.action_type.as_str());
            let label = build_action_label(o);
            let r = make_row(f.round_id, flow_id, &ty, &label, String::new(), s, o.end_ts, o.status.clone(), t0);
            let ghost base = actions_view(out@);
            out.push(r);
            assert(actions_view(out@) =~= base + seq![r@]);
            push_phase_rows(out, f.round_id, flow_id, &ty, &label, &o.sub_steps, o.end_ts, t0);
            assert(actions_view(out@) =~= base + (seq![r@] + phase_rows(
                f.round_id,
                flow_id as nat,
                ty@,
                label@,
                crate::flows::steps_view(o.sub_steps@),
                o.end_ts,
                t0,
            )));
        },
        None => {
            assert(actions_view(out@) =~= actions_view(out@) + seq![]);
        },
    }
}

/// Inserts a row into rows sorted by start, after the rows that do not start later.
fn insert_by_start(out: &mut Vec<ActionRecord>, r: ActionRecord)
    ensures
        actions_view(final(out)@) == actions_view(old(out)@).insert(
            start_pos(actions_view(old(out)@), r.start_ts),
            r@,
        ),
{
    let ghost o = actions_view(out@);
    let t = r.start_ts;
    let mut p = out.len();
    assert(o.take(p as int) =~= o);
    while p > 0 && t < out[p - 1].start_ts
        invariant
            p <= out@.len(),
            o == actions_view(out@),
            o.len() == out@.len(),
            start_pos(o, t) == start_pos(o.take(p as int), t),
        decreases p,
    {
        proof {
            assert(o.take(p as int).drop_last() =~= o.take(p - 1));
        }
        p -= 1;
    }
    proof {
        if p > 0 {
            assert(o.take(p as int).last() == o[p - 1]);
        }
    }
    out.insert(p, r);
    assert(actions_view(out@) =~= o.insert(p as int, r@));
}

/// Sorts rows by start, keeping the order of rows with equal starts.
fn sort_rows(v: Vec<ActionRecord>) -> (r: Vec<ActionRecord>)
    ensures
        actions_view(r@) == sort_by_start(actions_view(v@)),
{
    let ghost s = actions_view(v@);
    let mut input = v;
    let mut out: Vec<ActionRecord> = Vec::new();
    let n = input.len();
    let mut i: usize = 0;
    assert(s.take(0) =~= seq![]);
    assert(actions_view(out@) =~= seq![]);
    while i < n
        invariant
            n == s.len(),
            i <= n,
            input@.len() == n - i,
            forall|j: int| 0 <= j < n - i ==> (#[trigger] input@[j])@ == s[i + j],
            actions_view(out@) == sort_by_start(s.take(i as int)),
        decreases n - i,
    {
        let x = input.remove(0);
        assert(x@ == s[i as int]);
        proof {
            assert(s.take(i + 1).drop_last() =~= s.take(i as int));
            assert(s.take(i + 1).last() == x@);
        }
        insert_by_start(&mut out, x);
        i += 1;
        assert forall|j: int| 0 <= j < n - i implies (#[trigger] input@[j])@ == s[i + j] by {
        }
    }
    assert(s.take(n as int) =~= s);
    out
}

/// The action timeline of the flows (see `timeline`): a row for each navigation and
/// action with a start, followed by rows for its phases, all sorted by start.
pub fn action_timeline(flows: &Vec<NavigationFlow>, t0: i64) -> (r: Vec<ActionRecord>)
    requires
        forall|i: int| 0 <= i < flows@.len() ==> (#[trigger] flows@[i]).operations@.len() < usize::MAX,
    ensures
        actions_view(r@) == timeline(flows_view(flows@), t0),
{
    let ghost fv = flows_view(flows@);
    let mut all: Vec<ActionRecord> = Vec::new();
    let mut i: usize = 0;
    assert(fv.take(0) =~= seq![]);
    assert(actions_view(all@) =~= seq![]);
    while i < flows.len()
        invariant
            i <= flows@.len(),
            fv == flows_view(flows@),
            fv.len() == flows@.len(),
            actions_view(all@) == all_rows(fv.take(i as int), t0),
        decreases flows.len() - i,
    {
        let f = &flows[i];
        let flow_id = i + 1;
        let ghost fvi = fv[i as int];
        assert(fvi == f@);
        let ghost base = actions_view(all@);
        push_nav_rows(&mut all, flow_id, f, t0);
        let ghost after_nav = actions_view(all@);
        let ops = &f.operations;
        let ghost ov = fvi.operations;
        let mut k: usize = 0;
        assert(ov.take(0) =~= seq![]);
        assert(after_nav =~= after_nav + ops_rows(flow_id as nat, fvi, ov.take(0), t0));
        while k < ops.len()
            invariant
                k <= ops@.len(),
                ov == crate::flows::ops_view(ops@),
                ov.len() == ops@.len(),
                fvi == f@,
                actions_view(all@) == after_nav + ops_rows(flow_id as nat, fvi, ov.take(k as int), t0),
            decreases ops.len() - k,
        {
            let ghost before = actions_view(all@);
            push_op_rows(&mut all, flow_id, f, &ops[k], t0);
            proof {
                assert(ov.take(k + 1).drop_last() =~= ov.take(k as int));
                assert(ov.take(k + 1).last() == ops@[k as int]@);
            }
            k += 1;
        }
        proof {
            assert(ov.take(ops@.len() as int) =~= ov);
            assert(fv.take(i + 1).drop_last() =~= fv.take(i as int));
            assert(fv.take(i + 1).last() == fvi);
        }
        i += 1;
    }
    assert(fv.take(flows@.len() as int) =~= fv);
    sort_rows(all)
}

/// Counts of the action timeline: all rows, finished rows, and the rows of each kind.
pub struct TimelineStats {
    pub total: usize,
    pub completed: usize,
    pub navigation: usize,
    pub arm: usize,
    pub head: usize,
    pub waist: usize,
}

/// The number of rows that `p` holds of.
pub open spec fn count_rows(s: Seq<ActionView>, p: spec_fn(ActionView) -> bool) -> nat
    decreases s.len(),
{
    if s.len() == 0 {
        0
    } else {
        count_rows(s.drop_last(), p) + if p(s.last()) {
            1nat
        } else {
            0nat
        }
    }
}

proof fn lemma_count_rows_bound(s: Seq<ActionView>, p: spec_fn(ActionView) -> bool)
    ensures
        count_rows(s, p) <= s.len(),
    decreases s.len(),
{
    if s.len() > 0 {
        lemma_count_rows_bound(s.drop_last(), p);
    }
}

/// The counts of the timeline `rows`.
pub fn timeline_stats(rows: &Vec<ActionRecord>) -> (r: TimelineStats)
    ensures
        r.total == rows@.len(),
        r.completed == count_rows(actions_view(rows@), |a: ActionView| a.end_ts is Some),
        r.navigation == count_rows(actions_view(rows@), |a: ActionView| a.action_type == "导航"@),
        r.arm == count_rows(actions_view(rows@), |a: ActionView| a.action_type == "机械臂"@),
        r.head == count_rows(actions_view(rows@), |a: ActionView| a.action_type == "头部"@),
        r.waist == count_rows(actions_view(rows@), |a: ActionView| a.action_type == "腰部"@),
{
    let ghost v = actions_view(rows@);
    let ghost pc = |a: ActionView| a.end_ts is Some;
    let ghost pn = |a: ActionView| a.action_type == "导航"@;
    let ghost pa = |a: ActionView| a.action_type == "机械臂"@;
    let ghost ph = |a: ActionView| a.action_type == "头部"@;
    let ghost pw = |a: ActionView| a.action_type == "腰部"@;
    let mut st = TimelineStats { total: rows.len(), completed: 0, navigation: 0, arm: 0, head: 0, waist: 0 };
    let mut i: usize = 0;
    assert(v.take(0) =~= seq![]);
    while i < rows.len()
        invariant
            i <= rows@.len(),
            v == actions_view(rows@),
            v.len() == rows@.len(),
            st.total == rows@.len(),
            st.completed == count_rows(v.take(i as int), pc),
            st.navigation == count_rows(v.take(i as int), pn),
            st.arm == count_rows(v.take(i as int), pa),
            st.head == count_rows(v.take(i as int), ph),
            st.waist == count_rows(v.take(i as int), pw),
            pc == (|a: ActionView| a.end_ts is Some),
            pn == (|a: ActionView| a.action_type == "导航"@),
            pa == (|a: ActionView| a.action_type == "机械臂"@),
            ph == (|a: ActionView| a.action_type == "头部"@),
            pw == (|a: ActionView| a.action_type == "腰部"@),
        decreases rows.len() - i,
    {
        let a = &rows[i];
        proof {
            assert(v.take(i + 1).drop_last() =~= v.take(i as int));
            assert(v.take(i + 1).last() == a@);
            lemma_count_rows_bound(v.take(i as int), pc);
            lemma_count_rows_bound(v.take(i as int), pn);
            lemma_count_rows_bound(v.take(i as int), pa);
            lemma_count_rows_bound(v.take(i as int), ph);
            lemma_count_rows_bound(v.take(i as int), pw);
        }
        if a.end_ts.is_some() {
            st.completed = st.completed + 1;
        }
        let t = a.action_type.as_str();
        if str_eq(t, "导航") {
            st.navigation = st.navigation + 1;
        }
        if str_eq(t, "机械臂") {
            st.arm = st.arm + 1;
        }
        if str_eq(t, "头部") {
            st.head = st.head + 1;
        }
        if str_eq(t, "腰部") {
            st.waist = st.waist + 1;
        }
        i += 1;
    }
    assert(v.take(rows@.len() as int) =~= v);
    st
}

// ---------------------------------------------------------------------------
// Wall-clock times
// ---------------------------------------------------------------------------

/// The instant `secs` seconds and `nanos` nanoseconds after the Unix epoch, in the
/// time zone `offset` seconds east of UTC, written with the `chrono` format `fmt`;
/// no value when chrono cannot represent the instant.
pub uninterp spec fn zoned_time_text(secs: i64, nanos: u32, offset: i32, fmt: Seq<char>) -> Option<Seq<char>>;

/// `chrono::DateTime::from_timestamp(secs, nanos)`, shown in the fixed time zone
/// `offset` seconds east of UTC with `DateTime::format(fmt)`. The format is the one
/// well-formed format the library writes times in: chrono panics when it renders a
/// malformed one.
#[verifier::external_body]
fn format_zoned_time(secs: i64, nanos: u32, offset: i32, fmt: &str) -> (r: Option<String>)
    requires
        -86_400 < offset < 86_400,
        fmt@ == "%Y-%m-%d %H:%M:%S"@,
    ensures
        match r {
            Some(t) => zoned_time_text(secs, nanos, offset, fmt@) == Some(t@),
            None => zoned_time_text(secs, nanos, offset, fmt@) is None,
        },
{
    match chrono::DateTime::from_timestamp(secs, nanos) {
        Some(dt) => Some(dt.with_timezone(&chrono::FixedOffset::east_opt(offset).unwrap()).format(fmt).to_string()),
        None => None,
    }
}

/// The whole seconds of a time in nanoseconds (rounded towards zero) and its
/// nanoseconds within the second (0 for a time before the epoch).
pub open spec fn split_nanos(ts: i64) -> (i64, u32) {
    if ts >= 0 {
        ((ts / 1_000_000_000) as i64, (ts % 1_000_000_000) as u32)
    } else {
        ((-((-ts) / 1_000_000_000)) as i64, 0)
    }
}

/// A time in nanoseconds as Beijing time (UTC+8), `YYYY-MM-DD HH:MM:SS`;
/// `0000-00-00 00:00:00` when it cannot be represented.
pub open spec fn beijing_time(ts: i64) -> Seq<char> {
    match zoned_time_text(split_nanos(ts).0, split_nanos(ts).1, 28_800, "%Y-%m-%d %H:%M:%S"@) {
        Some(t) => t,
        None => "0000-00-00 00:00:00"@,
    }
}

/// A time in nanoseconds as Beijing time (see `beijing_time`).
pub fn timestamp_to_beijing_time(ts: i64) -> (r: String)
    ensures
        r@ == beijing_time(ts),
{
    let (secs, nanos): (i64, u32) = if ts >= 0 {
        let u = ts as u64;
        ((u / 1_000_000_000) as i64, (u % 1_000_000_000) as u32)
    } else {
        let p = (0i128 - ts as i128) as u64;
        (0i64 - (p / 1_000_000_000) as i64, 0u32)
    };
    assert((secs, nanos) == split_nanos(ts));
    match format_zoned_time(secs, nanos, 28_800, "%Y-%m-%d %H:%M:%S") {
        Some(t) => t,
        None => owned("0000-00-00 00:00:00"),
    }
}

// ---------------------------------------------------------------------------
// Laws of the timeline
// ---------------------------------------------------------------------------

/// Rows in order of start.
pub open spec fn by_start(s: Seq<ActionView>) -> bool {
    forall|i: int, j: int| 0 <= i < j < s.len() ==> (#[trigger] s[i]).start_ts <= (#[trigger] s[j]).start_ts
}

proof fn lemma_start_pos(s: Seq<ActionView>, t: i64)
    requires
        by_start(s),
    ensures
        0 <= start_pos(s, t) <= s.len(),
        forall|j: int| 0 <= j < start_pos(s, t) ==> (#[trigger] s[j]).start_ts <= t,
        start_pos(s, t) < s.len() ==> t < s[start_pos(s, t)].start_ts,
    decreases s.len(),
{
    if s.len() > 0 {
        let d = s.drop_last();
        assert(by_start(d)) by {
            assert forall|i: int, j: int| 0 <= i < j < d.len() implies (#[trigger] d[i]).start_ts <= (
            #[trigger] d[j]).start_ts by {
                assert(d[i] == s[i]);
                assert(d[j] == s[j]);
            }
        }
        if t < s.last().start_ts {
            lemma_start_pos(d, t);
            let p = start_pos(d, t);
            assert forall|j: int| 0 <= j < p implies (#[trigger] s[j]).start_ts <= t by {
                assert(s[j] == d[j]);
            }
            if p < d.len() {
                assert(s[p] == d[p]);
            }
        } else {
            assert forall|j: int| 0 <= j < s.len() implies (#[trigger] s[j]).start_ts <= t by {
                if j < s.len() - 1 {
                    assert(s[j].start_ts <= s[s.len() - 1].start_ts);
                }
            }
        }
    }
}

proof fn lemma_sort_by_start(s: Seq<ActionView>)
    ensures
        by_start(sort_by_start(s)),
        sort_by_start(s).to_multiset() == s.to_multiset(),
    decreases s.len(),
{
    if s.len() > 0 {
        let ps = s.drop_last();
        let prev = sort_by_start(ps);
        let x = s.last();
        lemma_sort_by_start(ps);
        lemma_start_pos(prev, x.start_ts);
        let p = start_pos(prev, x.start_ts);
        let out = prev.insert(p, x);
        assert(out == sort_by_start(s));
        prev.insert_ensures(p, x);
        assert forall|i: int, j: int| 0 <= i < j < out.len() implies (#[trigger] out[i]).start_ts <= (
        #[trigger] out[j]).start_ts by {
            if j < p {
                assert(out[i] == prev[i]);
                assert(out[j] == prev[j]);
            } else if j == p {
                assert(out[i] == prev[i]);
            } else if i < p {
                assert(out[i] == prev[i]);
                assert(out[j] == prev[j - 1]);
                if p < j - 1 {
                    assert(prev[p].start_ts <= prev[j - 1].start_ts);
                }
            } else if i == p {
                assert(out[j] == prev[j - 1]);
                if p < j - 1 {
                    assert(prev[p].start_ts <= prev[j - 1].start_ts);
                }
            } else {
                assert(out[i] == prev[i - 1]);
                assert(out[j] == prev[j - 1]);
            }
        }
        vstd::seq_lib::to_multiset_insert(prev, p, x);
        assert(s =~= ps.push(x));
        vstd::seq_lib::to_multiset_build(ps, x);
    }
}

/// The action timeline is in order of start and holds every row of the flows once.
pub proof fn lemma_timeline_sorted(flows: Seq<FlowView>, t0: i64)
    ensures
        by_start(timeline(flows, t0)),
        timeline(flows, t0).to_multiset() == all_rows(flows, t0).to_multiset(),
{
    lemma_sort_by_start(all_rows(flows, t0));
}

/// The number of table rows before those of flow `i`: one for each earlier
/// navigation and one for each of its actions.
pub open spec fn rows_before(flows: Seq<FlowView>, i: int) -> int
    decreases i,
{
    if i <= 0 || i > flows.len() {
        0
    } else {
        rows_before(flows, i - 1) + 1 + flows[i - 1].operations.len()
    }
}

proof fn lemma_rows_before_drop_last(flows: Seq<FlowView>, i: int)
    requires
        0 <= i < flows.len(),
    ensures
        rows_before(flows.drop_last(), i) == rows_before(flows, i),
    decreases i,
{
    if i > 0 {
        lemma_rows_before_drop_last(flows, i - 1);
    }
}

/// The time of `ts` relative to `t0` in whole milliseconds (0 before `t0`), when
/// there is a time.
pub open spec fn rel_time_ms(ts: Option<i64>, t0: i64) -> Option<int> {
    match ts {
        Some(t) => Some(if t <= t0 { 0 } else { (t - t0) / 1_000_000 }),
        None => None,
    }
}

/// An optional number of milliseconds as an integer.
pub open spec fn opt_ms(v: Option<u64>) -> Option<int> {
    match v {
        Some(x) => Some(x as int),
        None => None,
    }
}

/// The rows of the analysis table are laid out flow by flow: the rows of flow `i`
/// start after `rows_before(flows, i)` rows, with its navigation first and then one
/// row per action, in order. The row of action `k` of flow `i` belongs to flow
/// `i + 1`, is step `k + 2`, and carries that action's own kind, status, start and
/// end relative to `t0`; its duration is its end minus its start when both are known.
pub proof fn lemma_action_row_is_its_own(
    flows: Seq<FlowView>,
    rounds: Seq<RoundView>,
    t0: i64,
    i: int,
    k: int,
)
    requires
        0 <= i < flows.len() < usize::MAX,
        0 <= k < flows[i].operations.len() < usize::MAX - 1,
    ensures
        csv_records(flows, rounds, t0).len() == rows_before(flows, flows.len() as int),
        rows_before(flows, i) + 1 + k < csv_records(flows, rounds, t0).len(),
        ({
            let r = csv_records(flows, rounds, t0)[rows_before(flows, i) + 1 + k];
            let o = flows[i].operations[k];
            &&& r.flow_id == i + 1
            &&& r.step_idx == k + 2
            &&& r.action_type == Some(o.action_type)
            &&& r.status == o.status
            &&& opt_ms(r.start_rel_ms) == rel_time_ms(o.start_ts, t0)
            &&& opt_ms(r.end_rel_ms) == rel_time_ms(o.end_ts, t0)
            &&& r.duration_ms == (match (r.start_rel_ms, r.end_rel_ms) {
                (Some(a), Some(b)) => Some((b - a) as i64),
                _ => None,
            })
        }),
        ({
            let r = csv_records(flows, rounds, t0)[rows_before(flows, i)];
            &&& r.flow_id == i + 1
            &&& r.step_idx == 1
            &&& r.status == flows[i].nav_status
        }),
{
    lemma_flow_rows(flows, rounds, t0, i);
    lemma_records_len(flows, rounds, t0);
    lemma_rows_before_mono(flows, 0, i);
    let recs = csv_records(flows, rounds, t0);
    let fr = flow_records((i + 1) as nat, flows[i], rounds, t0);
    let sub = recs.subrange(rows_before(flows, i), rows_before(flows, i + 1));
    assert(sub[1 + k] == recs[rows_before(flows, i) + 1 + k]);
    assert(sub[0] == recs[rows_before(flows, i)]);
    assert(fr[0] == nav_record((i + 1) as nat, flows[i], rounds, t0));
    assert(fr[1 + k] == op_record((i + 1) as nat, k, flows[i], rounds, t0));
    let o = flows[i].operations[k];
    match o.start_ts {
        Some(t) => { lemma_rel_ms_bound(t, t0); },
        None => {},
    }
    match o.end_ts {
        Some(t) => { lemma_rel_ms_bound(t, t0); },
        None => {},
    }
}

proof fn lemma_flow_rows(flows: Seq<FlowView>, rounds: Seq<RoundView>, t0: i64, i: int)
    requires
        0 <= i < flows.len(),
    ensures
        rows_before(flows, i + 1) == rows_before(flows, i) + 1 + flows[i].operations.len(),
        rows_before(flows, i + 1) <= csv_records(flows, rounds, t0).len(),
        csv_records(flows, rounds, t0).subrange(rows_before(flows, i), rows_before(flows, i + 1))
            == flow_records((i + 1) as nat, flows[i], rounds, t0),
    decreases flows.len(),
{
    let n = flows.len() as int;
    let prev = flows.drop_last();
    lemma_records_len(flows, rounds, t0);
    lemma_records_len(prev, rounds, t0);
    lemma_rows_before_drop_last(flows, n - 1);
    lemma_rows_before_mono(flows, i + 1, n);
    lemma_rows_before_mono(flows, 0, i);
    let recs = csv_records(flows, rounds, t0);
    assert(recs == csv_records(prev, rounds, t0) + flow_records(flows.len(), flows.last(), rounds, t0));
    if i == n - 1 {
        assert(recs.subrange(rows_before(flows, i), rows_before(flows, i + 1))
            =~= flow_records((i + 1) as nat, flows[i], rounds, t0));
    } else {
        lemma_flow_rows(prev, rounds, t0, i);
        lemma_rows_before_drop_last(flows, i);
        lemma_rows_before_drop_last(flows, i + 1);
        lemma_rows_before_mono(prev, i + 1, n - 1);
        lemma_rows_before_mono(prev, 0, i);
        assert(recs.subrange(rows_before(flows, i), rows_before(flows, i + 1))
            =~= csv_records(prev, rounds, t0).subrange(rows_before(prev, i), rows_before(prev, i + 1)));
    }
}

proof fn lemma_rows_before_mono(flows: Seq<FlowView>, i: int, j: int)
    requires
        0 <= i <= j <= flows.len(),
    ensures
        rows_before(flows, i) <= rows_before(flows, j),
    decreases j - i,
{
    if i < j {
        lemma_rows_before_mono(flows, i, j - 1);
    }
}

proof fn lemma_rel_ms_bound(t: i64, t0: i64)
    ensures
        rel_ms(t, t0) < 0x1_0000_0000_0000_0000,
{
    if t - t0 > 0 {
        assert((t - t0) / 1_000_000 <= t - t0) by (nonlinear_arith)
            requires t - t0 > 0;
    }
}

proof fn lemma_records_len(flows: Seq<FlowView>, rounds: Seq<RoundView>, t0: i64)
    ensures
        csv_records(flows, rounds, t0).len() == rows_before(flows, flows.len() as int),
    decreases flows.len(),
{
    if flows.len() > 0 {
        lemma_records_len(flows.drop_last(), rounds, t0);
        lemma_rows_before_drop_last(flows, flows.len() - 1);
    }
}
} // verus!
