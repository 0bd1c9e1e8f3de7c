//! The content of a round's Gantt chart: one bar per navigation and action of the
//! round on the time axis that leaves out the pauses, the lanes the bars are drawn
//! in, the phases inside each bar and the labels. Drawing is the application's part.

use vstd::prelude::*;
use crate::chart_style::{phase_color, short_module_name, splittable, Rgb};
use crate::config::str_eq;
use crate::flows::{flows_view, ops_view, steps_view, ActionOperation, FlowView, NavigationFlow, OpView, SubStep, SubStepView};
use crate::intervals::{compressed_offset, compressed_time, lemma_fits_working_time, merged_pause_total, merged_pauses};
use crate::rounds::{Round, RoundView};
use crate::chart_style::{extract_short_module_name, get_substep_color, is_splittable};
use crate::text::{decimal, owned, push_decimal, push_str, string_from_chars, to_chars};
use crate::timeline::copy_steps;

verus! {

/// A bar of the chart: a navigation or an action, placed on the compressed time axis
/// of its round (nanoseconds from the start of the round, pauses left out).
#[derive(Debug, Clone)]
pub struct GanttBar {
    /// Short name, e.g. `F2-arm-7`.
    pub label: String,
    /// What the bar shows, e.g. `手臂:7`.
    pub detail: String,
    pub start: i128,
    pub duration: i128,
    /// The kind of action, e.g. `arm`.
    pub kind: String,
    pub sub_steps: Vec<SubStep>,
}

/// A bar as plain values.
pub struct BarView {
    pub label: Seq<char>,
    pub detail: Seq<char>,
    pub start: int,
    pub duration: int,
    pub kind: Seq<char>,
    pub sub_steps: Seq<SubStepView>,
}

impl View for GanttBar {
    type V = BarView;

    open spec fn view(&self) -> BarView {
        BarView {
            label: self.label@,
            detail: self.detail@,
            start: self.start as int,
            duration: self.duration as int,
            kind: self.kind@,
            sub_steps: steps_view(self.sub_steps@),
        }
    }
}

/// The views of a sequence of bars.
pub open spec fn bars_view(v: Seq<GanttBar>) -> Seq<BarView> {
    v.map_values(|b: GanttBar| b@)
}

/// Where an instant lies on the compressed axis of the round.
pub open spec fn on_axis(r: RoundView, t: i64) -> int {
    compressed_offset(r.pause_events, r.start_ts as int, t as int)
}

/// `x`, or 0 when it is negative.
pub open spec fn not_below_zero(x: int) -> int {
    if x > 0 {
        x
    } else {
        0
    }
}

/// The length on the axis of what started at `s` and ended at `e`: both ends are
/// placed on the compressed axis; one second when the end is unknown.
pub open spec fn span_on_axis(r: RoundView, s: i64, e: Option<i64>) -> int {
    not_below_zero(
        match e {
            Some(x) => on_axis(r, x) - on_axis(r, s),
            None => 1_000_000_000,
        },
    )
}

/// What the bar of a navigation shows.
pub open spec fn nav_detail(pos: Option<Seq<char>>) -> Seq<char> {
    match pos {
        Some(p) => "导航→"@ + p,
        None => "导航"@,
    }
}

/// The bar of the navigation of flow number `id`, when it started.
pub open spec fn nav_bar(r: RoundView, id: nat, f: FlowView) -> Seq<BarView> {
    match f.nav_start_ts {
        Some(s) => seq![
            BarView {
                label: "F"@ + decimal(id) + "-nav"@,
                detail: nav_detail(f.nav_target_pos),
                start: not_below_zero(on_axis(r, s)),
                duration: span_on_axis(r, s, f.nav_end_ts),
                kind: "navigation"@,
                sub_steps: f.nav_sub_steps,
            },
        ],
        None => seq![],
    }
}

/// The action code shown, 0 when unknown.
pub open spec fn code_of(o: OpView) -> nat {
    match o.action_code {
        Some(c) => c as nat,
        None => 0,
    }
}

/// The short name and what the bar of an action of flow number `id` shows.
pub open spec fn op_label(id: nat, o: OpView) -> (Seq<char>, Seq<char>) {
    let f = "F"@ + decimal(id);
    if o.action_type == "arm"@ {
        (
            f + "-arm-"@ + decimal(code_of(o)),
            "手臂:"@ + decimal(code_of(o)) + if o.end_ts is None {
                "[未完成]"@
            } else {
                Seq::<char>::empty()
            },
        )
    } else if o.action_type == "head"@ {
        (f + "-head"@, "头部控制"@)
    } else if o.action_type == "waist"@ {
        (f + "-waist"@, "腰部控制"@)
    } else if o.action_type == "preplan"@ {
        (f + "-preplan-"@ + decimal(code_of(o)), "预打舵(action="@ + decimal(code_of(o)) + ")"@)
    } else {
        (f + "-"@ + o.action_type, o.label)
    }
}

/// An action of kind `navigation` that started within 10 ms of the flow's navigation
/// is that navigation again.
pub open spec fn same_as_nav(f: FlowView, o: OpView) -> bool {
    o.action_type == "navigation"@ && match (f.nav_start_ts, o.start_ts) {
        (Some(n), Some(s)) => -10_000_000 < n - s < 10_000_000,
        _ => false,
    }
}

/// The bar of an action of flow number `id`, when it started and is not the flow's
/// navigation again.
pub open spec fn op_bar(r: RoundView, id: nat, f: FlowView, o: OpView) -> Seq<BarView> {
    if same_as_nav(f, o) {
        seq![]
    } else {
        match o.start_ts {
            Some(s) => seq![
                BarView {
                    label: op_label(id, o).0,
                    detail: op_label(id, o).1,
                    start: not_below_zero(on_axis(r, s)),
                    duration: span_on_axis(r, s, o.end_ts),
                    kind: o.action_type,
                    sub_steps: o.sub_steps,
                },
            ],
            None => seq![],
        }
    }
}

/// The bars of the actions, in order.
pub open spec fn op_bars(r: RoundView, id: nat, f: FlowView, ops: Seq<OpView>) -> Seq<BarView>
    decreases ops.len(),
{
    if ops.len() == 0 {
        seq![]
    } else {
        op_bars(r, id, f, ops.drop_last()) + op_bar(r, id, f, ops.last())
    }
}

/// The bars of flow number `id`: its navigation, then its actions.
pub open spec fn flow_bars(r: RoundView, id: nat, f: FlowView) -> Seq<BarView> {
    nav_bar(r, id, f) + op_bars(r, id, f, f.operations)
}

/// The number of flows of round `id`.
pub open spec fn member_count(flows: Seq<FlowView>, id: usize) -> nat
    decreases flows.len(),
{
    if flows.len() == 0 {
        0
    } else {
        member_count(flows.drop_last(), id) + if flows.last().round_id == id {
            1nat
        } else {
            0nat
        }
    }
}

/// The bars of the flows of the round, the flows numbered from 1 among them.
pub open spec fn raw_bars(r: RoundView, flows: Seq<FlowView>) -> Seq<BarView>
    decreases flows.len(),
{
    if flows.len() == 0 {
        seq![]
    } else {
        let prev = raw_bars(r, flows.drop_last());
        if flows.last().round_id == r.id {
            prev + flow_bars(r, member_count(flows.drop_last(), r.id) + 1, flows.last())
        } else {
            prev
        }
    }
}

/// Where a bar goes among bars placed so far: before the first that starts later.
pub open spec fn insert_pos(sorted: Seq<BarView>, x: BarView) -> int
    decreases sorted.len(),
{
    if sorted.len() == 0 {
        0
    } else if sorted[0].start > x.start {
        0
    } else {
        1 + insert_pos(sorted.drop_first(), x)
    }
}

/// The bars ordered by start, bars that start together keeping their order.
pub open spec fn bars_by_start(s: Seq<BarView>) -> Seq<BarView>
    decreases s.len(),
{
    if s.len() == 0 {
        seq![]
    } else {
        let t = bars_by_start(s.drop_last());
        t.insert(insert_pos(t, s.last()), s.last())
    }
}

/// `a` and `b` are within `tol` of each other.
pub open spec fn near(a: int, b: int, tol: int) -> bool {
    -tol < a - b < tol
}

/// Two bars are the same when their names and kinds are equal and their starts and
/// lengths are within a millisecond.
pub open spec fn same_bar(a: BarView, b: BarView) -> bool {
    &&& a.label == b.label
    &&& near(a.start, b.start, 1_000_000)
    &&& near(a.duration, b.duration, 1_000_000)
    &&& a.kind == b.kind
}

/// The bars without those that are the same as the bar kept just before them.
pub open spec fn dedup_bars(s: Seq<BarView>) -> Seq<BarView>
    decreases s.len(),
{
    if s.len() == 0 {
        seq![]
    } else {
        let d = dedup_bars(s.drop_last());
        if d.len() > 0 && same_bar(s.last(), d.last()) {
            d
        } else {
            d.push(s.last())
        }
    }
}

/// The bars of a round's chart: those of its flows, ordered by start, without
/// repeats.
pub open spec fn chart_bars(r: RoundView, flows: Seq<FlowView>) -> Seq<BarView> {
    dedup_bars(bars_by_start(raw_bars(r, flows)))
}

/// The bars' positions are small enough to compute with.
pub open spec fn bounded(b: BarView) -> bool {
    &&& 0 <= b.start <= 0x3_0000_0000_0000_0000
    &&& 0 <= b.duration <= 0x6_0000_0000_0000_0000
}

/// Every bar is bounded.
pub open spec fn all_bounded(s: Seq<BarView>) -> bool {
    forall|i: int| 0 <= i < s.len() ==> bounded(#[trigger] s[i])
}

/// The position of an instant on the round's compressed axis.
fn axis_pos(r: &Round, t: i64) -> (p: i128)
    ensures
        p == on_axis(r@, t),
        -0x3_0000_0000_0000_0000 <= p <= 0x3_0000_0000_0000_0000,
{
    compressed_time(&r.pause_events, r.start_ts, t)
}

/// `x`, or 0 when it is negative.
fn clamp_zero(x: i128) -> (r: i128)
    ensures
        r == not_below_zero(x as int),
{
    if x > 0 {
        x
    } else {
        0
    }
}

/// The length on the axis (see `span_on_axis`).
fn span_of(r: &Round, s: i64, e: Option<i64>) -> (d: i128)
    ensures
        d == span_on_axis(r@, s, e),
        0 <= d <= 0x6_0000_0000_0000_0000,
{
    match e {
        Some(x) => clamp_zero(axis_pos(r, x) - axis_pos(r, s)),
        None => 1_000_000_000,
    }
}

/// `F<id>` followed by `tail`.
fn flow_name(id: usize, tail: &str) -> (r: String)
    ensures
        r@ == "F"@ + decimal(id as nat) + tail@,
{
    let mut s = owned("F");
    push_decimal(&mut s, id as u64);
    push_str(&mut s, tail);
    s
}

/// The short name and what the bar of an action shows (see `op_label`).
fn op_label_of(id: usize, o: &ActionOperation) -> (r: (String, String))
    ensures
        r.0@ == op_label(id as nat, o@).0,
        r.1@ == op_label(id as nat, o@).1,
{
    let code: u32 = match o.action_code {
        Some(c) => c,
        None => 0,
    };
    let t = o.action_type.as_str();
    if str_eq(t, "arm") {
        let mut label = flow_name(id, "-arm-");
        push_decimal(&mut label, code as u64);
        let mut detail = owned("手臂:");
        push_decimal(&mut detail, code as u64);
        if o.end_ts.is_none() {
            push_str(&mut detail, "[未完成]");
        } else {
            assert(detail@ + Seq::<char>::empty() =~= detail@);
        }
        (label, detail)
    } else if str_eq(t, "head") {
        (flow_name(id, "-head"), owned("头部控制"))
    } else if str_eq(t, "waist") {
        (flow_name(id, "-waist"), owned("腰部控制"))
    } else if str_eq(t, "preplan") {
        let mut label = flow_name(id, "-preplan-");
        push_decimal(&mut label, code as u64);
        let mut detail = owned("预打舵(action=");
        push_decimal(&mut detail, code as u64);
        push_str(&mut detail, ")");
        (label, detail)
    } else {
        let mut label = flow_name(id, "-");
        push_str(&mut label, t);
        (label, o.label.clone())
    }
}

/// Appends the bars of flow number `id` (see `flow_bars`).
fn push_flow_bars(out: &mut Vec<GanttBar>, r: &Round, id: usize, f: &NavigationFlow)
    requires
        all_bounded(bars_view(old(out)@)),
    ensures
        bars_view(final(out)@) == bars_view(old(out)@) + flow_bars(r@, id as nat, f@),
        all_bounded(bars_view(final(out)@)),
{
    let ghost base = bars_view(out@);
    if let Some(s) = f.nav_start_ts {
        let detail = match &f.nav_target_pos {
            Some(p) => {
                let mut d = owned("导航→");
                push_str(&mut d, p.as_str());
                d
            },
            None => owned("导航"),
        };
        let bar = GanttBar {
            label: flow_name(id, "-nav"),
            detail,
            start: clamp_zero(axis_pos(r, s)),
            duration: span_of(r, s, f.nav_end_ts),
            kind: owned("navigation"),
            sub_steps: copy_steps(&f.nav_sub_steps),
        };
        out.push(bar);
        assert(bars_view(out@) =~= base + nav_bar(r@, id as nat, f@));
    } else {
        assert(bars_view(out@) =~= base + nav_bar(r@, id as nat, f@));
    }
    let ghost with_nav = bars_view(out@);
    let ghost ov = f@.operations;
    assert(ov == ops_view(f.operations@));
    let mut k: usize = 0;
    assert(ov.take(0) =~= Seq::<OpView>::empty());
    assert(with_nav + op_bars(r@, id as nat, f@, ov.take(0)) =~= with_nav);
    while k < f.operations.len()
        invariant
            k <= f.operations@.len(),
            ov == ops_view(f.operations@),
            ov.len() == f.operations@.len(),
            ov == f@.operations,
            with_nav == base + nav_bar(r@, id as nat, f@),
            bars_view(out@) == with_nav + op_bars(r@, id as nat, f@, ov.take(k as int)),
            all_bounded(bars_view(out@)),
        decreases f.operations.len() - k,
    {
        let o = &f.operations[k];
        assert(ov[k as int] == o@);
        let ghost pre = bars_view(out@);
        let repeat = str_eq(o.action_type.as_str(), "navigation") && match (f.nav_start_ts, o.start_ts) {
            (Some(n), Some(s)) => -10_000_000 < n as i128 - s as i128 && (n as i128 - s as i128) < 10_000_000,
            _ => false,
        };
        if !repeat {
            if let Some(s) = o.start_ts {
                let (label, detail) = op_label_of(id, o);
                let bar = GanttBar {
                    label,
                    detail,
                    start: clamp_zero(axis_pos(r, s)),
                    duration: span_of(r, s, o.end_ts),
                    kind: o.action_type.clone(),
                    sub_steps: copy_steps(&o.sub_steps),
                };
                out.push(bar);
                assert(bars_view(out@) =~= pre + op_bar(r@, id as nat, f@, o@));
            } else {
                assert(bars_view(out@) =~= pre + op_bar(r@, id as nat, f@, o@));
            }
        } else {
            assert(bars_view(out@) =~= pre + op_bar(r@, id as nat, f@, o@));
        }
        proof {
            assert(ov.take(k + 1).drop_last() =~= ov.take(k as int));
            assert(ov.take(k + 1).last() == o@);
            assert(bars_view(out@) =~= with_nav + op_bars(r@, id as nat, f@, ov.take(k + 1)));
        }
        k += 1;
    }
    assert(ov.take(ov.len() as int) =~= ov);
}

/// The bars of the round's flows, in order (see `raw_bars`).
fn raw_bars_of(r: &Round, flows: &Vec<NavigationFlow>) -> (out: Vec<GanttBar>)
    ensures
        bars_view(out@) == raw_bars(r@, flows_view(flows@)),
        all_bounded(bars_view(out@)),
{
    let ghost fv = flows_view(flows@);
    let mut out: Vec<GanttBar> = Vec::new();
    let mut count: usize = 0;
    let mut i: usize = 0;
    assert(fv.take(0) =~= Seq::<FlowView>::empty());
    while i < flows.len()
        invariant
            i <= flows@.len(),
            fv == flows_view(flows@),
            fv.len() == flows@.len(),
            bars_view(out@) == raw_bars(r@, fv.take(i as int)),
            count == member_count(fv.take(i as int), r.id),
            count <= i,
            all_bounded(bars_view(out@)),
        decreases flows.len() - i,
    {
        let f = &flows[i];
        assert(fv[i as int] == f@);
        proof {
            assert(fv.take(i + 1).drop_last() =~= fv.take(i as int));
            assert(fv.take(i + 1).last() == f@);
        }
        if f.round_id == r.id {
            count += 1;
            push_flow_bars(&mut out, r, count, f);
        }
        i += 1;
    }
    assert(fv.take(flows@.len() as int) =~= fv);
    out
}

/// Where a bar goes among the sorted bars (see `insert_pos`).
fn insert_pos_of(sorted: &Vec<GanttBar>, x: &GanttBar) -> (p: usize)
    ensures
        p as int == insert_pos(bars_view(sorted@), x@),
        p <= sorted@.len(),
{
    let ghost sv = bars_view(sorted@);
    let mut i: usize = 0;
    assert(sv.skip(0) =~= sv);
    while i < sorted.len()
        invariant
            i <= sorted@.len(),
            sv == bars_view(sorted@),
            sv.len() == sorted@.len(),
            insert_pos(sv, x@) == i + insert_pos(sv.skip(i as int), x@),
        decreases sorted.len() - i,
    {
        assert(sv.skip(i as int)[0] == sorted@[i as int]@);
        assert(sv.skip(i as int).drop_first() =~= sv.skip(i + 1));
        if sorted[i].start > x.start {
            return i;
        }
        i += 1;
    }
    assert(sv.skip(i as int).len() == 0);
    i
}

/// The bars ordered by start, stably (see `bars_by_start`).
fn sort_bars(v: Vec<GanttBar>) -> (r: Vec<GanttBar>)
    requires
        all_bounded(bars_view(v@)),
    ensures
        bars_view(r@) == bars_by_start(bars_view(v@)),
        all_bounded(bars_view(r@)),
{
    let ghost all = bars_view(v@);
    let mut rest = v;
    let mut out: Vec<GanttBar> = Vec::new();
    let mut i: usize = 0;
    let n = rest.len();
    assert(all.take(0) =~= Seq::<BarView>::empty());
    while i < n
        invariant
            n == all.len(),
            i <= n,
            bars_view(rest@) == all.skip(i as int),
            rest@.len() == n - i,
            bars_view(out@) == bars_by_start(all.take(i as int)),
            all_bounded(bars_view(out@)),
            all_bounded(all),
        decreases n - i,
    {
        let ghost rv = bars_view(rest@);
        let ghost old_rest = rest@;
        let ghost r0 = rest@[0];
        assert(rv[0] == r0@);
        let x = rest.remove(0);
        assert(x == r0);
        assert(rest@ =~= old_rest.drop_first());
        assert(bars_view(rest@) =~= rv.drop_first());
        assert(rv[0] == all[i as int]);
        assert(bars_view(rest@) =~= all.skip(i + 1));
        let p = insert_pos_of(&out, &x);
        let ghost before = bars_view(out@);
        out.insert(p, x);
        proof {
            assert(bars_view(out@) =~= before.insert(p as int, all[i as int]));
            assert(all.take(i + 1).drop_last() =~= all.take(i as int));
            assert(all.take(i + 1).last() == all[i as int]);
            assert forall|j: int| 0 <= j < bars_view(out@).len() implies bounded(#[trigger] bars_view(out@)[j]) by {
                if j < p {
                    assert(bars_view(out@)[j] == before[j]);
                } else if j > p {
                    assert(bars_view(out@)[j] == before[j - 1]);
                } else {
                    assert(bounded(all[i as int]));
                }
            }
        }
        i += 1;
    }
    assert(all.take(n as int) =~= all);
    out
}

/// Whether two bars are the same (see `same_bar`).
fn same_bar_exec(a: &GanttBar, b: &GanttBar) -> (r: bool)
    requires
        bounded(a@),
        bounded(b@),
    ensures
        r == same_bar(a@, b@),
{
    let ds = a.start - b.start;
    let dd = a.duration - b.duration;
    str_eq(a.label.as_str(), b.label.as_str()) && -1_000_000 < ds && ds < 1_000_000 && -1_000_000 < dd && dd
        < 1_000_000 && str_eq(a.kind.as_str(), b.kind.as_str())
}

/// The bars without repeats (see `dedup_bars`).
fn dedup_bars_of(v: Vec<GanttBar>) -> (r: Vec<GanttBar>)
    requires
        all_bounded(bars_view(v@)),
    ensures
        bars_view(r@) == dedup_bars(bars_view(v@)),
        all_bounded(bars_view(r@)),
{
    let ghost all = bars_view(v@);
    let mut rest = v;
    let mut out: Vec<GanttBar> = Vec::new();
    let mut i: usize = 0;
    let n = rest.len();
    assert(all.take(0) =~= Seq::<BarView>::empty());
    while i < n
        invariant
            n == all.len(),
            i <= n,
            bars_view(rest@) == all.skip(i as int),
            rest@.len() == n - i,
            bars_view(out@) == dedup_bars(all.take(i as int)),
            all_bounded(bars_view(out@)),
            all_bounded(all),
        decreases n - i,
    {
        let ghost rv = bars_view(rest@);
        let ghost old_rest = rest@;
        let ghost r0 = rest@[0];
        assert(rv[0] == r0@);
        let x = rest.remove(0);
        assert(x == r0);
        assert(rest@ =~= old_rest.drop_first());
        assert(bars_view(rest@) =~= rv.drop_first());
        assert(rv[0] == all[i as int]);
        assert(bars_view(rest@) =~= all.skip(i + 1));
        assert(bounded(all[i as int]));
        proof {
            assert(all.take(i + 1).drop_last() =~= all.take(i as int));
            assert(all.take(i + 1).last() == all[i as int]);
        }
        let dup = if out.len() > 0 {
            let last = out.len() - 1;
            assert(bars_view(out@)[last as int] == out@[last as int]@);
            assert(bounded(bars_view(out@)[last as int]));
            same_bar_exec(&x, &out[last])
        } else {
            false
        };
        if !dup {
            let ghost before = bars_view(out@);
            out.push(x);
            assert(bars_view(out@) =~= before.push(all[i as int]));
            assert forall|j: int| 0 <= j < bars_view(out@).len() implies bounded(#[trigger] bars_view(out@)[j]) by {
                if j < before.len() {
                    assert(bars_view(out@)[j] == before[j]);
                }
            }
        }
        i += 1;
    }
    assert(all.take(n as int) =~= all);
    out
}

/// The bars of a round's chart (see `chart_bars`): one per navigation and action of
/// the flows of the round that started, the flows numbered from 1 among them,
/// ordered by start on the compressed axis, without repeats.
pub fn round_bars(round: &Round, flows: &Vec<NavigationFlow>) -> (r: Vec<GanttBar>)
    ensures
        bars_view(r@) == chart_bars(round@, flows_view(flows@)),
        all_bounded(bars_view(r@)),
{
    let raw = raw_bars_of(round, flows);
    let sorted = sort_bars(raw);
    dedup_bars_of(sorted)
}

// ---------------------------------------------------------------------------
// Lanes
// ---------------------------------------------------------------------------

/// A lane of the chart: the bars of one kind of action, with their total length.
#[derive(Debug, Clone)]
pub struct GanttLane {
    pub kind: String,
    /// The name shown, e.g. `手臂`.
    pub name: String,
    /// The summed lengths of the lane's bars, saturated at the bounds of `i128`.
    pub total: i128,
}

/// A lane as plain values.
pub struct LaneView {
    pub kind: Seq<char>,
    pub name: Seq<char>,
    pub total: int,
}

impl View for GanttLane {
    type V = LaneView;

    open spec fn view(&self) -> LaneView {
        LaneView { kind: self.kind@, name: self.name@, total: self.total as int }
    }
}

/// The views of a sequence of lanes.
pub open spec fn lanes_view(v: Seq<GanttLane>) -> Seq<LaneView> {
    v.map_values(|l: GanttLane| l@)
}

/// The kinds of action with a lane of their own, in lane order, with their names.
pub open spec fn lane_config() -> Seq<(Seq<char>, Seq<char>)> {
    seq![
        ("navigation"@, "导航"@),
        ("preplan"@, "预打舵"@),
        ("arm"@, "手臂"@),
        ("head"@, "头部"@),
        ("waist"@, "腰部"@),
        ("ready_pose"@, "准备阶段"@),
        ("det_obj_pose"@, "目标检测"@),
        ("obstacle"@, "障碍物"@),
        ("transition"@, "过渡点"@),
        ("arm_move"@, "手臂运动"@),
        ("gripper"@, "夹爪"@),
    ]
}

/// `a + b`, saturated at the bounds of `i128`.
pub open spec fn sat_add(a: int, b: int) -> int {
    if a + b > i128::MAX {
        i128::MAX as int
    } else if a + b < i128::MIN {
        i128::MIN as int
    } else {
        a + b
    }
}

/// The summed lengths of the bars of a kind, added in order with saturation.
pub open spec fn kind_total(bars: Seq<BarView>, kind: Seq<char>) -> int
    decreases bars.len(),
{
    if bars.len() == 0 {
        0
    } else {
        let prev = kind_total(bars.drop_last(), kind);
        if bars.last().kind == kind {
            sat_add(prev, bars.last().duration)
        } else {
            prev
        }
    }
}

/// Some bar is of the kind.
pub open spec fn has_kind(bars: Seq<BarView>, kind: Seq<char>) -> bool {
    exists|i: int| 0 <= i < bars.len() && (#[trigger] bars[i]).kind == kind
}

/// The kind has a lane of its own.
pub open spec fn configured(kind: Seq<char>) -> bool {
    exists|j: int| 0 <= j < lane_config().len() && (#[trigger] lane_config()[j]).0 == kind
}

/// The configured lanes whose kind occurs among the bars, in configuration order.
pub open spec fn configured_lanes(bars: Seq<BarView>, cfg: Seq<(Seq<char>, Seq<char>)>) -> Seq<LaneView>
    decreases cfg.len(),
{
    if cfg.len() == 0 {
        seq![]
    } else {
        let prev = configured_lanes(bars, cfg.drop_last());
        let (k, n) = cfg.last();
        if has_kind(bars, k) {
            prev.push(LaneView { kind: k, name: n, total: kind_total(bars, k) })
        } else {
            prev
        }
    }
}

/// The kinds of the bars without a lane of their own, in order of first appearance.
pub open spec fn other_kinds(bars: Seq<BarView>) -> Seq<Seq<char>>
    decreases bars.len(),
{
    if bars.len() == 0 {
        seq![]
    } else {
        let prev = other_kinds(bars.drop_last());
        let k = bars.last().kind;
        if configured(k) || prev.contains(k) {
            prev
        } else {
            prev.push(k)
        }
    }
}

/// The lanes of the chart: the configured kinds that occur, in configuration order,
/// then the other kinds in order of appearance, named by their kind.
pub open spec fn chart_lanes(bars: Seq<BarView>) -> Seq<LaneView> {
    configured_lanes(bars, lane_config()) + other_kinds(bars).map_values(
        |k: Seq<char>| LaneView { kind: k, name: k, total: kind_total(bars, k) },
    )
}

/// The entry `j` of the lane configuration.
fn lane_config_entry(j: usize) -> (r: (&'static str, &'static str))
    requires
        j < 11,
    ensures
        r.0@ == lane_config()[j as int].0,
        r.1@ == lane_config()[j as int].1,
{
    if j == 0 {
        ("navigation", "导航")
    } else if j == 1 {
        ("preplan", "预打舵")
    } else if j == 2 {
        ("arm", "手臂")
    } else if j == 3 {
        ("head", "头部")
    } else if j == 4 {
        ("waist", "腰部")
    } else if j == 5 {
        ("ready_pose", "准备阶段")
    } else if j == 6 {
        ("det_obj_pose", "目标检测")
    } else if j == 7 {
        ("obstacle", "障碍物")
    } else if j == 8 {
        ("transition", "过渡点")
    } else if j == 9 {
        ("arm_move", "手臂运动")
    } else {
        ("gripper", "夹爪")
    }
}

/// `a + b`, saturated at the bounds of `i128`.
fn sat_add_exec(a: i128, b: i128) -> (r: i128)
    ensures
        r == sat_add(a as int, b as int),
{
    if b > 0 && a > i128::MAX - b {
        i128::MAX
    } else if b < 0 && a < i128::MIN - b {
        i128::MIN
    } else {
        a + b
    }
}

/// The summed lengths of the bars of a kind (see `kind_total`).
fn kind_total_of(bars: &Vec<GanttBar>, kind: &str) -> (r: i128)
    ensures
        r == kind_total(bars_view(bars@), kind@),
{
    let ghost bv = bars_view(bars@);
    let mut acc: i128 = 0;
    let mut i: usize = 0;
    while i < bars.len()
        invariant
            i <= bars@.len(),
            bv == bars_view(bars@),
            bv.len() == bars@.len(),
            acc == kind_total(bv.take(i as int), kind@),
        decreases bars.len() - i,
    {
        assert(bv[i as int] == bars@[i as int]@);
        proof {
            assert(bv.take(i + 1).drop_last() =~= bv.take(i as int));
        }
        if str_eq(bars[i].kind.as_str(), kind) {
            acc = sat_add_exec(acc, bars[i].duration);
        }
        i += 1;
    }
    assert(bv.take(bars@.len() as int) =~= bv);
    acc
}

/// Whether some bar is of the kind (see `has_kind`).
fn has_kind_of(bars: &Vec<GanttBar>, kind: &str) -> (r: bool)
    ensures
        r == has_kind(bars_view(bars@), kind@),
{
    let ghost bv = bars_view(bars@);
    let mut i: usize = 0;
    while i < bars.len()
        invariant
            i <= bars@.len(),
            bv == bars_view(bars@),
            bv.len() == bars@.len(),
            forall|j: int| 0 <= j < i ==> (#[trigger] bv[j]).kind != kind@,
        decreases bars.len() - i,
    {
        assert(bv[i as int] == bars@[i as int]@);
        if str_eq(bars[i].kind.as_str(), kind) {
            return true;
        }
        i += 1;
    }
    false
}

/// Whether the kind has a lane of its own (see `configured`).
fn is_configured(kind: &str) -> (r: bool)
    ensures
        r == configured(kind@),
{
    let mut j: usize = 0;
    while j < 11
        invariant
            j <= 11,
            forall|k: int| 0 <= k < j ==> (#[trigger] lane_config()[k]).0 != kind@,
        decreases 11 - j,
    {
        let (k, _) = lane_config_entry(j);
        if str_eq(k, kind) {
            return true;
        }
        j += 1;
    }
    false
}

/// Whether a kind is already among the lanes' kinds.
fn seen_kind(kinds: &Vec<String>, kind: &str) -> (r: bool)
    ensures
        r == kinds@.map_values(|s: String| s@).contains(kind@),
{
    let ghost kv = kinds@.map_values(|s: String| s@);
    let mut i: usize = 0;
    while i < kinds.len()
        invariant
            i <= kinds@.len(),
            kv == kinds@.map_values(|s: String| s@),
            forall|j: int| 0 <= j < i ==> kv[j] != kind@,
        decreases kinds.len() - i,
    {
        if str_eq(kinds[i].as_str(), kind) {
            assert(kv[i as int] == kind@);
            return true;
        }
        i += 1;
    }
    false
}

/// The lanes of the chart (see `chart_lanes`).
pub fn gantt_lanes(bars: &Vec<GanttBar>) -> (r: Vec<GanttLane>)
    ensures
        lanes_view(r@) == chart_lanes(bars_view(bars@)),
{
    let ghost bv = bars_view(bars@);
    let ghost cfg = lane_config();
    let mut out: Vec<GanttLane> = Vec::new();
    let mut j: usize = 0;
    assert(cfg.take(0) =~= Seq::<(Seq<char>, Seq<char>)>::empty());
    while j < 11
        invariant
            j <= 11,
            bv == bars_view(bars@),
            cfg == lane_config(),
            lanes_view(out@) == configured_lanes(bv, cfg.take(j as int)),
        decreases 11 - j,
    {
        let (k, n) = lane_config_entry(j);
        proof {
            assert(cfg.take(j + 1).drop_last() =~= cfg.take(j as int));
            assert(cfg.take(j + 1).last() == cfg[j as int]);
        }
        if has_kind_of(bars, k) {
            let lane = GanttLane { kind: owned(k), name: owned(n), total: kind_total_of(bars, k) };
            let ghost before = lanes_view(out@);
            out.push(lane);
            assert(lanes_view(out@) =~= before.push(lane@));
        }
        j += 1;
    }
    assert(cfg.take(11) =~= cfg);
    let ghost head = lanes_view(out@);
    let mut kinds: Vec<String> = Vec::new();
    let mut i: usize = 0;
    let ghost mk = |k: Seq<char>| LaneView { kind: k, name: k, total: kind_total(bv, k) };
    assert(bv.take(0) =~= Seq::<BarView>::empty());
    while i < bars.len()
        invariant
            i <= bars@.len(),
            bv == bars_view(bars@),
            bv.len() == bars@.len(),
            head == configured_lanes(bv, lane_config()),
            kinds@.map_values(|s: String| s@) == other_kinds(bv.take(i as int)),
            mk == (|k: Seq<char>| LaneView { kind: k, name: k, total: kind_total(bv, k) }),
            lanes_view(out@) == head + other_kinds(bv.take(i as int)).map_values(mk),
        decreases bars.len() - i,
    {
        let b = &bars[i];
        assert(bv[i as int] == b@);
        proof {
            assert(bv.take(i + 1).drop_last() =~= bv.take(i as int));
            assert(bv.take(i + 1).last() == b@);
        }
        let k = b.kind.as_str();
        if !is_configured(k) && !seen_kind(&kinds, k) {
            let ghost before_kinds = kinds@.map_values(|s: String| s@);
            let ghost before = lanes_view(out@);
            kinds.push(b.kind.clone());
            assert(kinds@.map_values(|s: String| s@) =~= before_kinds.push(b.kind@));
            let lane = GanttLane { kind: b.kind.clone(), name: b.kind.clone(), total: kind_total_of(bars, k) };
            out.push(lane);
            assert(lanes_view(out@) =~= before.push(lane@));
            assert(other_kinds(bv.take(i + 1)) == before_kinds.push(b.kind@));
            assert(other_kinds(bv.take(i + 1)).map_values(mk) =~= other_kinds(bv.take(i as int)).map_values(mk).push(
                mk(b.kind@),
            ));
        }
        i += 1;
    }
    assert(bv.take(bars@.len() as int) =~= bv);
    out
}


// ---------------------------------------------------------------------------
// Time range, phases and labels
// ---------------------------------------------------------------------------

/// The latest end of the bars (0 when there are none).
pub open spec fn max_end(bars: Seq<BarView>) -> int
    decreases bars.len(),
{
    if bars.len() == 0 {
        0
    } else {
        let prev = max_end(bars.drop_last());
        let e = bars.last().start + bars.last().duration;
        if e > prev {
            e
        } else {
            prev
        }
    }
}

/// The length of the time axis: the working time of the round when it ended, or the
/// latest end of a bar if that is later.
pub open spec fn time_range(r: RoundView, bars: Seq<BarView>) -> int {
    let round_end = match r.end_ts {
        Some(e) => not_below_zero(on_axis(r, e)),
        None => 0,
    };
    if max_end(bars) > round_end {
        max_end(bars)
    } else {
        round_end
    }
}

/// `x` held within `lo` and `hi`: first raised to `lo`, then lowered to `hi`.
pub open spec fn clamp_to(x: int, lo: int, hi: int) -> int {
    let y = if x > lo {
        x
    } else {
        lo
    };
    if y < hi {
        y
    } else {
        hi
    }
}

/// Where phase `i` of a bar starts and ends: from its own instant to that of the next
/// phase (the end of the bar for the last one), held within the bar.
pub open spec fn phase_bounds(r: RoundView, b: BarView, i: int) -> (int, int) {
    let steps = b.sub_steps;
    let hi = b.start + b.duration;
    let s = clamp_to(not_below_zero(on_axis(r, steps[i].timestamp)), b.start, hi);
    let e = clamp_to(
        if i + 1 < steps.len() {
            not_below_zero(on_axis(r, steps[i + 1].timestamp))
        } else {
            hi
        },
        b.start,
        hi,
    );
    (s, e)
}

/// The font size of a phase's label, when the phase is wider than half a percent of
/// the axis: larger above two and five percent.
pub open spec fn phase_label_size(d: int, range: int) -> Option<u32> {
    if d * 1000 > 5 * range {
        Some(
            if d * 100 > 5 * range {
                48u32
            } else if d * 50 > range {
                40u32
            } else {
                32u32
            },
        )
    } else {
        None
    }
}

/// A phase drawn inside a bar.
#[derive(Debug)]
pub struct Segment {
    /// The number of the phase in its bar.
    pub index: usize,
    pub start: i128,
    pub end: i128,
    pub color: Rgb,
    /// The short name, the time and the font size of its label, when it has one.
    pub label: Option<(String, String, u32)>,
}

/// A phase as plain values.
pub struct SegmentView {
    pub index: nat,
    pub start: int,
    pub end: int,
    pub color: Rgb,
    pub label: Option<(Seq<char>, Seq<char>, u32)>,
}

impl View for Segment {
    type V = SegmentView;

    open spec fn view(&self) -> SegmentView {
        SegmentView {
            index: self.index as nat,
            start: self.start as int,
            end: self.end as int,
            color: self.color,
            label: match self.label {
                Some((a, b, c)) => Some((a@, b@, c)),
                None => None,
            },
        }
    }
}

/// The views of a sequence of phases.
pub open spec fn segments_view(v: Seq<Segment>) -> Seq<SegmentView> {
    v.map_values(|x: Segment| x@)
}

/// Phase `i` of a bar, when it is not empty.
pub open spec fn phase_segment(r: RoundView, b: BarView, i: int, range: int) -> Option<SegmentView> {
    let (s, e) = phase_bounds(r, b, i);
    let name = b.sub_steps[i].name;
    if e - s > 0 {
        Some(
            SegmentView {
                index: i as nat,
                start: s,
                end: e,
                color: phase_color(name, i as nat),
                label: match phase_label_size(e - s, range) {
                    Some(size) => Some((short_module_name(name).0, short_module_name(name).1, size)),
                    None => None,
                },
            },
        )
    } else {
        None
    }
}

/// The non-empty phases among the first `k` of a bar, in order.
pub open spec fn bar_segments(r: RoundView, b: BarView, range: int, k: nat) -> Seq<SegmentView>
    decreases k,
{
    if k == 0 {
        seq![]
    } else {
        bar_segments(r, b, range, (k - 1) as nat) + match phase_segment(r, b, k - 1, range) {
            Some(x) => seq![x],
            None => seq![],
        }
    }
}

/// Every labelled phase of the bar has a name that can be split into a name and a time.
pub open spec fn phase_labels_splittable(r: RoundView, b: BarView, range: int) -> bool {
    forall|i: int|
        0 <= i < b.sub_steps.len() ==> (phase_segment(r, b, i, range) matches Some(x) && x.label is Some
            ==> splittable(#[trigger] b.sub_steps[i].name))
}

/// How the label of a bar reads, the number of seconds being its length.
#[derive(Debug, Clone)]
pub enum MainLabel {
    /// `<text>-<seconds>s`.
    Dashed(String),
    /// `<text>`, a line break, then `总计:<seconds>s`.
    WithTotal(String),
    /// `<text> (<seconds>s)`.
    Bracketed(String),
    /// `<seconds>s`.
    SecondsOnly,
}

/// A bar label as plain values.
pub enum MainLabelView {
    Dashed(Seq<char>),
    WithTotal(Seq<char>),
    Bracketed(Seq<char>),
    SecondsOnly,
}

impl View for MainLabel {
    type V = MainLabelView;

    open spec fn view(&self) -> MainLabelView {
        match self {
            MainLabel::Dashed(t) => MainLabelView::Dashed(t@),
            MainLabel::WithTotal(t) => MainLabelView::WithTotal(t@),
            MainLabel::Bracketed(t) => MainLabelView::Bracketed(t@),
            MainLabel::SecondsOnly => MainLabelView::SecondsOnly,
        }
    }
}

/// The name of a kind of action in a short label.
pub open spec fn kind_name(kind: Seq<char>) -> Seq<char> {
    if kind == "nav"@ || kind == "navigation"@ {
        "导航"@
    } else if kind == "preplan"@ {
        "预打舵"@
    } else if kind == "head"@ {
        "头部"@
    } else if kind == "waist"@ {
        "腰部"@
    } else {
        "动作"@
    }
}

/// A text cut to its first seven characters and `...` when it is longer than ten.
pub open spec fn shortened_detail(detail: Seq<char>) -> Seq<char> {
    if detail.len() > 10 {
        detail.take(7) + "..."@
    } else {
        detail
    }
}

/// The label of a bar `d` nanoseconds long and its font size; none for a bar of half a
/// second or less. Arm actions read `<text>-<seconds>s`; others show more of their
/// text the longer they are.
pub open spec fn main_label(detail: Seq<char>, kind: Seq<char>, d: int) -> Option<(MainLabelView, u32)> {
    if d > 500_000_000 {
        let form = if kind == "arm"@ {
            MainLabelView::Dashed(detail)
        } else if d > 20_000_000_000 {
            MainLabelView::WithTotal(detail)
        } else if d > 10_000_000_000 {
            MainLabelView::Bracketed(detail)
        } else if d > 5_000_000_000 {
            MainLabelView::Bracketed(shortened_detail(detail))
        } else if d > 2_000_000_000 {
            MainLabelView::Bracketed(kind_name(kind))
        } else {
            MainLabelView::SecondsOnly
        };
        let size: u32 = if d > 15_000_000_000 {
            88
        } else if d > 8_000_000_000 {
            80
        } else if d > 2_000_000_000 {
            72
        } else {
            64
        };
        Some((form, size))
    } else {
        None
    }
}


/// `x`, or 0 when it is negative, then held within `lo` and `hi`.
fn clamp_exec(x: i128, lo: i128, hi: i128) -> (r: i128)
    ensures
        r == clamp_to(x as int, lo as int, hi as int),
{
    let y = if x > lo {
        x
    } else {
        lo
    };
    if y < hi {
        y
    } else {
        hi
    }
}

/// The length of the time axis (see `time_range`).
fn time_range_of(r: &Round, bars: &Vec<GanttBar>) -> (t: i128)
    requires
        all_bounded(bars_view(bars@)),
    ensures
        t == time_range(r@, bars_view(bars@)),
        0 <= t <= 0x9_0000_0000_0000_0000,
{
    let ghost bv = bars_view(bars@);
    let mut m: i128 = 0;
    let mut i: usize = 0;
    while i < bars.len()
        invariant
            i <= bars@.len(),
            bv == bars_view(bars@),
            bv.len() == bars@.len(),
            all_bounded(bv),
            m == max_end(bv.take(i as int)),
            0 <= m <= 0x9_0000_0000_0000_0000,
        decreases bars.len() - i,
    {
        assert(bv[i as int] == bars@[i as int]@);
        assert(bounded(bv[i as int]));
        proof {
            assert(bv.take(i + 1).drop_last() =~= bv.take(i as int));
        }
        let e = bars[i].start + bars[i].duration;
        if e > m {
            m = e;
        }
        i += 1;
    }
    assert(bv.take(bars@.len() as int) =~= bv);
    let round_end: i128 = match r.end_ts {
        Some(e) => clamp_zero(axis_pos(r, e)),
        None => 0,
    };
    if m > round_end {
        m
    } else {
        round_end
    }
}

/// The font size of a phase's label (see `phase_label_size`).
fn phase_label_size_of(d: i128, range: i128) -> (r: Option<u32>)
    requires
        0 <= d <= 0x10_0000_0000_0000_0000,
        0 <= range <= 0x10_0000_0000_0000_0000,
    ensures
        r == phase_label_size(d as int, range as int),
{
    if d * 1000 > 5 * range {
        Some(
            if d * 100 > 5 * range {
                48
            } else if d * 50 > range {
                40
            } else {
                32
            },
        )
    } else {
        None
    }
}

/// Where phase `i` of a bar starts and ends (see `phase_bounds`).
fn phase_bounds_of(r: &Round, b: &GanttBar, i: usize) -> (p: (i128, i128))
    requires
        bounded(b@),
        i < b.sub_steps@.len(),
    ensures
        (p.0 as int, p.1 as int) == phase_bounds(r@, b@, i as int),
        b.start <= p.0 <= p.1 || p.1 < p.0,
        b.start <= p.0 <= b.start + b.duration,
        b.start <= p.1 <= b.start + b.duration,
{
    let hi = b.start + b.duration;
    assert(b@.sub_steps[i as int] == b.sub_steps@[i as int]@);
    let s = clamp_exec(clamp_zero(axis_pos(r, b.sub_steps[i].timestamp)), b.start, hi);
    let n = b.sub_steps.len();
    let next = if i < n - 1 {
        assert(b@.sub_steps[i + 1] == b.sub_steps@[i + 1]@);
        clamp_zero(axis_pos(r, b.sub_steps[i + 1].timestamp))
    } else {
        hi
    };
    let e = clamp_exec(next, b.start, hi);
    (s, e)
}

/// The non-empty phases of a bar (see `bar_segments`).
fn bar_segments_of(r: &Round, b: &GanttBar, range: i128) -> (out: Vec<Segment>)
    requires
        bounded(b@),
        0 <= range <= 0x10_0000_0000_0000_0000,
        phase_labels_splittable(r@, b@, range as int),
    ensures
        segments_view(out@) == bar_segments(r@, b@, range as int, b@.sub_steps.len()),
{
    let mut out: Vec<Segment> = Vec::new();
    let mut i: usize = 0;
    while i < b.sub_steps.len()
        invariant
            i <= b.sub_steps@.len(),
            b@.sub_steps.len() == b.sub_steps@.len(),
            bounded(b@),
            0 <= range <= 0x10_0000_0000_0000_0000,
            phase_labels_splittable(r@, b@, range as int),
            segments_view(out@) == bar_segments(r@, b@, range as int, i as nat),
        decreases b.sub_steps.len() - i,
    {
        let (s, e) = phase_bounds_of(r, b, i);
        let step = &b.sub_steps[i];
        assert(b@.sub_steps[i as int] == step@);
        let ghost before = segments_view(out@);
        if e - s > 0 {
            let label = match phase_label_size_of(e - s, range) {
                Some(size) => {
                    assert(phase_segment(r@, b@, i as int, range as int) matches Some(x) && x.label is Some);
                    assert(splittable(b@.sub_steps[i as int].name));
                    let (short, time) = extract_short_module_name(step.name.as_str());
                    Some((short, time, size))
                },
                None => None,
            };
            let seg = Segment { index: i, start: s, end: e, color: get_substep_color(step.name.as_str(), i), label };
            assert(phase_segment(r@, b@, i as int, range as int) == Some(seg@));
            out.push(seg);
            assert(segments_view(out@) =~= before.push(seg@));
        } else {
            assert(phase_segment(r@, b@, i as int, range as int) is None);
        }
        assert(bar_segments(r@, b@, range as int, (i + 1) as nat) =~= segments_view(out@));
        i += 1;
    }
    out
}

/// Whether every labelled phase of the bar can be split (see
/// `phase_labels_splittable`).
fn labels_splittable_of(r: &Round, b: &GanttBar, range: i128) -> (ok: bool)
    requires
        bounded(b@),
        0 <= range <= 0x10_0000_0000_0000_0000,
    ensures
        ok == phase_labels_splittable(r@, b@, range as int),
{
    let mut i: usize = 0;
    while i < b.sub_steps.len()
        invariant
            i <= b.sub_steps@.len(),
            b@.sub_steps.len() == b.sub_steps@.len(),
            bounded(b@),
            0 <= range <= 0x10_0000_0000_0000_0000,
            forall|j: int|
                0 <= j < i ==> (phase_segment(r@, b@, j, range as int) matches Some(x) && x.label is Some
                    ==> splittable(#[trigger] b@.sub_steps[j].name)),
        decreases b.sub_steps.len() - i,
    {
        let (s, e) = phase_bounds_of(r, b, i);
        assert(b@.sub_steps[i as int] == b.sub_steps@[i as int]@);
        if e - s > 0 {
            if phase_label_size_of(e - s, range).is_some() && !is_splittable(b.sub_steps[i].name.as_str()) {
                assert(phase_segment(r@, b@, i as int, range as int) matches Some(x) && x.label is Some);
                assert(!splittable(b@.sub_steps[i as int].name));
                return false;
            }
        }
        i += 1;
    }
    true
}

/// The label of a bar and its font size (see `main_label`).
pub fn main_label_of(detail: &str, kind: &str, duration: i128) -> (r: Option<(MainLabel, u32)>)
    ensures
        match r {
            Some((l, size)) => main_label(detail@, kind@, duration as int) == Some((l@, size)),
            None => main_label(detail@, kind@, duration as int) is None,
        },
{
    if duration <= 500_000_000 {
        return None;
    }
    let form = if str_eq(kind, "arm") {
        MainLabel::Dashed(owned(detail))
    } else if duration > 20_000_000_000 {
        MainLabel::WithTotal(owned(detail))
    } else if duration > 10_000_000_000 {
        MainLabel::Bracketed(owned(detail))
    } else if duration > 5_000_000_000 {
        let cs = to_chars(detail);
        if cs.len() > 10 {
            let mut t = string_from_chars(&cs, 0, 7);
            push_str(&mut t, "...");
            assert(cs@.subrange(0, 7) =~= detail@.take(7));
            MainLabel::Bracketed(t)
        } else {
            MainLabel::Bracketed(owned(detail))
        }
    } else if duration > 2_000_000_000 {
        let name = if str_eq(kind, "nav") || str_eq(kind, "navigation") {
            "导航"
        } else if str_eq(kind, "preplan") {
            "预打舵"
        } else if str_eq(kind, "head") {
            "头部"
        } else if str_eq(kind, "waist") {
            "腰部"
        } else {
            "动作"
        };
        MainLabel::Bracketed(owned(name))
    } else {
        MainLabel::SecondsOnly
    };
    let size: u32 = if duration > 15_000_000_000 {
        88
    } else if duration > 8_000_000_000 {
        80
    } else if duration > 2_000_000_000 {
        72
    } else {
        64
    };
    Some((form, size))
}

/// The first lane of a kind (the number of lanes when there is none).
pub open spec fn lane_index(lanes: Seq<LaneView>, kind: Seq<char>) -> nat
    decreases lanes.len(),
{
    if lanes.len() == 0 {
        0
    } else if lanes[0].kind == kind {
        0
    } else {
        1 + lane_index(lanes.drop_first(), kind)
    }
}

/// The first lane of a kind (see `lane_index`).
fn lane_index_of(lanes: &Vec<GanttLane>, kind: &str) -> (r: usize)
    ensures
        r as nat == lane_index(lanes_view(lanes@), kind@),
{
    let ghost lv = lanes_view(lanes@);
    let mut i: usize = 0;
    assert(lv.skip(0) =~= lv);
    while i < lanes.len()
        invariant
            i <= lanes@.len(),
            lv == lanes_view(lanes@),
            lv.len() == lanes@.len(),
            lane_index(lv, kind@) == i + lane_index(lv.skip(i as int), kind@),
        decreases lanes.len() - i,
    {
        assert(lv.skip(i as int)[0] == lanes@[i as int]@);
        assert(lv.skip(i as int).drop_first() =~= lv.skip(i + 1));
        if str_eq(lanes[i].kind.as_str(), kind) {
            return i;
        }
        i += 1;
    }
    i
}

/// A bar with what is drawn of it.
#[derive(Debug)]
pub struct ChartBar {
    pub bar: GanttBar,
    /// The lane it is drawn in.
    pub lane: usize,
    pub segments: Vec<Segment>,
    /// Its label and font size, when it is labelled.
    pub label: Option<(MainLabel, u32)>,
}

/// The content of a round's chart.
#[derive(Debug)]
pub struct RoundChart {
    pub bars: Vec<ChartBar>,
    pub lanes: Vec<GanttLane>,
    /// The length of the time axis, in nanoseconds.
    pub time_range: i128,
}

/// The view of an optional label.
pub open spec fn label_view(l: Option<(MainLabel, u32)>) -> Option<(MainLabelView, u32)> {
    match l {
        Some((x, size)) => Some((x@, size)),
        None => None,
    }
}

/// `c` is bar `b` drawn in its lane with its phases and label.
pub open spec fn drawn_as(c: ChartBar, b: BarView, r: RoundView, lanes: Seq<LaneView>, range: int) -> bool {
    &&& c.bar@ == b
    &&& c.lane as nat == lane_index(lanes, b.kind)
    &&& segments_view(c.segments@) == bar_segments(r, b, range, b.sub_steps.len())
    &&& label_view(c.label) == main_label(b.detail, b.kind, b.duration)
}

/// Every labelled phase of the round's chart has a name that can be split into a name
/// and a time.
pub open spec fn chart_labels_ok(r: RoundView, flows: Seq<FlowView>) -> bool {
    let bars = chart_bars(r, flows);
    forall|i: int| 0 <= i < bars.len() ==> phase_labels_splittable(r, #[trigger] bars[i], time_range(r, bars))
}

/// Whether every labelled phase of the round's chart can be split (see
/// `chart_labels_ok`).
pub fn chart_labels_splittable(round: &Round, flows: &Vec<NavigationFlow>) -> (ok: bool)
    ensures
        ok == chart_labels_ok(round@, flows_view(flows@)),
{
    let bars = round_bars(round, flows);
    let ghost bv = bars_view(bars@);
    let range = time_range_of(round, &bars);
    let mut i: usize = 0;
    while i < bars.len()
        invariant
            i <= bars@.len(),
            bv == bars_view(bars@),
            bv.len() == bars@.len(),
            bv == chart_bars(round@, flows_view(flows@)),
            all_bounded(bv),
            range == time_range(round@, bv),
            0 <= range <= 0x9_0000_0000_0000_0000,
            forall|j: int| 0 <= j < i ==> phase_labels_splittable(round@, #[trigger] bv[j], range as int),
        decreases bars.len() - i,
    {
        assert(bv[i as int] == bars@[i as int]@);
        assert(bounded(bv[i as int]));
        if !labels_splittable_of(round, &bars[i], range) {
            return false;
        }
        i += 1;
    }
    true
}

/// The content of a round's chart: its bars (see `chart_bars`), each in its lane
/// (see `chart_lanes`) with its phases (see `bar_segments`) and label (see
/// `main_label`), and the length of the time axis (see `time_range`).
pub fn round_chart(round: &Round, flows: &Vec<NavigationFlow>) -> (r: RoundChart)
    requires
        chart_labels_ok(round@, flows_view(flows@)),
    ensures
        ({
            let bars = chart_bars(round@, flows_view(flows@));
            let range = time_range(round@, bars);
            let lanes = chart_lanes(bars);
            &&& r.time_range == range
            &&& lanes_view(r.lanes@) == lanes
            &&& r.bars@.len() == bars.len()
            &&& forall|i: int| 0 <= i < bars.len() ==> drawn_as(#[trigger] r.bars@[i], bars[i], round@, lanes, range)
        }),
{
    let bars = round_bars(round, flows);
    let ghost bv = bars_view(bars@);
    let range = time_range_of(round, &bars);
    let lanes = gantt_lanes(&bars);
    let ghost lv = lanes_view(lanes@);
    let mut rest = bars;
    let mut out: Vec<ChartBar> = Vec::new();
    let n = rest.len();
    let mut i: usize = 0;
    while i < n
        invariant
            n == bv.len(),
            i <= n,
            bv == chart_bars(round@, flows_view(flows@)),
            chart_labels_ok(round@, flows_view(flows@)),
            all_bounded(bv),
            range == time_range(round@, bv),
            0 <= range <= 0x9_0000_0000_0000_0000,
            lv == lanes_view(lanes@),
            lv == chart_lanes(bv),
            bars_view(rest@) == bv.skip(i as int),
            rest@.len() == n - i,
            out@.len() == i,
            forall|j: int| 0 <= j < i ==> drawn_as(#[trigger] out@[j], bv[j], round@, lv, range as int),
        decreases n - i,
    {
        let ghost rv = bars_view(rest@);
        let ghost old_rest = rest@;
        let ghost r0 = rest@[0];
        assert(rv[0] == r0@);
        let b = rest.remove(0);
        assert(b == r0);
        assert(rest@ =~= old_rest.drop_first());
        assert(bars_view(rest@) =~= rv.drop_first());
        assert(bars_view(rest@) =~= bv.skip(i + 1));
        assert(b@ == bv[i as int]);
        assert(bounded(bv[i as int]));
        assert(phase_labels_splittable(round@, bv[i as int], range as int));
        let lane = lane_index_of(&lanes, b.kind.as_str());
        let segments = bar_segments_of(round, &b, range);
        let label = main_label_of(b.detail.as_str(), b.kind.as_str(), b.duration);
        let c = ChartBar { bar: b, lane, segments, label };
        assert(drawn_as(c, bv[i as int], round@, lv, range as int));
        out.push(c);
        assert forall|j: int| 0 <= j < i + 1 implies drawn_as(#[trigger] out@[j], bv[j], round@, lv, range as int) by {
            if j < i {
            }
        }
        i += 1;
    }
    RoundChart { bars: out, lanes, time_range: range }
}


// ---------------------------------------------------------------------------
// Laws of the chart
// ---------------------------------------------------------------------------

/// The bars are ordered by start.
pub open spec fn starts_ordered(s: Seq<BarView>) -> bool {
    forall|i: int, j: int| 0 <= i < j < s.len() ==> (#[trigger] s[i]).start <= (#[trigger] s[j]).start
}

proof fn lemma_insert_pos(t: Seq<BarView>, x: BarView)
    ensures
        0 <= insert_pos(t, x) <= t.len(),
        forall|j: int| 0 <= j < insert_pos(t, x) ==> (#[trigger] t[j]).start <= x.start,
        insert_pos(t, x) < t.len() ==> t[insert_pos(t, x)].start > x.start,
    decreases t.len(),
{
    if t.len() > 0 && t[0].start <= x.start {
        lemma_insert_pos(t.drop_first(), x);
        assert forall|j: int| 0 <= j < insert_pos(t, x) implies (#[trigger] t[j]).start <= x.start by {
            if j > 0 {
                assert(t[j] == t.drop_first()[j - 1]);
            }
        }
    }
}

proof fn lemma_bars_by_start(s: Seq<BarView>)
    ensures
        starts_ordered(bars_by_start(s)),
        bars_by_start(s).len() == s.len(),
    decreases s.len(),
{
    if s.len() > 0 {
        let t = bars_by_start(s.drop_last());
        lemma_bars_by_start(s.drop_last());
        let x = s.last();
        let p = insert_pos(t, x);
        lemma_insert_pos(t, x);
        let u = t.insert(p, x);
        assert forall|i: int, j: int| 0 <= i < j < u.len() implies (#[trigger] u[i]).start <= (#[trigger] u[j]).start by {
            if j < p {
                assert(u[i] == t[i] && u[j] == t[j]);
            } else if j == p {
                assert(u[i] == t[i]);
            } else if i == p {
                assert(u[j] == t[j - 1]);
                assert(t[p].start <= t[j - 1].start);
            } else if i < p {
                assert(u[i] == t[i] && u[j] == t[j - 1]);
            } else {
                assert(u[i] == t[i - 1] && u[j] == t[j - 1]);
            }
        }
    }
}

proof fn lemma_dedup_keeps_order(s: Seq<BarView>)
    requires
        starts_ordered(s),
    ensures
        starts_ordered(dedup_bars(s)),
        forall|k: int|
            0 <= k < dedup_bars(s).len() ==> exists|j: int| 0 <= j < s.len() && #[trigger] dedup_bars(s)[k] == s[j],
    decreases s.len(),
{
    if s.len() > 0 {
        let p = s.drop_last();
        assert(starts_ordered(p)) by {
            assert forall|i: int, j: int| 0 <= i < j < p.len() implies (#[trigger] p[i]).start <= (#[trigger] p[j]).start by {
                assert(p[i] == s[i] && p[j] == s[j]);
            }
        }
        lemma_dedup_keeps_order(p);
        let d = dedup_bars(p);
        assert forall|k: int| 0 <= k < d.len() implies (#[trigger] d[k]).start <= s.last().start by {
            let j = choose|j: int| 0 <= j < p.len() && d[k] == #[trigger] p[j];
            assert(p[j] == s[j]);
        }
        if !(d.len() > 0 && same_bar(s.last(), d.last())) {
            let u = d.push(s.last());
            assert forall|k: int| 0 <= k < u.len() implies exists|j: int| 0 <= j < s.len() && #[trigger] u[k] == s[j] by {
                if k < d.len() {
                    let j = choose|j: int| 0 <= j < p.len() && d[k] == #[trigger] p[j];
                    assert(p[j] == s[j]);
                } else {
                    assert(u[k] == s[s.len() - 1]);
                }
            }
        } else {
            assert forall|k: int| 0 <= k < d.len() implies exists|j: int| 0 <= j < s.len() && #[trigger] d[k] == s[j] by {
                let j = choose|j: int| 0 <= j < p.len() && d[k] == #[trigger] p[j];
                assert(p[j] == s[j]);
            }
        }
    }
}

/// The bars of a round's chart are ordered by their start on the axis.
pub proof fn lemma_chart_bars_ordered(r: RoundView, flows: Seq<FlowView>)
    ensures
        starts_ordered(chart_bars(r, flows)),
{
    lemma_bars_by_start(raw_bars(r, flows));
    lemma_dedup_keeps_order(bars_by_start(raw_bars(r, flows)));
}

/// The bar of something that ran from `s` to `e` within a finished round whose pauses
/// all lie within it stays on the round's axis: it starts at or after 0 and ends no
/// later than the round's working time (its length minus its paused time).
pub proof fn lemma_bar_fits_round(r: RoundView, s: i64, e: i64)
    requires
        r.end_ts is Some,
        r.start_ts <= s <= e <= r.end_ts->0,
        forall|i: int|
            0 <= i < merged_pauses(r.pause_events).len() ==> r.start_ts <= (#[trigger] merged_pauses(
                r.pause_events,
            )[i]).0 && merged_pauses(r.pause_events)[i].1 <= r.end_ts->0,
    ensures
        not_below_zero(on_axis(r, s)) == on_axis(r, s),
        0 <= on_axis(r, s),
        on_axis(r, s) + span_on_axis(r, s, Some(e)) <= (r.end_ts->0 - r.start_ts) - merged_pause_total(
            r.pause_events,
        ),
{
    lemma_fits_working_time(r.pause_events, r.start_ts, r.end_ts->0, s, e);
}

} // verus!
