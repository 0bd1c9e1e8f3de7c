//! Pieces of a master-control analysis run: the action statistics that its summary
//! reports, and the arm-decision logs that are analysed with it.

use vstd::prelude::*;
use crate::chart_style::{ends_with_str, ends_with_text, starts_with_str, starts_with_text};
use crate::config::str_eq;
use crate::flows::{flows_view, FlowView, NavigationFlow, OpView};
use crate::text::to_chars;

verus! {

/// How many navigations and arm, head and waist actions the flows hold.
#[derive(Debug, Clone, Copy, PartialEq, Eq, Structural)]
pub struct ActionCounts {
    pub navigation: usize,
    pub arm: usize,
    pub head: usize,
    pub waist: usize,
}

/// The number of actions of kind `t`.
pub open spec fn count_kind(ops: Seq<OpView>, t: Seq<char>) -> nat
    decreases ops.len(),
{
    if ops.len() == 0 {
        0
    } else {
        count_kind(ops.drop_last(), t) + if ops.last().action_type == t {
            1nat
        } else {
            0nat
        }
    }
}

/// The number of actions of kind `t` over all the flows.
pub open spec fn flows_count_kind(flows: Seq<FlowView>, t: Seq<char>) -> nat
    decreases flows.len(),
{
    if flows.len() == 0 {
        0
    } else {
        flows_count_kind(flows.drop_last(), t) + count_kind(flows.last().operations, t)
    }
}

/// The number of actions over all the flows.
pub open spec fn total_actions(flows: Seq<FlowView>) -> nat
    decreases flows.len(),
{
    if flows.len() == 0 {
        0
    } else {
        total_actions(flows.drop_last()) + flows.last().operations.len()
    }
}

proof fn lemma_count_kind_bound(ops: Seq<OpView>, t: Seq<char>)
    ensures
        count_kind(ops, t) <= ops.len(),
    decreases ops.len(),
{
    if ops.len() > 0 {
        lemma_count_kind_bound(ops.drop_last(), t);
    }
}

proof fn lemma_flows_count_bound(flows: Seq<FlowView>, t: Seq<char>)
    ensures
        flows_count_kind(flows, t) <= total_actions(flows),
    decreases flows.len(),
{
    if flows.len() > 0 {
        lemma_flows_count_bound(flows.drop_last(), t);
        lemma_count_kind_bound(flows.last().operations, t);
    }
}

proof fn lemma_total_prefix(flows: Seq<FlowView>, i: int)
    requires
        0 <= i <= flows.len(),
    ensures
        total_actions(flows.take(i)) <= total_actions(flows),
    decreases flows.len() - i,
{
    if i < flows.len() {
        lemma_total_prefix(flows, i + 1);
        assert(flows.take(i + 1).drop_last() =~= flows.take(i));
    } else {
        assert(flows.take(i) =~= flows);
    }
}

/// The number of actions of kind `t` in the operations.
fn count_ops(flow: &NavigationFlow, t: &str) -> (r: usize)
    ensures
        r == count_kind(flow@.operations, t@),
{
    let ghost ov = flow@.operations;
    let mut n: usize = 0;
    let mut k: usize = 0;
    while k < flow.operations.len()
        invariant
            k <= flow.operations@.len(),
            ov == flow@.operations,
            ov.len() == flow.operations@.len(),
            n == count_kind(ov.take(k as int), t@),
            n <= k,
        decreases flow.operations.len() - k,
    {
        assert(ov[k as int] == flow.operations@[k as int]@);
        proof {
            assert(ov.take(k + 1).drop_last() =~= ov.take(k as int));
        }
        if str_eq(flow.operations[k].action_type.as_str(), t) {
            n += 1;
        }
        k += 1;
    }
    assert(ov.take(ov.len() as int) =~= ov);
    n
}

/// The action statistics of the flows: one navigation per flow, and the number of
/// arm, head and waist actions.
pub fn count_actions(flows: &Vec<NavigationFlow>) -> (r: ActionCounts)
    requires
        total_actions(flows_view(flows@)) <= usize::MAX,
    ensures
        r.navigation == flows@.len(),
        r.arm == flows_count_kind(flows_view(flows@), "arm"@),
        r.head == flows_count_kind(flows_view(flows@), "head"@),
        r.waist == flows_count_kind(flows_view(flows@), "waist"@),
{
    let ghost fv = flows_view(flows@);
    let mut c = ActionCounts { navigation: 0, arm: 0, head: 0, waist: 0 };
    let mut i: usize = 0;
    while i < flows.len()
        invariant
            i <= flows@.len(),
            fv == flows_view(flows@),
            fv.len() == flows@.len(),
            total_actions(fv) <= usize::MAX,
            c.navigation == i,
            c.arm == flows_count_kind(fv.take(i as int), "arm"@),
            c.head == flows_count_kind(fv.take(i as int), "head"@),
            c.waist == flows_count_kind(fv.take(i as int), "waist"@),
        decreases flows.len() - i,
    {
        let f = &flows[i];
        assert(fv[i as int] == f@);
        proof {
            assert(fv.take(i + 1).drop_last() =~= fv.take(i as int));
            lemma_total_prefix(fv, i + 1);
            lemma_flows_count_bound(fv.take(i + 1), "arm"@);
            lemma_flows_count_bound(fv.take(i + 1), "head"@);
            lemma_flows_count_bound(fv.take(i + 1), "waist"@);
        }
        let a = count_ops(f, "arm");
        let h = count_ops(f, "head");
        let w = count_ops(f, "waist");
        c = ActionCounts {
            navigation: c.navigation + 1,
            arm: c.arm + a,
            head: c.head + h,
            waist: c.waist + w,
        };
        i += 1;
    }
    assert(fv.take(flows@.len() as int) =~= fv);
    c
}

/// Whether a file is an arm-decision log: its name starts with `arm_decision` and
/// ends with `.log`.
pub open spec fn arm_decision_log_name(name: Seq<char>) -> bool {
    starts_with_text(name, "arm_decision"@) && ends_with_text(name, ".log"@)
}

/// Whether a file name is that of an arm-decision log (see `arm_decision_log_name`).
pub fn is_arm_decision_log_name(name: &str) -> (r: bool)
    ensures
        r == arm_decision_log_name(name@),
{
    let cs = to_chars(name);
    starts_with_str(&cs, "arm_decision") && ends_with_str(&cs, ".log")
}

/// The names of the arm-decision logs among the names, in order.
pub open spec fn arm_decision_logs(names: Seq<Seq<char>>) -> Seq<Seq<char>>
    decreases names.len(),
{
    if names.len() == 0 {
        seq![]
    } else {
        let prev = arm_decision_logs(names.drop_last());
        if arm_decision_log_name(names.last()) {
            prev.push(names.last())
        } else {
            prev
        }
    }
}

/// The names of the arm-decision logs among the file names of a directory, in their
/// order (see `arm_decision_logs`).
pub fn find_arm_decision_logs(names: &Vec<String>) -> (r: Vec<String>)
    ensures
        r@.map_values(|s: String| s@) == arm_decision_logs(names@.map_values(|s: String| s@)),
{
    let ghost nv = names@.map_values(|s: String| s@);
    let mut out: Vec<String> = Vec::new();
    let mut i: usize = 0;
    while i < names.len()
        invariant
            i <= names@.len(),
            nv == names@.map_values(|s: String| s@),
            out@.map_values(|s: String| s@) == arm_decision_logs(nv.take(i as int)),
        decreases names.len() - i,
    {
        assert(nv[i as int] == names@[i as int]@);
        proof {
            assert(nv.take(i + 1).drop_last() =~= nv.take(i as int));
        }
        if is_arm_decision_log_name(names[i].as_str()) {
            let ghost before = out@;
            out.push(names[i].clone());
            assert(out@.map_values(|s: String| s@) =~= before.map_values(|s: String| s@).push(nv[i as int]));
        }
        i += 1;
    }
    assert(nv.take(names@.len() as int) =~= nv);
    out
}

} // verus!
