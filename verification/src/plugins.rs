//! The analyzers this program carries, their descriptions, and how an analyzer is
//! found by name.

use vstd::prelude::*;
use crate::chart_style::{contains_exec, contains_text};
use crate::config::str_eq;
use crate::text::{owned, to_chars};

verus! {

/// What an analyzer says of itself.
#[derive(Debug, Clone)]
pub struct PluginMetadata {
    pub name: String,
    pub version: String,
    pub description: String,
    pub author: String,
    /// File extensions it reads, e.g. `.log`.
    pub supported_extensions: Vec<String>,
}

/// The version of the analyzers.
pub const ANALYZER_VERSION: &'static str = "0.5.8";

/// The extensions of the log files the analyzers read.
fn log_extensions() -> (r: Vec<String>)
    ensures
        r@.len() == 2,
        r@[0]@ == ".log"@,
        r@[1]@ == ".txt"@,
{
    let mut v: Vec<String> = Vec::new();
    v.push(owned(".log"));
    v.push(owned(".txt"));
    v
}

/// The analyzer of master-control logs: rounds, flows, tables and charts.
#[derive(Debug, Clone, Copy)]
pub struct MasterControlAnalyzer;

impl MasterControlAnalyzer {
    /// Its description.
    pub fn metadata(&self) -> (r: PluginMetadata)
        ensures
            r.name@ == "master-control-analyzer"@,
            r.version@ == ANALYZER_VERSION@,
            r.description@ == "机器人控制系统日志分析器，支持轮次检测、流程分析和甘特图生成"@,
            r.author@ == "loosqk"@,
            r.supported_extensions@.len() == 2,
            r.supported_extensions@[0]@ == ".log"@,
            r.supported_extensions@[1]@ == ".txt"@,
    {
        PluginMetadata {
            name: owned("master-control-analyzer"),
            version: owned(ANALYZER_VERSION),
            description: owned("机器人控制系统日志分析器，支持轮次检测、流程分析和甘特图生成"),
            author: owned("loosqk"),
            supported_extensions: log_extensions(),
        }
    }
}

/// The analyzer of arm-decision logs: tasks and the modules run in them.
#[derive(Debug, Clone, Copy)]
pub struct ArmDecisionAnalyzer;

impl ArmDecisionAnalyzer {
    /// Its description.
    pub fn metadata(&self) -> (r: PluginMetadata)
        ensures
            r.name@ == "arm-decision-analyzer"@,
            r.version@ == ANALYZER_VERSION@,
            r.description@ == "机械臂决策系统日志分析器，支持任务检测和模块耗时分析"@,
            r.author@ == "loosqk"@,
            r.supported_extensions@.len() == 2,
            r.supported_extensions@[0]@ == ".log"@,
            r.supported_extensions@[1]@ == ".txt"@,
    {
        PluginMetadata {
            name: owned("arm-decision-analyzer"),
            version: owned(ANALYZER_VERSION),
            description: owned("机械臂决策系统日志分析器，支持任务检测和模块耗时分析"),
            author: owned("loosqk"),
            supported_extensions: log_extensions(),
        }
    }
}

/// The first name equal to `name`.
pub open spec fn first_exact(names: Seq<Seq<char>>, name: Seq<char>) -> Option<int>
    decreases names.len(),
{
    if names.len() == 0 {
        None
    } else if names[0] == name {
        Some(0)
    } else {
        match first_exact(names.drop_first(), name) {
            Some(i) => Some(i + 1),
            None => None,
        }
    }
}

/// The positions of the names that contain `name`, in order.
pub open spec fn containing(names: Seq<Seq<char>>, name: Seq<char>) -> Seq<int>
    decreases names.len(),
{
    if names.len() == 0 {
        seq![]
    } else {
        let prev = containing(names.drop_last(), name);
        if contains_text(names.last(), name) {
            prev.push(names.len() - 1)
        } else {
            prev
        }
    }
}

/// The analyzer chosen for a name: the first whose name is exactly it, else the only
/// one whose name contains it; none when several or none contain it.
pub open spec fn plugin_for(names: Seq<Seq<char>>, name: Seq<char>) -> Option<int> {
    match first_exact(names, name) {
        Some(i) => Some(i),
        None => if containing(names, name).len() == 1 {
            Some(containing(names, name)[0])
        } else {
            None
        },
    }
}

/// The position of the analyzer chosen for a name among the analyzers' names (see
/// `plugin_for`).
pub fn find_plugin(names: &Vec<String>, name: &str) -> (r: Option<usize>)
    ensures
        match r {
            Some(i) => plugin_for(names@.map_values(|s: String| s@), name@) == Some(i as int),
            None => plugin_for(names@.map_values(|s: String| s@), name@) is None,
        },
{
    let ghost nv = names@.map_values(|s: String| s@);
    let mut i: usize = 0;
    assert(nv.skip(0) =~= nv);
    while i < names.len()
        invariant
            i <= names@.len(),
            nv == names@.map_values(|s: String| s@),
            nv.len() == names@.len(),
            first_exact(nv, name@) == match first_exact(nv.skip(i as int), name@) {
                Some(j) => Some(j + i),
                None => None,
            },
        decreases names.len() - i,
    {
        assert(nv.skip(i as int)[0] == names@[i as int]@);
        assert(nv.skip(i as int).drop_first() =~= nv.skip(i + 1));
        if str_eq(names[i].as_str(), name) {
            return Some(i);
        }
        i += 1;
    }
    assert(nv.skip(i as int).len() == 0);
    let pc = to_chars(name);
    let mut found: Vec<usize> = Vec::new();
    let mut k: usize = 0;
    assert(nv.take(0) =~= Seq::<Seq<char>>::empty());
    while k < names.len()
        invariant
            k <= names@.len(),
            nv == names@.map_values(|s: String| s@),
            nv.len() == names@.len(),
            pc@ == name@,
            found@.len() == containing(nv.take(k as int), name@).len(),
            forall|j: int| 0 <= j < found@.len() ==> found@[j] as int == containing(nv.take(k as int), name@)[j],
        decreases names.len() - k,
    {
        let cs = to_chars(names[k].as_str());
        assert(nv[k as int] == names@[k as int]@);
        proof {
            assert(nv.take(k + 1).drop_last() =~= nv.take(k as int));
            assert(nv.take(k + 1).last() == nv[k as int]);
        }
        if contains_exec(&cs, &pc) {
            found.push(k);
        }
        k += 1;
    }
    assert(nv.take(names@.len() as int) =~= nv);
    if found.len() == 1 {
        Some(found[0])
    } else {
        None
    }
}

} // verus!
