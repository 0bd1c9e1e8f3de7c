//! Arm-decision logs: tasks from `Received goal.` to `result->message:`, and the
//! modules that run inside the body of each task.

use vstd::prelude::*;
use crate::pattern::{group_text, regex_captures, regex_is_match, regex_valid, take_group_text, Matcher};
use crate::remote::{trim, trimmed};
use crate::rounds::{line_views, LogLine};
use crate::text::{
    owned, parse_i32_chars, parse_i32_spec, parse_seconds_nanos, parse_u32_chars, parse_u32_spec,
    seconds_nanos, to_chars,
};

verus! {

/// A module run inside the body of a task.
#[derive(Debug, Clone)]
pub struct ArmDecisionModule {
    /// Name of the module, e.g. `GetTaskTypeAction` (empty until it is announced).
    pub name: String,
    pub cmd_code: Option<u32>,
    pub start_ts: i64,
    pub end_ts: Option<i64>,
    /// The cost that the module reports, in nanoseconds.
    pub cost: Option<u64>,
    /// `pending`, `ok` or `incomplete`.
    pub status: String,
}

/// A task of the arm-decision node.
#[derive(Debug, Clone)]
pub struct ArmDecisionTask {
    /// When the goal was received.
    pub start_ts: i64,
    /// When the result message was logged.
    pub end_ts: Option<i64>,
    pub body_task_start_ts: Option<i64>,
    pub body_task_end_ts: Option<i64>,
    pub task_type: Option<u32>,
    pub result_status: Option<i32>,
    pub result_message: Option<String>,
    pub modules: Vec<ArmDecisionModule>,
}

/// A module as plain values.
pub struct ModuleView {
    pub name: Seq<char>,
    pub cmd_code: Option<u32>,
    pub start_ts: i64,
    pub end_ts: Option<i64>,
    pub cost: Option<u64>,
    pub status: Seq<char>,
}

/// A task as plain values.
pub struct TaskView {
    pub start_ts: i64,
    pub end_ts: Option<i64>,
    pub body_task_start_ts: Option<i64>,
    pub body_task_end_ts: Option<i64>,
    pub task_type: Option<u32>,
    pub result_status: Option<i32>,
    pub result_message: Option<Seq<char>>,
    pub modules: Seq<ModuleView>,
}

impl View for ArmDecisionModule {
    type V = ModuleView;

    open spec fn view(&self) -> ModuleView {
        ModuleView {
            name: self.name@,
            cmd_code: self.cmd_code,
            start_ts: self.start_ts,
            end_ts: self.end_ts,
            cost: self.cost,
            status: self.status@,
        }
    }
}

/// The views of a sequence of modules.
pub open spec fn modules_view(v: Seq<ArmDecisionModule>) -> Seq<ModuleView> {
    v.map_values(|m: ArmDecisionModule| m@)
}

impl View for ArmDecisionTask {
    type V = TaskView;

    open spec fn view(&self) -> TaskView {
        TaskView {
            start_ts: self.start_ts,
            end_ts: self.end_ts,
            body_task_start_ts: self.body_task_start_ts,
            body_task_end_ts: self.body_task_end_ts,
            task_type: self.task_type,
            result_status: self.result_status,
            result_message: match self.result_message {
                Some(m) => Some(m@),
                None => None,
            },
            modules: modules_view(self.modules@),
        }
    }
}

/// The views of a sequence of tasks.
pub open spec fn tasks_view(v: Seq<ArmDecisionTask>) -> Seq<TaskView> {
    v.map_values(|t: ArmDecisionTask| t@)
}

pub const RECEIVED_GOAL_PATTERN: &'static str = r"\[rclcpp\]:\s*Received goal\.";
pub const BODY_TASK_START_PATTERN: &'static str = r"\[rclcpp\]:\s*=+BodyTask start=+";
pub const BODY_TASK_END_PATTERN: &'static str = r"\[rclcpp\]:\s*=+BodyTask end=+";
/// Group 1: the status code.
pub const RESULT_STATUS_PATTERN: &'static str = r"\[rclcpp\]:\s*result->status:\s*(-?\d+)";
/// Group 1: the message.
pub const RESULT_MESSAGE_PATTERN: &'static str = r"\[rclcpp\]:\s*result->message:\s*(.+)";
pub const MODULE_SEPARATOR_PATTERN: &'static str = r"\[rclcpp\]:\s*-{10,}";
/// Group 1: the module name.
pub const MODULE_TICK_PATTERN: &'static str = r"\[rclcpp\]:\s*(\w+)\s+tick!";
/// Group 1: the command code.
pub const CMD_CODE_PATTERN: &'static str = r"\[rclcpp\]:\s*cmd_code:\s*(\d+)";
/// Group 1: the task type.
pub const TASK_TYPE_PATTERN: &'static str = r"\[rclcpp\]:\s*task_type:\s*(\d+)";
/// Group 1: the cost in seconds.
pub const COST_PATTERN: &'static str = r"\[rclcpp\]:\s*cost\(s\):\s*([\d.]+)";
pub const MODULE_OK_PATTERN: &'static str = r"\[rclcpp\]:\s*(\w+)\s+ok\.";

/// The number of arm-decision markers.
pub const ARM_PATTERN_COUNT: usize = 11;

/// Arm-decision marker `k`, in the order in which a line is checked against them.
pub open spec fn arm_pattern(k: int) -> Seq<char> {
    if k == 0 { RECEIVED_GOAL_PATTERN@ }
    else if k == 1 { BODY_TASK_START_PATTERN@ }
    else if k == 2 { BODY_TASK_END_PATTERN@ }
    else if k == 3 { RESULT_STATUS_PATTERN@ }
    else if k == 4 { RESULT_MESSAGE_PATTERN@ }
    else if k == 5 { MODULE_SEPARATOR_PATTERN@ }
    else if k == 6 { MODULE_TICK_PATTERN@ }
    else if k == 7 { CMD_CODE_PATTERN@ }
    else if k == 8 { TASK_TYPE_PATTERN@ }
    else if k == 9 { COST_PATTERN@ }
    else { MODULE_OK_PATTERN@ }
}

/// Arm-decision marker `k`.
pub fn arm_pattern_str(k: usize) -> (r: &'static str)
    requires
        k < ARM_PATTERN_COUNT,
    ensures
        r@ == arm_pattern(k as int),
{
    match k {
        0 => RECEIVED_GOAL_PATTERN,
        1 => BODY_TASK_START_PATTERN,
        2 => BODY_TASK_END_PATTERN,
        3 => RESULT_STATUS_PATTERN,
        4 => RESULT_MESSAGE_PATTERN,
        5 => MODULE_SEPARATOR_PATTERN,
        6 => MODULE_TICK_PATTERN,
        7 => CMD_CODE_PATTERN,
        8 => TASK_TYPE_PATTERN,
        9 => COST_PATTERN,
        _ => MODULE_OK_PATTERN,
    }
}

/// Every arm-decision marker compiles.
pub open spec fn arm_patterns_valid() -> bool {
    forall|k: int| 0 <= k < ARM_PATTERN_COUNT ==> #[trigger] regex_valid(arm_pattern(k))
}

/// Marker `k` matches `line`.
pub open spec fn am(k: int, line: Seq<char>) -> bool {
    regex_is_match(arm_pattern(k), line)
}

/// The text of group 1 of the first match of marker `k` in `line`.
pub open spec fn acap(k: int, line: Seq<char>) -> Seq<char> {
    match regex_captures(arm_pattern(k), line) {
        Some(c) => group_text(c, 1),
        None => Seq::empty(),
    }
}

/// A cost in seconds as nanoseconds, when it is a number that fits a `u64`.
pub open spec fn cost_nanos(s: Seq<char>) -> Option<u64> {
    match seconds_nanos(s) {
        Some(v) => if v <= u64::MAX {
            Some(v as u64)
        } else {
            None
        },
        None => None,
    }
}

/// What an arm-decision line means.
pub enum ArmEvent {
    NewTask,
    BodyStart,
    BodyEnd,
    Status(Option<i32>),
    Message(Seq<char>),
    Separator,
    Tick(Seq<char>),
    CmdCode(Option<u32>),
    TaskType(Option<u32>),
    Cost(Option<u64>),
    ModuleOk,
    Other,
}

/// The meaning of a line: the first marker, in the order of the checks, that matches.
pub open spec fn arm_event(line: Seq<char>) -> ArmEvent {
    if am(0, line) { ArmEvent::NewTask }
    else if am(1, line) { ArmEvent::BodyStart }
    else if am(2, line) { ArmEvent::BodyEnd }
    else if am(3, line) { ArmEvent::Status(parse_i32_spec(acap(3, line))) }
    else if am(4, line) { ArmEvent::Message(trim(acap(4, line))) }
    else if am(5, line) { ArmEvent::Separator }
    else if am(6, line) { ArmEvent::Tick(acap(6, line)) }
    else if am(7, line) { ArmEvent::CmdCode(parse_u32_spec(acap(7, line))) }
    else if am(8, line) { ArmEvent::TaskType(parse_u32_spec(acap(8, line))) }
    else if am(9, line) { ArmEvent::Cost(cost_nanos(acap(9, line))) }
    else if am(10, line) { ArmEvent::ModuleOk }
    else { ArmEvent::Other }
}

/// The state of detection: finished tasks, the open task, the open module and
/// whether the body of the open task is running.
pub struct ArmState {
    pub tasks: Seq<TaskView>,
    pub current: Option<TaskView>,
    pub module: Option<ModuleView>,
    pub in_body: bool,
}

/// A task whose goal was received at `ts`.
pub open spec fn new_task(ts: i64) -> TaskView {
    TaskView {
        start_ts: ts,
        end_ts: None,
        body_task_start_ts: None,
        body_task_end_ts: None,
        task_type: None,
        result_status: None,
        result_message: None,
        modules: seq![],
    }
}

/// A module announced by a separator at `ts`.
pub open spec fn new_module(ts: i64) -> ModuleView {
    ModuleView { name: seq![], cmd_code: None, start_ts: ts, end_ts: None, cost: None, status: "pending"@ }
}

/// A module ended at `ts` unless it already ended.
pub open spec fn ended_at(m: ModuleView, ts: i64) -> ModuleView {
    if m.end_ts is None {
        ModuleView { end_ts: Some(ts), ..m }
    } else {
        m
    }
}

/// A task with the open module, if any, added to its modules.
pub open spec fn with_module(t: TaskView, m: Option<ModuleView>) -> TaskView {
    match m {
        Some(x) => TaskView { modules: t.modules.push(x), ..t },
        None => t,
    }
}

/// The open module after `f`, when there is one.
pub open spec fn map_module(m: Option<ModuleView>, f: spec_fn(ModuleView) -> ModuleView) -> Option<ModuleView> {
    match m {
        Some(x) => Some(f(x)),
        None => None,
    }
}

/// The state after a line at `ts` that means `ev`.
pub open spec fn arm_apply(st: ArmState, ts: i64, ev: ArmEvent) -> ArmState {
    match ev {
        ArmEvent::NewTask => ArmState {
            tasks: match st.current {
                Some(t) => st.tasks.push(
                    with_module(
                        t,
                        map_module(
                            st.module,
                            |m: ModuleView| if m.end_ts is None {
                                ModuleView { end_ts: Some(ts), status: "incomplete"@, ..m }
                            } else {
                                m
                            },
                        ),
                    ),
                ),
                None => st.tasks,
            },
            current: Some(new_task(ts)),
            module: if st.current is Some {
                None
            } else {
                st.module
            },
            in_body: false,
        },
        e => match st.current {
            None => st,
            Some(t) => match e {
                ArmEvent::BodyStart => ArmState {
                    current: Some(TaskView { body_task_start_ts: Some(ts), ..t }),
                    in_body: true,
                    ..st
                },
                ArmEvent::BodyEnd => ArmState {
                    current: Some(
                        with_module(
                            TaskView { body_task_end_ts: Some(ts), ..t },
                            map_module(st.module, |m: ModuleView| ended_at(m, ts)),
                        ),
                    ),
                    module: None,
                    in_body: false,
                    ..st
                },
                ArmEvent::Status(v) => ArmState {
                    current: Some(TaskView { result_status: v, ..t }),
                    ..st
                },
                ArmEvent::Message(msg) => ArmState {
                    current: Some(TaskView { result_message: Some(msg), end_ts: Some(ts), ..t }),
                    ..st
                },
                _ => if !st.in_body {
                    st
                } else {
                    match e {
                        ArmEvent::Separator => ArmState {
                            current: Some(
                                with_module(t, map_module(st.module, |m: ModuleView| ended_at(m, ts))),
                            ),
                            module: Some(new_module(ts)),
                            ..st
                        },
                        ArmEvent::Tick(name) => ArmState {
                            module: map_module(st.module, |m: ModuleView| ModuleView { name, ..m }),
                            ..st
                        },
                        ArmEvent::CmdCode(c) => ArmState {
                            module: map_module(st.module, |m: ModuleView| ModuleView { cmd_code: c, ..m }),
                            ..st
                        },
                        ArmEvent::TaskType(tt) => ArmState {
                            current: Some(TaskView { task_type: tt, ..t }),
                            ..st
                        },
                        ArmEvent::Cost(c) => ArmState {
                            module: map_module(st.module, |m: ModuleView| ModuleView { cost: c, ..m }),
                            ..st
                        },
                        ArmEvent::ModuleOk => ArmState {
                            module: map_module(
                                st.module,
                                |m: ModuleView| ModuleView { end_ts: Some(ts), status: "ok"@, ..m },
                            ),
                            ..st
                        },
                        _ => st,
                    }
                },
            },
        },
    }
}

/// The state after one line at `ts`.
pub open spec fn arm_step(st: ArmState, ts: i64, line: Seq<char>) -> ArmState {
    arm_apply(st, ts, arm_event(line))
}

/// The tasks once detection ends: the open task kept with its open module (marked
/// incomplete when it has no end).
pub open spec fn finished_tasks(st: ArmState) -> Seq<TaskView> {
    match st.current {
        Some(t) => st.tasks.push(
            with_module(
                t,
                map_module(
                    st.module,
                    |m: ModuleView| if m.end_ts is None {
                        ModuleView { status: "incomplete"@, ..m }
                    } else {
                        m
                    },
                ),
            ),
        ),
        None => st.tasks,
    }
}

/// The state after the lines, in order.
pub open spec fn arm_run(lines: Seq<(i64, Seq<char>)>) -> ArmState
    decreases lines.len(),
{
    if lines.len() == 0 {
        ArmState { tasks: seq![], current: None, module: None, in_body: false }
    } else {
        arm_step(arm_run(lines.drop_last()), lines.last().0, lines.last().1)
    }
}

/// The tasks of an arm-decision log: the tasks found by the markers, the last one
/// kept with its open module (marked incomplete when it has no end).
pub open spec fn detected_tasks(lines: Seq<(i64, Seq<char>)>) -> Seq<TaskView> {
    finished_tasks(arm_run(lines))
}

/// The compiled arm-decision markers.
pub struct ArmPatterns {
    ms: Vec<Matcher>,
}

/// The meaning of a line as computed (see `ArmEvent`).
pub enum ArmKind {
    NewTask,
    BodyStart,
    BodyEnd,
    Status(Option<i32>),
    Message(String),
    Separator,
    Tick(String),
    CmdCode(Option<u32>),
    TaskType(Option<u32>),
    Cost(Option<u64>),
    ModuleOk,
    Other,
}

impl ArmKind {
    /// The meaning as plain values.
    pub open spec fn event(&self) -> ArmEvent {
        match self {
            ArmKind::NewTask => ArmEvent::NewTask,
            ArmKind::BodyStart => ArmEvent::BodyStart,
            ArmKind::BodyEnd => ArmEvent::BodyEnd,
            ArmKind::Status(v) => ArmEvent::Status(*v),
            ArmKind::Message(m) => ArmEvent::Message(m@),
            ArmKind::Separator => ArmEvent::Separator,
            ArmKind::Tick(n) => ArmEvent::Tick(n@),
            ArmKind::CmdCode(c) => ArmEvent::CmdCode(*c),
            ArmKind::TaskType(t) => ArmEvent::TaskType(*t),
            ArmKind::Cost(c) => ArmEvent::Cost(*c),
            ArmKind::ModuleOk => ArmEvent::ModuleOk,
            ArmKind::Other => ArmEvent::Other,
        }
    }
}

impl ArmPatterns {
    /// Marker `k` is compiled from `arm_pattern(k)`.
    pub closed spec fn wf(&self) -> bool {
        &&& self.ms@.len() == ARM_PATTERN_COUNT
        &&& forall|k: int| 0 <= k < ARM_PATTERN_COUNT ==> (#[trigger] self.ms@[k]).source() == arm_pattern(k)
    }

    /// Compiles the markers; `None` when one of them does not compile.
    pub fn new() -> (r: Option<ArmPatterns>)
        ensures
            r is Some <==> arm_patterns_valid(),
            r matches Some(p) ==> p.wf(),
    {
        let mut ms: Vec<Matcher> = Vec::new();
        let mut k: usize = 0;
        while k < ARM_PATTERN_COUNT
            invariant
                k <= ARM_PATTERN_COUNT,
                ms@.len() == k,
                forall|j: int| 0 <= j < k ==> (#[trigger] ms@[j]).source() == arm_pattern(j),
                forall|j: int| 0 <= j < k ==> #[trigger] regex_valid(arm_pattern(j)),
            decreases ARM_PATTERN_COUNT - k,
        {
            match Matcher::compile(arm_pattern_str(k)) {
                Some(m) => ms.push(m),
                None => return None,
            }
            k += 1;
        }
        Some(ArmPatterns { ms })
    }

    fn m(&self, k: usize, line: &str) -> (r: bool)
        requires
            self.wf(),
            k < ARM_PATTERN_COUNT,
        ensures
            r == am(k as int, line@),
    {
        self.ms[k].is_match(line)
    }

    fn cap(&self, k: usize, line: &str) -> (r: Vec<char>)
        requires
            self.wf(),
            k < ARM_PATTERN_COUNT,
        ensures
            r@ == acap(k as int, line@),
    {
        match self.ms[k].captures(line) {
            Some(v) => {
                let g = take_group_text(&v, 1);
                to_chars(g.as_str())
            },
            None => Vec::new(),
        }
    }

    /// The meaning of a line (see `arm_event`).
    #[verifier::rlimit(30)]
    pub fn classify(&self, line: &str) -> (r: ArmKind)
        requires
            self.wf(),
        ensures
            r.event() == arm_event(line@),
    {
        if self.m(0, line) {
            return ArmKind::NewTask;
        }
        if self.m(1, line) {
            return ArmKind::BodyStart;
        }
        if self.m(2, line) {
            return ArmKind::BodyEnd;
        }
        if self.m(3, line) {
            let g = self.cap(3, line);
            assert(g@.subrange(0, g@.len() as int) =~= g@);
            return ArmKind::Status(parse_i32_chars(&g, 0, g.len()));
        }
        if self.m(4, line) {
            let g = self.cap(4, line);
            let s = crate::text::string_from_chars(&g, 0, g.len());
            assert(g@.subrange(0, g@.len() as int) =~= g@);
            return ArmKind::Message(trimmed(s.as_str()));
        }
        if self.m(5, line) {
            return ArmKind::Separator;
        }
        if self.m(6, line) {
            let g = self.cap(6, line);
            assert(g@.subrange(0, g@.len() as int) =~= g@);
            return ArmKind::Tick(crate::text::string_from_chars(&g, 0, g.len()));
        }
        if self.m(7, line) {
            let g = self.cap(7, line);
            assert(g@.subrange(0, g@.len() as int) =~= g@);
            return ArmKind::CmdCode(parse_u32_chars(&g, 0, g.len()));
        }
        if self.m(8, line) {
            let g = self.cap(8, line);
            assert(g@.subrange(0, g@.len() as int) =~= g@);
            return ArmKind::TaskType(parse_u32_chars(&g, 0, g.len()));
        }
        if self.m(9, line) {
            let g = self.cap(9, line);
            assert(g@.subrange(0, g@.len() as int) =~= g@);
            return ArmKind::Cost(parse_seconds_nanos(&g, 0, g.len()));
        }
        if self.m(10, line) {
            return ArmKind::ModuleOk;
        }
        ArmKind::Other
    }
}

/// The view of an optional task.
pub open spec fn opt_task_view(o: Option<ArmDecisionTask>) -> Option<TaskView> {
    match o {
        Some(t) => Some(t@),
        None => None,
    }
}

/// The view of an optional module.
pub open spec fn opt_module_view(o: Option<ArmDecisionModule>) -> Option<ModuleView> {
    match o {
        Some(m) => Some(m@),
        None => None,
    }
}

/// Adds a module to a task.
fn push_module(t: &mut ArmDecisionTask, m: ArmDecisionModule)
    ensures
        final(t)@ == with_module(old(t)@, Some(m@)),
{
    let ghost before = t.modules@;
    t.modules.push(m);
    assert(modules_view(t.modules@) =~= modules_view(before).push(m@));
}

/// Arm-decision detection under way: the finished tasks, the open task, its open
/// module and whether its body runs.
pub struct ArmDetector {
    tasks: Vec<ArmDecisionTask>,
    current: Option<ArmDecisionTask>,
    module: Option<ArmDecisionModule>,
    in_body: bool,
}

impl View for ArmDetector {
    type V = ArmState;

    closed spec fn view(&self) -> ArmState {
        self.state()
    }
}

impl ArmDetector {
    /// Detection before any line.
    pub fn new() -> (r: ArmDetector)
        ensures
            r@ == (ArmState { tasks: seq![], current: None, module: None, in_body: false }),
    {
        let r = ArmDetector { tasks: Vec::new(), current: None, module: None, in_body: false };
        assert(tasks_view(r.tasks@) =~= seq![]);
        r
    }

    /// The tasks found, the open one kept with its open module (see `finished_tasks`).
    pub fn finish(self) -> (r: Vec<ArmDecisionTask>)
        ensures
            tasks_view(r@) == finished_tasks(self@),
    {
        let mut tasks = self.tasks;
        match self.current {
            Some(mut t) => {
                match self.module {
                    Some(mut m) => {
                        if m.end_ts.is_none() {
                            m.status = owned("incomplete");
                        }
                        push_module(&mut t, m);
                    },
                    None => {},
                }
                let ghost before = tasks@;
                tasks.push(t);
                assert(tasks_view(tasks@) =~= tasks_view(before).push(t@));
            },
            None => {},
        }
        tasks
    }

    spec fn state(&self) -> ArmState {
        ArmState {
            tasks: tasks_view(self.tasks@),
            current: opt_task_view(self.current),
            module: opt_module_view(self.module),
            in_body: self.in_body,
        }
    }

    /// Takes one line into account.
    fn step(&mut self, pats: &ArmPatterns, line: &LogLine)
        requires
            pats.wf(),
        ensures
            final(self)@ == arm_step(old(self)@, line.timestamp, line.line@),
    {
        let kind = pats.classify(line.line.as_str());
        self.apply(kind, line.timestamp);
    }

    /// Takes into account a line at `ts` that means `kind`.
    #[verifier::rlimit(40)]
    pub fn apply(&mut self, kind: ArmKind, ts: i64)
        ensures
            final(self)@ == arm_apply(old(self)@, ts, kind.event()),
    {
        match kind {
            ArmKind::NewTask => {
                match self.current.take() {
                    Some(mut t) => {
                        match self.module.take() {
                            Some(mut m) => {
                                if m.end_ts.is_none() {
                                    m.end_ts = Some(ts);
                                    m.status = owned("incomplete");
                                }
                                push_module(&mut t, m);
                            },
                            None => {},
                        }
                        let ghost before = self.tasks@;
                        self.tasks.push(t);
                        assert(tasks_view(self.tasks@) =~= tasks_view(before).push(t@));
                    },
                    None => {},
                }
                let nt = ArmDecisionTask {
                    start_ts: ts,
                    end_ts: None,
                    body_task_start_ts: None,
                    body_task_end_ts: None,
                    task_type: None,
                    result_status: None,
                    result_message: None,
                    modules: Vec::new(),
                };
                assert(modules_view(nt.modules@) =~= seq![]);
                self.current = Some(nt);
                self.in_body = false;
            },
            _ => {
                match self.current.take() {
                    None => {},
                    Some(mut t) => {
                        match kind {
                            ArmKind::BodyStart => {
                                t.body_task_start_ts = Some(ts);
                                self.in_body = true;
                            },
                            ArmKind::BodyEnd => {
                                t.body_task_end_ts = Some(ts);
                                match self.module.take() {
                                    Some(mut m) => {
                                        if m.end_ts.is_none() {
                                            m.end_ts = Some(ts);
                                        }
                                        push_module(&mut t, m);
                                    },
                                    None => {},
                                }
                                self.in_body = false;
                            },
                            ArmKind::Status(v) => {
                                t.result_status = v;
                            },
                            ArmKind::Message(msg) => {
                                t.result_message = Some(msg);
                                t.end_ts = Some(ts);
                            },
                            ArmKind::Separator => {
                                if self.in_body {
                                    match self.module.take() {
                                        Some(mut m) => {
                                            if m.end_ts.is_none() {
                                                m.end_ts = Some(ts);
                                            }
                                            push_module(&mut t, m);
                                        },
                                        None => {},
                                    }
                                    self.module = Some(
                                        ArmDecisionModule {
                                            name: String::new(),
                                            cmd_code: None,
                                            start_ts: ts,
                                            end_ts: None,
                                            cost: None,
                                            status: owned("pending"),
                                        },
                                    );
                                }
                            },
                            ArmKind::Tick(name) => {
                                if self.in_body {
                                    match self.module.take() {
                                        Some(mut m) => {
                                            m.name = name;
                                            self.module = Some(m);
                                        },
                                        None => {},
                                    }
                                }
                            },
                            ArmKind::CmdCode(c) => {
                                if self.in_body {
                                    match self.module.take() {
                                        Some(mut m) => {
                                            m.cmd_code = c;
                                            self.module = Some(m);
                                        },
                                        None => {},
                                    }
                                }
                            },
                            ArmKind::TaskType(tt) => {
                                if self.in_body {
                                    t.task_type = tt;
                                }
                            },
                            ArmKind::Cost(c) => {
                                if self.in_body {
                                    match self.module.take() {
                                        Some(mut m) => {
                                            m.cost = c;
                                            self.module = Some(m);
                                        },
                                        None => {},
                                    }
                                }
                            },
                            ArmKind::ModuleOk => {
                                if self.in_body {
                                    match self.module.take() {
                                        Some(mut m) => {
                                            m.end_ts = Some(ts);
                                            m.status = owned("ok");
                                            self.module = Some(m);
                                        },
                                        None => {},
                                    }
                                }
                            },
                            _ => {},
                        }
                        self.current = Some(t);
                    },
                }
            },
        }
    }
}

/// Detects the tasks of an arm-decision log with compiled markers: exactly the tasks
/// that `detected_tasks` gives for the lines.
pub fn detect_arm_decision_tasks_with(pats: &ArmPatterns, lines: &Vec<LogLine>) -> (r: Vec<ArmDecisionTask>)
    requires
        pats.wf(),
    ensures
        tasks_view(r@) == detected_tasks(line_views(lines@)),
{
    let ghost lv = line_views(lines@);
    let mut d = ArmDetector::new();
    let mut i: usize = 0;
    assert(lv.take(0) =~= seq![]);
    while i < lines.len()
        invariant
            pats.wf(),
            i <= lines@.len(),
            lv == line_views(lines@),
            lv.len() == lines@.len(),
            d@ == arm_run(lv.take(i as int)),
        decreases lines.len() - i,
    {
        proof {
            assert(lv.take(i + 1).drop_last() =~= lv.take(i as int));
            assert(lv.take(i + 1).last() == lv[i as int]);
        }
        d.step(pats, &lines[i]);
        i += 1;
    }
    assert(lv.take(lines@.len() as int) =~= lv);
    d.finish()
}

/// Detects the tasks of an arm-decision log (see `detected_tasks`). Fails only when
/// one of the markers does not compile.
pub fn detect_arm_decision_tasks(lines: &Vec<LogLine>) -> (r: Result<Vec<ArmDecisionTask>, String>)
    ensures
        r is Ok <==> arm_patterns_valid(),
        r matches Ok(ts) ==> tasks_view(ts@) == detected_tasks(line_views(lines@)),
{
    match ArmPatterns::new() {
        Some(pats) => Ok(detect_arm_decision_tasks_with(&pats, lines)),
        None => Err(owned("arm-decision pattern does not compile")),
    }
}


// ---------------------------------------------------------------------------
// Records
// ---------------------------------------------------------------------------

/// One row of the arm-decision table: a module of a task (or the task itself when it
/// has no module). Relative times are nanoseconds from the start of the log.
#[derive(Debug, Clone)]
pub struct ArmCsvRecord {
    pub task_index: usize,
    pub task_start_rel: i128,
    pub task_end_rel: Option<i128>,
    pub task_duration: Option<i128>,
    pub task_type: Option<u32>,
    pub result_status: Option<i32>,
    pub module_index: usize,
    pub module_name: String,
    pub cmd_code: Option<u32>,
    pub module_start_rel: i128,
    pub module_end_rel: Option<i128>,
    pub module_duration: Option<i128>,
    pub module_status: String,
}

/// A row as plain values.
pub struct ArmCsvView {
    pub task_index: usize,
    pub task_start_rel: int,
    pub task_end_rel: Option<int>,
    pub task_duration: Option<int>,
    pub task_type: Option<u32>,
    pub result_status: Option<i32>,
    pub module_index: usize,
    pub module_name: Seq<char>,
    pub cmd_code: Option<u32>,
    pub module_start_rel: int,
    pub module_end_rel: Option<int>,
    pub module_duration: Option<int>,
    pub module_status: Seq<char>,
}

/// An optional difference.
pub open spec fn opt_minus(a: Option<i64>, b: i64) -> Option<int> {
    match a {
        Some(x) => Some(x - b),
        None => None,
    }
}

/// An optional `i128` as an optional integer.
pub open spec fn opt_int(a: Option<i128>) -> Option<int> {
    match a {
        Some(x) => Some(x as int),
        None => None,
    }
}

impl View for ArmCsvRecord {
    type V = ArmCsvView;

    open spec fn view(&self) -> ArmCsvView {
        ArmCsvView {
            task_index: self.task_index,
            task_start_rel: self.task_start_rel as int,
            task_end_rel: opt_int(self.task_end_rel),
            task_duration: opt_int(self.task_duration),
            task_type: self.task_type,
            result_status: self.result_status,
            module_index: self.module_index,
            module_name: self.module_name@,
            cmd_code: self.cmd_code,
            module_start_rel: self.module_start_rel as int,
            module_end_rel: opt_int(self.module_end_rel),
            module_duration: opt_int(self.module_duration),
            module_status: self.module_status@,
        }
    }
}

/// The views of a sequence of rows.
pub open spec fn arm_records_view(v: Seq<ArmCsvRecord>) -> Seq<ArmCsvView> {
    v.map_values(|r: ArmCsvRecord| r@)
}

/// The row of module `j` of task `i`.
pub open spec fn module_record(i: nat, t: TaskView, j: int, t0: i64) -> ArmCsvView {
    let m = t.modules[j];
    ArmCsvView {
        task_index: i as usize,
        task_start_rel: t.start_ts - t0,
        task_end_rel: opt_minus(t.end_ts, t0),
        task_duration: opt_minus(t.end_ts, t.start_ts),
        task_type: t.task_type,
        result_status: t.result_status,
        module_index: j as usize,
        module_name: m.name,
        cmd_code: m.cmd_code,
        module_start_rel: m.start_ts - t0,
        module_end_rel: opt_minus(m.end_ts, t0),
        module_duration: opt_minus(m.end_ts, m.start_ts),
        module_status: m.status,
    }
}

/// The row of task `i` when it has no module.
pub open spec fn bare_task_record(i: nat, t: TaskView, t0: i64) -> ArmCsvView {
    ArmCsvView {
        task_index: i as usize,
        task_start_rel: t.start_ts - t0,
        task_end_rel: opt_minus(t.end_ts, t0),
        task_duration: opt_minus(t.end_ts, t.start_ts),
        task_type: t.task_type,
        result_status: t.result_status,
        module_index: 0,
        module_name: "(no modules)"@,
        cmd_code: None,
        module_start_rel: t.start_ts - t0,
        module_end_rel: opt_minus(t.end_ts, t0),
        module_duration: opt_minus(t.end_ts, t.start_ts),
        module_status: "n/a"@,
    }
}

/// The rows of task `i`: one per module, or one for the task without modules.
pub open spec fn task_records(i: nat, t: TaskView, t0: i64) -> Seq<ArmCsvView> {
    if t.modules.len() == 0 {
        seq![bare_task_record(i, t, t0)]
    } else {
        Seq::new(t.modules.len(), |j: int| module_record(i, t, j, t0))
    }
}

/// The rows of the tasks, numbered from 0, in order.
pub open spec fn arm_records(tasks: Seq<TaskView>, t0: i64) -> Seq<ArmCsvView>
    decreases tasks.len(),
{
    if tasks.len() == 0 {
        seq![]
    } else {
        arm_records(tasks.drop_last(), t0) + task_records((tasks.len() - 1) as nat, tasks.last(), t0)
    }
}

fn minus(a: Option<i64>, b: i64) -> (r: Option<i128>)
    ensures
        opt_int(r) == opt_minus(a, b),
{
    match a {
        Some(x) => Some(x as i128 - b as i128),
        None => None,
    }
}

/// The rows of the arm-decision table (see `arm_records`).
pub fn build_arm_csv_records(tasks: &Vec<ArmDecisionTask>, t0: i64) -> (r: Vec<ArmCsvRecord>)
    ensures
        arm_records_view(r@) == arm_records(tasks_view(tasks@), t0),
{
    let ghost tv = tasks_view(tasks@);
    let mut out: Vec<ArmCsvRecord> = Vec::new();
    let mut i: usize = 0;
    assert(tv.take(0) =~= seq![]);
    assert(arm_records_view(out@) =~= seq![]);
    while i < tasks.len()
        invariant
            i <= tasks@.len(),
            tv == tasks_view(tasks@),
            tv.len() == tasks@.len(),
            arm_records_view(out@) == arm_records(tv.take(i as int), t0),
        decreases tasks.len() - i,
    {
        let t = &tasks[i];
        let ghost tvi = tv[i as int];
        assert(tvi == t@);
        let ghost base = arm_records_view(out@);
        let ts = t.start_ts as i128 - t0 as i128;
        if t.modules.len() == 0 {
            let rec = ArmCsvRecord {
                task_index: i,
                task_start_rel: ts,
                task_end_rel: minus(t.end_ts, t0),
                task_duration: minus(t.end_ts, t.start_ts),
                task_type: t.task_type,
                result_status: t.result_status,
                module_index: 0,
                module_name: owned("(no modules)"),
                cmd_code: None,
                module_start_rel: ts,
                module_end_rel: minus(t.end_ts, t0),
                module_duration: minus(t.end_ts, t.start_ts),
                module_status: owned("n/a"),
            };
            out.push(rec);
            assert(arm_records_view(out@) =~= base + seq![bare_task_record(i as nat, tvi, t0)]);
        } else {
            let ghost mv = modules_view(t.modules@);
            let mut j: usize = 0;
            assert(arm_records_view(out@) =~= base + Seq::new(0, |k: int| module_record(i as nat, tvi, k, t0)));
            while j < t.modules.len()
                invariant
                    j <= t.modules@.len(),
                    tvi == t@,
                    ts as int == t.start_ts - t0,
                    mv == modules_view(t.modules@),
                    tvi.modules == mv,
                    mv.len() == t.modules@.len(),
                    arm_records_view(out@) == base + Seq::new(j as nat, |k: int| module_record(i as nat, tvi, k, t0)),
                decreases t.modules.len() - j,
            {
                let m = &t.modules[j];
                assert(mv[j as int] == m@);
                let rec = ArmCsvRecord {
                    task_index: i,
                    task_start_rel: ts,
                    task_end_rel: minus(t.end_ts, t0),
                    task_duration: minus(t.end_ts, t.start_ts),
                    task_type: t.task_type,
                    result_status: t.result_status,
                    module_index: j,
                    module_name: m.name.clone(),
                    cmd_code: m.cmd_code,
                    module_start_rel: m.start_ts as i128 - t0 as i128,
                    module_end_rel: minus(m.end_ts, t0),
                    module_duration: minus(m.end_ts, m.start_ts),
                    module_status: m.status.clone(),
                };
                assert(rec@ == module_record(i as nat, tvi, j as int, t0));
                let ghost before = arm_records_view(out@);
                out.push(rec);
                assert(arm_records_view(out@) =~= before.push(rec@));
                j += 1;
                assert(arm_records_view(out@) =~= base + Seq::new(j as nat, |k: int| module_record(i as nat, tvi, k, t0)));
            }
        }
        proof {
            assert(tv.take(i + 1).drop_last() =~= tv.take(i as int));
            assert(tv.take(i + 1).last() == tvi);
        }
        i += 1;
    }
    assert(tv.take(tasks@.len() as int) =~= tv);
    out
}

// ---------------------------------------------------------------------------
// Task summary
// ---------------------------------------------------------------------------

/// One row of the task summary: a task with its times relative to the start of the
/// log, in nanoseconds, and its number of modules.
#[derive(Debug, Clone)]
pub struct TaskSummaryRecord {
    pub task_index: usize,
    pub task_type: Option<u32>,
    pub start_rel: i128,
    pub end_rel: Option<i128>,
    pub duration: Option<i128>,
    pub module_count: usize,
    pub result_status: Option<i32>,
    pub result_message: Option<String>,
}

/// A summary row as plain values.
pub struct TaskSummaryView {
    pub task_index: usize,
    pub task_type: Option<u32>,
    pub start_rel: int,
    pub end_rel: Option<int>,
    pub duration: Option<int>,
    pub module_count: nat,
    pub result_status: Option<i32>,
    pub result_message: Option<Seq<char>>,
}

impl View for TaskSummaryRecord {
    type V = TaskSummaryView;

    open spec fn view(&self) -> TaskSummaryView {
        TaskSummaryView {
            task_index: self.task_index,
            task_type: self.task_type,
            start_rel: self.start_rel as int,
            end_rel: opt_int(self.end_rel),
            duration: opt_int(self.duration),
            module_count: self.module_count as nat,
            result_status: self.result_status,
            result_message: match self.result_message {
                Some(m) => Some(m@),
                None => None,
            },
        }
    }
}

/// The views of a sequence of summary rows.
pub open spec fn summaries_view(v: Seq<TaskSummaryRecord>) -> Seq<TaskSummaryView> {
    v.map_values(|r: TaskSummaryRecord| r@)
}

/// The summary row of task `i`.
pub open spec fn task_summary(i: nat, t: TaskView, t0: i64) -> TaskSummaryView {
    TaskSummaryView {
        task_index: i as usize,
        task_type: t.task_type,
        start_rel: t.start_ts - t0,
        end_rel: opt_minus(t.end_ts, t0),
        duration: opt_minus(t.end_ts, t.start_ts),
        module_count: t.modules.len(),
        result_status: t.result_status,
        result_message: t.result_message,
    }
}

/// One summary row per task, in order, numbered from 0 (see `task_summary`).
pub fn build_task_summary(tasks: &Vec<ArmDecisionTask>, t0: i64) -> (r: Vec<TaskSummaryRecord>)
    ensures
        summaries_view(r@) == Seq::new(
            tasks@.len(),
            |i: int| task_summary(i as nat, tasks_view(tasks@)[i], t0),
        ),
{
    let ghost tv = tasks_view(tasks@);
    let mut out: Vec<TaskSummaryRecord> = Vec::new();
    let mut i: usize = 0;
    while i < tasks.len()
        invariant
            i <= tasks@.len(),
            tv == tasks_view(tasks@),
            tv.len() == tasks@.len(),
            summaries_view(out@) == Seq::new(i as nat, |k: int| task_summary(k as nat, tv[k], t0)),
        decreases tasks.len() - i,
    {
        let t = &tasks[i];
        assert(tv[i as int] == t@);
        let rec = TaskSummaryRecord {
            task_index: i,
            task_type: t.task_type,
            start_rel: t.start_ts as i128 - t0 as i128,
            end_rel: minus(t.end_ts, t0),
            duration: minus(t.end_ts, t.start_ts),
            module_count: t.modules.len(),
            result_status: t.result_status,
            result_message: match &t.result_message {
                Some(m) => Some(m.clone()),
                None => None,
            },
        };
        assert(rec@ == task_summary(i as nat, tv[i as int], t0));
        let ghost before = summaries_view(out@);
        out.push(rec);
        assert(summaries_view(out@) =~= before.push(rec@));
        i += 1;
        assert(summaries_view(out@) =~= Seq::new(i as nat, |k: int| task_summary(k as nat, tv[k], t0)));
    }
    out
}


/// An optional length: end minus start, when there is an end.
pub open spec fn length_of(start: int, end: Option<int>) -> Option<int> {
    match end {
        Some(e) => Some(e - start),
        None => None,
    }
}

/// Every row of the arm-decision table belongs to one of the tasks and carries that
/// task's own times relative to `t0`; a duration is always the row's end minus its
/// start: the task's length for the task, the module's length for the module.
pub proof fn lemma_arm_rows_own_durations(tasks: Seq<TaskView>, t0: i64)
    requires
        tasks.len() <= usize::MAX,
    ensures
        forall|j: int| 0 <= j < arm_records(tasks, t0).len() ==> {
            let r = #[trigger] arm_records(tasks, t0)[j];
            &&& r.task_index < tasks.len()
            &&& r.task_start_rel == tasks[r.task_index as int].start_ts - t0
            &&& r.task_end_rel == (match tasks[r.task_index as int].end_ts {
                Some(e) => Some(e - t0),
                None => None::<int>,
            })
            &&& r.task_duration == length_of(r.task_start_rel, r.task_end_rel)
            &&& r.module_duration == length_of(r.module_start_rel, r.module_end_rel)
        },
    decreases tasks.len(),
{
    if tasks.len() > 0 {
        let prev = tasks.drop_last();
        lemma_arm_rows_own_durations(prev, t0);
        let n = (tasks.len() - 1) as nat;
        let recs = arm_records(tasks, t0);
        let pr = arm_records(prev, t0);
        let tr = task_records(n, tasks.last(), t0);
        assert(recs == pr + tr);
        assert forall|j: int| 0 <= j < recs.len() implies {
            let r = #[trigger] recs[j];
            &&& r.task_index < tasks.len()
            &&& r.task_start_rel == tasks[r.task_index as int].start_ts - t0
            &&& r.task_end_rel == (match tasks[r.task_index as int].end_ts {
                Some(e) => Some(e - t0),
                None => None::<int>,
            })
            &&& r.task_duration == length_of(r.task_start_rel, r.task_end_rel)
            &&& r.module_duration == length_of(r.module_start_rel, r.module_end_rel)
        } by {
            if j < pr.len() {
                assert(recs[j] == pr[j]);
                assert(prev[pr[j].task_index as int] == tasks[pr[j].task_index as int]);
            } else {
                assert(recs[j] == tr[j - pr.len()]);
            }
        }
    }
}
} // verus!
