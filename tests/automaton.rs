use tasker::automaton::{ActResult, Fault, Machine, State, StateTools};

// The units of the basic scenario: `Begin` pushes `GetValue`, which finishes
// with a number, and `Begin` resets the machine to `End` with it.
enum Unit {
    Begin,
    GetValue,
    End(i32),
}

enum Value {
    Empty,
    Int(i32),
}

enum Action {
    Begin,
    Give(i32),
}

struct Data {
    value: i32,
}

impl State for Unit {
    type Action = Action;
    type Data = Data;
    type Value = Value;

    fn act(&mut self, _data: &mut Data, action: Action) -> ActResult<Unit, Value> {
        match (&*self, action) {
            (Unit::Begin, Action::Begin) => self.push(Unit::GetValue),
            (Unit::GetValue, Action::Give(v)) => self.pop(Value::Int(v)),
            _ => ActResult::Nothing,
        }
    }

    fn accepts(&self, value: &Value) -> bool {
        match self {
            Unit::Begin => matches!(value, Value::Int(_)),
            _ => matches!(value, Value::Empty),
        }
    }

    fn resume(&mut self, _data: &mut Data, value: Value) -> ActResult<Unit, Value> {
        match value {
            Value::Int(v) => self.transition(Unit::End(v)),
            Value::Empty => ActResult::Nothing,
        }
    }

    fn on_yield(&mut self, _data: &mut Data, _value: Value) -> ActResult<Unit, Value> {
        ActResult::Nothing
    }

    fn on_enter(&mut self, data: &mut Data) -> ActResult<Unit, Value> {
        if let Unit::End(v) = self {
            data.value = *v;
        }
        ActResult::Nothing
    }

    fn on_exit(&mut self, _data: &mut Data) {}
}

#[test]
fn test_machine() {
    let mut machine = Machine::new(Unit::Begin);
    let mut data = Data { value: 0 };

    machine.act(&mut data, Action::Begin).unwrap();
    machine.act(&mut data, Action::Give(10)).unwrap();

    assert_eq!(data.value, 10);
}

#[test]
fn scenario_push_then_finish_resets_to_end() {
    let mut machine = Machine::new(Unit::Begin);
    let mut data = Data { value: 0 };
    assert_eq!(machine.act(&mut data, Action::Begin), Ok(()));
    assert_eq!(machine.depth(), 1);
    assert!(matches!(machine.active(), Unit::GetValue));
    assert_eq!(machine.act(&mut data, Action::Give(10)), Ok(()));
    assert_eq!(machine.depth(), 0);
    assert!(matches!(machine.active(), Unit::End(10)));
    assert_eq!(data.value, 10);
}

// A unit driven by commands: each event tells the active unit which effect
// to declare, and every hook writes a line to the log.
struct Probe {
    name: u32,
}

#[derive(Clone, Copy)]
enum Cmd {
    Push(u32),
    Finish(i32),
    Yield(i32),
    Reset(u32),
    Replace(u32),
    Idle,
}

struct Log {
    lines: Vec<String>,
    // A command that a unit's `on_yield` or `resume` declares next.
    then: Cmd,
}

fn declare(unit: &Probe, cmd: Cmd) -> ActResult<Probe, i32> {
    match cmd {
        Cmd::Push(n) => unit.push(Probe { name: n }),
        Cmd::Finish(v) => unit.pop(v),
        Cmd::Yield(v) => unit.do_yield(v),
        Cmd::Reset(n) => unit.transition(Probe { name: n }),
        Cmd::Replace(n) => unit.replace(Probe { name: n }),
        Cmd::Idle => ActResult::Nothing,
    }
}

impl State for Probe {
    type Action = Cmd;
    type Data = Log;
    type Value = i32;

    fn act(&mut self, log: &mut Log, cmd: Cmd) -> ActResult<Probe, i32> {
        log.lines.push(format!("act {}", self.name));
        declare(self, cmd)
    }

    fn accepts(&self, value: &i32) -> bool {
        *value >= 0
    }

    fn resume(&mut self, log: &mut Log, value: i32) -> ActResult<Probe, i32> {
        log.lines.push(format!("resume {} {}", self.name, value));
        let next = std::mem::replace(&mut log.then, Cmd::Idle);
        declare(self, next)
    }

    fn on_yield(&mut self, log: &mut Log, value: i32) -> ActResult<Probe, i32> {
        log.lines.push(format!("yield {} {}", self.name, value));
        let next = std::mem::replace(&mut log.then, Cmd::Idle);
        declare(self, next)
    }

    fn on_enter(&mut self, log: &mut Log) -> ActResult<Probe, i32> {
        log.lines.push(format!("enter {}", self.name));
        ActResult::Nothing
    }

    fn on_exit(&mut self, log: &mut Log) {
        log.lines.push(format!("exit {}", self.name));
    }
}

fn probe_machine() -> (Machine<Probe>, Log) {
    (
        Machine::new(Probe { name: 0 }),
        Log {
            lines: Vec::new(),
            then: Cmd::Idle,
        },
    )
}

fn count(log: &Log, line: &str) -> usize {
    log.lines.iter().filter(|l| l.as_str() == line).count()
}

#[test]
fn pushes_undone_by_finishes_restore_active_and_depth() {
    let (mut m, mut log) = probe_machine();
    m.act(&mut log, Cmd::Push(1)).unwrap();
    let before_depth = m.depth();
    let before_name = m.active().name;
    for n in 2..6 {
        m.act(&mut log, Cmd::Push(n)).unwrap();
    }
    assert_eq!(m.depth(), 5);
    for v in 0..4 {
        m.act(&mut log, Cmd::Finish(v)).unwrap();
    }
    assert_eq!(m.depth(), before_depth);
    assert_eq!(m.active().name, before_name);
}

#[test]
fn reset_clears_the_stack() {
    let (mut m, mut log) = probe_machine();
    for n in 1..4 {
        m.act(&mut log, Cmd::Push(n)).unwrap();
    }
    assert_eq!(m.depth(), 3);
    m.act(&mut log, Cmd::Reset(9)).unwrap();
    assert_eq!(m.depth(), 0);
    assert_eq!(m.active().name, 9);
    // The active unit exits first, then the suspended ones, newest first.
    let tail: Vec<&str> = log.lines[log.lines.len() - 6..].iter().map(|s| s.as_str()).collect();
    assert_eq!(tail, vec!["act 3", "exit 3", "exit 2", "exit 1", "exit 0", "enter 9"]);
}

#[test]
fn replace_keeps_the_parent() {
    let (mut m, mut log) = probe_machine();
    m.act(&mut log, Cmd::Push(1)).unwrap();
    m.act(&mut log, Cmd::Replace(2)).unwrap();
    assert_eq!(m.depth(), 1);
    assert_eq!(m.active().name, 2);
    assert_eq!(count(&log, "exit 1"), 1);
    assert_eq!(count(&log, "enter 2"), 1);
    // Finishing the replacement resumes the original parent.
    m.act(&mut log, Cmd::Finish(4)).unwrap();
    assert_eq!(m.depth(), 0);
    assert_eq!(m.active().name, 0);
    assert_eq!(log.lines.last().unwrap(), "resume 0 4");
}

#[test]
fn yield_keeps_depth_and_active_unit() {
    let (mut m, mut log) = probe_machine();
    m.act(&mut log, Cmd::Push(1)).unwrap();
    m.act(&mut log, Cmd::Push(2)).unwrap();
    m.act(&mut log, Cmd::Yield(7)).unwrap();
    assert_eq!(m.depth(), 2);
    assert_eq!(m.active().name, 2);
    assert_eq!(log.lines.last().unwrap(), "yield 1 7");
    assert_eq!(count(&log, "exit 2"), 0);
}

#[test]
fn yield_cascades_to_the_grandparent() {
    let (mut m, mut log) = probe_machine();
    m.act(&mut log, Cmd::Push(1)).unwrap();
    m.act(&mut log, Cmd::Push(2)).unwrap();
    log.then = Cmd::Yield(8);
    m.act(&mut log, Cmd::Yield(7)).unwrap();
    assert_eq!(m.depth(), 2);
    assert_eq!(m.active().name, 2);
    let tail: Vec<&str> = log.lines[log.lines.len() - 2..].iter().map(|s| s.as_str()).collect();
    assert_eq!(tail, vec!["yield 1 7", "yield 0 8"]);
}

#[test]
fn every_unit_exits_once_and_suspended_units_do_not() {
    let (mut m, mut log) = probe_machine();
    m.act(&mut log, Cmd::Push(1)).unwrap();
    m.act(&mut log, Cmd::Push(2)).unwrap();
    assert_eq!(count(&log, "exit 0"), 0);
    assert_eq!(count(&log, "exit 1"), 0);
    m.act(&mut log, Cmd::Replace(3)).unwrap();
    m.act(&mut log, Cmd::Finish(1)).unwrap();
    m.act(&mut log, Cmd::Reset(4)).unwrap();
    for n in 0..4 {
        assert_eq!(count(&log, &format!("exit {}", n)), 1);
    }
    assert_eq!(count(&log, "exit 4"), 0);
}

#[test]
fn finish_with_empty_stack_is_fatal() {
    let (mut m, mut log) = probe_machine();
    assert_eq!(m.act(&mut log, Cmd::Finish(1)), Err(Fault::ReturnWithoutParent));
    assert_eq!(m.depth(), 0);
    assert_eq!(m.active().name, 0);
    assert_eq!(count(&log, "exit 0"), 0);
}

#[test]
fn yield_at_the_bottom_is_fatal() {
    let (mut m, mut log) = probe_machine();
    assert_eq!(m.act(&mut log, Cmd::Yield(1)), Err(Fault::YieldWithoutParent));
    // After a yield has reached the bottom frame, another one is fatal too.
    m.act(&mut log, Cmd::Push(1)).unwrap();
    log.then = Cmd::Yield(2);
    assert_eq!(m.act(&mut log, Cmd::Yield(1)), Err(Fault::YieldWithoutParent));
    assert_eq!(m.depth(), 1);
}

#[test]
fn value_of_the_wrong_kind_is_refused() {
    let (mut m, mut log) = probe_machine();
    m.act(&mut log, Cmd::Push(1)).unwrap();
    assert_eq!(m.act(&mut log, Cmd::Finish(-1)), Err(Fault::WrongInput));
    assert_eq!(m.depth(), 1);
    assert_eq!(m.active().name, 1);
    assert_eq!(m.act(&mut log, Cmd::Yield(-1)), Err(Fault::WrongInput));
    assert_eq!(count(&log, "exit 1"), 0);
}

#[test]
fn push_runs_enter_of_the_child_only() {
    let (mut m, mut log) = probe_machine();
    m.act(&mut log, Cmd::Push(1)).unwrap();
    assert_eq!(log.lines, vec!["act 0", "enter 1"]);
}

#[test]
fn faults_are_told_before_an_effect_is_carried_out() {
    let (mut m, mut log) = probe_machine();
    let probe = Probe { name: 9 };
    assert_eq!(m.fault(&ActResult::Nothing, 0), None);
    assert_eq!(m.fault(&probe.pop(1), 0), Some(Fault::ReturnWithoutParent));
    assert_eq!(m.fault(&probe.do_yield(1), 0), Some(Fault::YieldWithoutParent));
    m.act(&mut log, Cmd::Push(1)).unwrap();
    assert_eq!(m.fault(&probe.pop(-1), 1), Some(Fault::WrongInput));
    assert_eq!(m.fault(&probe.do_yield(-1), 1), Some(Fault::WrongInput));
    assert_eq!(m.fault(&probe.pop(3), 1), None);
    assert_eq!(m.fault(&probe.push(Probe { name: 2 }), 1), None);
}

#[test]
fn apply_result_interprets_one_declaration() {
    let (mut m, mut log) = probe_machine();
    let probe = Probe { name: 9 };
    assert!(m.apply_result(&mut log, ActResult::Nothing, 0).is_none());
    assert!(log.lines.is_empty());
    m.act(&mut log, Cmd::Push(1)).unwrap();
    let (next, frame) = m.apply_result(&mut log, probe.pop(3), 1).unwrap();
    assert!(matches!(next, ActResult::Nothing));
    assert_eq!(frame, 0);
    assert_eq!(m.depth(), 0);
    assert_eq!(m.active().name, 0);
    let tail: Vec<&str> = log.lines[log.lines.len() - 2..].iter().map(|s| s.as_str()).collect();
    assert_eq!(tail, vec!["exit 1", "resume 0 3"]);
}
