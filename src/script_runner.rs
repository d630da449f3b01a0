use vstd::prelude::*;
use crate::condition_parser::{holds, resolve, resolve_value};
use crate::script_parser::{CommandKind, Instr, InstrView, parse_program, program_of, program_view, values_view};
use crate::text::{abs, compute_message_with_variables, int_text, int_to_text, substitute};
use crate::value::{SCALE, Value, ValueView, chars_of, copy_value, string_from_chars};
use crate::variables::Variables;

verus! {

/// What an actuator is told.
#[derive(Clone, Copy, Debug, PartialEq, Eq, Structural)]
pub enum ActuatorMessage {
    On,
    Off,
    OnPulse,
}

impl ActuatorMessage {
    pub open spec fn text_spec(self) -> Seq<char> {
        match self {
            ActuatorMessage::On => "ON"@,
            ActuatorMessage::Off => "OFF"@,
            ActuatorMessage::OnPulse => "ON-PULSE"@,
        }
    }

    /// The body sent to the device.
    pub fn text(&self) -> (r: String)
        ensures
            r@ == self.text_spec(),
    {
        match self {
            ActuatorMessage::On => "ON".to_string(),
            ActuatorMessage::Off => "OFF".to_string(),
            ActuatorMessage::OnPulse => "ON-PULSE".to_string(),
        }
    }
}

/// Outside work that a script step asks for.
pub enum Effect {
    /// Nothing outside: step again.
    Proceed,
    /// Send `message` to the actuator `id`, then resume with its reply.
    Actuate(i32, ActuatorMessage),
    /// Ask the sensor `id` for a value, then resume with its reply.
    ReadSensor(i32),
    /// Show an information message on the dashboard, then resume.
    Dashboard(String),
    /// Sleep for so many milliseconds, then resume.
    Delay(u64),
    /// The script waits for `resume`.
    Waiting,
    /// The script ran to its end.
    Completed,
    /// A command failed; the script stopped.
    Failed,
}

pub enum EffectView {
    Proceed,
    Actuate(i32, ActuatorMessage),
    ReadSensor(i32),
    Dashboard(Seq<char>),
    Delay(u64),
    Waiting,
    Completed,
    Failed,
}

impl View for Effect {
    type V = EffectView;

    open spec fn view(&self) -> EffectView {
        match self {
            Effect::Proceed => EffectView::Proceed,
            Effect::Actuate(id, m) => EffectView::Actuate(*id, *m),
            Effect::ReadSensor(id) => EffectView::ReadSensor(*id),
            Effect::Dashboard(s) => EffectView::Dashboard(s@),
            Effect::Delay(ms) => EffectView::Delay(*ms),
            Effect::Waiting => EffectView::Waiting,
            Effect::Completed => EffectView::Completed,
            Effect::Failed => EffectView::Failed,
        }
    }
}

/// Where a script run stands.
#[derive(Clone, Copy, Debug, PartialEq, Eq, Structural)]
pub enum RunState {
    Running,
    Waiting,
    Completed,
    /// A command failed.
    Failed,
    /// The gateway could not carry out a command's outside work (its own
    /// store or connections failed).
    InfraFailed,
}

/// What a command does, given the variables.
pub enum CommandResult {
    Store(Seq<char>, ValueView),
    Ask(EffectView),
    Fail,
}

/// `a / b`, rounded toward zero.
pub open spec fn tdiv(a: int, b: int) -> int {
    let q = (abs(a) / abs(b)) as int;
    if (a < 0) != (b < 0) { -q } else { q }
}

/// The remainder of `a / b` rounded toward zero: it takes the sign of `a`.
pub open spec fn rem_spec(a: int, b: int) -> int {
    let r = (abs(a) % abs(b)) as int;
    if a < 0 { -r } else { r }
}

pub open spec fn fits_i64(x: int) -> bool {
    i64::MIN <= x <= i64::MAX
}

/// The result of an arithmetic command on fixed-point numbers: products and
/// quotients round toward zero; a zero divisor, or a result out of range,
/// gives none.
pub open spec fn arith(k: CommandKind, a: i64, b: i64) -> Option<i64> {
    let s = SCALE as int;
    let r: Option<int> = match k {
        CommandKind::Add => Some(a + b),
        CommandKind::Subtract => Some(a - b),
        CommandKind::Multiply => Some(tdiv(a * b, s)),
        CommandKind::Divide => if b == 0 { None } else { Some(tdiv(a * s, b as int)) },
        CommandKind::Modulo => if b == 0 { None } else { Some(rem_spec(a as int, b as int)) },
        _ => None,
    };
    match r {
        Some(x) => if fits_i64(x) { Some(x as i64) } else { None },
        None => None,
    }
}

/// The whole number that a value holds, if it holds one that fits an `i32`.
pub open spec fn whole_i32(v: ValueView) -> Option<i32> {
    match v {
        ValueView::Number(x) => {
            let a = abs(x as int);
            let w: int = if x < 0 { -(a / (SCALE as nat)) } else { (a / (SCALE as nat)) as int };
            if a % (SCALE as nat) == 0 && i32::MIN <= w <= i32::MAX { Some(w as i32) } else { None }
        },
        _ => None,
    }
}

/// The name under which `READ` stores a sensor's reply.
pub open spec fn read_variable(id: i32) -> Seq<char> {
    "$sensor_id_"@ + int_text(id as int)
}

pub open spec fn is_arith(k: CommandKind) -> bool {
    k == CommandKind::Add || k == CommandKind::Subtract || k == CommandKind::Multiply || k == CommandKind::Divide
        || k == CommandKind::Modulo
}

/// What a command does: it binds a variable, asks for outside work, or fails.
pub open spec fn command_result(k: CommandKind, args: Seq<ValueView>, vars: Map<Seq<char>, ValueView>) -> CommandResult {
    match k {
        CommandKind::SetVariable => if args.len() == 2 {
            match args[0] {
                ValueView::Variable(n) => CommandResult::Store(n, args[1]),
                _ => CommandResult::Fail,
            }
        } else {
            CommandResult::Fail
        },
        CommandKind::UnsetVariable => if args.len() == 1 {
            match args[0] {
                ValueView::Variable(n) => CommandResult::Store(n, ValueView::Unset),
                _ => CommandResult::Fail,
            }
        } else {
            CommandResult::Fail
        },
        CommandKind::Activate | CommandKind::Deactivate | CommandKind::Pulse | CommandKind::Read => {
            if args.len() != 1 {
                CommandResult::Fail
            } else {
                match whole_i32(resolve(args[0], vars)) {
                    Some(id) => CommandResult::Ask(match k {
                        CommandKind::Activate => EffectView::Actuate(id, ActuatorMessage::On),
                        CommandKind::Deactivate => EffectView::Actuate(id, ActuatorMessage::Off),
                        CommandKind::Pulse => EffectView::Actuate(id, ActuatorMessage::OnPulse),
                        _ => EffectView::ReadSensor(id),
                    }),
                    None => CommandResult::Fail,
                }
            }
        },
        CommandKind::Dashboard => if args.len() == 1 {
            match resolve(args[0], vars) {
                ValueView::Text(m) => CommandResult::Ask(EffectView::Dashboard(substitute(m, vars))),
                _ => CommandResult::Fail,
            }
        } else {
            CommandResult::Fail
        },
        CommandKind::Delay => if args.len() == 1 {
            match whole_i32(resolve(args[0], vars)) {
                Some(ms) => if ms >= 0 { CommandResult::Ask(EffectView::Delay(ms as u64)) } else { CommandResult::Fail },
                None => CommandResult::Fail,
            }
        } else {
            CommandResult::Fail
        },
        _ => if args.len() == 2 {
            match args[0] {
                ValueView::Variable(n) => if vars.contains_key(n) {
                    match (vars[n], resolve(args[1], vars)) {
                        (ValueView::Number(a), ValueView::Number(b)) => match arith(k, a, b) {
                            Some(c) => CommandResult::Store(n, ValueView::Number(c)),
                            None => CommandResult::Fail,
                        },
                        _ => CommandResult::Fail,
                    }
                } else {
                    CommandResult::Fail
                },
                _ => CommandResult::Fail,
            }
        } else {
            CommandResult::Fail
        },
    }
}

/// The index of the `End` that closes the block open at depth `d` when the
/// scan reaches `i`; the program's length when there is none.
pub open spec fn find_end(p: Seq<InstrView>, i: int, d: nat) -> int
    decreases p.len() - i,
{
    if i < 0 || i >= p.len() {
        p.len() as int
    } else if (p[i] matches InstrView::End) {
        if d == 0 { i } else { find_end(p, i + 1, (d - 1) as nat) }
    } else if crate::script_parser::is_opener(p[i]) {
        find_end(p, i + 1, d + 1)
    } else {
        find_end(p, i + 1, d)
    }
}

/// Scanning back from `i`, the opener of the block at depth `d`; -1 when
/// there is none.
pub open spec fn find_open(p: Seq<InstrView>, i: int, d: nat) -> int
    decreases i + 1,
{
    if i < 0 || i >= p.len() {
        -1
    } else if (p[i] matches InstrView::End) {
        find_open(p, i - 1, d + 1)
    } else if crate::script_parser::is_opener(p[i]) {
        if d == 0 { i } else { find_open(p, i - 1, (d - 1) as nat) }
    } else {
        find_open(p, i - 1, d)
    }
}

pub open spec fn is_loop(x: InstrView) -> bool {
    x matches InstrView::While(_) || x matches InstrView::Loop
}

/// Scanning back from `i`, the opener of the innermost loop around it; -1 when
/// there is none.
pub open spec fn enclosing_loop(p: Seq<InstrView>, i: int, d: nat) -> int
    decreases i + 1,
{
    if i < 0 || i >= p.len() {
        -1
    } else if (p[i] matches InstrView::End) {
        enclosing_loop(p, i - 1, d + 1)
    } else if crate::script_parser::is_opener(p[i]) {
        if d == 0 {
            if is_loop(p[i]) { i } else { enclosing_loop(p, i - 1, 0) }
        } else {
            enclosing_loop(p, i - 1, (d - 1) as nat)
        }
    } else {
        enclosing_loop(p, i - 1, d)
    }
}

/// The state of a script run.
pub struct ScriptView {
    pub program: Seq<InstrView>,
    pub pc: int,
    pub vars: Map<Seq<char>, ValueView>,
    pub state: RunState,
    pub pending_read: Option<i32>,
}

/// Going on after the `End` of the block whose body starts at `from`; without
/// such an `End` the run is over.
pub open spec fn skip_block(s: ScriptView, from: int) -> (ScriptView, EffectView) {
    let e = find_end(s.program, from, 0);
    if e >= s.program.len() {
        (ScriptView { state: RunState::Completed, ..s }, EffectView::Completed)
    } else {
        (ScriptView { pc: e + 1, ..s }, EffectView::Proceed)
    }
}

/// One step from a running state: the next state and the effect.
pub open spec fn step_spec(s: ScriptView) -> (ScriptView, EffectView) {
    let p = s.program;
    let pc = s.pc;
    if pc < 0 || pc >= p.len() {
        (ScriptView { state: RunState::Completed, ..s }, EffectView::Completed)
    } else {
        match p[pc] {
            InstrView::Command(k, args) => match command_result(k, args, s.vars) {
                CommandResult::Store(n, v) => (ScriptView { pc: pc + 1, vars: s.vars.insert(n, v), ..s }, EffectView::Proceed),
                CommandResult::Ask(e) => (ScriptView {
                    pc: pc + 1,
                    state: RunState::Waiting,
                    pending_read: match e {
                        EffectView::ReadSensor(id) => Some(id),
                        _ => None,
                    },
                    ..s
                }, e),
                CommandResult::Fail => (ScriptView { state: RunState::Failed, ..s }, EffectView::Failed),
            },
            InstrView::If(c) => if holds(c, s.vars) {
                (ScriptView { pc: pc + 1, ..s }, EffectView::Proceed)
            } else {
                skip_block(s, pc + 1)
            },
            InstrView::While(c) => if holds(c, s.vars) {
                (ScriptView { pc: pc + 1, ..s }, EffectView::Proceed)
            } else {
                skip_block(s, pc + 1)
            },
            InstrView::Loop => (ScriptView { pc: pc + 1, ..s }, EffectView::Proceed),
            InstrView::End => {
                let o = find_open(p, pc - 1, 0);
                if o >= 0 && is_loop(p[o]) {
                    (ScriptView { pc: o, ..s }, EffectView::Proceed)
                } else {
                    (ScriptView { pc: pc + 1, ..s }, EffectView::Proceed)
                }
            },
            InstrView::Break => {
                let l = enclosing_loop(p, pc - 1, 0);
                if l < 0 {
                    (ScriptView { state: RunState::Completed, ..s }, EffectView::Completed)
                } else {
                    skip_block(s, l + 1)
                }
            },
            InstrView::Continue => {
                let l = enclosing_loop(p, pc - 1, 0);
                if l < 0 {
                    (ScriptView { pc: pc + 1, ..s }, EffectView::Proceed)
                } else {
                    (ScriptView { pc: l, ..s }, EffectView::Proceed)
                }
            },
        }
    }
}


fn tdiv_exec(x: i128, y: i128) -> (r: i128)
    requires
        y != 0,
        -0x4000_0000_0000_0000_0000_0000_0000_0000 <= x <= 0x4000_0000_0000_0000_0000_0000_0000_0000,
        -0x4000_0000_0000_0000_0000_0000_0000_0000 <= y <= 0x4000_0000_0000_0000_0000_0000_0000_0000,
    ensures
        r == tdiv(x as int, y as int),
{
    let ax: u128 = if x < 0 { (-x) as u128 } else { x as u128 };
    let ay: u128 = if y < 0 { (-y) as u128 } else { y as u128 };
    let q = ax / ay;
    assert(q <= ax) by (nonlinear_arith)
        requires
            q == ax / ay,
            ay >= 1,
    ;
    if (x < 0) != (y < 0) {
        -(q as i128)
    } else {
        q as i128
    }
}

fn arith_exec(k: CommandKind, a: i64, b: i64) -> (r: Option<i64>)
    ensures
        r == arith(k, a, b),
{
    let s: i128 = 1000000;
    let ai = a as i128;
    let bi = b as i128;
    let x: i128 = match k {
        CommandKind::Add => ai + bi,
        CommandKind::Subtract => ai - bi,
        CommandKind::Multiply => {
            assert(-0x4000_0000_0000_0000_0000_0000_0000_0000 <= ai * bi <= 0x4000_0000_0000_0000_0000_0000_0000_0000) by (nonlinear_arith)
                requires
                    -0x8000_0000_0000_0000 <= ai <= 0x8000_0000_0000_0000,
                    -0x8000_0000_0000_0000 <= bi <= 0x8000_0000_0000_0000,
            ;
            tdiv_exec(ai * bi, s)
        },
        CommandKind::Divide => {
            if b == 0 {
                return None;
            }
            tdiv_exec(ai * s, bi)
        },
        CommandKind::Modulo => {
            if b == 0 {
                return None;
            }
            let aa: u128 = if ai < 0 { (-ai) as u128 } else { ai as u128 };
            let ab: u128 = if bi < 0 { (-bi) as u128 } else { bi as u128 };
            let m = aa % ab;
            assert(m < ab) by (nonlinear_arith)
                requires
                    m == aa % ab,
                    ab >= 1,
            ;
            if ai < 0 { -(m as i128) } else { m as i128 }
        },
        _ => return None,
    };
    if x < i64::MIN as i128 || x > i64::MAX as i128 {
        None
    } else {
        Some(x as i64)
    }
}

fn whole_i32_exec(v: &Value) -> (r: Option<i32>)
    ensures
        r == whole_i32(v@),
{
    match v {
        Value::Number(x) => {
            let a: u64 = if *x < 0 { (-(*x as i128)) as u64 } else { *x as u64 };
            if a % 1000000 != 0 {
                return None;
            }
            let w: i64 = if *x < 0 { -((a / 1000000) as i64) } else { (a / 1000000) as i64 };
            if w < i32::MIN as i64 || w > i32::MAX as i64 {
                None
            } else {
                Some(w as i32)
            }
        },
        _ => None,
    }
}

/// The name under which `READ` stores a reply (see `read_variable`).
pub fn read_variable_name(id: i32) -> (r: Vec<char>)
    ensures
        r@ == read_variable(id),
{
    let mut r = chars_of("$sensor_id_");
    let digits = int_to_text(id as i64);
    let ghost r0 = r@;
    let mut j: usize = 0;
    while j < digits.len()
        invariant
            j <= digits@.len(),
            r@ == r0 + digits@.subrange(0, j as int),
        decreases digits@.len() - j,
    {
        r.push(digits[j]);
        j += 1;
        assert(r@ =~= r0 + digits@.subrange(0, j as int));
    }
    assert(digits@.subrange(0, digits@.len() as int) =~= digits@);
    r
}

/// What a command does, in exec form.
pub enum CommandFunctionResult {
    Store(Vec<char>, Value),
    Ask(Effect),
    Fail,
}

pub open spec fn outcome_matches(o: CommandFunctionResult, c: CommandResult) -> bool {
    match (o, c) {
        (CommandFunctionResult::Store(n, v), CommandResult::Store(m, w)) => n@ == m && v@ == w,
        (CommandFunctionResult::Ask(e), CommandResult::Ask(f)) => e@ == f,
        (CommandFunctionResult::Fail, CommandResult::Fail) => true,
        _ => false,
    }
}

/// Carries out one command over the variables (see `command_result`).
pub fn execute_command(k: CommandKind, args: &Vec<Value>, vars: &Variables) -> (r: CommandFunctionResult)
    requires
        vars.wf(),
    ensures
        outcome_matches(r, command_result(k, values_view(args@), vars.map())),
{
    let ghost av = values_view(args@);
    match k {
        CommandKind::SetVariable => {
            if args.len() != 2 {
                return CommandFunctionResult::Fail;
            }
            assert(av[0] == args@[0]@ && av[1] == args@[1]@);
            match &args[0] {
                Value::Variable(n) => CommandFunctionResult::Store(chars_of(n.as_str()), copy_value(&args[1])),
                _ => CommandFunctionResult::Fail,
            }
        },
        CommandKind::UnsetVariable => {
            if args.len() != 1 {
                return CommandFunctionResult::Fail;
            }
            assert(av[0] == args@[0]@);
            match &args[0] {
                Value::Variable(n) => CommandFunctionResult::Store(chars_of(n.as_str()), Value::Unset),
                _ => CommandFunctionResult::Fail,
            }
        },
        CommandKind::Activate | CommandKind::Deactivate | CommandKind::Pulse | CommandKind::Read => {
            if args.len() != 1 {
                return CommandFunctionResult::Fail;
            }
            assert(av[0] == args@[0]@);
            let v = resolve_value(&args[0], vars);
            match whole_i32_exec(&v) {
                Some(id) => CommandFunctionResult::Ask(match k {
                    CommandKind::Activate => Effect::Actuate(id, ActuatorMessage::On),
                    CommandKind::Deactivate => Effect::Actuate(id, ActuatorMessage::Off),
                    CommandKind::Pulse => Effect::Actuate(id, ActuatorMessage::OnPulse),
                    _ => Effect::ReadSensor(id),
                }),
                None => CommandFunctionResult::Fail,
            }
        },
        CommandKind::Dashboard => {
            if args.len() != 1 {
                return CommandFunctionResult::Fail;
            }
            assert(av[0] == args@[0]@);
            let v = resolve_value(&args[0], vars);
            match &v {
                Value::Text(m) => {
                    let text = compute_message_with_variables(&chars_of(m.as_str()), vars);
                    CommandFunctionResult::Ask(Effect::Dashboard(string_from_chars(&text)))
                },
                _ => CommandFunctionResult::Fail,
            }
        },
        CommandKind::Delay => {
            if args.len() != 1 {
                return CommandFunctionResult::Fail;
            }
            assert(av[0] == args@[0]@);
            let v = resolve_value(&args[0], vars);
            match whole_i32_exec(&v) {
                Some(ms) => if ms >= 0 { CommandFunctionResult::Ask(Effect::Delay(ms as u64)) } else { CommandFunctionResult::Fail },
                None => CommandFunctionResult::Fail,
            }
        },
        _ => {
            if args.len() != 2 {
                return CommandFunctionResult::Fail;
            }
            assert(av[0] == args@[0]@ && av[1] == args@[1]@);
            match &args[0] {
                Value::Variable(n) => {
                    let name = chars_of(n.as_str());
                    match vars.get(&name) {
                        Some(current) => {
                            let operand = resolve_value(&args[1], vars);
                            match (&current, &operand) {
                                (Value::Number(a), Value::Number(b)) => match arith_exec(k, *a, *b) {
                                    Some(c) => CommandFunctionResult::Store(name, Value::Number(c)),
                                    None => CommandFunctionResult::Fail,
                                },
                                _ => CommandFunctionResult::Fail,
                            }
                        },
                        None => CommandFunctionResult::Fail,
                    }
                },
                _ => CommandFunctionResult::Fail,
            }
        },
    }
}


fn is_opener_exec(x: &Instr) -> (r: bool)
    ensures
        r == crate::script_parser::is_opener(x.view()),
{
    match x {
        Instr::If(_) | Instr::While(_) | Instr::Loop => true,
        _ => false,
    }
}

fn is_loop_exec(x: &Instr) -> (r: bool)
    ensures
        r == is_loop(x.view()),
{
    match x {
        Instr::While(_) | Instr::Loop => true,
        _ => false,
    }
}

fn find_end_exec(p: &Vec<Instr>, start: usize) -> (r: usize)
    ensures
        r == find_end(program_view(p@), start as int, 0),
        r <= p@.len(),
{
    let ghost pv = program_view(p@);
    if start >= p.len() {
        return p.len();
    }
    let mut i: usize = start;
    let mut d: usize = 0;
    while i < p.len()
        invariant
            pv == program_view(p@),
            start <= i <= p@.len(),
            d <= i - start,
            find_end(pv, i as int, d as nat) == find_end(pv, start as int, 0),
        decreases p@.len() - i,
    {
        assert(pv[i as int] == p@[i as int].view());
        match &p[i] {
            Instr::End => {
                if d == 0 {
                    return i;
                }
                d -= 1;
            },
            x => {
                if is_opener_exec(x) {
                    d += 1;
                }
            },
        }
        i += 1;
    }
    p.len()
}

fn find_open_exec(p: &Vec<Instr>, before: usize) -> (r: Option<usize>)
    requires
        before <= p@.len(),
    ensures
        match r {
            Some(o) => o as int == find_open(program_view(p@), before - 1, 0) && o < p@.len(),
            None => find_open(program_view(p@), before - 1, 0) == -1,
        },
{
    let ghost pv = program_view(p@);
    let mut j: usize = before;
    let mut d: usize = 0;
    while j > 0
        invariant
            pv == program_view(p@),
            j <= before <= p@.len(),
            d <= before - j,
            find_open(pv, j - 1, d as nat) == find_open(pv, before - 1, 0),
        decreases j,
    {
        let i = j - 1;
        assert(pv[i as int] == p@[i as int].view());
        match &p[i] {
            Instr::End => {
                d += 1;
            },
            x => {
                if is_opener_exec(x) {
                    if d == 0 {
                        return Some(i);
                    }
                    d -= 1;
                }
            },
        }
        j -= 1;
    }
    None
}

fn enclosing_loop_exec(p: &Vec<Instr>, before: usize) -> (r: Option<usize>)
    requires
        before <= p@.len(),
    ensures
        match r {
            Some(o) => o as int == enclosing_loop(program_view(p@), before - 1, 0) && o < p@.len(),
            None => enclosing_loop(program_view(p@), before - 1, 0) == -1,
        },
{
    let ghost pv = program_view(p@);
    let mut j: usize = before;
    let mut d: usize = 0;
    while j > 0
        invariant
            pv == program_view(p@),
            j <= before <= p@.len(),
            d <= before - j,
            enclosing_loop(pv, j - 1, d as nat) == enclosing_loop(pv, before - 1, 0),
        decreases j,
    {
        let i = j - 1;
        assert(pv[i as int] == p@[i as int].view());
        match &p[i] {
            Instr::End => {
                d += 1;
            },
            x => {
                if is_opener_exec(x) {
                    if d == 0 {
                        if is_loop_exec(x) {
                            return Some(i);
                        }
                    } else {
                        d -= 1;
                    }
                }
            },
        }
        j -= 1;
    }
    None
}

/// Why a script could not be started.
#[derive(Clone, Copy, Debug, PartialEq, Eq, Structural)]
pub enum ScriptError {
    /// The text is not a well-formed script.
    Parse,
}

/// A parsed script and the state of its run.
pub struct Script {
    id: i32,
    program: Vec<Instr>,
    pc: usize,
    vars: Variables,
    state: RunState,
    pending_read: Option<i32>,
}

impl Script {
    pub closed spec fn view(&self) -> ScriptView {
        ScriptView {
            program: program_view(self.program@),
            pc: self.pc as int,
            vars: self.vars.map(),
            state: self.state,
            pending_read: self.pending_read,
        }
    }

    pub closed spec fn wf(&self) -> bool {
        self.vars.wf() && self.pc <= self.program@.len() + 1
    }

    pub closed spec fn id_spec(&self) -> i32 {
        self.id
    }

    /// Parses `code`; the run starts at the first statement with no variable
    /// bound.
    pub fn parse(id: i32, code: &str) -> (r: Result<Script, ScriptError>)
        ensures
            match program_of(code@) {
                Some(p) => r matches Ok(s) && s.wf() && s.id_spec() == id && s.view() == (ScriptView {
                    program: p,
                    pc: 0,
                    vars: Map::empty(),
                    state: RunState::Running,
                    pending_read: None,
                }),
                None => r == Err::<Script, ScriptError>(ScriptError::Parse),
            },
    {
        match parse_program(code) {
            Some(program) => Ok(Script {
                id,
                program,
                pc: 0,
                vars: Variables::new(),
                state: RunState::Running,
                pending_read: None,
            }),
            None => Err(ScriptError::Parse),
        }
    }

    pub fn get_id(&self) -> (r: i32)
        ensures
            r == self.id_spec(),
    {
        self.id
    }

    pub fn get_state(&self) -> (r: RunState)
        ensures
            r == self.view().state,
    {
        self.state
    }

    /// The value of a variable, if it is bound.
    pub fn get_variable(&self, name: &str) -> (r: Option<Value>)
        requires
            self.wf(),
        ensures
            match r {
                Some(v) => self.view().vars.contains_key(name@) && self.view().vars[name@] == v@,
                None => !self.view().vars.contains_key(name@),
            },
    {
        self.vars.get(&chars_of(name))
    }

    /// Runs one statement. A run that waits, or has ended, stays as it is and
    /// says so.
    pub fn step(&mut self) -> (e: Effect)
        requires
            old(self).wf(),
        ensures
            final(self).wf(),
            final(self).id_spec() == old(self).id_spec(),
            match old(self).view().state {
                RunState::Running => (final(self).view(), e@) == step_spec(old(self).view()),
                RunState::Waiting => final(self).view() == old(self).view() && e@ == EffectView::Waiting,
                RunState::Completed => final(self).view() == old(self).view() && e@ == EffectView::Completed,
                RunState::Failed | RunState::InfraFailed => final(self).view() == old(self).view() && e@ == EffectView::Failed,
            },
    {
        match self.state {
            RunState::Waiting => return Effect::Waiting,
            RunState::Completed => return Effect::Completed,
            RunState::Failed | RunState::InfraFailed => return Effect::Failed,
            RunState::Running => {},
        }
        let ghost pv = program_view(self.program@);
        if self.pc >= self.program.len() {
            self.state = RunState::Completed;
            return Effect::Completed;
        }
        let pc = self.pc;
        assert(pv[pc as int] == self.program@[pc as int].view());
        match &self.program[pc] {
            Instr::Command(k, args) => {
                match execute_command(*k, args, &self.vars) {
                    CommandFunctionResult::Store(n, v) => {
                        self.vars.set(&n, v);
                        self.pc = pc + 1;
                        Effect::Proceed
                    },
                    CommandFunctionResult::Ask(e) => {
                        self.pc = pc + 1;
                        self.state = RunState::Waiting;
                        self.pending_read = match &e {
                            Effect::ReadSensor(id) => Some(*id),
                            _ => None,
                        };
                        e
                    },
                    CommandFunctionResult::Fail => {
                        self.state = RunState::Failed;
                        Effect::Failed
                    },
                }
            },
            Instr::If(c) | Instr::While(c) => {
                if c.evaluate(&self.vars) {
                    self.pc = pc + 1;
                    Effect::Proceed
                } else {
                    let e = find_end_exec(&self.program, pc + 1);
                    if e >= self.program.len() {
                        self.state = RunState::Completed;
                        Effect::Completed
                    } else {
                        self.pc = e + 1;
                        Effect::Proceed
                    }
                }
            },
            Instr::Loop => {
                self.pc = pc + 1;
                Effect::Proceed
            },
            Instr::End => {
                match find_open_exec(&self.program, pc) {
                    Some(o) => {
                        assert(pv[o as int] == self.program@[o as int].view());
                        if is_loop_exec(&self.program[o]) {
                            self.pc = o;
                        } else {
                            self.pc = pc + 1;
                        }
                    },
                    None => {
                        self.pc = pc + 1;
                    },
                }
                Effect::Proceed
            },
            Instr::Break => {
                match enclosing_loop_exec(&self.program, pc) {
                    Some(l) => {
                        let e = find_end_exec(&self.program, l + 1);
                        if e >= self.program.len() {
                            self.state = RunState::Completed;
                            Effect::Completed
                        } else {
                            self.pc = e + 1;
                            Effect::Proceed
                        }
                    },
                    None => {
                        self.state = RunState::Completed;
                        Effect::Completed
                    },
                }
            },
            Instr::Continue => {
                match enclosing_loop_exec(&self.program, pc) {
                    Some(l) => {
                        self.pc = l;
                    },
                    None => {
                        self.pc = pc + 1;
                    },
                }
                Effect::Proceed
            },
        }
    }

    /// Tells a waiting run that the gateway could not carry out its outside
    /// work (its store or its connections failed): the run stops with an
    /// infrastructure error.
    pub fn resume_infra_failure(&mut self)
        requires
            old(self).wf(),
        ensures
            final(self).wf(),
            final(self).id_spec() == old(self).id_spec(),
            final(self).view() == if old(self).view().state == RunState::Waiting {
                infra_failure_spec(old(self).view())
            } else {
                old(self).view()
            },
    {
        if self.state == RunState::Waiting {
            self.state = RunState::InfraFailed;
            self.pending_read = None;
        }
    }

    /// Hands a waiting run the outcome of its outside work: a reply lets it go
    /// on (a `READ` binds the reply), a failure stops it.
    pub fn resume(&mut self, outcome: Result<String, String>)
        requires
            old(self).wf(),
        ensures
            final(self).wf(),
            final(self).id_spec() == old(self).id_spec(),
            final(self).view() == if old(self).view().state == RunState::Waiting {
                resume_spec(old(self).view(), match outcome {
                    Ok(t) => Some(t@),
                    Err(_) => None,
                })
            } else {
                old(self).view()
            },
    {
        if self.state != RunState::Waiting {
            return;
        }
        match outcome {
            Ok(reply) => {
                match self.pending_read {
                    Some(id) => {
                        let name = read_variable_name(id);
                        self.vars.set(&name, Value::Text(reply));
                    },
                    None => {},
                }
                self.state = RunState::Running;
                self.pending_read = None;
            },
            Err(_) => {
                self.state = RunState::Failed;
                self.pending_read = None;
            },
        }
    }
}

/// A waiting run whose outside work the gateway itself could not carry out.
pub open spec fn infra_failure_spec(s: ScriptView) -> ScriptView {
    ScriptView { state: RunState::InfraFailed, pending_read: None, ..s }
}

/// A waiting run after its outside work: `Some(reply)` lets it go on and a
/// `READ` binds the reply; `None`, a failure, stops it.
pub open spec fn resume_spec(s: ScriptView, reply: Option<Seq<char>>) -> ScriptView {
    match reply {
        Some(t) => ScriptView {
            vars: match s.pending_read {
                Some(id) => s.vars.insert(read_variable(id), ValueView::Text(t)),
                None => s.vars,
            },
            state: RunState::Running,
            pending_read: None,
            ..s
        },
        None => ScriptView { state: RunState::Failed, pending_read: None, ..s },
    }
}


/// After `SET $x v`, with `v` a literal, the condition `$x == v` holds.
pub proof fn law_set_then_equal(vars: Map<Seq<char>, ValueView>, n: Seq<char>, v: ValueView)
    requires
        !(v matches ValueView::Variable(_)),
    ensures
        command_result(CommandKind::SetVariable, seq![ValueView::Variable(n), v], vars) == CommandResult::Store(n, v),
        holds(
            crate::condition_parser::ConditionView::Expression(ValueView::Variable(n), crate::condition_parser::Operator::Equal, v),
            vars.insert(n, v),
        ),
{
    reveal_with_fuel(crate::condition_parser::resolve_within, 2);
}

/// After `ADD $x b` on a variable that holds the number `a`, the variable
/// holds `a + b` and the condition `$x == a + b` holds, where the sum fits.
pub proof fn law_add_then_equal(vars: Map<Seq<char>, ValueView>, n: Seq<char>, a: i64, b: i64)
    requires
        vars.contains_key(n),
        vars[n] == ValueView::Number(a),
        fits_i64(a + b),
    ensures
        command_result(CommandKind::Add, seq![ValueView::Variable(n), ValueView::Number(b)], vars)
            == CommandResult::Store(n, ValueView::Number((a + b) as i64)),
        holds(
            crate::condition_parser::ConditionView::Expression(
                ValueView::Variable(n),
                crate::condition_parser::Operator::Equal,
                ValueView::Number((a + b) as i64),
            ),
            vars.insert(n, ValueView::Number((a + b) as i64)),
        ),
{
    reveal_with_fuel(crate::condition_parser::resolve_within, 2);
}

/// `DIVIDE $x 0` and `MODULO $x 0` fail, whatever `$x` holds.
pub proof fn law_divide_by_zero_fails(vars: Map<Seq<char>, ValueView>, n: Seq<char>)
    ensures
        command_result(CommandKind::Divide, seq![ValueView::Variable(n), ValueView::Number(0)], vars) == CommandResult::Fail,
        command_result(CommandKind::Modulo, seq![ValueView::Variable(n), ValueView::Number(0)], vars) == CommandResult::Fail,
{
}

/// A `BREAK` that stands first in the body of a `LOOP` leaves the loop: the
/// run goes on after the loop's `END`, or ends when there is none.
pub proof fn law_break_leaves_loop(s: ScriptView, l: int)
    requires
        0 <= l,
        l + 1 < s.program.len(),
        s.program[l] matches InstrView::Loop,
        s.program[l + 1] matches InstrView::Break,
        s.pc == l + 1,
    ensures
        step_spec(s) == skip_block(s, l + 1),
{
    assert(enclosing_loop(s.program, l, 0) == l);
}

} // verus!
