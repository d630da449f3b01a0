use homesoil::script_runner::{ActuatorMessage, Effect, RunState, Script, ScriptError};
use homesoil::value::{parse_number, Value};

/// Runs a script against a device that answers every request with `reply`,
/// and returns the run, the dashboard messages and the actuator requests.
fn run(code: &str, reply: &str) -> (Script, Vec<String>, Vec<(i32, String)>) {
    let mut s = Script::parse(7, code).ok().expect("script parses");
    let mut shown = Vec::new();
    let mut sent = Vec::new();
    for _ in 0..10000 {
        match s.step() {
            Effect::Proceed => {}
            Effect::Actuate(id, m) => {
                sent.push((id, m.text()));
                s.resume(Ok(reply.to_string()));
            }
            Effect::ReadSensor(id) => {
                sent.push((id, "READ".to_string()));
                s.resume(Ok(reply.to_string()));
            }
            Effect::Dashboard(text) => {
                shown.push(text);
                s.resume(Ok(String::new()));
            }
            Effect::Delay(_) => s.resume(Ok(String::new())),
            Effect::Waiting => panic!("step while waiting"),
            Effect::Completed | Effect::Failed => break,
        }
    }
    (s, shown, sent)
}

fn number(s: &Script, name: &str) -> Option<i64> {
    match s.get_variable(name) {
        Some(Value::Number(n)) => Some(n),
        _ => None,
    }
}

#[test]
fn set_then_condition_holds() {
    let (s, _, _) = run("RUN\nSET $x 5\nIF $x == 5 THEN\nSET $ok true\nEND\nSTOP", "");
    assert_eq!(s.get_state(), RunState::Completed);
    assert!(matches!(s.get_variable("$ok"), Some(Value::Boolean(true))));
}

#[test]
fn add_decimal_then_compare() {
    let (s, _, _) = run("RUN\nSET $x 10\nADD $x 2.5\nIF $x == 12.5 THEN SET $ok 1 END\nSTOP", "");
    assert_eq!(s.get_state(), RunState::Completed);
    assert_eq!(number(&s, "$x"), Some(12_500_000));
    assert_eq!(number(&s, "$ok"), Some(1_000_000));
}

#[test]
fn divide_by_zero_is_a_command_error() {
    let (s, _, _) = run("RUN\nSET $x 1\nDIVIDE $x 0\nSTOP", "");
    assert_eq!(s.get_state(), RunState::Failed);
    let (m, _, _) = run("RUN\nSET $x 1\nMODULO $x 0\nSTOP", "");
    assert_eq!(m.get_state(), RunState::Failed);
}

#[test]
fn arithmetic_rounds_toward_zero() {
    let (s, _, _) = run("RUN\nSET $a 7\nDIVIDE $a 2\nSET $b -7\nMODULO $b 2\nSET $c 1.5\nMULTIPLY $c -3\nSET $d 5\nSUBTRACT $d 8\nSTOP", "");
    assert_eq!(number(&s, "$a"), Some(3_500_000));
    assert_eq!(number(&s, "$b"), Some(-1_000_000));
    assert_eq!(number(&s, "$c"), Some(-4_500_000));
    assert_eq!(number(&s, "$d"), Some(-3_000_000));
}

#[test]
fn loop_then_break_terminates() {
    let (s, _, _) = run("RUN\nLOOP THEN BREAK END\nSET $after 1\nSTOP", "");
    assert_eq!(s.get_state(), RunState::Completed);
    assert_eq!(number(&s, "$after"), Some(1_000_000));
}

#[test]
fn grouped_condition_sets_variable() {
    let (s, _, _) = run("RUN\nIF (false && true) || true THEN SET $x 1 END\nSTOP", "");
    assert_eq!(number(&s, "$x"), Some(1_000_000));
}

#[test]
fn unmet_condition_skips_body() {
    let (s, _, _) = run("RUN\nSET $x 2\nIF $x > 3 THEN\nSET $y 1\nEND\nSET $z 1\nSTOP", "");
    assert_eq!(s.get_state(), RunState::Completed);
    assert!(s.get_variable("$y").is_none());
    assert_eq!(number(&s, "$z"), Some(1_000_000));
}

#[test]
fn while_counts_down() {
    let (s, _, _) = run("RUN\nSET $n 3\nSET $sum 0\nWHILE $n > 0 THEN\nADD $sum $n\nSUBTRACT $n 1\nEND\nSTOP", "");
    assert_eq!(number(&s, "$sum"), Some(6_000_000));
    assert_eq!(number(&s, "$n"), Some(0));
}

#[test]
fn continue_skips_rest_of_body() {
    let code = "RUN\nSET $i 0\nSET $odd 0\nWHILE $i < 4 THEN\nADD $i 1\nIF $i in [2,4] THEN CONTINUE END\nADD $odd 1\nEND\nSTOP";
    let (s, _, _) = run(code, "");
    assert_eq!(number(&s, "$odd"), Some(2_000_000));
}

#[test]
fn membership_needs_an_array() {
    let (s, _, _) = run("RUN\nSET $x 2\nIF $x not in 5 THEN SET $a 1 END\nIF $x not in [1,3] THEN SET $b 1 END\nSTOP", "");
    assert!(s.get_variable("$a").is_none());
    assert_eq!(number(&s, "$b"), Some(1_000_000));
}

#[test]
fn dashboard_substitutes_variables() {
    let (_, shown, _) = run("RUN\nSET $t 21.5\nDASHBOARD \"temp is $t and $missing\"\nSTOP", "");
    assert_eq!(shown, vec!["temp is 21.5 and $missing".to_string()]);
}

#[test]
fn device_commands_are_requested() {
    let (s, _, sent) = run("RUN\nACTIVATE 3\nDEACTIVATE 3\nPULSE 4\nREAD 9\nSTOP", "22");
    assert_eq!(
        sent,
        vec![
            (3, "ON".to_string()),
            (3, "OFF".to_string()),
            (4, "ON-PULSE".to_string()),
            (9, "READ".to_string()),
        ]
    );
    assert!(matches!(s.get_variable("$sensor_id_9"), Some(Value::Text(t)) if t == "22"));
    assert_eq!(ActuatorMessage::OnPulse.text(), "ON-PULSE");
}

#[test]
fn device_failure_stops_the_run() {
    let mut s = Script::parse(1, "RUN\nACTIVATE 3\nSET $x 1\nSTOP").ok().unwrap();
    assert!(matches!(s.step(), Effect::Actuate(3, ActuatorMessage::On)));
    assert!(matches!(s.step(), Effect::Waiting));
    s.resume(Err("unreachable".to_string()));
    assert_eq!(s.get_state(), RunState::Failed);
    assert!(matches!(s.step(), Effect::Failed));
}

#[test]
fn wrong_arity_fails_at_run_time() {
    let (s, _, _) = run("RUN\nSET $x\nSTOP", "");
    assert_eq!(s.get_state(), RunState::Failed);
    let (u, _, _) = run("RUN\nADD $nothing 1\nSTOP", "");
    assert_eq!(u.get_state(), RunState::Failed);
}

#[test]
fn malformed_scripts_are_rejected() {
    assert_eq!(Script::parse(1, "SET $x 1").err(), Some(ScriptError::Parse));
    assert_eq!(Script::parse(1, "RUN\nSET $x 1").err(), Some(ScriptError::Parse));
    assert_eq!(Script::parse(1, "RUN\nSTOP\nSET $x 1").err(), Some(ScriptError::Parse));
    assert_eq!(Script::parse(1, "RUN\nIF $x == 1 THEN\nSTOP").err(), Some(ScriptError::Parse));
    assert_eq!(Script::parse(1, "RUN\nEND\nSTOP").err(), Some(ScriptError::Parse));
    assert_eq!(Script::parse(1, "RUN\nJUMP 3\nSTOP").err(), Some(ScriptError::Parse));
    assert_eq!(Script::parse(1, "RUN\nSET $x abc\nSTOP").err(), Some(ScriptError::Parse));
    assert_eq!(Script::parse(1, "RUN\nDASHBOARD \"open\nSTOP").err(), Some(ScriptError::Parse));
    assert!(Script::parse(1, "\n  RUN\t\n SET   $x    1 \n\nSTOP\n").is_ok());
    assert_eq!(Script::parse(5, "RUN\nSTOP").ok().unwrap().get_id(), 5);
}

#[test]
fn numbers_parse_in_millionths() {
    assert_eq!(parse_number(&"2.5".chars().collect()), Some(2_500_000));
    assert_eq!(parse_number(&"-0.000001".chars().collect()), Some(-1));
    assert_eq!(parse_number(&"12".chars().collect()), Some(12_000_000));
    assert_eq!(parse_number(&"1.2345678".chars().collect()), None);
    assert_eq!(parse_number(&"1234567890123".chars().collect()), None);
    assert_eq!(parse_number(&"1.".chars().collect()), None);
    assert_eq!(parse_number(&".5".chars().collect()), None);
}

#[test]
fn values_read_as_text() {
    let (s, shown, _) = run("RUN\nSET $a [1,2.25,\"x\",true]\nSET $n -0.5\nDASHBOARD \"$a $n\"\nSTOP", "");
    assert_eq!(shown, vec!["[1, 2.25, x, true] -0.5".to_string()]);
    assert_eq!(s.get_state(), RunState::Completed);
}

#[test]
fn set_binds_a_reference() {
    let code = "RUN\nSET $x 1\nSET $y $x\nSET $x 2\nIF $y == 2 THEN SET $ok 1 END\nDASHBOARD \"y=$y\"\nSTOP";
    let (s, shown, _) = run(code, "");
    assert!(matches!(s.get_variable("$y"), Some(Value::Variable(n)) if n == "$x"));
    assert_eq!(number(&s, "$ok"), Some(1_000_000));
    assert_eq!(shown, vec!["y=2".to_string()]);
}

#[test]
fn reference_cycles_read_as_unset() {
    let (s, shown, _) = run("RUN\nSET $a $b\nSET $b $a\nIF $a == 1 THEN SET $hit 1 END\nDASHBOARD \"[$a]\"\nSTOP", "");
    assert_eq!(s.get_state(), RunState::Completed);
    assert!(s.get_variable("$hit").is_none());
    assert_eq!(shown, vec!["[]".to_string()]);
}

#[test]
fn infrastructure_failure_is_reported_apart() {
    let mut s = Script::parse(1, "RUN\nREAD 2\nSTOP").ok().unwrap();
    assert!(matches!(s.step(), Effect::ReadSensor(2)));
    s.resume_infra_failure();
    assert_eq!(s.get_state(), RunState::InfraFailed);
    assert_eq!(homesoil::events::script_status(s.get_state()), -2);
    assert!(matches!(s.step(), Effect::Failed));
}
