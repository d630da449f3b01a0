use vstd::prelude::*;
use crate::script_runner::{ActuatorMessage, RunState};
use crate::value::{chars_eq_str, chars_of};

verus! {

pub const MESSAGE_SENT_EVENT: &'static str = "message-sent";
pub const ALL_SENSORS_EVENT: &'static str = "all-sensors";
pub const ALL_LAST_SENSOR_READINGS_EVENT: &'static str = "all-last-sensors-reads";
pub const GET_SENSOR_READINGS_EVENT: &'static str = "get-sensor-readings";
pub const ALL_SENSOR_READINGS_EVENT: &'static str = "all-sensor-reads";
pub const SENSOR_REGISTER_EVENT: &'static str = "sensor-register";
pub const SENSOR_UNREGISTER_EVENT: &'static str = "sensor-unregister";
pub const SENSOR_READ_EVENT: &'static str = "sensor-read";
pub const SENSOR_NAME_CHANGE_EVENT: &'static str = "sensor-name-change";
pub const SENSOR_CHANGE_ONLINE_EVENT: &'static str = "sensor-change-online";
pub const RENAME_SENSOR_EVENT: &'static str = "rename-sensor";
pub const REMOVE_SENSOR_EVENT: &'static str = "remove-sensor";
pub const ALL_ACTUATORS_EVENT: &'static str = "all-actuators";
pub const ACTUATOR_REGISTER_EVENT: &'static str = "actuator-register";
pub const ACTUATOR_UNREGISTER_EVENT: &'static str = "actuator-unregister";
pub const TOGGLE_ACTUATOR_EVENT: &'static str = "toggle-actuator";
pub const PULSE_ACTUATOR_EVENT: &'static str = "pulse-actuator";
pub const ACTUATOR_NAME_CHANGE_EVENT: &'static str = "actuator-name-change";
pub const ACTUATOR_STATE_CHANGE_EVENT: &'static str = "actuator-state-change";
pub const ACTUATOR_CHANGE_ONLINE_EVENT: &'static str = "actuator-change-online";
pub const RENAME_ACTUATOR_EVENT: &'static str = "rename-actuator";
pub const REMOVE_ACTUATOR_EVENT: &'static str = "remove-actuator";
pub const GET_ALL_SCRIPTS_EVENT: &'static str = "get-all-scripts";
pub const RUN_SCRIPT_EVENT: &'static str = "run-script";
pub const ADD_SCRIPT_EVENT: &'static str = "add-script";
pub const REMOVE_SCRIPT_EVENT: &'static str = "remove-script";
pub const MODIFY_SCRIPT_EVENT: &'static str = "modify-script";
pub const ADD_SCRIPT_SCHEDULE_EVENT: &'static str = "add-script-schedule";
pub const REMOVE_SCRIPT_SCHEDULE_EVENT: &'static str = "remove-script-schedule";
pub const ALL_SCRIPTS_EVENT: &'static str = "all-scripts";
pub const SCRIPT_SAVED_EVENT: &'static str = "script-saved";
pub const SCRIPT_DELETED_EVENT: &'static str = "script-deleted";
pub const SCRIPT_MODIFIED_EVENT: &'static str = "script-modified";
pub const SCRIPT_STATUS_CHANGE_EVENT: &'static str = "script-status-change";
pub const SCRIPT_SCHEDULE_ADDED_EVENT: &'static str = "script-schedule-added";
pub const SCRIPT_SCHEDULE_REMOVED_EVENT: &'static str = "script-schedule-removed";

/// How long a pulse keeps an actuator on, in milliseconds.
pub const PULSE_MILLIS: u64 = 2000;

/// The status a script run reports when it fails to parse or to load.
pub const SCRIPT_STATUS_INFRA_ERROR: i32 = -2;

/// A client is let in only with a non-empty token equal to the shared secret.
pub open spec fn token_accepted(token: Seq<char>, secret: Seq<char>) -> bool {
    token.len() > 0 && token == secret
}

pub fn authenticate(token: &str, secret: &str) -> (r: bool)
    ensures
        r == token_accepted(token@, secret@),
{
    let t = chars_of(token);
    t.len() > 0 && chars_eq_str(&t, secret)
}

/// The events that a newly connected client is sent, in order.
#[derive(Clone, Copy, Debug, PartialEq, Eq, Structural)]
pub enum SnapshotEvent {
    AllSensors,
    AllLastSensorReads,
    AllActuators,
}

/// What a client receives when it connects: nothing, before it is
/// disconnected, when its token is refused; otherwise the snapshot of
/// sensors, last readings and actuators.
pub fn connect_events(token: &str, secret: &str) -> (r: Vec<SnapshotEvent>)
    ensures
        !token_accepted(token@, secret@) ==> r@.len() == 0,
        token_accepted(token@, secret@) ==> r@ == seq![
            SnapshotEvent::AllSensors,
            SnapshotEvent::AllLastSensorReads,
            SnapshotEvent::AllActuators,
        ],
{
    let mut r: Vec<SnapshotEvent> = Vec::new();
    if authenticate(token, secret) {
        r.push(SnapshotEvent::AllSensors);
        r.push(SnapshotEvent::AllLastSensorReads);
        r.push(SnapshotEvent::AllActuators);
        assert(r@ =~= seq![SnapshotEvent::AllSensors, SnapshotEvent::AllLastSensorReads, SnapshotEvent::AllActuators]);
    }
    r
}

/// Who is sent a change event among `clients` connected clients (numbered
/// from zero): the originator directly, if there is one, then every other
/// client by broadcast.
pub fn recipients(clients: usize, originator: Option<usize>) -> (r: Vec<usize>)
    ensures
        r@.no_duplicates(),
        forall|c: usize| #[trigger] r@.contains(c) <==> c < clients,
{
    let mut r: Vec<usize> = Vec::new();
    match originator {
        Some(o) => {
            if o < clients {
                r.push(o);
            }
        },
        None => {},
    }
    let mut c: usize = 0;
    while c < clients
        invariant
            c <= clients,
            r@.no_duplicates(),
            forall|x: usize| #[trigger] r@.contains(x) ==> x < clients,
            forall|x: usize| x < c ==> #[trigger] r@.contains(x),
            forall|x: usize| #[trigger] r@.contains(x) && x >= c ==> originator == Some(x),
            forall|o: usize| originator == Some(o) && o < clients ==> r@.len() >= 1 && r@[0] == o,
        decreases clients - c,
    {
        let is_origin = match originator {
            Some(o) => o == c,
            None => false,
        };
        if !is_origin {
            proof {
                assert(!r@.contains(c));
            }
            let ghost before = r@;
            r.push(c);
            proof {
                assert forall|i: int, j: int| 0 <= i < j < r@.len() implies r@[i] != r@[j] by {
                    if j == r@.len() - 1 {
                        assert(before.contains(r@[i]));
                    } else {
                        assert(r@[i] == before[i] && r@[j] == before[j]);
                    }
                }
                assert forall|x: usize| #[trigger] r@.contains(x) implies (x < clients) && (x >= c + 1 ==> originator == Some(x)) by {
                    if x != c {
                        let k = choose|k: int| 0 <= k < r@.len() && r@[k] == x;
                        assert(k < before.len());
                        assert(before[k] == x);
                        assert(before.contains(x));
                    }
                }
                assert(r@[r@.len() - 1] == c);
                assert forall|x: usize| x < c + 1 implies #[trigger] r@.contains(x) by {
                    if x == c {
                        assert(r@[r@.len() - 1] == x);
                    } else {
                        assert(before.contains(x));
                        let k = choose|k: int| 0 <= k < before.len() && before[k] == x;
                        assert(r@[k] == x);
                    }
                }
            }
        } else {
            proof {
                assert(r@[0] == c);
            }
        }
        c += 1;
    }
    r
}

/// Each connected client receives a change event exactly once, whether it
/// caused the change or not.
pub proof fn law_each_client_once(r: Seq<usize>, clients: usize, c: usize)
    requires
        r.no_duplicates(),
        forall|x: usize| #[trigger] r.contains(x) <==> x < clients,
        c < clients,
    ensures
        exists|i: int| 0 <= i < r.len() && r[i] == c,
        forall|i: int, j: int| 0 <= i < r.len() && 0 <= j < r.len() && r[i] == c && r[j] == c ==> i == j,
{
    assert(r.contains(c));
}

/// The actuator states that a pulse records, in order, given the device's
/// answer to `ON-PULSE`: on then off when it echoes `ON-PULSE`, nothing
/// otherwise.
pub fn pulse_plan(reply: &str) -> (r: Vec<bool>)
    ensures
        reply@ == "ON-PULSE"@ ==> r@ == seq![true, false],
        reply@ != "ON-PULSE"@ ==> r@.len() == 0,
{
    let mut r: Vec<bool> = Vec::new();
    if chars_eq_str(&chars_of(reply), "ON-PULSE") {
        r.push(true);
        r.push(false);
        assert(r@ =~= seq![true, false]);
    }
    r
}

/// What a toggle sends, given the device's current state: `OFF` to a device
/// that is `ON` or `ON-PULSE`, `ON` to any other.
pub fn toggle_command(current: &str) -> (r: ActuatorMessage)
    ensures
        r == if current@ == "ON"@ || current@ == "ON-PULSE"@ { ActuatorMessage::Off } else { ActuatorMessage::On },
{
    let c = chars_of(current);
    if chars_eq_str(&c, "ON") || chars_eq_str(&c, "ON-PULSE") {
        ActuatorMessage::Off
    } else {
        ActuatorMessage::On
    }
}

/// The state a device's reply reports: on for `ON` and `ON-PULSE`, off for
/// `OFF`; none for anything else.
pub fn state_from_reply(reply: &str) -> (r: Option<bool>)
    ensures
        r == if reply@ == "ON"@ || reply@ == "ON-PULSE"@ {
            Some(true)
        } else if reply@ == "OFF"@ {
            Some(false)
        } else {
            None::<bool>
        },
{
    let c = chars_of(reply);
    if chars_eq_str(&c, "ON") || chars_eq_str(&c, "ON-PULSE") {
        Some(true)
    } else if chars_eq_str(&c, "OFF") {
        Some(false)
    } else {
        None
    }
}

/// The status that the dashboard is told for a run: 1 while it runs or
/// waits, 0 once completed, -1 after a command failed, -2 when the gateway
/// could not carry out a command's outside work.
pub fn script_status(state: RunState) -> (r: i32)
    ensures
        r == match state {
            RunState::Running | RunState::Waiting => 1i32,
            RunState::Completed => 0i32,
            RunState::Failed => -1i32,
            RunState::InfraFailed => SCRIPT_STATUS_INFRA_ERROR,
        },
{
    match state {
        RunState::Running | RunState::Waiting => 1,
        RunState::Completed => 0,
        RunState::Failed => -1,
        RunState::InfraFailed => SCRIPT_STATUS_INFRA_ERROR,
    }
}

} // verus!
