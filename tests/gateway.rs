use homesoil::events::{
    authenticate, connect_events, pulse_plan, recipients, script_status, state_from_reply, toggle_command,
    SnapshotEvent,
};
use homesoil::handlers::{actuator_register_body, id_body, ko_body, ok_body, path_handler, CoapMethod, Route};
use homesoil::helper::DashboardMessageType;
use homesoil::models::{ActuatorUnregister, DeleteScript, GetSensorReadings, SensorUnregister};
use homesoil::script_runner::{ActuatorMessage, RunState};
use homesoil::sensor_types::SensorKind;

#[test]
fn routes_follow_the_method_matrix() {
    assert_eq!(path_handler("/sensor/register", CoapMethod::Post), Some(Route::SensorRegister));
    assert_eq!(path_handler("/sensor/unregister", CoapMethod::Post), Some(Route::SensorUnregister));
    assert_eq!(path_handler("/sensor", CoapMethod::Post), Some(Route::SensorRead));
    assert_eq!(path_handler("/sensor/name", CoapMethod::Put), Some(Route::SensorName));
    assert_eq!(path_handler("/actuator/register", CoapMethod::Post), Some(Route::ActuatorRegister));
    assert_eq!(path_handler("/actuator/unregister", CoapMethod::Post), Some(Route::ActuatorUnregister));
    assert_eq!(path_handler("/actuator/name", CoapMethod::Put), Some(Route::ActuatorName));
    assert_eq!(path_handler("/actuator/state", CoapMethod::Put), Some(Route::ActuatorState));
    assert_eq!(path_handler("/sensor/name", CoapMethod::Post), None);
    assert_eq!(path_handler("/sensor", CoapMethod::Get), None);
    assert_eq!(path_handler("/nowhere", CoapMethod::Post), None);
}

#[test]
fn response_bodies() {
    assert_eq!(id_body(1), "1");
    assert_eq!(id_body(-42), "-42");
    assert_eq!(actuator_register_body(7, false), "{\"id\":7,\"state\":false}");
    assert_eq!(ok_body(), "OK");
    assert_eq!(ko_body(), "KO");
}

#[test]
fn wrong_token_gets_no_events() {
    assert!(connect_events("wrong", "secret").is_empty());
    assert!(connect_events("", "").is_empty());
    assert!(!authenticate("", ""));
    assert_eq!(
        connect_events("secret", "secret"),
        vec![SnapshotEvent::AllSensors, SnapshotEvent::AllLastSensorReads, SnapshotEvent::AllActuators]
    );
}

#[test]
fn every_client_gets_one_copy() {
    let mut r = recipients(4, Some(2));
    assert_eq!(r[0], 2);
    r.sort();
    assert_eq!(r, vec![0, 1, 2, 3]);
    let mut none = recipients(3, None);
    none.sort();
    assert_eq!(none, vec![0, 1, 2]);
    assert!(recipients(0, Some(0)).is_empty());
}

#[test]
fn pulse_records_on_then_off() {
    assert_eq!(pulse_plan("ON-PULSE"), vec![true, false]);
    assert!(pulse_plan("ON").is_empty());
}

#[test]
fn toggle_inverts_device_state() {
    assert_eq!(toggle_command("OFF"), ActuatorMessage::On);
    assert_eq!(toggle_command("ON"), ActuatorMessage::Off);
    assert_eq!(toggle_command("ON-PULSE"), ActuatorMessage::Off);
    assert_eq!(toggle_command("garbage"), ActuatorMessage::On);
    assert_eq!(state_from_reply("ON"), Some(true));
    assert_eq!(state_from_reply("OFF"), Some(false));
    assert_eq!(state_from_reply("??"), None);
}

#[test]
fn status_codes() {
    assert_eq!(script_status(RunState::Running), 1);
    assert_eq!(script_status(RunState::Completed), 0);
    assert_eq!(script_status(RunState::Failed), -1);
}

#[test]
fn message_classes_and_kinds() {
    assert_eq!(DashboardMessageType::Error.get_class(), "error");
    assert_eq!(DashboardMessageType::Info.get_class(), "info");
    assert_eq!(SensorKind::from_name("Solar_Radiation"), SensorKind::SolarRadiation);
    assert_eq!(SensorKind::Uv.default_name(), "UV sensor");
}

#[test]
fn request_records_keep_their_fields() {
    assert_eq!(SensorUnregister::new(3).get_id(), 3);
    assert_eq!(ActuatorUnregister::new(4).get_id(), 4);
    assert_eq!(DeleteScript::new(5).get_id(), 5);
    let g = GetSensorReadings::new(6, "a".to_string(), "b".to_string());
    assert_eq!((g.get_id(), g.get_from_date().as_str(), g.get_to_date().as_str()), (6, "a", "b"));
}
