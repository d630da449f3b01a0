use homesoil::models::{Sensor, SensorRead};
use homesoil::registry::{NewActuator, NewSensor, NewSensorRead, Registry, StoreError};

fn temperature_sensor() -> NewSensor {
    NewSensor {
        sensor_type: "temperature".to_string(),
        ip_address: "10.0.0.5".to_string(),
        port: 5683,
    }
}

fn read(id: i32, value: &str) -> NewSensorRead {
    NewSensorRead { sensor_id: id, sensor_value: value.to_string() }
}

#[test]
fn sensor_lifecycle() {
    let mut reg = Registry::new();
    let s = reg.register_sensor(&temperature_sensor(), 1000).unwrap();
    assert_eq!(s.id, 1);
    assert_eq!(s.name.as_deref(), Some("Temperature sensor"));
    assert_eq!(s.sensor_type, "temperature");
    assert!(!s.online);
    let r = reg.read_sensor(&read(1, "22.4"), 1001).unwrap();
    assert_eq!(r.sensor_value, "22.4");
    assert_eq!(r.created_at, 1001);
    let renamed = reg.change_sensor_name(1, "Kitchen".to_string(), 1002).unwrap();
    assert_eq!(renamed.name.as_deref(), Some("Kitchen"));
    assert_eq!(renamed.updated_at, Some(1002));
    let gone = reg.unregister_sensor(1).unwrap();
    assert_eq!(gone.id, 1);
    assert!(reg.readings_in_window(1, 0, 100000).is_empty());
    assert!(reg.get_all_registered_sensors().is_empty());
}

#[test]
fn register_twice_returns_same_row() {
    let mut reg = Registry::new();
    let a = reg.register_sensor(&temperature_sensor(), 10).unwrap();
    let mut again = temperature_sensor();
    again.sensor_type = "TEMPERATURE".to_string();
    let b = reg.register_sensor(&again, 20).unwrap();
    assert_eq!(a.id, b.id);
    assert_eq!(b.created_at, 10);
    assert_eq!(reg.get_all_registered_sensors().len(), 1);
}

#[test]
fn unknown_kind_is_normalised() {
    let mut reg = Registry::new();
    let mut p = temperature_sensor();
    p.sensor_type = "radar".to_string();
    let s = reg.register_sensor(&p, 0).unwrap();
    assert_eq!(s.sensor_type, "unknown");
    assert_eq!(s.name.as_deref(), Some("Unknown sensor"));
    p.sensor_type = "Wind_Speed".to_string();
    let w = reg.register_sensor(&p, 0).unwrap();
    assert_eq!(w.sensor_type, "wind_speed");
    assert_eq!(w.name.as_deref(), Some("Wind sensor"));
    assert_ne!(s.id, w.id);
}

#[test]
fn unregister_cascades_readings() {
    let mut reg = Registry::new();
    reg.register_sensor(&temperature_sensor(), 0).unwrap();
    let mut other = temperature_sensor();
    other.ip_address = "10.0.0.6".to_string();
    reg.register_sensor(&other, 0).unwrap();
    reg.read_sensor(&read(1, "a"), 1).unwrap();
    reg.read_sensor(&read(2, "b"), 2).unwrap();
    reg.read_sensor(&read(1, "c"), 3).unwrap();
    reg.unregister_sensor(1).unwrap();
    let left = reg.get_all_sensor_reads();
    assert_eq!(left.len(), 1);
    assert_eq!(left[0].sensor_id, 2);
}

#[test]
fn missing_rows_are_not_found() {
    let mut reg = Registry::new();
    assert_eq!(reg.unregister_sensor(4).unwrap_err(), StoreError::NotFound);
    assert_eq!(reg.read_sensor(&read(4, "x"), 0).unwrap_err(), StoreError::NotFound);
    assert_eq!(reg.change_sensor_name(4, "n".to_string(), 0).unwrap_err(), StoreError::NotFound);
    assert_eq!(reg.unregister_actuator(4).unwrap_err(), StoreError::NotFound);
    assert_eq!(reg.change_actuator_state(4, true, 0).unwrap_err(), StoreError::NotFound);
    assert_eq!(reg.delete_script(4).unwrap_err(), StoreError::NotFound);
}

#[test]
fn window_keeps_fifty_newest_in_range() {
    let mut reg = Registry::new();
    reg.register_sensor(&temperature_sensor(), 0).unwrap();
    for t in 0..80 {
        reg.read_sensor(&read(1, &t.to_string()), t).unwrap();
    }
    let w = reg.readings_in_window(1, 5, 70);
    assert_eq!(w.len(), 50);
    assert_eq!(w[0].created_at, 70);
    assert_eq!(w[49].created_at, 21);
    assert!(w.windows(2).all(|p| p[0].id > p[1].id));
    assert!(w.iter().all(|r| r.created_at >= 5 && r.created_at <= 70));
    let narrow = reg.readings_in_window(1, 10, 12);
    assert_eq!(narrow.len(), 3);
}

#[test]
fn window_by_date_text() {
    let mut reg = Registry::new();
    reg.register_sensor(&temperature_sensor(), 0).unwrap();
    // 2024-01-02 03:04:05 UTC
    reg.read_sensor(&read(1, "x"), 1704164645).unwrap();
    reg.read_sensor(&read(1, "y"), 1704164645 + 3600).unwrap();
    let w = reg.get_sensor_readings(1, "2024-01-02 00:00:00", "2024-01-02 03:30:00").unwrap();
    assert_eq!(w.len(), 1);
    assert_eq!(w[0].sensor_value, "x");
    assert_eq!(reg.get_sensor_readings(1, "yesterday", "2024-01-02 03:30:00").unwrap_err(), StoreError::InvalidDate);
}

#[test]
fn last_reading_per_sensor() {
    let mut reg = Registry::new();
    reg.register_sensor(&temperature_sensor(), 0).unwrap();
    let mut other = temperature_sensor();
    other.sensor_type = "humidity".to_string();
    reg.register_sensor(&other, 0).unwrap();
    reg.read_sensor(&read(1, "a"), 1).unwrap();
    reg.read_sensor(&read(2, "b"), 2).unwrap();
    reg.read_sensor(&read(1, "c"), 3).unwrap();
    let last = reg.get_all_last_sensor_readings();
    let values: Vec<&str> = last.iter().map(|r| r.sensor_value.as_str()).collect();
    assert_eq!(values, vec!["b", "c"]);
}

#[test]
fn retention_sweeps_old_readings() {
    let mut reg = Registry::new();
    reg.register_sensor(&temperature_sensor(), 0).unwrap();
    let now: i64 = 100 * 86400;
    reg.read_sensor(&read(1, "old"), now - 40 * 86400).unwrap();
    reg.read_sensor(&read(1, "new"), now).unwrap();
    assert_eq!(reg.delete_old_sensor_reads_records(now), 1);
    let left = reg.get_all_sensor_reads();
    assert_eq!(left.len(), 1);
    assert_eq!(left[0].sensor_value, "new");
}

#[test]
fn actuator_dedup_and_state() {
    let mut reg = Registry::new();
    let p = NewActuator { ip_address: "10.0.0.9".to_string(), port: 5683, pulse: false };
    let a = reg.register_actuator(&p, 5).unwrap();
    assert_eq!(a.name.as_deref(), Some("Actuator"));
    assert!(!a.state);
    let b = reg.register_actuator(&p, 6).unwrap();
    assert_eq!(a.id, b.id);
    let pulsed = NewActuator { ip_address: "10.0.0.9".to_string(), port: 5683, pulse: true };
    let c = reg.register_actuator(&pulsed, 7).unwrap();
    assert_ne!(a.id, c.id);
    let on = reg.change_actuator_state(a.id, true, 8).unwrap();
    assert!(on.state);
    assert_eq!(reg.get_actuator(a.id).unwrap().state, true);
}

#[test]
fn online_changes_are_reported_once() {
    let mut reg = Registry::new();
    let s = reg.register_sensor(&temperature_sensor(), 0).unwrap();
    assert_eq!(reg.set_sensor_online(s.id, false, 1), Ok(false));
    assert_eq!(reg.set_sensor_online(s.id, true, 2), Ok(true));
    assert_eq!(reg.set_sensor_online(s.id, true, 3), Ok(false));
    assert_eq!(reg.get_sensor(s.id).unwrap().updated_at, Some(2));
}

#[test]
fn scripts_are_stored_and_updated() {
    let mut reg = Registry::new();
    let s = reg.save_new_script("t".to_string(), "RUN\nSTOP".to_string(), None, 1).unwrap();
    assert_eq!(s.status, 0);
    let u = reg.update_script(s.id, "t2".to_string(), "RUN\nBREAK\nSTOP".to_string(), Some("* * *".to_string()), 2).unwrap();
    assert_eq!(u.title, "t2");
    assert_eq!(reg.set_script_status(s.id, 1).unwrap().status, 1);
    assert_eq!(reg.set_script_schedule(s.id, None, 3).unwrap().schedule, None);
    assert_eq!(reg.get_scripts().len(), 1);
    reg.delete_script(s.id).unwrap();
    assert_eq!(reg.get_script(s.id).unwrap_err(), StoreError::NotFound);
}

#[test]
fn stored_tables_are_checked() {
    let sensor = |id: i32, ip: &str| Sensor {
        id,
        name: None,
        sensor_type: "rain".to_string(),
        ip_address: ip.to_string(),
        port: 1,
        online: false,
        created_at: 0,
        updated_at: None,
    };
    let reading = |id: i32, sensor_id: i32| SensorRead {
        id,
        sensor_id,
        sensor_value: "1".to_string(),
        created_at: 0,
        updated_at: None,
    };
    let mut ok = Registry::from_tables(vec![sensor(2, "a"), sensor(5, "b")], vec![reading(3, 5)], vec![], vec![])
        .expect("well-formed tables");
    let next = ok.register_sensor(&NewSensor { sensor_type: "uv".to_string(), ip_address: "c".to_string(), port: 1 }, 0).unwrap();
    assert_eq!(next.id, 6);
    assert!(Registry::from_tables(vec![sensor(5, "a"), sensor(2, "b")], vec![], vec![], vec![]).is_none());
    assert!(Registry::from_tables(vec![sensor(1, "a"), sensor(2, "a")], vec![], vec![], vec![]).is_none());
    assert!(Registry::from_tables(vec![sensor(1, "a")], vec![reading(1, 9)], vec![], vec![]).is_none());
    assert!(Registry::from_tables(vec![sensor(0, "a")], vec![], vec![], vec![]).is_none());
}

#[test]
fn first_rows_get_identity_one() {
    let mut reg = Registry::new();
    let a = reg.register_actuator(&NewActuator::new("10.0.0.1"), 0).unwrap();
    let s = reg.register_sensor(&temperature_sensor(), 0).unwrap();
    let r = reg.read_sensor(&read(s.id, "1"), 0).unwrap();
    let c = reg.save_new_script("t".to_string(), "RUN\nSTOP".to_string(), None, 0).unwrap();
    assert_eq!((a.id, s.id, r.id, c.id), (1, 1, 1, 1));
}
