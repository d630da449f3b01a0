use vstd::prelude::*;

verus! {

/// A point in time, in whole seconds since 1970-01-01 00:00:00 of the gateway's
/// local clock.
pub type Timestamp = i64;

/// A registered sensor.
#[derive(Debug)]
pub struct Sensor {
    pub id: i32,
    pub name: Option<String>,
    pub sensor_type: String,
    pub ip_address: String,
    pub port: u16,
    pub online: bool,
    pub created_at: Timestamp,
    pub updated_at: Option<Timestamp>,
}

/// One value that a sensor reported.
#[derive(Debug)]
pub struct SensorRead {
    pub id: i32,
    pub sensor_id: i32,
    pub sensor_value: String,
    pub created_at: Timestamp,
    pub updated_at: Option<Timestamp>,
}

/// A registered actuator.
#[derive(Debug)]
pub struct Actuator {
    pub id: i32,
    pub name: Option<String>,
    pub ip_address: String,
    pub port: u16,
    pub state: bool,
    pub online: bool,
    pub pulse: bool,
    pub created_at: Timestamp,
    pub updated_at: Option<Timestamp>,
}

/// A stored automation script.
#[derive(Debug)]
pub struct Script {
    pub id: i32,
    pub title: String,
    pub code: String,
    pub schedule: Option<String>,
    pub status: i32,
    pub created_at: Timestamp,
    pub updated_at: Option<Timestamp>,
}

/// A record that can be copied field by field.
pub trait Duplicate: Sized {
    fn duplicate(&self) -> (r: Self)
        ensures
            r == *self,
    ;
}

/// A copy of every record of `v`, in order.
pub fn copy_all<T: Duplicate>(v: &Vec<T>) -> (r: Vec<T>)
    ensures
        r@ == v@,
{
    let mut r: Vec<T> = Vec::new();
    let mut i: usize = 0;
    while i < v.len()
        invariant
            i <= v@.len(),
            r@ == v@.subrange(0, i as int),
        decreases v@.len() - i,
    {
        r.push(v[i].duplicate());
        i += 1;
        assert(r@ =~= v@.subrange(0, i as int));
    }
    assert(v@.subrange(0, v@.len() as int) =~= v@);
    r
}

pub fn copy_opt_string(s: &Option<String>) -> (r: Option<String>)
    ensures
        r == *s,
{
    match s {
        Some(v) => Some(v.clone()),
        None => None,
    }
}

impl Sensor {
    pub fn new(id: i32, sensor_type: &str, ip_address: &str) -> (r: Sensor)
        ensures
            r.id == id,
            r.sensor_type@ == sensor_type@,
            r.ip_address@ == ip_address@,
            r.port == 5173,
            r.name is None,
            !r.online,
            r.created_at == 0,
            r.updated_at is None,
    {
        Sensor {
            id,
            name: None,
            sensor_type: sensor_type.to_string(),
            ip_address: ip_address.to_string(),
            port: 5173,
            online: false,
            created_at: 0,
            updated_at: None,
        }
    }

}

impl Duplicate for Sensor {
    fn duplicate(&self) -> (r: Sensor) {
        Sensor {
            id: self.id,
            name: copy_opt_string(&self.name),
            sensor_type: self.sensor_type.clone(),
            ip_address: self.ip_address.clone(),
            port: self.port,
            online: self.online,
            created_at: self.created_at,
            updated_at: self.updated_at,
        }
    }
}

impl SensorRead {
    pub fn new(id: i32, sensor_id: i32, sensor_value: &str) -> (r: SensorRead)
        ensures
            r.id == id,
            r.sensor_id == sensor_id,
            r.sensor_value@ == sensor_value@,
            r.created_at == 0,
            r.updated_at is None,
    {
        SensorRead {
            id,
            sensor_id,
            sensor_value: sensor_value.to_string(),
            created_at: 0,
            updated_at: None,
        }
    }

}

impl Duplicate for SensorRead {
    fn duplicate(&self) -> (r: SensorRead) {
        SensorRead {
            id: self.id,
            sensor_id: self.sensor_id,
            sensor_value: self.sensor_value.clone(),
            created_at: self.created_at,
            updated_at: self.updated_at,
        }
    }
}

impl Actuator {
    pub fn new(id: i32, ip_address: &str) -> (r: Actuator)
        ensures
            r.id == id,
            r.ip_address@ == ip_address@,
            r.port == 5173,
            r.name is None,
            !r.state,
            !r.online,
            !r.pulse,
            r.created_at == 0,
            r.updated_at is None,
    {
        Actuator {
            id,
            name: None,
            ip_address: ip_address.to_string(),
            port: 5173,
            state: false,
            online: false,
            pulse: false,
            created_at: 0,
            updated_at: None,
        }
    }

}

impl Duplicate for Actuator {
    fn duplicate(&self) -> (r: Actuator) {
        Actuator {
            id: self.id,
            name: copy_opt_string(&self.name),
            ip_address: self.ip_address.clone(),
            port: self.port,
            state: self.state,
            online: self.online,
            pulse: self.pulse,
            created_at: self.created_at,
            updated_at: self.updated_at,
        }
    }
}

impl Script {
    pub fn new(id: i32, code: &str) -> (r: Script)
        ensures
            r.id == id,
            r.code@ == code@,
            r.title@ == Seq::<char>::empty(),
            r.schedule is None,
            r.status == 0,
            r.created_at == 0,
            r.updated_at is None,
    {
        Script {
            id,
            title: String::new(),
            code: code.to_string(),
            schedule: None,
            status: 0,
            created_at: 0,
            updated_at: None,
        }
    }

}

impl Duplicate for Script {
    fn duplicate(&self) -> (r: Script) {
        Script {
            id: self.id,
            title: self.title.clone(),
            code: self.code.clone(),
            schedule: copy_opt_string(&self.schedule),
            status: self.status,
            created_at: self.created_at,
            updated_at: self.updated_at,
        }
    }
}


impl Sensor {
    pub fn get_id(&self) -> (r: i32)
        ensures
            r == self.id,
    {
        self.id
    }

    pub fn get_sensor_type(&self) -> (r: &str)
        ensures
            r@ == self.sensor_type@,
    {
        self.sensor_type.as_str()
    }

    pub fn get_ip_address(&self) -> (r: &str)
        ensures
            r@ == self.ip_address@,
    {
        self.ip_address.as_str()
    }

    pub fn get_name(&self) -> (r: &Option<String>)
        ensures
            *r == self.name,
    {
        &self.name
    }

    pub fn get_created_at(&self) -> (r: Timestamp)
        ensures
            r == self.created_at,
    {
        self.created_at
    }

    pub fn get_updated_at(&self) -> (r: Option<Timestamp>)
        ensures
            r == self.updated_at,
    {
        self.updated_at
    }

    pub fn get_online(&self) -> (r: bool)
        ensures
            r == self.online,
    {
        self.online
    }

    pub fn get_port(&self) -> (r: u16)
        ensures
            r == self.port,
    {
        self.port
    }

    pub fn set_online(&mut self, online: bool)
        ensures
            *final(self) == (Sensor { online: online, ..*old(self) }),
    {
        self.online = online;
    }

    pub fn set_created_at(&mut self, created_at: Timestamp)
        ensures
            *final(self) == (Sensor { created_at: created_at, ..*old(self) }),
    {
        self.created_at = created_at;
    }

    pub fn set_updated_at(&mut self, updated_at: Option<Timestamp>)
        ensures
            *final(self) == (Sensor { updated_at: updated_at, ..*old(self) }),
    {
        self.updated_at = updated_at;
    }

    pub fn set_name(&mut self, name: Option<String>)
        ensures
            *final(self) == (Sensor { name: name, ..*old(self) }),
    {
        self.name = name;
    }

    pub fn set_sensor_type(&mut self, sensor_type: String)
        ensures
            *final(self) == (Sensor { sensor_type: sensor_type, ..*old(self) }),
    {
        self.sensor_type = sensor_type;
    }

    pub fn set_ip_address(&mut self, ip_address: String)
        ensures
            *final(self) == (Sensor { ip_address: ip_address, ..*old(self) }),
    {
        self.ip_address = ip_address;
    }

    pub fn set_id(&mut self, id: i32)
        ensures
            *final(self) == (Sensor { id: id, ..*old(self) }),
    {
        self.id = id;
    }

    pub fn set_port(&mut self, port: u16)
        ensures
            *final(self) == (Sensor { port: port, ..*old(self) }),
    {
        self.port = port;
    }
}

impl SensorRead {
    pub fn get_id(&self) -> (r: i32)
        ensures
            r == self.id,
    {
        self.id
    }

    pub fn get_sensor_id(&self) -> (r: i32)
        ensures
            r == self.sensor_id,
    {
        self.sensor_id
    }

    pub fn get_sensor_value(&self) -> (r: &str)
        ensures
            r@ == self.sensor_value@,
    {
        self.sensor_value.as_str()
    }

    pub fn get_created_at(&self) -> (r: Timestamp)
        ensures
            r == self.created_at,
    {
        self.created_at
    }

    pub fn get_updated_at(&self) -> (r: Option<Timestamp>)
        ensures
            r == self.updated_at,
    {
        self.updated_at
    }

    pub fn set_created_at(&mut self, created_at: Timestamp)
        ensures
            *final(self) == (SensorRead { created_at: created_at, ..*old(self) }),
    {
        self.created_at = created_at;
    }

    pub fn set_updated_at(&mut self, updated_at: Option<Timestamp>)
        ensures
            *final(self) == (SensorRead { updated_at: updated_at, ..*old(self) }),
    {
        self.updated_at = updated_at;
    }
}

impl Actuator {
    pub fn get_id(&self) -> (r: i32)
        ensures
            r == self.id,
    {
        self.id
    }

    pub fn get_ip_address(&self) -> (r: &str)
        ensures
            r@ == self.ip_address@,
    {
        self.ip_address.as_str()
    }

    pub fn get_name(&self) -> (r: &Option<String>)
        ensures
            *r == self.name,
    {
        &self.name
    }

    pub fn get_created_at(&self) -> (r: Timestamp)
        ensures
            r == self.created_at,
    {
        self.created_at
    }

    pub fn get_updated_at(&self) -> (r: Option<Timestamp>)
        ensures
            r == self.updated_at,
    {
        self.updated_at
    }

    pub fn get_online(&self) -> (r: bool)
        ensures
            r == self.online,
    {
        self.online
    }

    pub fn get_state(&self) -> (r: bool)
        ensures
            r == self.state,
    {
        self.state
    }

    pub fn get_port(&self) -> (r: u16)
        ensures
            r == self.port,
    {
        self.port
    }

    pub fn get_pulse(&self) -> (r: bool)
        ensures
            r == self.pulse,
    {
        self.pulse
    }

    pub fn set_online(&mut self, online: bool)
        ensures
            *final(self) == (Actuator { online: online, ..*old(self) }),
    {
        self.online = online;
    }

    pub fn set_created_at(&mut self, created_at: Timestamp)
        ensures
            *final(self) == (Actuator { created_at: created_at, ..*old(self) }),
    {
        self.created_at = created_at;
    }

    pub fn set_updated_at(&mut self, updated_at: Option<Timestamp>)
        ensures
            *final(self) == (Actuator { updated_at: updated_at, ..*old(self) }),
    {
        self.updated_at = updated_at;
    }

    pub fn set_name(&mut self, name: Option<String>)
        ensures
            *final(self) == (Actuator { name: name, ..*old(self) }),
    {
        self.name = name;
    }

    pub fn set_ip_address(&mut self, ip_address: String)
        ensures
            *final(self) == (Actuator { ip_address: ip_address, ..*old(self) }),
    {
        self.ip_address = ip_address;
    }

    pub fn set_id(&mut self, id: i32)
        ensures
            *final(self) == (Actuator { id: id, ..*old(self) }),
    {
        self.id = id;
    }

    pub fn set_state(&mut self, state: bool)
        ensures
            *final(self) == (Actuator { state: state, ..*old(self) }),
    {
        self.state = state;
    }

    pub fn set_port(&mut self, port: u16)
        ensures
            *final(self) == (Actuator { port: port, ..*old(self) }),
    {
        self.port = port;
    }

    pub fn set_pulse(&mut self, pulse: bool)
        ensures
            *final(self) == (Actuator { pulse: pulse, ..*old(self) }),
    {
        self.pulse = pulse;
    }
}

impl Script {
    pub fn get_id(&self) -> (r: i32)
        ensures
            r == self.id,
    {
        self.id
    }

    pub fn get_code(&self) -> (r: &str)
        ensures
            r@ == self.code@,
    {
        self.code.as_str()
    }

    pub fn get_title(&self) -> (r: &String)
        ensures
            *r == self.title,
    {
        &self.title
    }

    pub fn get_schedule(&self) -> (r: &Option<String>)
        ensures
            *r == self.schedule,
    {
        &self.schedule
    }

    pub fn get_status(&self) -> (r: i32)
        ensures
            r == self.status,
    {
        self.status
    }

    pub fn get_created_at(&self) -> (r: Timestamp)
        ensures
            r == self.created_at,
    {
        self.created_at
    }

    pub fn get_updated_at(&self) -> (r: Option<Timestamp>)
        ensures
            r == self.updated_at,
    {
        self.updated_at
    }
}

/// A request to remove a sensor.
pub struct SensorUnregister {
    id: i32,
}

impl SensorUnregister {
    pub fn new(id: i32) -> (r: SensorUnregister)
        ensures
            r.id_spec() == id,
    {
        SensorUnregister { id }
    }

    pub closed spec fn id_spec(&self) -> i32 {
        self.id
    }

    pub fn get_id(&self) -> (r: i32)
        ensures
            r == self.id_spec(),
    {
        self.id
    }
}

/// A request for the readings of a sensor between two dates written
/// `YYYY-MM-DD HH:MM:SS`.
pub struct GetSensorReadings {
    id: i32,
    from_date: String,
    to_date: String,
}

impl GetSensorReadings {
    pub fn new(id: i32, from_date: String, to_date: String) -> (r: GetSensorReadings)
        ensures
            r.id_spec() == id,
            r.from_spec() == from_date@,
            r.to_spec() == to_date@,
    {
        GetSensorReadings { id, from_date, to_date }
    }

    pub closed spec fn id_spec(&self) -> i32 {
        self.id
    }

    pub closed spec fn from_spec(&self) -> Seq<char> {
        self.from_date@
    }

    pub closed spec fn to_spec(&self) -> Seq<char> {
        self.to_date@
    }

    pub fn get_id(&self) -> (r: i32)
        ensures
            r == self.id_spec(),
    {
        self.id
    }

    pub fn get_from_date(&self) -> (r: &String)
        ensures
            r@ == self.from_spec(),
    {
        &self.from_date
    }

    pub fn get_to_date(&self) -> (r: &String)
        ensures
            r@ == self.to_spec(),
    {
        &self.to_date
    }
}

/// A request to remove an actuator.
pub struct ActuatorUnregister {
    id: i32,
}

impl ActuatorUnregister {
    pub fn new(id: i32) -> (r: ActuatorUnregister)
        ensures
            r.id_spec() == id,
    {
        ActuatorUnregister { id }
    }

    pub closed spec fn id_spec(&self) -> i32 {
        self.id
    }

    pub fn get_id(&self) -> (r: i32)
        ensures
            r == self.id_spec(),
    {
        self.id
    }
}

/// A request to remove a script.
pub struct DeleteScript {
    id: i32,
}

impl DeleteScript {
    pub fn new(id: i32) -> (r: DeleteScript)
        ensures
            r.id_spec() == id,
    {
        DeleteScript { id }
    }

    pub closed spec fn id_spec(&self) -> i32 {
        self.id
    }

    pub fn get_id(&self) -> (r: i32)
        ensures
            r == self.id_spec(),
    {
        self.id
    }
}

} // verus!
