use vstd::prelude::*;
use crate::models::{Actuator, Duplicate, Script, Sensor, SensorRead, Timestamp, copy_all};
use crate::sensor_types::SensorKind;

verus! {

/// The number of readings that a window query returns at most.
pub const READINGS_WINDOW_LIMIT: usize = 50;

/// How long a reading is kept: 30 days, in seconds.
pub const RETENTION_SECONDS: i64 = 2592000;

/// Why a registry operation failed.
#[derive(Clone, Copy, Debug, PartialEq, Eq, Structural)]
pub enum StoreError {
    NotFound,
    UniqueViolation,
    ConnectFailed,
    InvalidDate,
    Other,
}

/// What a device reports when it registers as a sensor.
pub struct NewSensor {
    pub sensor_type: String,
    pub ip_address: String,
    pub port: u16,
}

/// A value that a sensor reports.
pub struct NewSensorRead {
    pub sensor_id: i32,
    pub sensor_value: String,
}

/// What a device reports when it registers as an actuator.
pub struct NewActuator {
    pub ip_address: String,
    pub port: u16,
    pub pulse: bool,
}

impl NewSensor {
    pub fn new(sensor_type: &str, ip_address: &str) -> (r: NewSensor)
        ensures
            r.sensor_type@ == sensor_type@,
            r.ip_address@ == ip_address@,
            r.port == 5173,
    {
        NewSensor { sensor_type: sensor_type.to_string(), ip_address: ip_address.to_string(), port: 5173 }
    }

    pub fn get_sensor_type(&self) -> (r: &str)
        ensures
            r@ == self.sensor_type@,
    {
        self.sensor_type.as_str()
    }

    pub fn get_ip_address(&self) -> (r: &str)
        ensures
            r@ == self.ip_address@,
    {
        self.ip_address.as_str()
    }
}

impl NewSensorRead {
    pub fn new(sensor_id: i32, sensor_value: &str) -> (r: NewSensorRead)
        ensures
            r.sensor_id == sensor_id,
            r.sensor_value@ == sensor_value@,
    {
        NewSensorRead { sensor_id, sensor_value: sensor_value.to_string() }
    }

    pub fn get_sensor_id(&self) -> (r: i32)
        ensures
            r == self.sensor_id,
    {
        self.sensor_id
    }

    pub fn get_sensor_value(&self) -> (r: &str)
        ensures
            r@ == self.sensor_value@,
    {
        self.sensor_value.as_str()
    }
}

impl NewActuator {
    pub fn new(ip_address: &str) -> (r: NewActuator)
        ensures
            r.ip_address@ == ip_address@,
            r.port == 5173,
            !r.pulse,
    {
        NewActuator { ip_address: ip_address.to_string(), port: 5173, pulse: false }
    }

    pub fn get_ip_address(&self) -> (r: &str)
        ensures
            r@ == self.ip_address@,
    {
        self.ip_address.as_str()
    }

    pub fn get_port(&self) -> (r: u16)
        ensures
            r == self.port,
    {
        self.port
    }

    pub fn get_pulse(&self) -> (r: bool)
        ensures
            r == self.pulse,
    {
        self.pulse
    }
}

/// The registry's tables.
pub struct RegistryView {
    pub sensors: Seq<Sensor>,
    pub reads: Seq<SensorRead>,
    pub actuators: Seq<Actuator>,
    pub scripts: Seq<Script>,
    pub next_sensor_id: int,
    pub next_read_id: int,
    pub next_actuator_id: int,
    pub next_script_id: int,
}

/// The sensors, their readings, the actuators and the scripts, with the rules
/// that hold between them.
pub struct Registry {
    sensors: Vec<Sensor>,
    reads: Vec<SensorRead>,
    actuators: Vec<Actuator>,
    scripts: Vec<Script>,
    next_sensor_id: i32,
    next_read_id: i32,
    next_actuator_id: i32,
    next_script_id: i32,
}

impl View for Registry {
    type V = RegistryView;

    closed spec fn view(&self) -> RegistryView {
        RegistryView {
            sensors: self.sensors@,
            reads: self.reads@,
            actuators: self.actuators@,
            scripts: self.scripts@,
            next_sensor_id: self.next_sensor_id as int,
            next_read_id: self.next_read_id as int,
            next_actuator_id: self.next_actuator_id as int,
            next_script_id: self.next_script_id as int,
        }
    }
}

/// Two sensors share the deduplication key `(kind, ip_address)`.
pub open spec fn same_sensor_key(a: Sensor, b: Sensor) -> bool {
    a.sensor_type@ == b.sensor_type@ && a.ip_address@ == b.ip_address@
}

/// Two actuators share the deduplication key `(ip_address, port, pulse)`.
pub open spec fn same_actuator_key(a: Actuator, b: Actuator) -> bool {
    a.ip_address@ == b.ip_address@ && a.port == b.port && a.pulse == b.pulse
}

/// A reading of sensor `s` taken between `from` and `to`, both included.
pub open spec fn in_window(r: SensorRead, s: i32, from: Timestamp, to: Timestamp) -> bool {
    r.sensor_id == s && from <= r.created_at && r.created_at <= to
}

/// The newest `limit` readings of `reads` that lie in the window, newest first.
pub open spec fn newest_in_window(
    reads: Seq<SensorRead>,
    s: i32,
    from: Timestamp,
    to: Timestamp,
    limit: nat,
) -> Seq<SensorRead>
    decreases reads.len(),
{
    if reads.len() == 0 || limit == 0 {
        Seq::empty()
    } else if in_window(reads.last(), s, from, to) {
        seq![reads.last()] + newest_in_window(reads.drop_last(), s, from, to, (limit - 1) as nat)
    } else {
        newest_in_window(reads.drop_last(), s, from, to, limit)
    }
}

/// No later reading in `reads` belongs to the sensor of the reading at `i`.
pub open spec fn is_latest_of_sensor(reads: Seq<SensorRead>, i: int) -> bool {
    forall|j: int| i < j < reads.len() ==> (#[trigger] reads[j]).sensor_id != reads[i].sensor_id
}

/// Among the first `k` readings, those that no later reading of `reads`
/// supersedes, in their order.
pub open spec fn latest_upto(reads: Seq<SensorRead>, k: int) -> Seq<SensorRead>
    decreases k,
{
    if k <= 0 {
        Seq::empty()
    } else if is_latest_of_sensor(reads, k - 1) {
        latest_upto(reads, k - 1).push(reads[k - 1])
    } else {
        latest_upto(reads, k - 1)
    }
}

/// Some sensor of `sensors` has identity `id`.
pub open spec fn sensor_named(sensors: Seq<Sensor>, id: i32) -> bool {
    exists|j: int| 0 <= j < sensors.len() && (#[trigger] sensors[j]).id == id
}

impl RegistryView {
    /// Identities are positive, below the next one to assign, and increase along
    /// each table; the deduplication keys are unique; every reading belongs to
    /// a registered sensor.
    pub open spec fn wf(self) -> bool {
        &&& 1 <= self.next_sensor_id <= i32::MAX
        &&& 1 <= self.next_read_id <= i32::MAX
        &&& 1 <= self.next_actuator_id <= i32::MAX
        &&& 1 <= self.next_script_id <= i32::MAX
        &&& forall|i: int| 0 <= i < self.sensors.len() ==> 1 <= #[trigger] self.sensors[i].id < self.next_sensor_id
        &&& forall|i: int, j: int| 0 <= i < j < self.sensors.len() ==> #[trigger] self.sensors[i].id < #[trigger] self.sensors[j].id
        &&& forall|i: int, j: int| 0 <= i < self.sensors.len() && 0 <= j < self.sensors.len() && i != j
            ==> !same_sensor_key(#[trigger] self.sensors[i], #[trigger] self.sensors[j])
        &&& forall|i: int| 0 <= i < self.reads.len() ==> 1 <= #[trigger] self.reads[i].id < self.next_read_id
        &&& forall|i: int, j: int| 0 <= i < j < self.reads.len() ==> #[trigger] self.reads[i].id < #[trigger] self.reads[j].id
        &&& forall|i: int| 0 <= i < self.reads.len() ==> self.has_sensor(#[trigger] self.reads[i].sensor_id)
        &&& forall|i: int| 0 <= i < self.actuators.len() ==> 1 <= #[trigger] self.actuators[i].id < self.next_actuator_id
        &&& forall|i: int, j: int| 0 <= i < j < self.actuators.len() ==> #[trigger] self.actuators[i].id < #[trigger] self.actuators[j].id
        &&& forall|i: int, j: int| 0 <= i < self.actuators.len() && 0 <= j < self.actuators.len() && i != j
            ==> !same_actuator_key(#[trigger] self.actuators[i], #[trigger] self.actuators[j])
        &&& forall|i: int| 0 <= i < self.scripts.len() ==> 1 <= #[trigger] self.scripts[i].id < self.next_script_id
        &&& forall|i: int, j: int| 0 <= i < j < self.scripts.len() ==> #[trigger] self.scripts[i].id < #[trigger] self.scripts[j].id
    }

    /// A sensor with identity `id` is registered.
    pub open spec fn has_sensor(self, id: i32) -> bool {
        sensor_named(self.sensors, id)
    }

    /// An actuator with identity `id` is registered.
    pub open spec fn has_actuator(self, id: i32) -> bool {
        exists|i: int| 0 <= i < self.actuators.len() && (#[trigger] self.actuators[i]).id == id
    }

    /// A script with identity `id` is stored.
    pub open spec fn has_script(self, id: i32) -> bool {
        exists|i: int| 0 <= i < self.scripts.len() && (#[trigger] self.scripts[i]).id == id
    }
}


/// Which readings a sweep keeps.
#[derive(Clone, Copy, Debug, PartialEq, Eq, Structural)]
pub enum ReadSelector {
    /// Those of every sensor but this one.
    NotOfSensor(i32),
    /// Those taken at this moment or later.
    NotBefore(Timestamp),
}

impl ReadSelector {
    pub open spec fn keeps(self) -> spec_fn(SensorRead) -> bool {
        match self {
            ReadSelector::NotOfSensor(id) => |r: SensorRead| r.sensor_id != id,
            ReadSelector::NotBefore(t) => |r: SensorRead| r.created_at >= t,
        }
    }

    fn keeps_exec(&self, r: &SensorRead) -> (b: bool)
        ensures
            b == (self.keeps())(*r),
    {
        match self {
            ReadSelector::NotOfSensor(id) => r.sensor_id != *id,
            ReadSelector::NotBefore(t) => r.created_at >= *t,
        }
    }
}

/// Identities increase along `reads` and lie in `[1, next)`.
pub open spec fn reads_ordered(reads: Seq<SensorRead>, next: int) -> bool {
    &&& forall|i: int| 0 <= i < reads.len() ==> 1 <= #[trigger] reads[i].id < next
    &&& forall|i: int, j: int| 0 <= i < j < reads.len() ==> #[trigger] reads[i].id < #[trigger] reads[j].id
}

fn filter_reads(reads: &Vec<SensorRead>, sel: ReadSelector, next: Ghost<int>) -> (r: Vec<SensorRead>)
    requires
        reads_ordered(reads@, next@),
    ensures
        r@ == reads@.filter(sel.keeps()),
        reads_ordered(r@, next@),
{
    let mut kept: Vec<SensorRead> = Vec::new();
    let mut i: usize = 0;
    while i < reads.len()
        invariant
            i <= reads@.len(),
            reads_ordered(reads@, next@),
            kept@ == reads@.subrange(0, i as int).filter(sel.keeps()),
            reads_ordered(kept@, next@),
            forall|a: int, k: int| 0 <= a < kept@.len() && i <= k < reads@.len() ==> #[trigger] kept@[a].id < #[trigger] reads@[k].id,
        decreases reads@.len() - i,
    {
        proof {
            reveal(Seq::filter);
            assert(reads@.subrange(0, i + 1).drop_last() =~= reads@.subrange(0, i as int));
        }
        let ghost before = kept@;
        if sel.keeps_exec(&reads[i]) {
            kept.push(reads[i].duplicate());
        }
        i += 1;
        assert forall|a: int, k: int| 0 <= a < kept@.len() && i <= k < reads@.len() implies #[trigger] kept@[a].id < #[trigger] reads@[k].id by {
            if a < before.len() {
                assert(before[a] == kept@[a]);
            }
        }
    }
    assert(reads@.subrange(0, reads@.len() as int) =~= reads@);
    kept
}

impl Registry {
    /// Empty tables.
    pub fn new() -> (r: Registry)
        ensures
            r@.wf(),
            r@.sensors.len() == 0,
            r@.reads.len() == 0,
            r@.actuators.len() == 0,
            r@.scripts.len() == 0,
            r@.next_sensor_id == 1,
            r@.next_read_id == 1,
            r@.next_actuator_id == 1,
            r@.next_script_id == 1,
    {
        Registry {
            sensors: Vec::new(),
            reads: Vec::new(),
            actuators: Vec::new(),
            scripts: Vec::new(),
            next_sensor_id: 1,
            next_read_id: 1,
            next_actuator_id: 1,
            next_script_id: 1,
        }
    }

    fn find_sensor(&self, id: i32) -> (r: Option<usize>)
        ensures
            match r {
                Some(k) => k < self@.sensors.len() && self@.sensors[k as int].id == id,
                None => !self@.has_sensor(id),
            },
    {
        let mut k: usize = 0;
        while k < self.sensors.len()
            invariant
                k <= self.sensors@.len(),
                forall|j: int| 0 <= j < k ==> (#[trigger] self.sensors@[j]).id != id,
            decreases self.sensors@.len() - k,
        {
            if self.sensors[k].id == id {
                return Some(k);
            }
            k += 1;
        }
        None
    }

    fn find_actuator(&self, id: i32) -> (r: Option<usize>)
        ensures
            match r {
                Some(k) => k < self@.actuators.len() && self@.actuators[k as int].id == id,
                None => !self@.has_actuator(id),
            },
    {
        let mut k: usize = 0;
        while k < self.actuators.len()
            invariant
                k <= self.actuators@.len(),
                forall|j: int| 0 <= j < k ==> (#[trigger] self.actuators@[j]).id != id,
            decreases self.actuators@.len() - k,
        {
            if self.actuators[k].id == id {
                return Some(k);
            }
            k += 1;
        }
        None
    }

    fn find_script(&self, id: i32) -> (r: Option<usize>)
        ensures
            match r {
                Some(k) => k < self@.scripts.len() && self@.scripts[k as int].id == id,
                None => !self@.has_script(id),
            },
    {
        let mut k: usize = 0;
        while k < self.scripts.len()
            invariant
                k <= self.scripts@.len(),
                forall|j: int| 0 <= j < k ==> (#[trigger] self.scripts@[j]).id != id,
            decreases self.scripts@.len() - k,
        {
            if self.scripts[k].id == id {
                return Some(k);
            }
            k += 1;
        }
        None
    }

    /// Registers a sensor. A sensor with the same normalised kind and address is
    /// returned as it stands; otherwise a new one is stored, named after its
    /// kind, offline, created at `now`.
    pub fn register_sensor(&mut self, payload: &NewSensor, now: Timestamp) -> (r: Result<Sensor, StoreError>)
        requires
            old(self)@.wf(),
        ensures
            final(self)@.wf(),
            r matches Ok(s) ==> final(self)@.sensors.contains(s) && sole_with_key(final(self)@.sensors, s),
            ({
                let kind = SensorKind::from_name_spec(payload.sensor_type@);
                let known = exists|i: int| 0 <= i < old(self)@.sensors.len()
                    && (#[trigger] old(self)@.sensors[i]).sensor_type@ == kind.name_spec()
                    && old(self)@.sensors[i].ip_address@ == payload.ip_address@;
                match r {
                    Ok(s) => if known {
                        &&& final(self)@ == old(self)@
                        &&& old(self)@.sensors.contains(s)
                        &&& s.sensor_type@ == kind.name_spec()
                        &&& s.ip_address@ == payload.ip_address@
                    } else {
                        &&& s.id == old(self)@.next_sensor_id
                        &&& s.sensor_type@ == kind.name_spec()
                        &&& s.ip_address@ == payload.ip_address@
                        &&& s.port == payload.port
                        &&& (s.name matches Some(n) && n@ == kind.default_name_spec())
                        &&& !s.online
                        &&& s.created_at == now
                        &&& s.updated_at is None
                        &&& final(self)@ == (RegistryView {
                            sensors: old(self)@.sensors.push(s),
                            next_sensor_id: old(self)@.next_sensor_id + 1,
                            ..old(self)@
                        })
                    },
                    Err(e) => {
                        &&& !known
                        &&& e == StoreError::Other
                        &&& old(self)@.next_sensor_id == i32::MAX
                        &&& final(self)@ == old(self)@
                    },
                }
            }),
    {
        let kind = SensorKind::from_name(payload.sensor_type.as_str());
        let kind_name = kind.name();
        let mut i: usize = 0;
        while i < self.sensors.len()
            invariant
                i <= self.sensors@.len(),
                self@ == old(self)@,
                self@.wf(),
                kind == SensorKind::from_name_spec(payload.sensor_type@),
                kind_name@ == kind.name_spec(),
                forall|k: int| 0 <= k < i ==> !((#[trigger] self.sensors@[k]).sensor_type@ == kind_name@
                    && self.sensors@[k].ip_address@ == payload.ip_address@),
            decreases self.sensors@.len() - i,
        {
            if self.sensors[i].sensor_type == kind_name && self.sensors[i].ip_address == payload.ip_address {
                proof {
                    lemma_sensor_key_unique(self@, self@.sensors[i as int]);
                }
                return Ok(self.sensors[i].duplicate());
            }
            i += 1;
        }
        if self.next_sensor_id == i32::MAX {
            return Err(StoreError::Other);
        }
        proof {
            assert forall|k: int| 0 <= k < self@.sensors.len() implies !same_sensor_key(#[trigger] self@.sensors[k],
                Sensor { sensor_type: kind_name, ip_address: payload.ip_address, ..self@.sensors[k] }) by {}
        }
        let s = Sensor {
            id: self.next_sensor_id,
            name: Some(kind.default_name()),
            sensor_type: kind_name,
            ip_address: payload.ip_address.clone(),
            port: payload.port,
            online: false,
            created_at: now,
            updated_at: None,
        };
        self.sensors.push(s.duplicate());
        self.next_sensor_id = self.next_sensor_id + 1;
        proof {
            assert(self@.sensors[self@.sensors.len() - 1] == s);
            assert forall|id: i32| old(self)@.has_sensor(id) implies self@.has_sensor(id) by {
                let j = choose|j: int| 0 <= j < old(self)@.sensors.len() && (#[trigger] old(self)@.sensors[j]).id == id;
                assert(self@.sensors[j] == old(self)@.sensors[j]);
            }
            lemma_reads_keep_sensors(old(self)@, self@);
            lemma_sensor_key_unique(self@, s);
        }
        Ok(s)
    }

    /// Removes a sensor and, first, every reading of it.
    pub fn unregister_sensor(&mut self, id: i32) -> (r: Result<Sensor, StoreError>)
        requires
            old(self)@.wf(),
        ensures
            final(self)@.wf(),
            match r {
                Ok(s) => {
                    &&& s.id == id
                    &&& forall|i: int| 0 <= i < final(self)@.reads.len() ==> (#[trigger] final(self)@.reads[i]).sensor_id != id
                    &&& exists|k: int| 0 <= k < old(self)@.sensors.len() && old(self)@.sensors[k] == s
                        && final(self)@ == (RegistryView {
                            sensors: old(self)@.sensors.remove(k),
                            reads: old(self)@.reads.filter(ReadSelector::NotOfSensor(id).keeps()),
                            ..old(self)@
                        })
                },
                Err(e) => {
                    &&& !old(self)@.has_sensor(id)
                    &&& e == StoreError::NotFound
                    &&& final(self)@ == old(self)@
                },
            },
    {
        let k = match self.find_sensor(id) {
            Some(k) => k,
            None => return Err(StoreError::NotFound),
        };
        let kept = filter_reads(&self.reads, ReadSelector::NotOfSensor(id), Ghost(self.next_read_id as int));
        proof {
            assert forall|i: int| 0 <= i < kept@.len() implies (#[trigger] kept@[i]).sensor_id != id by {
                self.reads@.lemma_filter_pred(ReadSelector::NotOfSensor(id).keeps(), i);
            }
        }
        self.reads = kept;
        let s = self.sensors.remove(k);
        proof {
            let old_s = old(self)@.sensors;
            assert forall|i: int, j: int| 0 <= i < j < self@.sensors.len() implies #[trigger] self@.sensors[i].id < #[trigger] self@.sensors[j].id by {
                let a = if i < k { i } else { i + 1 };
                let b = if j < k { j } else { j + 1 };
                assert(self@.sensors[i] == old_s[a]);
                assert(self@.sensors[j] == old_s[b]);
            }
            assert forall|i: int, j: int| 0 <= i < self@.sensors.len() && 0 <= j < self@.sensors.len() && i != j
                implies !same_sensor_key(#[trigger] self@.sensors[i], #[trigger] self@.sensors[j]) by {
                let a = if i < k { i } else { i + 1 };
                let b = if j < k { j } else { j + 1 };
                assert(self@.sensors[i] == old_s[a]);
                assert(self@.sensors[j] == old_s[b]);
            }
            assert forall|i: int| 0 <= i < self@.sensors.len() implies 1 <= #[trigger] self@.sensors[i].id < self@.next_sensor_id by {
                let a = if i < k { i } else { i + 1 };
                assert(self@.sensors[i] == old_s[a]);
            }
            let keeps = ReadSelector::NotOfSensor(id).keeps();
            assert forall|r: SensorRead| #[trigger] self@.reads.contains(r) implies old(self)@.reads.contains(r) by {
                old(self)@.reads.lemma_filter_contains_rev(keeps, r);
            }
            assert forall|rid: i32| old(self)@.has_sensor(rid)
                && (exists|i: int| 0 <= i < self@.reads.len() && (#[trigger] self@.reads[i]).sensor_id == rid)
                implies self@.has_sensor(rid) by {
                let i = choose|i: int| 0 <= i < self@.reads.len() && (#[trigger] self@.reads[i]).sensor_id == rid;
                assert(self@.reads[i].sensor_id != id);
                let j = choose|j: int| 0 <= j < old_s.len() && (#[trigger] old_s[j]).id == rid;
                assert(j != k);
                let b = if j < k { j } else { j - 1 };
                assert(self@.sensors[b] == old_s[j]);
            }
            lemma_reads_keep_sensors(old(self)@, self@);
        }
        Ok(s)
    }

    /// Renames a sensor and stamps the change with `now`.
    pub fn change_sensor_name(&mut self, id: i32, name: String, now: Timestamp) -> (r: Result<Sensor, StoreError>)
        requires
            old(self)@.wf(),
        ensures
            final(self)@.wf(),
            match r {
                Ok(s) => exists|k: int| 0 <= k < old(self)@.sensors.len() && old(self)@.sensors[k].id == id
                    && s == (Sensor { name: Some(name), updated_at: Some(now), ..old(self)@.sensors[k] })
                    && final(self)@ == (RegistryView { sensors: old(self)@.sensors.update(k, s), ..old(self)@ }),
                Err(e) => {
                    &&& !old(self)@.has_sensor(id)
                    &&& e == StoreError::NotFound
                    &&& final(self)@ == old(self)@
                },
            },
    {
        let k = match self.find_sensor(id) {
            Some(k) => k,
            None => return Err(StoreError::NotFound),
        };
        let mut s = self.sensors[k].duplicate();
        s.name = Some(name);
        s.updated_at = Some(now);
        self.sensors.set(k, s.duplicate());
        proof {
            assert forall|i: int| 0 <= i < self@.sensors.len() implies #[trigger] self@.sensors[i].id == old(self)@.sensors[i].id
                && same_sensor_key(self@.sensors[i], old(self)@.sensors[i]) by {}
            assert forall|id: i32| old(self)@.has_sensor(id) implies self@.has_sensor(id) by {
                let j = choose|j: int| 0 <= j < old(self)@.sensors.len() && (#[trigger] old(self)@.sensors[j]).id == id;
                assert(self@.sensors[j].id == id);
            }
            lemma_reads_keep_sensors(old(self)@, self@);
        }
        Ok(s)
    }

    /// Marks a sensor reachable or not. Returns whether that changed; only a
    /// change stamps the row with `now`.
    pub fn set_sensor_online(&mut self, id: i32, online: bool, now: Timestamp) -> (r: Result<bool, StoreError>)
        requires
            old(self)@.wf(),
        ensures
            final(self)@.wf(),
            match r {
                Ok(changed) => exists|k: int| 0 <= k < old(self)@.sensors.len() && old(self)@.sensors[k].id == id
                    && changed == (old(self)@.sensors[k].online != online)
                    && final(self)@ == if changed {
                        RegistryView {
                            sensors: old(self)@.sensors.update(k, Sensor { online: online, updated_at: Some(now), ..old(self)@.sensors[k] }),
                            ..old(self)@
                        }
                    } else {
                        old(self)@
                    },
                Err(e) => {
                    &&& !old(self)@.has_sensor(id)
                    &&& e == StoreError::NotFound
                    &&& final(self)@ == old(self)@
                },
            },
    {
        let k = match self.find_sensor(id) {
            Some(k) => k,
            None => return Err(StoreError::NotFound),
        };
        if self.sensors[k].online == online {
            return Ok(false);
        }
        let mut s = self.sensors[k].duplicate();
        s.online = online;
        s.updated_at = Some(now);
        self.sensors.set(k, s);
        proof {
            assert forall|i: int| 0 <= i < self@.sensors.len() implies #[trigger] self@.sensors[i].id == old(self)@.sensors[i].id
                && same_sensor_key(self@.sensors[i], old(self)@.sensors[i]) by {}
            assert forall|id: i32| old(self)@.has_sensor(id) implies self@.has_sensor(id) by {
                let j = choose|j: int| 0 <= j < old(self)@.sensors.len() && (#[trigger] old(self)@.sensors[j]).id == id;
                assert(self@.sensors[j].id == id);
            }
            lemma_reads_keep_sensors(old(self)@, self@);
        }
        Ok(true)
    }

    /// Stores a value reported by an existing sensor, taken at `now`.
    pub fn read_sensor(&mut self, payload: &NewSensorRead, now: Timestamp) -> (r: Result<SensorRead, StoreError>)
        requires
            old(self)@.wf(),
        ensures
            final(self)@.wf(),
            match r {
                Ok(v) => {
                    &&& old(self)@.has_sensor(payload.sensor_id)
                    &&& v.id == old(self)@.next_read_id
                    &&& v.sensor_id == payload.sensor_id
                    &&& v.sensor_value@ == payload.sensor_value@
                    &&& v.created_at == now
                    &&& v.updated_at is None
                    &&& final(self)@ == (RegistryView {
                        reads: old(self)@.reads.push(v),
                        next_read_id: old(self)@.next_read_id + 1,
                        ..old(self)@
                    })
                },
                Err(e) => {
                    &&& final(self)@ == old(self)@
                    &&& if old(self)@.has_sensor(payload.sensor_id) {
                        e == StoreError::Other && old(self)@.next_read_id == i32::MAX
                    } else {
                        e == StoreError::NotFound
                    }
                },
            },
    {
        match self.find_sensor(payload.sensor_id) {
            Some(_) => {},
            None => return Err(StoreError::NotFound),
        }
        if self.next_read_id == i32::MAX {
            return Err(StoreError::Other);
        }
        let v = SensorRead {
            id: self.next_read_id,
            sensor_id: payload.sensor_id,
            sensor_value: payload.sensor_value.clone(),
            created_at: now,
            updated_at: None,
        };
        self.reads.push(v.duplicate());
        self.next_read_id = self.next_read_id + 1;
        Ok(v)
    }

    /// Every sensor, in order of registration.
    pub fn get_all_registered_sensors(&self) -> (r: Vec<Sensor>)
        ensures
            r@ == self@.sensors,
    {
        copy_all(&self.sensors)
    }

    /// Every reading, in order of arrival.
    pub fn get_all_sensor_reads(&self) -> (r: Vec<SensorRead>)
        ensures
            r@ == self@.reads,
    {
        copy_all(&self.reads)
    }

    /// The newest readings of sensor `sensor_id` taken between `from` and `to`,
    /// at most fifty, newest first.
    pub fn readings_in_window(&self, sensor_id: i32, from: Timestamp, to: Timestamp) -> (r: Vec<SensorRead>)
        ensures
            r@ == newest_in_window(self@.reads, sensor_id, from, to, READINGS_WINDOW_LIMIT as nat),
    {
        let mut r: Vec<SensorRead> = Vec::new();
        let mut i: usize = self.reads.len();
        proof {
            assert(self.reads@.subrange(0, i as int) =~= self@.reads);
            let w = newest_in_window(self@.reads, sensor_id, from, to, READINGS_WINDOW_LIMIT as nat);
            assert(r@ + w =~= w);
        }
        while i > 0 && r.len() < READINGS_WINDOW_LIMIT
            invariant
                i <= self.reads@.len(),
                r@.len() <= READINGS_WINDOW_LIMIT,
                r@ + newest_in_window(self.reads@.subrange(0, i as int), sensor_id, from, to, (READINGS_WINDOW_LIMIT - r@.len()) as nat)
                    == newest_in_window(self@.reads, sensor_id, from, to, READINGS_WINDOW_LIMIT as nat),
            decreases i,
        {
            let ghost pre = self.reads@.subrange(0, i as int);
            let ghost lim = (READINGS_WINDOW_LIMIT - r@.len()) as nat;
            proof {
                assert(pre.drop_last() =~= self.reads@.subrange(0, i - 1));
                assert(pre.last() == self.reads@[i - 1]);
            }
            let ghost r0 = r@;
            let read = &self.reads[i - 1];
            if read.sensor_id == sensor_id && from <= read.created_at && read.created_at <= to {
                r.push(read.duplicate());
                proof {
                    assert(r@ =~= r0 + seq![self.reads@[i - 1]]);
                    assert(r0 + (seq![self.reads@[i - 1]] + newest_in_window(self.reads@.subrange(0, i - 1), sensor_id, from, to, (lim - 1) as nat))
                        =~= r@ + newest_in_window(self.reads@.subrange(0, i - 1), sensor_id, from, to, (lim - 1) as nat));
                }
            }
            i -= 1;
        }
        proof {
            if i == 0 {
                assert(self.reads@.subrange(0, 0) =~= Seq::<SensorRead>::empty());
            }
            assert(r@ + Seq::<SensorRead>::empty() =~= r@);
        }
        r
    }

    /// For each sensor that has readings, its newest one; in order of arrival.
    pub fn get_all_last_sensor_readings(&self) -> (r: Vec<SensorRead>)
        ensures
            r@ == latest_upto(self@.reads, self@.reads.len() as int),
    {
        let mut r: Vec<SensorRead> = Vec::new();
        let n = self.reads.len();
        let mut k: usize = 0;
        while k < n
            invariant
                n == self.reads@.len(),
                k <= n,
                r@ == latest_upto(self.reads@, k as int),
            decreases n - k,
        {
            let mut j: usize = k + 1;
            let mut latest = true;
            while j < n
                invariant
                    n == self.reads@.len(),
                    k < j <= n,
                    latest == (forall|m: int| k < m < j ==> (#[trigger] self.reads@[m]).sensor_id != self.reads@[k as int].sensor_id),
                decreases n - j,
            {
                if self.reads[j].sensor_id == self.reads[k].sensor_id {
                    latest = false;
                }
                j += 1;
            }
            if latest {
                r.push(self.reads[k].duplicate());
            }
            k += 1;
        }
        r
    }

    /// Deletes the readings taken more than thirty days before `now`; returns
    /// how many went.
    pub fn delete_old_sensor_reads_records(&mut self, now: Timestamp) -> (r: usize)
        requires
            old(self)@.wf(),
        ensures
            final(self)@.wf(),
            final(self)@ == (RegistryView {
                reads: old(self)@.reads.filter(ReadSelector::NotBefore(retention_cutoff(now)).keeps()),
                ..old(self)@
            }),
            r == old(self)@.reads.len() - final(self)@.reads.len(),
    {
        let cutoff = if now >= i64::MIN + RETENTION_SECONDS { now - RETENTION_SECONDS } else { i64::MIN };
        let kept = filter_reads(&self.reads, ReadSelector::NotBefore(cutoff), Ghost(self.next_read_id as int));
        proof {
            self.reads@.lemma_filter_len(ReadSelector::NotBefore(cutoff).keeps());
        }
        let removed = self.reads.len() - kept.len();
        self.reads = kept;
        proof {
            let keeps = ReadSelector::NotBefore(cutoff).keeps();
            assert forall|r: SensorRead| #[trigger] self@.reads.contains(r) implies old(self)@.reads.contains(r) by {
                old(self)@.reads.lemma_filter_contains_rev(keeps, r);
            }
            lemma_reads_keep_sensors(old(self)@, self@);
        }
        removed
    }
}

impl Registry {
    /// Registers an actuator. One with the same address, port and pulse mode is
    /// returned as it stands; otherwise a new one is stored, named "Actuator",
    /// off and offline, created at `now`.
    pub fn register_actuator(&mut self, payload: &NewActuator, now: Timestamp) -> (r: Result<Actuator, StoreError>)
        requires
            old(self)@.wf(),
        ensures
            final(self)@.wf(),
            ({
                let known = exists|i: int| 0 <= i < old(self)@.actuators.len()
                    && (#[trigger] old(self)@.actuators[i]).ip_address@ == payload.ip_address@
                    && old(self)@.actuators[i].port == payload.port
                    && old(self)@.actuators[i].pulse == payload.pulse;
                match r {
                    Ok(a) => if known {
                        &&& final(self)@ == old(self)@
                        &&& old(self)@.actuators.contains(a)
                        &&& a.ip_address@ == payload.ip_address@
                        &&& a.port == payload.port
                        &&& a.pulse == payload.pulse
                    } else {
                        &&& a.id == old(self)@.next_actuator_id
                        &&& a.ip_address@ == payload.ip_address@
                        &&& a.port == payload.port
                        &&& a.pulse == payload.pulse
                        &&& (a.name matches Some(n) && n@ == "Actuator"@)
                        &&& !a.state
                        &&& !a.online
                        &&& a.created_at == now
                        &&& a.updated_at is None
                        &&& final(self)@ == (RegistryView {
                            actuators: old(self)@.actuators.push(a),
                            next_actuator_id: old(self)@.next_actuator_id + 1,
                            ..old(self)@
                        })
                    },
                    Err(e) => {
                        &&& !known
                        &&& e == StoreError::Other
                        &&& old(self)@.next_actuator_id == i32::MAX
                        &&& final(self)@ == old(self)@
                    },
                }
            }),
    {
        let mut i: usize = 0;
        while i < self.actuators.len()
            invariant
                i <= self.actuators@.len(),
                self@ == old(self)@,
                self@.wf(),
                forall|k: int| 0 <= k < i ==> !((#[trigger] self.actuators@[k]).ip_address@ == payload.ip_address@
                    && self.actuators@[k].port == payload.port && self.actuators@[k].pulse == payload.pulse),
            decreases self.actuators@.len() - i,
        {
            if self.actuators[i].ip_address == payload.ip_address && self.actuators[i].port == payload.port
                && self.actuators[i].pulse == payload.pulse {
                return Ok(self.actuators[i].duplicate());
            }
            i += 1;
        }
        if self.next_actuator_id == i32::MAX {
            return Err(StoreError::Other);
        }
        let a = Actuator {
            id: self.next_actuator_id,
            name: Some("Actuator".to_string()),
            ip_address: payload.ip_address.clone(),
            port: payload.port,
            state: false,
            online: false,
            pulse: payload.pulse,
            created_at: now,
            updated_at: None,
        };
        self.actuators.push(a.duplicate());
        self.next_actuator_id = self.next_actuator_id + 1;
        Ok(a)
    }

    /// Removes an actuator.
    pub fn unregister_actuator(&mut self, id: i32) -> (r: Result<Actuator, StoreError>)
        requires
            old(self)@.wf(),
        ensures
            final(self)@.wf(),
            match r {
                Ok(a) => {
                    &&& a.id == id
                    &&& exists|k: int| 0 <= k < old(self)@.actuators.len() && old(self)@.actuators[k] == a
                        && final(self)@ == (RegistryView { actuators: old(self)@.actuators.remove(k), ..old(self)@ })
                },
                Err(e) => {
                    &&& !old(self)@.has_actuator(id)
                    &&& e == StoreError::NotFound
                    &&& final(self)@ == old(self)@
                },
            },
    {
        let k = match self.find_actuator(id) {
            Some(k) => k,
            None => return Err(StoreError::NotFound),
        };
        let a = self.actuators.remove(k);
        proof {
            let old_a = old(self)@.actuators;
            assert forall|i: int, j: int| 0 <= i < j < self@.actuators.len() implies #[trigger] self@.actuators[i].id < #[trigger] self@.actuators[j].id by {
                let x = if i < k { i } else { i + 1 };
                let y = if j < k { j } else { j + 1 };
                assert(self@.actuators[i] == old_a[x]);
                assert(self@.actuators[j] == old_a[y]);
            }
            assert forall|i: int, j: int| 0 <= i < self@.actuators.len() && 0 <= j < self@.actuators.len() && i != j
                implies !same_actuator_key(#[trigger] self@.actuators[i], #[trigger] self@.actuators[j]) by {
                let x = if i < k { i } else { i + 1 };
                let y = if j < k { j } else { j + 1 };
                assert(self@.actuators[i] == old_a[x]);
                assert(self@.actuators[j] == old_a[y]);
            }
            assert forall|i: int| 0 <= i < self@.actuators.len() implies 1 <= #[trigger] self@.actuators[i].id < self@.next_actuator_id by {
                let x = if i < k { i } else { i + 1 };
                assert(self@.actuators[i] == old_a[x]);
            }
        }
        Ok(a)
    }

    /// The actuator with identity `id`.
    pub fn get_actuator(&self, id: i32) -> (r: Result<Actuator, StoreError>)
        ensures
            match r {
                Ok(a) => a.id == id && self@.actuators.contains(a),
                Err(e) => !self@.has_actuator(id) && e == StoreError::NotFound,
            },
    {
        match self.find_actuator(id) {
            Some(k) => Ok(self.actuators[k].duplicate()),
            None => Err(StoreError::NotFound),
        }
    }

    /// The sensor with identity `id`.
    pub fn get_sensor(&self, id: i32) -> (r: Result<Sensor, StoreError>)
        ensures
            match r {
                Ok(s) => s.id == id && self@.sensors.contains(s),
                Err(e) => !self@.has_sensor(id) && e == StoreError::NotFound,
            },
    {
        match self.find_sensor(id) {
            Some(k) => Ok(self.sensors[k].duplicate()),
            None => Err(StoreError::NotFound),
        }
    }

    /// Replaces the actuator with identity `id` by `a`, which keeps its
    /// identity and key.
    fn replace_actuator(&mut self, k: usize, a: Actuator)
        requires
            old(self)@.wf(),
            k < old(self)@.actuators.len(),
            a.id == old(self)@.actuators[k as int].id,
            same_actuator_key(a, old(self)@.actuators[k as int]),
        ensures
            final(self)@.wf(),
            final(self)@ == (RegistryView { actuators: old(self)@.actuators.update(k as int, a), ..old(self)@ }),
    {
        self.actuators.set(k, a);
        proof {
            assert forall|i: int| 0 <= i < self@.actuators.len() implies #[trigger] self@.actuators[i].id == old(self)@.actuators[i].id
                && same_actuator_key(self@.actuators[i], old(self)@.actuators[i]) by {}
        }
    }

    /// Renames an actuator and stamps the change with `now`.
    pub fn change_actuator_name(&mut self, id: i32, name: String, now: Timestamp) -> (r: Result<Actuator, StoreError>)
        requires
            old(self)@.wf(),
        ensures
            final(self)@.wf(),
            match r {
                Ok(a) => exists|k: int| 0 <= k < old(self)@.actuators.len() && old(self)@.actuators[k].id == id
                    && a == (Actuator { name: Some(name), updated_at: Some(now), ..old(self)@.actuators[k] })
                    && final(self)@ == (RegistryView { actuators: old(self)@.actuators.update(k, a), ..old(self)@ }),
                Err(e) => {
                    &&& !old(self)@.has_actuator(id)
                    &&& e == StoreError::NotFound
                    &&& final(self)@ == old(self)@
                },
            },
    {
        let k = match self.find_actuator(id) {
            Some(k) => k,
            None => return Err(StoreError::NotFound),
        };
        let mut a = self.actuators[k].duplicate();
        a.name = Some(name);
        a.updated_at = Some(now);
        self.replace_actuator(k, a.duplicate());
        Ok(a)
    }

    /// Records an actuator's ON/OFF state and stamps the change with `now`.
    pub fn change_actuator_state(&mut self, id: i32, state: bool, now: Timestamp) -> (r: Result<Actuator, StoreError>)
        requires
            old(self)@.wf(),
        ensures
            final(self)@.wf(),
            match r {
                Ok(a) => exists|k: int| 0 <= k < old(self)@.actuators.len() && old(self)@.actuators[k].id == id
                    && a == (Actuator { state: state, updated_at: Some(now), ..old(self)@.actuators[k] })
                    && final(self)@ == (RegistryView { actuators: old(self)@.actuators.update(k, a), ..old(self)@ }),
                Err(e) => {
                    &&& !old(self)@.has_actuator(id)
                    &&& e == StoreError::NotFound
                    &&& final(self)@ == old(self)@
                },
            },
    {
        let k = match self.find_actuator(id) {
            Some(k) => k,
            None => return Err(StoreError::NotFound),
        };
        let mut a = self.actuators[k].duplicate();
        a.state = state;
        a.updated_at = Some(now);
        self.replace_actuator(k, a.duplicate());
        Ok(a)
    }

    /// Marks an actuator reachable or not. Returns whether that changed; only a
    /// change stamps the row with `now`.
    pub fn set_actuator_online(&mut self, id: i32, online: bool, now: Timestamp) -> (r: Result<bool, StoreError>)
        requires
            old(self)@.wf(),
        ensures
            final(self)@.wf(),
            match r {
                Ok(changed) => exists|k: int| 0 <= k < old(self)@.actuators.len() && old(self)@.actuators[k].id == id
                    && changed == (old(self)@.actuators[k].online != online)
                    && final(self)@ == if changed {
                        RegistryView {
                            actuators: old(self)@.actuators.update(k, Actuator { online: online, updated_at: Some(now), ..old(self)@.actuators[k] }),
                            ..old(self)@
                        }
                    } else {
                        old(self)@
                    },
                Err(e) => {
                    &&& !old(self)@.has_actuator(id)
                    &&& e == StoreError::NotFound
                    &&& final(self)@ == old(self)@
                },
            },
    {
        let k = match self.find_actuator(id) {
            Some(k) => k,
            None => return Err(StoreError::NotFound),
        };
        if self.actuators[k].online == online {
            return Ok(false);
        }
        let mut a = self.actuators[k].duplicate();
        a.online = online;
        a.updated_at = Some(now);
        self.replace_actuator(k, a);
        Ok(true)
    }

    /// Every actuator, in order of registration.
    pub fn get_all_registered_actuators(&self) -> (r: Vec<Actuator>)
        ensures
            r@ == self@.actuators,
    {
        copy_all(&self.actuators)
    }

    /// Stores a new script, idle, created at `now`.
    pub fn save_new_script(&mut self, title: String, code: String, schedule: Option<String>, now: Timestamp) -> (r: Result<Script, StoreError>)
        requires
            old(self)@.wf(),
        ensures
            final(self)@.wf(),
            match r {
                Ok(s) => {
                    &&& s == (Script { id: old(self)@.next_script_id as i32, title, code, schedule, status: 0, created_at: now, updated_at: None })
                    &&& final(self)@ == (RegistryView {
                        scripts: old(self)@.scripts.push(s),
                        next_script_id: old(self)@.next_script_id + 1,
                        ..old(self)@
                    })
                },
                Err(e) => {
                    &&& e == StoreError::Other
                    &&& old(self)@.next_script_id == i32::MAX
                    &&& final(self)@ == old(self)@
                },
            },
    {
        if self.next_script_id == i32::MAX {
            return Err(StoreError::Other);
        }
        let s = Script { id: self.next_script_id, title, code, schedule, status: 0, created_at: now, updated_at: None };
        self.scripts.push(s.duplicate());
        self.next_script_id = self.next_script_id + 1;
        Ok(s)
    }

    /// The script with identity `id`.
    pub fn get_script(&self, id: i32) -> (r: Result<Script, StoreError>)
        ensures
            match r {
                Ok(s) => s.id == id && self@.scripts.contains(s),
                Err(e) => !self@.has_script(id) && e == StoreError::NotFound,
            },
    {
        match self.find_script(id) {
            Some(k) => Ok(self.scripts[k].duplicate()),
            None => Err(StoreError::NotFound),
        }
    }

    /// Every script, in order of creation.
    pub fn get_scripts(&self) -> (r: Vec<Script>)
        ensures
            r@ == self@.scripts,
    {
        copy_all(&self.scripts)
    }

    /// Removes a script.
    pub fn delete_script(&mut self, id: i32) -> (r: Result<(), StoreError>)
        requires
            old(self)@.wf(),
        ensures
            final(self)@.wf(),
            match r {
                Ok(_) => exists|k: int| 0 <= k < old(self)@.scripts.len() && old(self)@.scripts[k].id == id
                    && final(self)@ == (RegistryView { scripts: old(self)@.scripts.remove(k), ..old(self)@ }),
                Err(e) => {
                    &&& !old(self)@.has_script(id)
                    &&& e == StoreError::NotFound
                    &&& final(self)@ == old(self)@
                },
            },
    {
        let k = match self.find_script(id) {
            Some(k) => k,
            None => return Err(StoreError::NotFound),
        };
        self.scripts.remove(k);
        proof {
            let old_s = old(self)@.scripts;
            assert forall|i: int, j: int| 0 <= i < j < self@.scripts.len() implies #[trigger] self@.scripts[i].id < #[trigger] self@.scripts[j].id by {
                let x = if i < k { i } else { i + 1 };
                let y = if j < k { j } else { j + 1 };
                assert(self@.scripts[i] == old_s[x]);
                assert(self@.scripts[j] == old_s[y]);
            }
            assert forall|i: int| 0 <= i < self@.scripts.len() implies 1 <= #[trigger] self@.scripts[i].id < self@.next_script_id by {
                let x = if i < k { i } else { i + 1 };
                assert(self@.scripts[i] == old_s[x]);
            }
        }
        Ok(())
    }

    fn replace_script(&mut self, k: usize, s: Script)
        requires
            old(self)@.wf(),
            k < old(self)@.scripts.len(),
            s.id == old(self)@.scripts[k as int].id,
        ensures
            final(self)@.wf(),
            final(self)@ == (RegistryView { scripts: old(self)@.scripts.update(k as int, s), ..old(self)@ }),
    {
        self.scripts.set(k, s);
        proof {
            assert forall|i: int| 0 <= i < self@.scripts.len() implies #[trigger] self@.scripts[i].id == old(self)@.scripts[i].id by {}
        }
    }

    /// Replaces a script's title, code and schedule and stamps the change with
    /// `now`.
    pub fn update_script(&mut self, id: i32, title: String, code: String, schedule: Option<String>, now: Timestamp) -> (r: Result<Script, StoreError>)
        requires
            old(self)@.wf(),
        ensures
            final(self)@.wf(),
            match r {
                Ok(s) => exists|k: int| 0 <= k < old(self)@.scripts.len() && old(self)@.scripts[k].id == id
                    && s == (Script { title, code, schedule, updated_at: Some(now), ..old(self)@.scripts[k] })
                    && final(self)@ == (RegistryView { scripts: old(self)@.scripts.update(k, s), ..old(self)@ }),
                Err(e) => {
                    &&& !old(self)@.has_script(id)
                    &&& e == StoreError::NotFound
                    &&& final(self)@ == old(self)@
                },
            },
    {
        let k = match self.find_script(id) {
            Some(k) => k,
            None => return Err(StoreError::NotFound),
        };
        let mut s = self.scripts[k].duplicate();
        s.title = title;
        s.code = code;
        s.schedule = schedule;
        s.updated_at = Some(now);
        self.replace_script(k, s.duplicate());
        Ok(s)
    }

    /// Sets or clears a script's schedule and stamps the change with `now`.
    pub fn set_script_schedule(&mut self, id: i32, schedule: Option<String>, now: Timestamp) -> (r: Result<Script, StoreError>)
        requires
            old(self)@.wf(),
        ensures
            final(self)@.wf(),
            match r {
                Ok(s) => exists|k: int| 0 <= k < old(self)@.scripts.len() && old(self)@.scripts[k].id == id
                    && s == (Script { schedule, updated_at: Some(now), ..old(self)@.scripts[k] })
                    && final(self)@ == (RegistryView { scripts: old(self)@.scripts.update(k, s), ..old(self)@ }),
                Err(e) => {
                    &&& !old(self)@.has_script(id)
                    &&& e == StoreError::NotFound
                    &&& final(self)@ == old(self)@
                },
            },
    {
        let k = match self.find_script(id) {
            Some(k) => k,
            None => return Err(StoreError::NotFound),
        };
        let mut s = self.scripts[k].duplicate();
        s.schedule = schedule;
        s.updated_at = Some(now);
        self.replace_script(k, s.duplicate());
        Ok(s)
    }

    /// Records a script's run status.
    pub fn set_script_status(&mut self, id: i32, status: i32) -> (r: Result<Script, StoreError>)
        requires
            old(self)@.wf(),
        ensures
            final(self)@.wf(),
            match r {
                Ok(s) => exists|k: int| 0 <= k < old(self)@.scripts.len() && old(self)@.scripts[k].id == id
                    && s == (Script { status, ..old(self)@.scripts[k] })
                    && final(self)@ == (RegistryView { scripts: old(self)@.scripts.update(k, s), ..old(self)@ }),
                Err(e) => {
                    &&& !old(self)@.has_script(id)
                    &&& e == StoreError::NotFound
                    &&& final(self)@ == old(self)@
                },
            },
    {
        let k = match self.find_script(id) {
            Some(k) => k,
            None => return Err(StoreError::NotFound),
        };
        let mut s = self.scripts[k].duplicate();
        s.status = status;
        self.replace_script(k, s.duplicate());
        Ok(s)
    }
}


/// Readings that all belong to sensors of `before` still do after a change
/// of the sensors that keeps the identity of every sensor that a reading
/// names.
proof fn lemma_reads_keep_sensors(before: RegistryView, after: RegistryView)
    requires
        forall|i: int| 0 <= i < before.reads.len() ==> before.has_sensor(#[trigger] before.reads[i].sensor_id),
        forall|r: SensorRead| #[trigger] after.reads.contains(r) ==> before.reads.contains(r),
        forall|id: i32| before.has_sensor(id) && (exists|i: int| 0 <= i < after.reads.len() && (#[trigger] after.reads[i]).sensor_id == id)
            ==> after.has_sensor(id),
    ensures
        forall|i: int| 0 <= i < after.reads.len() ==> after.has_sensor(#[trigger] after.reads[i].sensor_id),
{
    assert forall|i: int| 0 <= i < after.reads.len() implies after.has_sensor(#[trigger] after.reads[i].sensor_id) by {
        let r = after.reads[i];
        assert(after.reads.contains(r));
        assert(before.reads.contains(r));
        let m = choose|m: int| 0 <= m < before.reads.len() && before.reads[m] == r;
        assert(before.has_sensor(before.reads[m].sensor_id));
    }
}

/// In a well-formed registry no reading names a sensor that is not
/// registered; in particular none is left of a sensor once it is removed.
pub proof fn law_no_reads_of_absent_sensor(reg: RegistryView, id: i32)
    requires
        reg.wf(),
        !reg.has_sensor(id),
    ensures
        forall|i: int| 0 <= i < reg.reads.len() ==> (#[trigger] reg.reads[i]).sensor_id != id,
{
    assert forall|i: int| 0 <= i < reg.reads.len() implies (#[trigger] reg.reads[i]).sensor_id != id by {
        assert(reg.has_sensor(reg.reads[i].sensor_id));
    }
}

/// No other row of `sensors` shares the key of `s`.
pub open spec fn sole_with_key(sensors: Seq<Sensor>, s: Sensor) -> bool {
    forall|i: int| 0 <= i < sensors.len() && same_sensor_key(#[trigger] sensors[i], s) ==> sensors[i] == s
}

proof fn lemma_sensor_key_unique(reg: RegistryView, s: Sensor)
    requires
        reg.wf(),
        reg.sensors.contains(s),
    ensures
        sole_with_key(reg.sensors, s),
{
    let k = choose|k: int| 0 <= k < reg.sensors.len() && reg.sensors[k] == s;
    assert forall|i: int| 0 <= i < reg.sensors.len() && same_sensor_key(#[trigger] reg.sensors[i], s) implies reg.sensors[i] == s by {
        if i != k {
            assert(!same_sensor_key(reg.sensors[i], reg.sensors[k]));
        }
    }
}

/// A well-formed registry holds at most one sensor per `(kind, ip_address)`:
/// two registrations with the same key give back the same row, with the same
/// identity.
pub proof fn law_one_sensor_per_key(reg: RegistryView, a: Sensor, b: Sensor)
    requires
        reg.wf(),
        reg.sensors.contains(a),
        reg.sensors.contains(b),
        same_sensor_key(a, b),
    ensures
        a == b,
        a.id == b.id,
{
    lemma_sensor_key_unique(reg, a);
}

/// Every reading that a window query returns belongs to the sensor asked for
/// and was taken between `from` and `to`; there are at most `limit` of them.
pub proof fn law_window_in_range(reads: Seq<SensorRead>, s: i32, from: Timestamp, to: Timestamp, limit: nat)
    ensures
        newest_in_window(reads, s, from, to, limit).len() <= limit,
        forall|i: int| 0 <= i < newest_in_window(reads, s, from, to, limit).len()
            ==> in_window(#[trigger] newest_in_window(reads, s, from, to, limit)[i], s, from, to),
    decreases reads.len(),
{
    if reads.len() > 0 && limit > 0 {
        if in_window(reads.last(), s, from, to) {
            law_window_in_range(reads.drop_last(), s, from, to, (limit - 1) as nat);
            let rest = newest_in_window(reads.drop_last(), s, from, to, (limit - 1) as nat);
            assert forall|i: int| 0 <= i < newest_in_window(reads, s, from, to, limit).len()
                implies in_window(#[trigger] newest_in_window(reads, s, from, to, limit)[i], s, from, to) by {
                if i > 0 {
                    assert(newest_in_window(reads, s, from, to, limit)[i] == rest[i - 1]);
                }
            }
        } else {
            law_window_in_range(reads.drop_last(), s, from, to, limit);
        }
    }
}

/// What `NaiveDateTime::parse_from_str` reads from a `YYYY-MM-DD HH:MM:SS` text,
/// in seconds since the epoch; `None` where the text is no such date.
pub uninterp spec fn timestamp_of(s: Seq<char>) -> Option<Timestamp>;

/// Relies on chrono's `NaiveDateTime::parse_from_str` with the format
/// `%Y-%m-%d %H:%M:%S`, and on `timestamp` of the result read as UTC: the
/// result depends on the text alone.
#[verifier::external_body]
fn parse_timestamp(s: &str) -> (r: Option<Timestamp>)
    ensures
        r == timestamp_of(s@),
{
    match chrono::NaiveDateTime::parse_from_str(s, "%Y-%m-%d %H:%M:%S") {
        Ok(t) => Some(t.and_utc().timestamp()),
        Err(_) => None,
    }
}

impl Registry {
    /// The window query on dates written `YYYY-MM-DD HH:MM:SS`.
    pub fn get_sensor_readings(&self, sensor_id: i32, from_date: &str, to_date: &str) -> (r: Result<Vec<SensorRead>, StoreError>)
        ensures
            match (timestamp_of(from_date@), timestamp_of(to_date@)) {
                (Some(from), Some(to)) => r matches Ok(v)
                    && v@ == newest_in_window(self@.reads, sensor_id, from, to, READINGS_WINDOW_LIMIT as nat),
                _ => r == Err::<Vec<SensorRead>, StoreError>(StoreError::InvalidDate),
            },
    {
        let from = match parse_timestamp(from_date) {
            Some(t) => t,
            None => return Err(StoreError::InvalidDate),
        };
        let to = match parse_timestamp(to_date) {
            Some(t) => t,
            None => return Err(StoreError::InvalidDate),
        };
        Ok(self.readings_in_window(sensor_id, from, to))
    }
}

/// The identity after the last row, or 1 for an empty table.
pub open spec fn next_after(ids: Seq<i32>) -> int {
    if ids.len() == 0 { 1 } else { ids.last() + 1 }
}

/// Identities increase and are positive.
pub open spec fn ids_increasing(ids: Seq<i32>) -> bool {
    &&& forall|i: int| 0 <= i < ids.len() ==> 1 <= #[trigger] ids[i]
    &&& forall|i: int, j: int| 0 <= i < j < ids.len() ==> #[trigger] ids[i] < #[trigger] ids[j]
}

/// Checks that identities increase, are positive and leave room for one more;
/// the next identity follows the last.
fn check_ids(ids: &Vec<i32>) -> (r: Option<i32>)
    ensures
        match r {
            Some(n) => ids_increasing(ids@) && n == next_after(ids@) && n <= i32::MAX,
            None => !(ids_increasing(ids@) && next_after(ids@) <= i32::MAX),
        },
{
    let mut i: usize = 0;
    while i < ids.len()
        invariant
            i <= ids@.len(),
            forall|k: int| 0 <= k < i ==> 1 <= #[trigger] ids@[k],
            forall|a: int, b: int| 0 <= a < b < i ==> #[trigger] ids@[a] < #[trigger] ids@[b],
        decreases ids@.len() - i,
    {
        if ids[i] < 1 || (i > 0 && ids[i - 1] >= ids[i]) {
            return None;
        }
        proof {
            assert forall|a: int, b: int| 0 <= a < b < i + 1 implies #[trigger] ids@[a] < #[trigger] ids@[b] by {
                if b == i && a < i - 1 {
                    assert(ids@[a] < ids@[i - 1]);
                }
            }
        }
        i += 1;
    }
    if ids.len() == 0 {
        return Some(1);
    }
    let last = ids[ids.len() - 1];
    if last == i32::MAX {
        return None;
    }
    Some(last + 1)
}

fn sensor_ids(v: &Vec<Sensor>) -> (r: Vec<i32>)
    ensures
        r@.len() == v@.len(),
        forall|i: int| 0 <= i < v@.len() ==> r@[i] == (#[trigger] v@[i]).id,
{
    let mut r: Vec<i32> = Vec::new();
    let mut i: usize = 0;
    while i < v.len()
        invariant
            i <= v@.len(),
            r@.len() == i,
            forall|k: int| 0 <= k < i ==> r@[k] == (#[trigger] v@[k]).id,
        decreases v@.len() - i,
    {
        r.push(v[i].id);
        i += 1;
    }
    r
}

fn read_ids(v: &Vec<SensorRead>) -> (r: Vec<i32>)
    ensures
        r@.len() == v@.len(),
        forall|i: int| 0 <= i < v@.len() ==> r@[i] == (#[trigger] v@[i]).id,
{
    let mut r: Vec<i32> = Vec::new();
    let mut i: usize = 0;
    while i < v.len()
        invariant
            i <= v@.len(),
            r@.len() == i,
            forall|k: int| 0 <= k < i ==> r@[k] == (#[trigger] v@[k]).id,
        decreases v@.len() - i,
    {
        r.push(v[i].id);
        i += 1;
    }
    r
}

fn actuator_ids(v: &Vec<Actuator>) -> (r: Vec<i32>)
    ensures
        r@.len() == v@.len(),
        forall|i: int| 0 <= i < v@.len() ==> r@[i] == (#[trigger] v@[i]).id,
{
    let mut r: Vec<i32> = Vec::new();
    let mut i: usize = 0;
    while i < v.len()
        invariant
            i <= v@.len(),
            r@.len() == i,
            forall|k: int| 0 <= k < i ==> r@[k] == (#[trigger] v@[k]).id,
        decreases v@.len() - i,
    {
        r.push(v[i].id);
        i += 1;
    }
    r
}

fn script_ids(v: &Vec<Script>) -> (r: Vec<i32>)
    ensures
        r@.len() == v@.len(),
        forall|i: int| 0 <= i < v@.len() ==> r@[i] == (#[trigger] v@[i]).id,
{
    let mut r: Vec<i32> = Vec::new();
    let mut i: usize = 0;
    while i < v.len()
        invariant
            i <= v@.len(),
            r@.len() == i,
            forall|k: int| 0 <= k < i ==> r@[k] == (#[trigger] v@[k]).id,
        decreases v@.len() - i,
    {
        r.push(v[i].id);
        i += 1;
    }
    r
}

fn sensor_keys_unique(v: &Vec<Sensor>) -> (r: bool)
    ensures
        r == (forall|i: int, j: int| 0 <= i < v@.len() && 0 <= j < v@.len() && i != j
            ==> !same_sensor_key(#[trigger] v@[i], #[trigger] v@[j])),
{
    let mut i: usize = 0;
    while i < v.len()
        invariant
            i <= v@.len(),
            forall|a: int, b: int| 0 <= a < i && 0 <= b < v@.len() && a != b ==> !same_sensor_key(#[trigger] v@[a], #[trigger] v@[b]),
        decreases v@.len() - i,
    {
        let mut j: usize = 0;
        while j < v.len()
            invariant
                i < v@.len(),
                j <= v@.len(),
                forall|a: int, b: int| 0 <= a < i && 0 <= b < v@.len() && a != b ==> !same_sensor_key(#[trigger] v@[a], #[trigger] v@[b]),
                forall|b: int| 0 <= b < j && b != i ==> !same_sensor_key(v@[i as int], #[trigger] v@[b]),
            decreases v@.len() - j,
        {
            if i != j && v[i].sensor_type == v[j].sensor_type && v[i].ip_address == v[j].ip_address {
                return false;
            }
            j += 1;
        }
        i += 1;
    }
    true
}

fn actuator_keys_unique(v: &Vec<Actuator>) -> (r: bool)
    ensures
        r == (forall|i: int, j: int| 0 <= i < v@.len() && 0 <= j < v@.len() && i != j
            ==> !same_actuator_key(#[trigger] v@[i], #[trigger] v@[j])),
{
    let mut i: usize = 0;
    while i < v.len()
        invariant
            i <= v@.len(),
            forall|a: int, b: int| 0 <= a < i && 0 <= b < v@.len() && a != b ==> !same_actuator_key(#[trigger] v@[a], #[trigger] v@[b]),
        decreases v@.len() - i,
    {
        let mut j: usize = 0;
        while j < v.len()
            invariant
                i < v@.len(),
                j <= v@.len(),
                forall|a: int, b: int| 0 <= a < i && 0 <= b < v@.len() && a != b ==> !same_actuator_key(#[trigger] v@[a], #[trigger] v@[b]),
                forall|b: int| 0 <= b < j && b != i ==> !same_actuator_key(v@[i as int], #[trigger] v@[b]),
            decreases v@.len() - j,
        {
            if i != j && v[i].ip_address == v[j].ip_address && v[i].port == v[j].port && v[i].pulse == v[j].pulse {
                return false;
            }
            j += 1;
        }
        i += 1;
    }
    true
}

/// Every reading names a sensor of `sensors`.
fn reads_reference_sensors(reads: &Vec<SensorRead>, sensors: &Vec<Sensor>) -> (r: bool)
    ensures
        r == (forall|i: int| 0 <= i < reads@.len() ==> sensor_named(sensors@, #[trigger] reads@[i].sensor_id)),
{
    let mut i: usize = 0;
    while i < reads.len()
        invariant
            i <= reads@.len(),
            forall|a: int| 0 <= a < i ==> sensor_named(sensors@, #[trigger] reads@[a].sensor_id),
        decreases reads@.len() - i,
    {
        let mut j: usize = 0;
        let mut found = false;
        while j < sensors.len() && !found
            invariant
                i < reads@.len(),
                j <= sensors@.len(),
                found ==> 0 < j && sensors@[j - 1].id == reads@[i as int].sensor_id,
                !found ==> forall|b: int| 0 <= b < j ==> (#[trigger] sensors@[b]).id != reads@[i as int].sensor_id,
            decreases sensors@.len() - j,
        {
            if sensors[j].id == reads[i].sensor_id {
                found = true;
            }
            j += 1;
        }
        if !found {
            assert(!sensor_named(sensors@, reads@[i as int].sensor_id));
            return false;
        }
        assert(sensors@[j - 1].id == reads@[i as int].sensor_id);
        i += 1;
    }
    true
}

impl Registry {
    /// Rebuilds a registry from stored tables. The tables are taken when their
    /// identities increase, the deduplication keys are unique and every
    /// reading names a stored sensor; each next identity follows the last one
    /// of its table.
    pub fn from_tables(sensors: Vec<Sensor>, reads: Vec<SensorRead>, actuators: Vec<Actuator>, scripts: Vec<Script>) -> (r: Option<Registry>)
        ensures
            ({
                let v = RegistryView {
                    sensors: sensors@,
                    reads: reads@,
                    actuators: actuators@,
                    scripts: scripts@,
                    next_sensor_id: next_after(sensors@.map_values(|s: Sensor| s.id)),
                    next_read_id: next_after(reads@.map_values(|s: SensorRead| s.id)),
                    next_actuator_id: next_after(actuators@.map_values(|s: Actuator| s.id)),
                    next_script_id: next_after(scripts@.map_values(|s: Script| s.id)),
                };
                match r {
                    Some(reg) => reg@ == v && v.wf(),
                    None => !v.wf(),
                }
            }),
    {
        let ghost si = sensors@.map_values(|s: Sensor| s.id);
        let ghost ri = reads@.map_values(|s: SensorRead| s.id);
        let ghost ai = actuators@.map_values(|s: Actuator| s.id);
        let ghost ci = scripts@.map_values(|s: Script| s.id);
        let s_ids = sensor_ids(&sensors);
        let r_ids = read_ids(&reads);
        let a_ids = actuator_ids(&actuators);
        let c_ids = script_ids(&scripts);
        assert(s_ids@ =~= si);
        assert(r_ids@ =~= ri);
        assert(a_ids@ =~= ai);
        assert(c_ids@ =~= ci);
        let ns = check_ids(&s_ids);
        let nr = check_ids(&r_ids);
        let na = check_ids(&a_ids);
        let nc = check_ids(&c_ids);
        let su = sensor_keys_unique(&sensors);
        let au = actuator_keys_unique(&actuators);
        let fk = reads_reference_sensors(&reads, &sensors);
        proof {
            lemma_ids_wf(si);
            lemma_ids_wf(ri);
            lemma_ids_wf(ai);
            lemma_ids_wf(ci);
        }
        match (ns, nr, na, nc) {
            (Some(ns), Some(nr), Some(na), Some(nc)) => {
                if !su || !au || !fk {
                    return None;
                }
                Some(Registry {
                    sensors,
                    reads,
                    actuators,
                    scripts,
                    next_sensor_id: ns,
                    next_read_id: nr,
                    next_actuator_id: na,
                    next_script_id: nc,
                })
            },
            _ => None,
        }
    }
}

/// Increasing identities all lie below the one after the last.
proof fn lemma_ids_wf(ids: Seq<i32>)
    ensures
        ids_increasing(ids) ==> forall|i: int| 0 <= i < ids.len() ==> #[trigger] ids[i] < next_after(ids),
{
    if ids_increasing(ids) && ids.len() > 0 {
        assert forall|i: int| 0 <= i < ids.len() implies #[trigger] ids[i] < next_after(ids) by {
            if i < ids.len() - 1 {
                assert(ids[i] < ids[ids.len() - 1]);
            }
        }
    }
}

/// The moment before which readings are swept: thirty days before `now`, or
/// the earliest representable moment.
pub open spec fn retention_cutoff(now: Timestamp) -> Timestamp {
    if now >= i64::MIN + RETENTION_SECONDS {
        (now - RETENTION_SECONDS) as Timestamp
    } else {
        i64::MIN
    }
}

} // verus!
