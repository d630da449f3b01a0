use vstd::prelude::*;

verus! {

/// The kinds of sensor that the gateway knows; anything else is `Unknown`.
#[derive(Clone, Copy, Debug, PartialEq, Eq, Structural)]
pub enum SensorKind {
    Current,
    Temperature,
    Humidity,
    Pressure,
    WindSpeed,
    WindDirection,
    Rain,
    Uv,
    SolarRadiation,
    Unknown,
}

/// ASCII letters in lower case; every other character unchanged.
pub open spec fn lower_char(c: char) -> char {
    if 'A' <= c && c <= 'Z' {
        ((c as u32) + 32) as char
    } else {
        c
    }
}

/// Equal up to the case of ASCII letters.
pub open spec fn eq_ignore_case(a: Seq<char>, b: Seq<char>) -> bool {
    a.len() == b.len() && forall|i: int| 0 <= i < a.len() ==> lower_char(#[trigger] a[i]) == lower_char(b[i])
}

fn lower_ascii(c: char) -> (r: char)
    ensures
        r == lower_char(c),
{
    if 'A' <= c && c <= 'Z' {
        let b: u8 = c as u8;
        assert(b < 100) by {
            assert((c as u32) <= 90);
        }
        (b + 32) as char
    } else {
        c
    }
}

pub fn str_eq_ignore_case(a: &str, b: &str) -> (r: bool)
    ensures
        r == eq_ignore_case(a@, b@),
{
    let n = a.unicode_len();
    if n != b.unicode_len() {
        return false;
    }
    let mut i: usize = 0;
    while i < n
        invariant
            n == a@.len(),
            n == b@.len(),
            i <= n,
            forall|k: int| 0 <= k < i ==> lower_char(#[trigger] a@[k]) == lower_char(b@[k]),
        decreases n - i,
    {
        if lower_ascii(a.get_char(i)) != lower_ascii(b.get_char(i)) {
            return false;
        }
        i += 1;
    }
    true
}

impl SensorKind {
    /// The stored name of the kind.
    pub open spec fn name_spec(self) -> Seq<char> {
        match self {
            SensorKind::Current => "current"@,
            SensorKind::Temperature => "temperature"@,
            SensorKind::Humidity => "humidity"@,
            SensorKind::Pressure => "pressure"@,
            SensorKind::WindSpeed => "wind_speed"@,
            SensorKind::WindDirection => "wind_direction"@,
            SensorKind::Rain => "rain"@,
            SensorKind::Uv => "uv"@,
            SensorKind::SolarRadiation => "solar_radiation"@,
            SensorKind::Unknown => "unknown"@,
        }
    }

    /// The label a newly registered sensor of this kind gets.
    pub open spec fn default_name_spec(self) -> Seq<char> {
        match self {
            SensorKind::Current => "Current sensor"@,
            SensorKind::Temperature => "Temperature sensor"@,
            SensorKind::Humidity => "Humidity sensor"@,
            SensorKind::Pressure => "Pressure sensor"@,
            SensorKind::WindSpeed => "Wind sensor"@,
            SensorKind::WindDirection => "Wind direction sensor"@,
            SensorKind::Rain => "Rain sensor"@,
            SensorKind::Uv => "UV sensor"@,
            SensorKind::SolarRadiation => "Solar radiation sensor"@,
            SensorKind::Unknown => "Unknown sensor"@,
        }
    }

    /// The kind that a reported type names, ignoring ASCII case; `Unknown` when
    /// it names none.
    pub open spec fn from_name_spec(t: Seq<char>) -> SensorKind {
        if eq_ignore_case(t, "current"@) {
            SensorKind::Current
        } else if eq_ignore_case(t, "temperature"@) {
            SensorKind::Temperature
        } else if eq_ignore_case(t, "humidity"@) {
            SensorKind::Humidity
        } else if eq_ignore_case(t, "pressure"@) {
            SensorKind::Pressure
        } else if eq_ignore_case(t, "wind_speed"@) {
            SensorKind::WindSpeed
        } else if eq_ignore_case(t, "wind_direction"@) {
            SensorKind::WindDirection
        } else if eq_ignore_case(t, "rain"@) {
            SensorKind::Rain
        } else if eq_ignore_case(t, "uv"@) {
            SensorKind::Uv
        } else if eq_ignore_case(t, "solar_radiation"@) {
            SensorKind::SolarRadiation
        } else {
            SensorKind::Unknown
        }
    }

    pub fn from_name(t: &str) -> (r: SensorKind)
        ensures
            r == SensorKind::from_name_spec(t@),
    {
        if str_eq_ignore_case(t, "current") {
            SensorKind::Current
        } else if str_eq_ignore_case(t, "temperature") {
            SensorKind::Temperature
        } else if str_eq_ignore_case(t, "humidity") {
            SensorKind::Humidity
        } else if str_eq_ignore_case(t, "pressure") {
            SensorKind::Pressure
        } else if str_eq_ignore_case(t, "wind_speed") {
            SensorKind::WindSpeed
        } else if str_eq_ignore_case(t, "wind_direction") {
            SensorKind::WindDirection
        } else if str_eq_ignore_case(t, "rain") {
            SensorKind::Rain
        } else if str_eq_ignore_case(t, "uv") {
            SensorKind::Uv
        } else if str_eq_ignore_case(t, "solar_radiation") {
            SensorKind::SolarRadiation
        } else {
            SensorKind::Unknown
        }
    }

    pub fn name(&self) -> (r: String)
        ensures
            r@ == self.name_spec(),
    {
        match self {
            SensorKind::Current => "current".to_string(),
            SensorKind::Temperature => "temperature".to_string(),
            SensorKind::Humidity => "humidity".to_string(),
            SensorKind::Pressure => "pressure".to_string(),
            SensorKind::WindSpeed => "wind_speed".to_string(),
            SensorKind::WindDirection => "wind_direction".to_string(),
            SensorKind::Rain => "rain".to_string(),
            SensorKind::Uv => "uv".to_string(),
            SensorKind::SolarRadiation => "solar_radiation".to_string(),
            SensorKind::Unknown => "unknown".to_string(),
        }
    }

    pub fn default_name(&self) -> (r: String)
        ensures
            r@ == self.default_name_spec(),
    {
        match self {
            SensorKind::Current => "Current sensor".to_string(),
            SensorKind::Temperature => "Temperature sensor".to_string(),
            SensorKind::Humidity => "Humidity sensor".to_string(),
            SensorKind::Pressure => "Pressure sensor".to_string(),
            SensorKind::WindSpeed => "Wind sensor".to_string(),
            SensorKind::WindDirection => "Wind direction sensor".to_string(),
            SensorKind::Rain => "Rain sensor".to_string(),
            SensorKind::Uv => "UV sensor".to_string(),
            SensorKind::SolarRadiation => "Solar radiation sensor".to_string(),
            SensorKind::Unknown => "Unknown sensor".to_string(),
        }
    }
}

} // verus!
