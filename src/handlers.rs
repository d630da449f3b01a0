use vstd::prelude::*;
use crate::text::{int_text, int_to_text};
use crate::value::{chars_of, string_from_chars};

verus! {

/// The request methods that the router tells apart.
#[derive(Clone, Copy, Debug, PartialEq, Eq, Structural)]
pub enum CoapMethod {
    Get,
    Post,
    Put,
    Delete,
}

/// The device-facing endpoints.
#[derive(Clone, Copy, Debug, PartialEq, Eq, Structural)]
pub enum Route {
    SensorRegister,
    SensorUnregister,
    SensorRead,
    SensorName,
    ActuatorRegister,
    ActuatorUnregister,
    ActuatorName,
    ActuatorState,
}

/// The path of each endpoint and the one method it answers.
pub open spec fn route_spec(path: Seq<char>, method: CoapMethod) -> Option<Route> {
    if path == "/sensor/register"@ && method == CoapMethod::Post {
        Some(Route::SensorRegister)
    } else if path == "/sensor/unregister"@ && method == CoapMethod::Post {
        Some(Route::SensorUnregister)
    } else if path == "/sensor"@ && method == CoapMethod::Post {
        Some(Route::SensorRead)
    } else if path == "/sensor/name"@ && method == CoapMethod::Put {
        Some(Route::SensorName)
    } else if path == "/actuator/register"@ && method == CoapMethod::Post {
        Some(Route::ActuatorRegister)
    } else if path == "/actuator/unregister"@ && method == CoapMethod::Post {
        Some(Route::ActuatorUnregister)
    } else if path == "/actuator/name"@ && method == CoapMethod::Put {
        Some(Route::ActuatorName)
    } else if path == "/actuator/state"@ && method == CoapMethod::Put {
        Some(Route::ActuatorState)
    } else {
        None
    }
}

/// The endpoint a request goes to; none (answered `KO`) for an unknown path
/// or a method that the path does not take.
pub fn path_handler(path: &str, method: CoapMethod) -> (r: Option<Route>)
    ensures
        r == route_spec(path@, method),
{
    let p = chars_of(path);
    let eq = |s: &str| -> (b: bool)
        ensures
            b == (p@ == s@),
        { crate::value::chars_eq_str(&p, s) };
    if eq("/sensor/register") && method == CoapMethod::Post {
        Some(Route::SensorRegister)
    } else if eq("/sensor/unregister") && method == CoapMethod::Post {
        Some(Route::SensorUnregister)
    } else if eq("/sensor") && method == CoapMethod::Post {
        Some(Route::SensorRead)
    } else if eq("/sensor/name") && method == CoapMethod::Put {
        Some(Route::SensorName)
    } else if eq("/actuator/register") && method == CoapMethod::Post {
        Some(Route::ActuatorRegister)
    } else if eq("/actuator/unregister") && method == CoapMethod::Post {
        Some(Route::ActuatorUnregister)
    } else if eq("/actuator/name") && method == CoapMethod::Put {
        Some(Route::ActuatorName)
    } else if eq("/actuator/state") && method == CoapMethod::Put {
        Some(Route::ActuatorState)
    } else {
        None
    }
}

/// The answer to a request that failed, or that no endpoint takes.
pub fn ko_body() -> (r: String)
    ensures
        r@ == "KO"@,
{
    "KO".to_string()
}

/// The answer of the endpoints that report success only.
pub fn ok_body() -> (r: String)
    ensures
        r@ == "OK"@,
{
    "OK".to_string()
}

/// An identity in decimal, the answer of the register and unregister
/// endpoints.
pub fn id_body(id: i32) -> (r: String)
    ensures
        r@ == int_text(id as int),
{
    string_from_chars(&int_to_text(id as i64))
}

pub open spec fn bool_text(b: bool) -> Seq<char> {
    if b { "true"@ } else { "false"@ }
}

/// `{"id":<id>,"state":<state>}`, the answer to an actuator's registration.
pub open spec fn actuator_body_spec(id: i32, state: bool) -> Seq<char> {
    "{\"id\":"@ + int_text(id as int) + ",\"state\":"@ + bool_text(state) + "}"@
}

fn push_all(out: &mut Vec<char>, s: &Vec<char>)
    ensures
        final(out)@ == old(out)@ + s@,
{
    let ghost o0 = out@;
    let mut j: usize = 0;
    while j < s.len()
        invariant
            j <= s@.len(),
            out@ == o0 + s@.subrange(0, j as int),
        decreases s@.len() - j,
    {
        out.push(s[j]);
        j += 1;
        assert(out@ =~= o0 + s@.subrange(0, j as int));
    }
    assert(s@.subrange(0, s@.len() as int) =~= s@);
}

pub fn actuator_register_body(id: i32, state: bool) -> (r: String)
    ensures
        r@ == actuator_body_spec(id, state),
{
    let mut out = chars_of("{\"id\":");
    push_all(&mut out, &int_to_text(id as i64));
    push_all(&mut out, &chars_of(",\"state\":"));
    if state {
        push_all(&mut out, &chars_of("true"));
    } else {
        push_all(&mut out, &chars_of("false"));
    }
    push_all(&mut out, &chars_of("}"));
    string_from_chars(&out)
}

} // verus!
