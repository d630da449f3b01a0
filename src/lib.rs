use vstd::prelude::*;

pub mod helper;
pub mod models;
pub mod sensor_types;
pub mod registry;
pub mod value;
pub mod variables;
pub mod condition_parser;
pub mod script_parser;
pub mod text;
pub mod script_runner;
pub mod handlers;
pub mod events;
pub mod message;

verus! {

} // verus!
