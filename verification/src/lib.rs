//! Charging interworking core: a Diameter Ro codec, charging state machines
//! and the decisions around a durable session store.

pub mod charging;
pub mod wire;
pub mod diameter;
pub mod imscap;
pub mod json;
pub mod runtime;
pub mod store;
pub mod tables;
pub mod text;
