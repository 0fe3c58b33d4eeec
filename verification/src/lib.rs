//! A register-resolution engine for a grid based, card programmed robot race.
//!
//! Every round each player commits move cards to five registers. The engine
//! resolves the registers one by one: robots move in order of card priority and
//! push each other, conveyor belts carry the robots that rest on them, rotators
//! turn them, and a robot that leaves the playable surface is destroyed.
//!
//! `state` holds the data model, `engine` the transitions and `random` the
//! source of randomness used when a deck is generated or dealt. `protocol`
//! and `discovery` serve the hosts of the engine: what they report to the
//! players, and how they find the instance of the service that is in charge.

pub mod discovery;
pub mod engine;
pub mod protocol;
pub mod random;
pub mod search;
pub mod state;
