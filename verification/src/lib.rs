//! Security core of a tool gateway: secrets at rest, access control, and
//! mediation of external commands.

pub mod gateway;
pub mod paths;
mod random;
pub mod security;
pub mod string_map;
pub mod text;
pub mod time;
pub mod time_order;
pub mod tools;
