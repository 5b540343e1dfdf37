//! Turns column values in PostgreSQL's binary wire form into SQL literals
//! that can stand in an `INSERT ... VALUES` list.

pub mod pg_type;
pub mod wire;
pub mod literal;
pub mod array;
pub mod raw;
pub mod serialize_for_insert;
