//! The front end of a tiny single-table database: meta-commands, statement
//! classification and execution against an in-memory table.
pub mod laws;
pub mod meta;
pub mod session;
pub mod statement;
pub mod table;
pub mod text;
