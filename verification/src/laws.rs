//! What the translation, the sessions and the execution keep to, whatever they are given:
//! statements about several functions at once, or about what comes out of one.
pub mod compat;
pub mod functions;
pub mod inserts;
pub mod parsing;
pub mod queries;
pub mod rankings;
pub mod records;
pub mod repairs;
pub mod reports;
pub mod results;
pub mod runs;
pub mod select;
pub mod sessions;
pub mod shows;
pub mod statements;
pub mod tables;
pub mod texts;
pub mod types;
pub mod values;
