//! Translation of MySQL statements and sessions to PostgreSQL.
pub mod cache;
pub mod cli;
pub mod compat;
pub mod config;
pub mod ddl;
pub mod direct;
pub mod error;
pub mod execution;
pub mod executor;
pub mod exprs;
pub mod frontend;
pub mod functions;
pub mod laws;
pub mod names;
pub mod params;
pub mod parser;
pub mod passes;
pub mod prepass;
pub mod query;
pub mod quoting;
pub mod ranking;
pub mod regexes;
pub mod repair;
pub mod scan;
pub mod server;
pub mod session;
pub mod show;
pub mod statement;
pub mod text;
pub mod translator;
pub mod tree;
pub mod types;
