//! The configuration of the middleware.
use vstd::prelude::*;

verus! {

/// Which rewrites the translator applies, and how it reads double quotes.
#[derive(Debug, Clone, Copy, PartialEq, Eq, Hash, Structural)]
pub struct TranslatorConfig {
    pub rewrite_limit_comma: bool,
    pub normalize_mysql_backticks: bool,
    pub normalize_boolean_literals: bool,
    pub rewrite_mysql_functions: bool,
    pub rewrite_json_operators: bool,
    pub strip_mysql_table_options: bool,
    /// Whether double quotes hold identifiers, as under MySQL's `ANSI_QUOTES` mode.
    pub ansi_quotes: bool,
}

/// Every rewrite on, double quotes holding strings: MySQL's default.
pub open spec fn default_translator() -> TranslatorConfig {
    TranslatorConfig {
        rewrite_limit_comma: true,
        normalize_mysql_backticks: true,
        normalize_boolean_literals: true,
        rewrite_mysql_functions: true,
        rewrite_json_operators: true,
        strip_mysql_table_options: true,
        ansi_quotes: false,
    }
}

impl Default for TranslatorConfig {
    fn default() -> (r: Self)
        ensures
            r == default_translator(),
    {
        TranslatorConfig {
            rewrite_limit_comma: true,
            normalize_mysql_backticks: true,
            normalize_boolean_literals: true,
            rewrite_mysql_functions: true,
            rewrite_json_operators: true,
            strip_mysql_table_options: true,
            ansi_quotes: false,
        }
    }
}

/// The database to connect to.
#[derive(Debug)]
pub struct PostgresConfig {
    pub driver: String,
    pub connection_string: String,
}

/// The driver that is used where the configuration names none.
pub fn default_driver() -> (r: String)
    ensures
        r@ == "tokio-postgres"@,
{
    "tokio-postgres".to_string()
}

/// Where the middleware listens.
#[derive(Debug)]
pub struct ServerConfig {
    pub bind_addr: String,
    pub mysql_bind_addr: String,
}

/// The configuration of the middleware.
#[derive(Debug)]
pub struct AppConfig {
    pub server: ServerConfig,
    pub postgres: PostgresConfig,
    pub translator: TranslatorConfig,
}

} // verus!
