# mysql2pg-middleware

A middleware that speaks MySQL to its clients and PostgreSQL to its database. It
translates statements, keeps the state of MySQL sessions, executes what it translated, and
repairs statements that PostgreSQL refuses and MySQL would take.

The library under `src/` is written in Verus: every function states what it returns or
changes, and Verus proves it. The program under `app/` is ordinary Rust around it: the
command line, configuration files, the HTTP and MySQL frontends, and the connections to
PostgreSQL.

## Layout of the library

- `text`, `scan`, `quoting`, `regexes`, `tree`: text, quoted fragments, patterns and syntax
  trees, with the mathematical functions that the contracts speak of
- `parser`: statements to syntax trees and back, by way of `sqlparser`
- `prepass`, `ranking`: what is rewritten before a statement is parsed
- `direct`: statements that go through without being parsed
- `exprs`, `query`, `names`, `types`, `ddl`, `show`, `statement`: the translation of syntax
  trees
- `functions`, `passes`: what is rewritten in a translated statement
- `translator`, `cache`: all steps in a row, and a cache of their outcomes
- `params`: placeholders and parameters of prepared statements
- `frontend`, `session`: what the MySQL frontend answers itself, and the state of a
  connection and of the server
- `executor`, `repair`, `execution`, `compat`: what is sent to PostgreSQL, how a refused
  statement is repaired, and the functions that PostgreSQL lacks
- `server`, `cli`, `config`, `error`: the HTTP endpoints, the command line, configuration and
  errors

## What is trusted

Calls into `sqlparser`, `serde_json`, `regex` and `lru`, and a few functions of the standard
library, stand behind small functions whose contracts are believed rather than proved. Each
says above it which function it calls and what it claims of it. A result that takes too much
to state is given a name, and the contracts speak of that name.

## Configuration

```toml
[postgres]
driver = "tokio-postgres"
connection_string = "host=127.0.0.1 port=5432 user=postgres dbname=postgres"

[server]
bind_addr = "0.0.0.0:8080"
mysql_bind_addr = "0.0.0.0:3306"
```

The version that clients are told can be set with `MW_MYSQL_SERVER_VERSION` and
`MW_MYSQL_SERVER_VERSION_COMMENT`.
