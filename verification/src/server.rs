//! The HTTP frontend: what its requests are answered.
use vstd::prelude::*;
use std::sync::Arc;

use crate::cache::TranslationCache;
use crate::config::AppConfig;
use crate::error::{failure_message, MiddlewareError};
use crate::executor::{QueryResult, TokioPostgresExecutor};
use crate::translator::{translation, TranslationResult};

verus! {

/// What the HTTP frontend works with.
#[derive(Debug)]
pub struct AppState {
    pub config: Arc<AppConfig>,
    pub executor: Arc<TokioPostgresExecutor>,
}

/// A request with a statement.
#[derive(Debug)]
pub struct SqlRequest {
    pub sql: String,
}

/// The answer to a health check.
#[derive(Debug)]
pub struct HealthResponse {
    pub status: &'static str,
    pub http_bind_addr: String,
    pub mysql_bind_addr: String,
}

/// The answer to a statement that was executed.
#[derive(Debug)]
pub struct ExecuteResponse {
    pub translation: TranslationResult,
    pub execution: QueryResult,
}

/// The answer to a request that failed.
#[derive(Debug)]
pub struct ErrorResponse {
    pub error: String,
}

/// An answer with its HTTP status.
#[derive(Debug)]
pub enum HttpReply<T> {
    /// 200
    Success(T),
    /// 400
    BadRequest(ErrorResponse),
    /// 502
    BadGateway(ErrorResponse),
}

/// Answers a health check.
pub fn health(state: &AppState) -> (r: HealthResponse)
    ensures
        r.status@ == "ok"@,
        r.http_bind_addr@ == state.config.server.bind_addr@,
        r.mysql_bind_addr@ == state.config.server.mysql_bind_addr@,
{
    HealthResponse {
        status: "ok",
        http_bind_addr: state.config.server.bind_addr.clone(),
        mysql_bind_addr: state.config.server.mysql_bind_addr.clone(),
    }
}

/// Answers a request to translate a statement.
pub fn translate(state: &AppState, request: &SqlRequest, cache: &mut TranslationCache) -> (r: HttpReply<
    TranslationResult,
>)
    requires
        old(cache).faithful(),
    ensures
        final(cache).faithful(),
        match translation(request.sql@, state.config.translator) {
            Ok(t) => r matches HttpReply::Success(out) && out@ == t,
            Err(e) => r matches HttpReply::BadRequest(out) && out.error@ == failure_message(e),
        },
{
    match cache.translate_sql(request.sql.as_str(), &state.config.translator) {
        Ok(t) => HttpReply::Success(t),
        Err(e) => HttpReply::BadRequest(ErrorResponse { error: e.to_string() }),
    }
}

/// Answers a request to execute a statement, given the result of its execution.
pub fn execute(translation: TranslationResult, result: Result<QueryResult, MiddlewareError>) -> (r: HttpReply<
    ExecuteResponse,
>)
    ensures
        match result {
            Ok(q) => r matches HttpReply::Success(out) && out.translation == translation && out.execution == q,
            Err(e) => r matches HttpReply::BadGateway(out) && out.error@ == failure_message(e@),
        },
{
    match result {
        Ok(execution) => HttpReply::Success(ExecuteResponse { translation, execution }),
        Err(e) => HttpReply::BadGateway(ErrorResponse { error: e.to_string() }),
    }
}

} // verus!
