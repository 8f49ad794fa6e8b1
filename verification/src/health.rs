//! Liveness and readiness.

use vstd::prelude::*;

verus! {

/// The answer of the probes.
#[derive(Debug)]
pub struct HealthResponse {
    /// `ok` or `unavailable`.
    pub status: String,
    /// How each dependency does.
    pub checks: HealthChecks,
}

/// How each dependency does.
#[derive(Debug)]
pub struct HealthChecks {
    /// `ok` or `error`.
    pub database: String,
}

/// What the database check says.
pub open spec fn database_word(reachable: bool) -> Seq<char> {
    if reachable {
        "ok"@
    } else {
        "error"@
    }
}

fn database_text(reachable: bool) -> (r: String)
    ensures
        r@ == database_word(reachable),
{
    if reachable {
        "ok".to_owned()
    } else {
        "error".to_owned()
    }
}

/// Whether a server lives: it does, as long as it answers. An outage of the
/// database is shown, but is no reason to restart the server.
pub fn healthz(reachable: bool) -> (r: (u16, HealthResponse))
    ensures
        r.0 == 200,
        r.1.status@ == "ok"@,
        r.1.checks.database@ == database_word(reachable),
{
    (200, HealthResponse { status: "ok".to_owned(), checks: HealthChecks { database: database_text(reachable) } })
}

/// Whether a server is ready: it is, as long as it reaches the database.
pub fn readyz(reachable: bool) -> (r: (u16, HealthResponse))
    ensures
        r.0 == (if reachable { 200u16 } else { 503u16 }),
        r.1.status@ == (if reachable { "ok"@ } else { "unavailable"@ }),
        r.1.checks.database@ == database_word(reachable),
{
    if reachable {
        (200, HealthResponse { status: "ok".to_owned(), checks: HealthChecks { database: database_text(true) } })
    } else {
        (
            503,
            HealthResponse {
                status: "unavailable".to_owned(),
                checks: HealthChecks { database: database_text(false) },
            },
        )
    }
}

} // verus!
