//! The principals that have been seen.

use vstd::prelude::*;

use crate::error;
use crate::error::ApiError;
use crate::grants;
use crate::grants::{require, Access};

verus! {

/// A principal, as it is stored.
#[derive(Debug)]
pub struct PrincipalRecord {
    /// ULID.
    pub id: String,
    /// Its workspace.
    pub workspace_id: String,
    /// `user`, `service` or `agent`.
    pub kind: String,
    /// The subject of its tokens.
    pub subject: String,
    /// The issuer of its tokens.
    pub issuer: String,
    /// What people call it.
    pub display_name: Option<String>,
    /// When it was first seen.
    pub created_at: String,
}

/// A principal, as the API renders it.
#[derive(Debug)]
pub struct PrincipalResponse {
    /// ULID.
    pub id: String,
    /// `user`, `service` or `agent`.
    pub kind: String,
    /// The subject of its tokens.
    pub subject: String,
    /// The issuer of its tokens.
    pub issuer: String,
    /// What people call it.
    pub display_name: Option<String>,
    /// When it was first seen.
    pub created_at: String,
}

/// A principal as the API renders it.
pub open spec fn principal_shown(record: PrincipalRecord) -> PrincipalResponse {
    PrincipalResponse {
        id: record.id,
        kind: record.kind,
        subject: record.subject,
        issuer: record.issuer,
        display_name: record.display_name,
        created_at: record.created_at,
    }
}

impl PrincipalResponse {
    /// Renders a principal.
    pub fn from_record(record: PrincipalRecord) -> (r: PrincipalResponse)
        ensures
            r == principal_shown(record),
    {
        PrincipalResponse {
            id: record.id,
            kind: record.kind,
            subject: record.subject,
            issuer: record.issuer,
            display_name: record.display_name,
            created_at: record.created_at,
        }
    }
}

/// Lists the principals to a manager, in the order in which they were seen.
pub fn list_principals(access: &Access, records: Vec<PrincipalRecord>) -> (r: Result<
    Vec<PrincipalResponse>,
    ApiError,
>)
    ensures
        match grants::access_error(*access) {
            Some(e) => error::fails_with(r, e),
            None => r matches Ok(shown) && shown@ == records@.map_values(
                |record: PrincipalRecord| principal_shown(record),
            ),
        },
{
    match require(access) {
        Err(e) => { return Err(e); },
        Ok(()) => {},
    }
    let ghost all = records@;
    let mut out: Vec<PrincipalResponse> = Vec::new();
    for record in it: records
        invariant
            it.seq() == all,
            out@ == all.take(it.index() as int).map_values(|record: PrincipalRecord| principal_shown(record)),
    {
        let ghost at = it.index() as int;
        out.push(PrincipalResponse::from_record(record));
        assert(all.take(at + 1) =~= all.take(at).push(all[at]));
        assert(out@ =~= all.take(at + 1).map_values(|record: PrincipalRecord| principal_shown(record)));
    }
    assert(all.take(all.len() as int) =~= all);
    Ok(out)
}

/// A principal is shown with all that is known of it but its workspace.
pub proof fn principals_are_shown_whole(record: PrincipalRecord, workspace: String)
    ensures
        principal_shown(record).id == record.id,
        principal_shown(record).kind == record.kind,
        principal_shown(record).subject == record.subject,
        principal_shown(record).issuer == record.issuer,
        principal_shown(record).display_name == record.display_name,
        principal_shown(record).created_at == record.created_at,
        principal_shown(PrincipalRecord { workspace_id: workspace, ..record }) == principal_shown(record),
{
}

} // verus!
