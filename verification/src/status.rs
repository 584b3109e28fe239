use vstd::prelude::*;
use vstd::string::*;

verus! {

/// The body of a status response: the state label and a human-readable
/// message.
pub struct StatusBody {
    pub status: String,
    pub message: String,
}

/// The liveness report of the record-catalogue service.
pub fn status_handler() -> (r: StatusBody)
    ensures
        r.status@ == "ok"@,
        r.message@ == "vinyl swarm running: \u{1F47D} "@,
{
    StatusBody {
        status: String::from_str("ok"),
        message: String::from_str("vinyl swarm running: \u{1F47D} "),
    }
}

/// The liveness report of the note service.
pub fn status_check_handler() -> (r: StatusBody)
    ensures
        r.status@ == "Success"@,
        r.message@ == "Simple CRUD API with Rust, SQLX, Postgres, and Axum"@,
{
    StatusBody {
        status: String::from_str("Success"),
        message: String::from_str("Simple CRUD API with Rust, SQLX, Postgres, and Axum"),
    }
}

} // verus!
