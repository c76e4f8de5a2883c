//! Plain value types exchanged with the surrounding HTTP layer and the
//! relational store.  The store itself and the request/response plumbing are
//! external collaborators; these types only carry their data.
use vstd::prelude::*;

verus! {

/// A row of the users table.
#[derive(Debug, Clone)]
pub struct UserRow {
    pub login: String,
    pub name: String,
    pub pass: String,
}

/// A row of the stations table.  `token` holds the hash of the station's
/// secret, as produced by `crate::auth::BasicAuth::hash`.
#[derive(Debug, Clone)]
pub struct StationRow {
    pub id: usize,
    pub name: String,
    pub state: String,
    pub owner: Option<String>,
    pub token: String,
    pub conf: Option<String>,
}

/// Body of a request that provisions a new station.
#[derive(Debug, Clone)]
pub struct StationsReq {
    pub id: usize,
    pub name: Option<String>,
}

/// Body of a request that updates a station.
#[derive(Debug, Clone)]
pub struct StationReq {
    pub name: Option<String>,
    pub conf: Option<String>,
}

/// Body of a request that changes a station's state.
#[derive(Debug, Clone)]
pub struct StateReq {
    pub state: String,
}

/// Body of a request that creates a user.
#[derive(Debug, Clone)]
pub struct UsersReq {
    pub login: String,
    pub name: String,
    pub pass: String,
}

/// Body of a request that updates a user.
#[derive(Debug, Clone)]
pub struct UserReq {
    pub name: String,
    pub pass: String,
}

/// Body of a request that assigns a station to a user.
#[derive(Debug, Clone)]
pub struct UserStationsReq {
    pub id: usize,
}

/// An empty response body.
#[derive(Debug, Clone)]
pub struct EmptyResp {}

/// Response to provisioning a station: the freshly drawn secret.
#[derive(Debug, Clone)]
pub struct StationsResp {
    pub token: String,
}

/// Response describing one station.
#[derive(Debug, Clone)]
pub struct StationResp {
    pub name: String,
    pub owner: Option<String>,
    pub conf: String,
}

/// Response carrying a station's state.
#[derive(Debug, Clone)]
pub struct StateResp {
    pub state: String,
}

/// Response describing one user.
#[derive(Debug, Clone)]
pub struct UserResp {
    pub name: String,
}

/// Response listing the stations a user owns.
#[derive(Debug, Clone)]
pub struct UserStationsResp {
    pub stations: Vec<usize>,
}

} // verus!
