//! In-memory persistence and aggregation core for marine-survey field data.
//!
//! Vessels travel along transects (timed, geolocated path segments) during
//! which observers log observations (sightings and environmental readings).
//! The `Store` keeps the transect, observation, vessel and observer tables
//! and offers upsert and read operations plus a per-vessel rollup
//! calculator; every operation carries a contract over the table views.

pub mod aggregate;
pub mod laws;
pub mod model;
pub mod store;
pub mod table;

use vstd::prelude::*;

verus! {

/// Process settings handed to the transport layer.
pub struct Settings {
    pub port: i16,
    pub bind: String,
    pub database: Database,
    pub api_key: String,
    pub api_validation: bool,
}

/// Connection coordinates of the backing database.
pub struct Database {
    pub user: String,
    pub password: String,
    pub bind: String,
    pub port: i16,
    pub name: String,
}

/// Decides whether a request may proceed: either validation is switched
/// off, or the presented key equals the configured one.
pub fn request_valid(settings: &Settings, presented_key: Option<&String>) -> (r: bool)
    ensures
        r == (!settings.api_validation || (presented_key matches Some(k) && k@
            == settings.api_key@)),
{
    if settings.api_validation {
        match presented_key {
            Some(k) => *k == settings.api_key,
            None => false,
        }
    } else {
        true
    }
}

} // verus!
