//! Mission analytics core: role and component model, per-mission aggregation
//! keys and counts, rank-distribution bookkeeping and log normalisation.
use vstd::prelude::*;

pub mod kpi;
pub mod text;
pub mod records;
pub mod distribution;
pub mod transform;
pub mod mission_raw;
pub mod hazard;
pub mod client;
pub mod mapping;
pub mod general;
pub mod mission_log;
pub mod codec;
pub mod cache;
pub mod registry;

verus! {

/// Resource game id of Nitra.
pub const NITRA_GAME_ID: &'static str = "RES_VEIN_Nitra";

/// Version tag of the KPI model.
pub const KPI_VERSION: &'static str = "0.3.0";

/// Missions shorter than this many seconds are marked invalid.
pub const INVALID_MISSION_TIME_THRESHOLD: i16 = 300;

} // verus!
