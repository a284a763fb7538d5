//! Cache layers as seen by clients: their update paths and store keys, and
//! the rendering of payload sizes.
use vstd::prelude::*;
use crate::text::{decimal, digit_char, push_decimal, push_signed_decimal, signed_decimal};

verus! {

/// A cache layer.
#[derive(Clone, Copy, Debug, PartialEq, Eq, Structural)]
pub enum CacheType {
    MissionRawCache,
    MissionKPIRawCache,
    GlobalKPIState,
}

/// Path of the endpoint that rebuilds a cache layer.
pub open spec fn cache_url_path(c: CacheType) -> Seq<char> {
    match c {
        CacheType::MissionRawCache => "/cache/update_mission_raw"@,
        CacheType::MissionKPIRawCache => "/cache/update_mission_kpi_raw"@,
        CacheType::GlobalKPIState => "/cache/update_global_kpi_state"@,
    }
}

/// Name of a cache layer.
pub open spec fn cache_name(c: CacheType) -> Seq<char> {
    match c {
        CacheType::MissionRawCache => "MissionRawCache"@,
        CacheType::MissionKPIRawCache => "MissionKPIRawCache"@,
        CacheType::GlobalKPIState => "GlobalKPIState"@,
    }
}

impl CacheType {
    /// Path of the endpoint that rebuilds this layer.
    pub fn url_path(&self) -> (r: &str)
        ensures
            r@ == cache_url_path(*self),
    {
        match self {
            CacheType::MissionRawCache => "/cache/update_mission_raw",
            CacheType::MissionKPIRawCache => "/cache/update_mission_kpi_raw",
            CacheType::GlobalKPIState => "/cache/update_global_kpi_state",
        }
    }

    /// Name of this layer.
    pub fn name(&self) -> (r: &str)
        ensures
            r@ == cache_name(*self),
    {
        match self {
            CacheType::MissionRawCache => "MissionRawCache",
            CacheType::MissionKPIRawCache => "MissionKPIRawCache",
            CacheType::GlobalKPIState => "GlobalKPIState",
        }
    }
}

/// Store key of the per-mission aggregate of mission `id`.
pub fn mission_raw_key(mission_id: i32) -> (r: String)
    ensures
        r@ == "mission_raw:"@ + signed_decimal(mission_id as int),
{
    let mut r = String::from_str("mission_raw:");
    push_signed_decimal(&mut r, mission_id as i64);
    r
}

/// Store key of the per-mission raw KPI data of mission `id`.
pub fn mission_kpi_raw_key(mission_id: i32) -> (r: String)
    ensures
        r@ == "mission_kpi_raw:"@ + signed_decimal(mission_id as int),
{
    let mut r = String::from_str("mission_kpi_raw:");
    push_signed_decimal(&mut r, mission_id as i64);
    r
}

/// Store key of the global KPI state.
pub fn global_kpi_state_key() -> (r: String)
    ensures
        r@ == "global_kpi_state"@,
{
    String::from_str("global_kpi_state")
}

/// `size * 100 / unit` rounded to the nearest integer, ties to even.
pub open spec fn hundredths(size: nat, unit: nat) -> nat
    recommends
        unit > 0,
{
    let q = (size * 100) / unit;
    let rem = (size * 100) % unit;
    if 2 * rem > unit || (2 * rem == unit && q % 2 == 1) {
        q + 1
    } else {
        q
    }
}

/// A number of hundredths written with two decimals.
pub open spec fn two_decimals(h: nat) -> Seq<char> {
    decimal(h / 100) + seq!['.', digit_char(((h % 100) / 10) as int), digit_char((h % 10) as int)]
}

/// A byte count for people: bytes below 1024, then KiB below 1 MiB, then
/// MiB, with two decimals.
pub open spec fn size_text(size: nat) -> Seq<char> {
    if size < 1024 {
        decimal(size) + "B"@
    } else if size < 1048576 {
        two_decimals(hundredths(size, 1024)) + "KiB"@
    } else {
        two_decimals(hundredths(size, 1048576)) + "MiB"@
    }
}

/// Renders a byte count (see `size_text`).
pub fn format_size(size: usize) -> (r: String)
    requires
        size <= 0x20000000000000,
    ensures
        r@ == size_text(size as nat),
{
    let mut r = String::new();
    if size < 1024 {
        push_decimal(&mut r, size as u64);
        r.append("B");
        return r;
    }
    let unit: u64 = if size < 1048576 {
        1024
    } else {
        1048576
    };
    let scaled: u64 = size as u64 * 100;
    let q = scaled / unit;
    let rem = scaled % unit;
    let h: u64 = if 2 * rem > unit || (2 * rem == unit && q % 2 == 1) {
        q + 1
    } else {
        q
    };
    assert(h == hundredths(size as nat, unit as nat));
    push_decimal(&mut r, h / 100);
    r.append(".");
    r.append(crate::text::digit_text((h % 100) / 10));
    r.append(crate::text::digit_text(h % 10));
    if size < 1048576 {
        r.append("KiB");
    } else {
        r.append("MiB");
    }
    proof {
        reveal_strlit(".");
    }
    assert(r@ =~= size_text(size as nat));
    r
}

} // verus!
