//! Rows of the relational store, reduced to the integer and text columns
//! that the aggregation logic reads.
use vstd::prelude::*;
use std::collections::HashMap;

verus! {

broadcast use vstd::std_specs::hash::group_hash_axioms;

/// A mission row.
#[derive(Clone, Copy, Debug, PartialEq, Eq, Structural)]
pub struct Mission {
    pub id: i32,
    pub begin_timestamp: i64,
    pub mission_time: i16,
    pub mission_type_id: i16,
    pub hazard_id: i16,
    pub result: i16,
    pub total_supply_count: i16,
}

/// A player row of a mission.
#[derive(Clone, Copy, Debug, PartialEq, Eq, Structural)]
pub struct PlayerInfo {
    pub id: i32,
    pub mission_id: i32,
    pub player_id: i16,
    pub character_id: i16,
    pub player_rank: i16,
    pub character_rank: i16,
    pub character_promotion: i16,
    pub present_time: i16,
    pub kill_num: i16,
    pub revive_num: i16,
    pub death_num: i16,
    pub player_escaped: bool,
}

/// A kill row: `player_id` killed an entity of id `entity_id`.
#[derive(Clone, Copy, Debug, PartialEq, Eq, Structural)]
pub struct KillInfo {
    pub id: i32,
    pub mission_id: i32,
    pub time: i16,
    pub player_id: i16,
    pub entity_id: i16,
}

/// Who dealt damage to whom with what, for one damage row
/// (kinds: 0 unknown, 1 player, 2 enemy).
#[derive(Clone, Copy, Debug, PartialEq, Eq, Structural)]
pub struct DamageInfo {
    pub id: i32,
    pub mission_id: i32,
    pub time: i16,
    pub causer_id: i16,
    pub taker_id: i16,
    pub weapon_id: i16,
    pub causer_type: i16,
    pub taker_type: i16,
}

/// A mission marked invalid, with the reason.
pub struct MissionInvalid {
    pub id: i32,
    pub mission_id: i32,
    pub reason: String,
}

/// The text stored under `id` in an id table.
pub fn name_of(table: &HashMap<i16, String>, id: i16) -> (r: &String)
    requires
        table@.contains_key(id),
    ensures
        *r == table@[id],
{
    table.get(&id).unwrap()
}

} // verus!
