//! Per-mission aggregation keys and counts: entity normalisation, kill
//! tallies, damage taker keys and count-based component indices.
use vstd::prelude::*;
use std::collections::HashMap;
use crate::kpi::KPIComponent;
use crate::records::{DamageInfo, KillInfo, PlayerInfo, name_of};
use crate::text::{assoc_get, assoc_lookup, contains_text, text_in};

verus! {

broadcast use vstd::std_specs::hash::group_hash_axioms;

/// An entity game id after the combine map, or `None` when the combined id
/// is blacklisted.
pub open spec fn resolved_entity(
    game_id: Seq<char>,
    entity_combine: Seq<(String, String)>,
    entity_blacklist: Seq<String>,
) -> Option<Seq<char>> {
    let combined = match assoc_get(entity_combine, game_id) {
        Some(c) => c,
        None => game_id,
    };
    if text_in(entity_blacklist, combined) {
        None
    } else {
        Some(combined)
    }
}

/// Applies the entity combine map, then drops blacklisted entities.
pub fn resolve_entity(
    game_id: &str,
    entity_combine: &Vec<(String, String)>,
    entity_blacklist_set: &Vec<String>,
) -> (r: Option<String>)
    ensures
        match r {
            Some(s) => resolved_entity(game_id@, entity_combine@, entity_blacklist_set@) == Some(s@),
            None => resolved_entity(game_id@, entity_combine@, entity_blacklist_set@) is None,
        },
{
    let combined: String = match assoc_lookup(entity_combine, game_id) {
        Some(c) => c.clone(),
        None => String::from_str(game_id),
    };
    if contains_text(entity_blacklist_set, combined.as_str()) {
        None
    } else {
        Some(combined)
    }
}

/// A weapon game id after the weapon combine map.
pub open spec fn combined_weapon(game_id: Seq<char>, weapon_combine: Seq<(String, String)>) -> Seq<char> {
    match assoc_get(weapon_combine, game_id) {
        Some(c) => c,
        None => game_id,
    }
}

/// The weapon game id under which damage of weapon `weapon_id` is summed.
pub fn weapon_game_id(
    weapon_id: i16,
    id_to_weapon_game_id: &HashMap<i16, String>,
    weapon_combine: &Vec<(String, String)>,
) -> (r: String)
    requires
        id_to_weapon_game_id@.contains_key(weapon_id),
    ensures
        r@ == combined_weapon(id_to_weapon_game_id@[weapon_id]@, weapon_combine@),
{
    let record = name_of(id_to_weapon_game_id, weapon_id);
    match assoc_lookup(weapon_combine, record.as_str()) {
        Some(c) => c.clone(),
        None => record.clone(),
    }
}

/// Kills of one player on one (combined) entity.
pub struct KillPack {
    pub taker_id: i16,
    pub taker_name: String,
    pub total_amount: i32,
}

/// The entity a kill row counts for, if any.
pub open spec fn kill_target(
    k: KillInfo,
    id_to_entity: Map<i16, String>,
    entity_combine: Seq<(String, String)>,
    entity_blacklist: Seq<String>,
) -> Option<Seq<char>> {
    resolved_entity(id_to_entity[k.entity_id]@, entity_combine, entity_blacklist)
}

/// Kill row `k` counts for `player` on entity `name`.
pub open spec fn kill_matches(
    k: KillInfo,
    id_to_entity: Map<i16, String>,
    entity_combine: Seq<(String, String)>,
    entity_blacklist: Seq<String>,
    player: i16,
    name: Seq<char>,
) -> bool {
    k.player_id == player && kill_target(k, id_to_entity, entity_combine, entity_blacklist) == Some(name)
}

/// Number of rows of `kills` that count for `player` on entity `name`.
pub open spec fn kill_count(
    kills: Seq<KillInfo>,
    id_to_entity: Map<i16, String>,
    entity_combine: Seq<(String, String)>,
    entity_blacklist: Seq<String>,
    player: i16,
    name: Seq<char>,
) -> nat
    decreases kills.len(),
{
    if kills.len() == 0 {
        0
    } else {
        kill_count(kills.drop_last(), id_to_entity, entity_combine, entity_blacklist, player, name)
            + if kill_matches(kills.last(), id_to_entity, entity_combine, entity_blacklist, player, name) {
            1nat
        } else {
            0nat
        }
    }
}

proof fn lemma_kill_count_zero(
    kills: Seq<KillInfo>,
    id_to_entity: Map<i16, String>,
    entity_combine: Seq<(String, String)>,
    entity_blacklist: Seq<String>,
    player: i16,
    name: Seq<char>,
)
    ensures
        kill_count(kills, id_to_entity, entity_combine, entity_blacklist, player, name) == 0
            <==> forall|t: int| 0 <= t < kills.len() ==> !kill_matches(
                #[trigger] kills[t], id_to_entity, entity_combine, entity_blacklist, player, name),
        kill_count(kills, id_to_entity, entity_combine, entity_blacklist, player, name) <= kills.len(),
    decreases kills.len(),
{
    if kills.len() > 0 {
        lemma_kill_count_zero(kills.drop_last(), id_to_entity, entity_combine, entity_blacklist, player, name);
        if kill_count(kills, id_to_entity, entity_combine, entity_blacklist, player, name) == 0 {
            assert forall|t: int| 0 <= t < kills.len() implies !kill_matches(
                #[trigger] kills[t], id_to_entity, entity_combine, entity_blacklist, player, name) by {
                if t < kills.len() - 1 {
                    assert(kills[t] == kills.drop_last()[t]);
                }
            }
        } else {
            let prev = kills.drop_last();
            if kill_count(prev, id_to_entity, entity_combine, entity_blacklist, player, name) > 0 {
                let t = choose|t: int| 0 <= t < prev.len() && !!kill_matches(
                    #[trigger] prev[t], id_to_entity, entity_combine, entity_blacklist, player, name);
                assert(kills[t] == prev[t]);
            } else {
                assert(kill_matches(kills[kills.len() - 1], id_to_entity, entity_combine, entity_blacklist, player, name));
            }
        }
    }
}

/// Entry `e` of a tally is right for the kill rows `kills`.
pub open spec fn tally_entry_ok(
    e: (i16, KillPack),
    kills: Seq<KillInfo>,
    id_to_entity: Map<i16, String>,
    entity_combine: Seq<(String, String)>,
    entity_blacklist: Seq<String>,
) -> bool {
    &&& e.1.total_amount as int == kill_count(kills, id_to_entity, entity_combine, entity_blacklist, e.0, e.1.taker_name@)
    &&& e.1.total_amount > 0
    &&& exists|t: int| {
        &&& 0 <= t < kills.len()
        &&& #[trigger] kills[t].entity_id == e.1.taker_id
        &&& kill_matches(kills[t], id_to_entity, entity_combine, entity_blacklist, e.0, e.1.taker_name@)
        &&& forall|u: int| 0 <= u < t ==> !kill_matches(#[trigger] kills[u], id_to_entity, entity_combine, entity_blacklist, e.0, e.1.taker_name@)
    }
}

/// The id tables name the entity of every kill row.
pub open spec fn kills_are_named(kills: Seq<KillInfo>, id_to_entity: Map<i16, String>) -> bool {
    forall|t: int| 0 <= t < kills.len() ==> id_to_entity.contains_key(#[trigger] kills[t].entity_id)
}

/// Counts kills by (player, combined entity), leaving out blacklisted
/// entities. Each entry holds the number of rows that count for its player
/// and entity, and the entity id of the first such row; there is one entry
/// for each (player, entity) with at least one row; their order is not part
/// of the result.
#[verifier::rlimit(100)]
pub fn tally_kills(
    kills: &Vec<KillInfo>,
    id_to_entity_game_id: &HashMap<i16, String>,
    entity_combine: &Vec<(String, String)>,
    entity_blacklist_set: &Vec<String>,
) -> (r: Vec<(i16, KillPack)>)
    requires
        kills@.len() <= i32::MAX,
        kills_are_named(kills@, id_to_entity_game_id@),
    ensures
        forall|e: int| 0 <= e < r@.len() ==> tally_entry_ok(#[trigger] r@[e], kills@,
            id_to_entity_game_id@, entity_combine@, entity_blacklist_set@),
        forall|e1: int, e2: int| 0 <= e1 < e2 < r@.len() ==>
            r@[e1].0 != r@[e2].0 || r@[e1].1.taker_name@ != r@[e2].1.taker_name@,
        forall|t: int| 0 <= t < kills@.len() && (#[trigger] kill_target(kills@[t], id_to_entity_game_id@,
            entity_combine@, entity_blacklist_set@)) is Some ==> exists|e: int| 0 <= e < r@.len()
                && #[trigger] r@[e].0 == kills@[t].player_id
                && Some(r@[e].1.taker_name@) == kill_target(kills@[t], id_to_entity_game_id@, entity_combine@, entity_blacklist_set@),
{
    let ghost ids = id_to_entity_game_id@;
    let ghost comb = entity_combine@;
    let ghost bl = entity_blacklist_set@;
    let mut r: Vec<(i16, KillPack)> = Vec::new();
    let mut i: usize = 0;
    while i < kills.len()
        invariant
            0 <= i <= kills@.len(),
            kills@.len() <= i32::MAX,
            ids == id_to_entity_game_id@,
            comb == entity_combine@,
            bl == entity_blacklist_set@,
            kills_are_named(kills@, ids),
            forall|e: int| 0 <= e < r@.len() ==> tally_entry_ok(#[trigger] r@[e], kills@.subrange(0, i as int), ids, comb, bl),
            forall|e1: int, e2: int| 0 <= e1 < e2 < r@.len() ==>
                r@[e1].0 != r@[e2].0 || r@[e1].1.taker_name@ != r@[e2].1.taker_name@,
            forall|t: int| 0 <= t < i && (#[trigger] kill_target(kills@[t], ids, comb, bl)) is Some ==>
                exists|e: int| 0 <= e < r@.len() && #[trigger] r@[e].0 == kills@[t].player_id
                    && Some(r@[e].1.taker_name@) == kill_target(kills@[t], ids, comb, bl),
        decreases kills@.len() - i,
    {
        let ghost prefix = kills@.subrange(0, i as int);
        let ghost next = kills@.subrange(0, i + 1);
        assert(next.drop_last() == prefix);
        let row = kills[i];
        assert(ids.contains_key(kills@[i as int].entity_id));
        let record = name_of(id_to_entity_game_id, row.entity_id);
        let target = resolve_entity(record.as_str(), entity_combine, entity_blacklist_set);
        let ghost old_r = r@;
        match target {
            None => {
                assert forall|e: int| 0 <= e < r@.len() implies tally_entry_ok(#[trigger] r@[e], next, ids, comb, bl) by {
                    let en = r@[e];
                    assert(!kill_matches(row, ids, comb, bl, en.0, en.1.taker_name@));
                    let t = choose|t: int| {
                        &&& 0 <= t < prefix.len()
                        &&& #[trigger] prefix[t].entity_id == en.1.taker_id
                        &&& kill_matches(prefix[t], ids, comb, bl, en.0, en.1.taker_name@)
                        &&& forall|u: int| 0 <= u < t ==> !kill_matches(#[trigger] prefix[u], ids, comb, bl, en.0, en.1.taker_name@)
                    };
                    assert(next[t] == prefix[t]);
                    assert forall|u: int| 0 <= u < t implies !kill_matches(#[trigger] next[u], ids, comb, bl, en.0, en.1.taker_name@) by {
                        assert(next[u] == prefix[u]);
                    }
                }
            },
            Some(name) => {
                let mut e: usize = 0;
                let mut found = false;
                while e < r.len()
                    invariant_except_break
                        !found,
                    invariant
                        0 <= e <= r@.len(),
                        forall|h: int| 0 <= h < e ==> r@[h].0 != row.player_id || r@[h].1.taker_name@ != name@,
                    ensures
                        found ==> e < r@.len() && r@[e as int].0 == row.player_id && r@[e as int].1.taker_name@ == name@,
                        !found ==> e == r@.len(),
                    decreases r@.len() - e,
                {
                    if r[e].0 == row.player_id && crate::text::same_text(r[e].1.taker_name.as_str(), name.as_str()) {
                        found = true;
                        break;
                    }
                    e += 1;
                }
                if found {
                    proof {
                        lemma_kill_count_zero(prefix, ids, comb, bl, row.player_id, name@);
                    }
                    let old_amount = r[e].1.total_amount;
                    let taker_id = r[e].1.taker_id;
                    let taker_name = r[e].1.taker_name.clone();
                    r.set(e, (row.player_id, KillPack { taker_id, taker_name, total_amount: old_amount + 1 }));
                } else {
                    proof {
                        lemma_kill_count_zero(prefix, ids, comb, bl, row.player_id, name@);
                        assert(kill_count(prefix, ids, comb, bl, row.player_id, name@) == 0);
                    }
                    r.push((row.player_id, KillPack { taker_id: row.entity_id, taker_name: name, total_amount: 1 }));
                }
                proof {
                    assert(r@[e as int].0 == row.player_id);
                    assert(Some(r@[e as int].1.taker_name@) == kill_target(kills@[i as int], ids, comb, bl));
                    assert forall|t: int| 0 <= t < i + 1 && (#[trigger] kill_target(kills@[t], ids, comb, bl)) is Some implies
                        exists|e2: int| 0 <= e2 < r@.len() && #[trigger] r@[e2].0 == kills@[t].player_id
                            && Some(r@[e2].1.taker_name@) == kill_target(kills@[t], ids, comb, bl) by {
                        if t < i {
                            let e2 = choose|e2: int| 0 <= e2 < old_r.len() && #[trigger] old_r[e2].0 == kills@[t].player_id
                                && Some(old_r[e2].1.taker_name@) == kill_target(kills@[t], ids, comb, bl);
                            assert(r@[e2].0 == old_r[e2].0 && r@[e2].1.taker_name@ == old_r[e2].1.taker_name@);
                        }
                    }
                }
            },
        }
        i += 1;
    }
    assert(kills@.subrange(0, kills@.len() as int) == kills@);
    r
}

/// The key under which a damage row is summed for its causer, with the
/// taker kind: the taker player name when a player took the damage, else
/// the resolved entity id; `None` when no player caused the damage or the
/// entity is blacklisted.
pub open spec fn damage_taker_key(
    d: DamageInfo,
    id_to_player_name: Map<i16, String>,
    id_to_entity: Map<i16, String>,
    entity_combine: Seq<(String, String)>,
    entity_blacklist: Seq<String>,
) -> Option<(Seq<char>, i16)> {
    if d.causer_type != 1 {
        None
    } else if d.taker_type == 1 {
        Some((id_to_player_name[d.taker_id]@, 1i16))
    } else {
        match resolved_entity(id_to_entity[d.taker_id]@, entity_combine, entity_blacklist) {
            Some(e) => Some((e, d.taker_type)),
            None => None,
        }
    }
}

/// The id tables name the taker of a damage row whenever it is read.
pub open spec fn damage_is_named(
    d: DamageInfo,
    id_to_player_name: Map<i16, String>,
    id_to_entity: Map<i16, String>,
) -> bool {
    d.causer_type == 1 ==> if d.taker_type == 1 {
        id_to_player_name.contains_key(d.taker_id)
    } else {
        id_to_entity.contains_key(d.taker_id)
    }
}

/// Resolves the taker of a damage row (see `damage_taker_key`).
pub fn damage_taker(
    d: &DamageInfo,
    id_to_player_name: &HashMap<i16, String>,
    id_to_entity_game_id: &HashMap<i16, String>,
    entity_combine: &Vec<(String, String)>,
    entity_blacklist_set: &Vec<String>,
) -> (r: Option<(String, i16)>)
    requires
        damage_is_named(*d, id_to_player_name@, id_to_entity_game_id@),
    ensures
        match r {
            Some(k) => damage_taker_key(*d, id_to_player_name@, id_to_entity_game_id@,
                entity_combine@, entity_blacklist_set@) == Some((k.0@, k.1)),
            None => damage_taker_key(*d, id_to_player_name@, id_to_entity_game_id@,
                entity_combine@, entity_blacklist_set@) is None,
        },
{
    if d.causer_type != 1 {
        None
    } else if d.taker_type == 1 {
        Some((name_of(id_to_player_name, d.taker_id).clone(), 1))
    } else {
        let record = name_of(id_to_entity_game_id, d.taker_id);
        match resolve_entity(record.as_str(), entity_combine, entity_blacklist_set) {
            Some(e) => Some((e, d.taker_type)),
            None => None,
        }
    }
}

/// The taker key of each damage row, in row order.
pub fn damage_taker_keys(
    damage: &Vec<DamageInfo>,
    id_to_player_name: &HashMap<i16, String>,
    id_to_entity_game_id: &HashMap<i16, String>,
    entity_combine: &Vec<(String, String)>,
    entity_blacklist_set: &Vec<String>,
) -> (r: Vec<Option<(String, i16)>>)
    requires
        forall|t: int| 0 <= t < damage@.len() ==> damage_is_named(#[trigger] damage@[t],
            id_to_player_name@, id_to_entity_game_id@),
    ensures
        r@.len() == damage@.len(),
        forall|t: int| 0 <= t < damage@.len() ==> match #[trigger] r@[t] {
            Some(k) => damage_taker_key(damage@[t], id_to_player_name@, id_to_entity_game_id@,
                entity_combine@, entity_blacklist_set@) == Some((k.0@, k.1)),
            None => damage_taker_key(damage@[t], id_to_player_name@, id_to_entity_game_id@,
                entity_combine@, entity_blacklist_set@) is None,
        },
{
    let mut r: Vec<Option<(String, i16)>> = Vec::new();
    let mut t: usize = 0;
    while t < damage.len()
        invariant
            0 <= t <= damage@.len(),
            r@.len() == t,
            forall|u: int| 0 <= u < damage@.len() ==> damage_is_named(#[trigger] damage@[u],
                id_to_player_name@, id_to_entity_game_id@),
            forall|u: int| 0 <= u < t ==> match #[trigger] r@[u] {
                Some(k) => damage_taker_key(damage@[u], id_to_player_name@, id_to_entity_game_id@,
                    entity_combine@, entity_blacklist_set@) == Some((k.0@, k.1)),
                None => damage_taker_key(damage@[u], id_to_player_name@, id_to_entity_game_id@,
                    entity_combine@, entity_blacklist_set@) is None,
            },
        decreases damage@.len() - t,
    {
        let k = damage_taker(&damage[t], id_to_player_name, id_to_entity_game_id, entity_combine,
            entity_blacklist_set);
        r.push(k);
        t += 1;
    }
    r
}

/// Damage that a player caused to another player.
pub open spec fn is_friendly_fire_spec(taker_type: i16, taker_id: i16, causer_id: i16) -> bool {
    taker_type == 1 && taker_id != causer_id
}

/// Whether damage of a taker of kind `taker_type` and id `taker_id`, caused
/// by player `causer_id`, is friendly fire.
pub fn is_friendly_fire(taker_type: i16, taker_id: i16, causer_id: i16) -> (r: bool)
    ensures
        r == is_friendly_fire_spec(taker_type, taker_id, causer_id),
{
    taker_type == 1 && taker_id != causer_id
}

/// Sum of the revive counts of the players of a mission.
pub open spec fn revive_total(players: Seq<PlayerInfo>) -> int
    decreases players.len(),
{
    if players.len() == 0 {
        0
    } else {
        revive_total(players.drop_last()) + players.last().revive_num
    }
}

/// Sum of the death counts of the players of a mission.
pub open spec fn death_total(players: Seq<PlayerInfo>) -> int
    decreases players.len(),
{
    if players.len() == 0 {
        0
    } else {
        death_total(players.drop_last()) + players.last().death_num
    }
}

proof fn lemma_totals_bounded(players: Seq<PlayerInfo>)
    ensures
        -32768 * players.len() <= revive_total(players) <= 32767 * players.len(),
        -32768 * players.len() <= death_total(players) <= 32767 * players.len(),
    decreases players.len(),
{
    if players.len() > 0 {
        lemma_totals_bounded(players.drop_last());
    }
}

/// Revive and death totals of a mission.
pub fn mission_revive_death_totals(players: &Vec<PlayerInfo>) -> (r: (i64, i64))
    requires
        players@.len() <= u32::MAX,
    ensures
        r.0 == revive_total(players@),
        r.1 == death_total(players@),
{
    let mut revive: i64 = 0;
    let mut death: i64 = 0;
    let mut j: usize = 0;
    while j < players.len()
        invariant
            0 <= j <= players@.len(),
            players@.len() <= u32::MAX,
            revive == revive_total(players@.subrange(0, j as int)),
            death == death_total(players@.subrange(0, j as int)),
        decreases players@.len() - j,
    {
        proof {
            let next = players@.subrange(0, j + 1);
            assert(next.drop_last() == players@.subrange(0, j as int));
            lemma_totals_bounded(next);
            assert(32767 * next.len() <= 32767 * 4294967296) by (nonlinear_arith)
                requires next.len() <= 4294967296;
        }
        revive = revive + players[j].revive_num as i64;
        death = death + players[j].death_num as i64;
        j += 1;
    }
    assert(players@.subrange(0, players@.len() as int) == players@);
    (revive, death)
}

/// A count-based component index as a fraction, before it is taken as a
/// number: Revive is `player / total`, or 1 when nobody revived; Death and
/// Supply are `-player / total`, or 0 when the total is zero.
pub open spec fn count_index_spec(c: KPIComponent, player: int, total: int) -> (int, int) {
    if total == 0 {
        if c == KPIComponent::Revive { (1, 1) } else { (0, 1) }
    } else if c == KPIComponent::Revive {
        (player, total)
    } else {
        (-player, total)
    }
}

/// The raw index of a count-based component as `(numerator, denominator)`.
pub fn count_index(component: KPIComponent, player_count: i64, total_count: i64) -> (r: (i64, i64))
    requires
        component == KPIComponent::Revive || component == KPIComponent::Death
            || component == KPIComponent::Supply,
        player_count > i64::MIN,
    ensures
        r.0 == count_index_spec(component, player_count as int, total_count as int).0,
        r.1 == count_index_spec(component, player_count as int, total_count as int).1,
        r.1 != 0,
{
    if total_count == 0 {
        match component {
            KPIComponent::Revive => (1, 1),
            _ => (0, 1),
        }
    } else {
        match component {
            KPIComponent::Revive => (player_count, total_count),
            _ => (-player_count, total_count),
        }
    }
}

} // verus!
