//! Per-mission overview records and character choice counts.
use vstd::prelude::*;
use std::collections::HashMap;
use crate::distribution::contains_id;
use crate::records::{Mission, MissionInvalid, PlayerInfo, name_of};
use crate::text::same_text;
use crate::records::Mission as MissionRow;

verus! {

broadcast use vstd::std_specs::hash::group_hash_axioms;

/// Overview of one mission.
pub struct MissionGeneralInfo {
    pub mission_id: i32,
    pub mission_begin_timestamp: i64,
    pub mission_invalid: bool,
    pub mission_invalid_reason: String,
}

/// Position of the first mission of `missions` with id `id`.
pub open spec fn first_mission_at(missions: Seq<Mission>, id: i32, k: int) -> bool {
    &&& 0 <= k < missions.len()
    &&& missions[k].id == id
    &&& forall|u: int| 0 <= u < k ==> (#[trigger] missions[u]).id != id
}

/// Reason of the first invalid-mission entry for mission `id`, if any.
pub open spec fn invalid_reason(entries: Seq<MissionInvalid>, id: i32) -> Option<Seq<char>>
    decreases entries.len(),
{
    if entries.len() == 0 {
        None
    } else if entries[0].mission_id == id {
        Some(entries[0].reason@)
    } else {
        invalid_reason(entries.drop_first(), id)
    }
}

/// Overview of mission `mission_id`, `None` when no mission has that id:
/// its begin time, and whether (and why) it is marked invalid.
pub fn generate_mission_general_info(
    missions: &Vec<Mission>,
    invalid_mission_list: &Vec<MissionInvalid>,
    mission_id: i32,
) -> (r: Option<MissionGeneralInfo>)
    ensures
        r is None <==> forall|k: int| 0 <= k < missions@.len() ==> (#[trigger] missions@[k]).id != mission_id,
        r matches Some(info) ==> {
            &&& info.mission_id == mission_id
            &&& exists|k: int| first_mission_at(missions@, mission_id, k)
                && #[trigger] missions@[k].begin_timestamp == info.mission_begin_timestamp
            &&& info.mission_invalid == invalid_reason(invalid_mission_list@, mission_id) is Some
            &&& info.mission_invalid_reason@ == match invalid_reason(invalid_mission_list@, mission_id) {
                Some(reason) => reason,
                None => Seq::<char>::empty(),
            }
        },
{
    let mut reason: Option<String> = None;
    let mut i: usize = 0;
    assert(invalid_mission_list@.subrange(0, invalid_mission_list@.len() as int) == invalid_mission_list@);
    while i < invalid_mission_list.len()
        invariant_except_break
            reason is None,
            invalid_reason(invalid_mission_list@, mission_id) == invalid_reason(
                invalid_mission_list@.subrange(i as int, invalid_mission_list@.len() as int), mission_id),
        invariant
            0 <= i <= invalid_mission_list@.len(),
        ensures
            match reason {
                Some(text) => invalid_reason(invalid_mission_list@, mission_id) == Some(text@),
                None => invalid_reason(invalid_mission_list@, mission_id) is None,
            },
        decreases invalid_mission_list@.len() - i,
    {
        let ghost rest = invalid_mission_list@.subrange(i as int, invalid_mission_list@.len() as int);
        assert(rest.drop_first() == invalid_mission_list@.subrange(i + 1, invalid_mission_list@.len() as int));
        if invalid_mission_list[i].mission_id == mission_id {
            reason = Some(invalid_mission_list[i].reason.clone());
            break;
        }
        i += 1;
    }
    let mut k: usize = 0;
    while k < missions.len()
        invariant
            0 <= k <= missions@.len(),
            forall|u: int| 0 <= u < k ==> (#[trigger] missions@[u]).id != mission_id,
            match reason {
                Some(text) => invalid_reason(invalid_mission_list@, mission_id) == Some(text@),
                None => invalid_reason(invalid_mission_list@, mission_id) is None,
            },
        decreases missions@.len() - k,
    {
        if missions[k].id == mission_id {
            assert(first_mission_at(missions@, mission_id, k as int));
            let (mission_invalid, mission_invalid_reason) = match reason {
                Some(text) => (true, text),
                None => (false, String::new()),
            };
            let info = MissionGeneralInfo {
                mission_id,
                mission_begin_timestamp: missions[k].begin_timestamp,
                mission_invalid,
                mission_invalid_reason,
            };
            assert(missions@[k as int].begin_timestamp == info.mission_begin_timestamp);
            return Some(info);
        }
        k += 1;
    }
    None
}

/// One player of a mission overview.
pub struct MissionGeneralPlayerInfo {
    pub character_game_id: String,
    pub player_rank: i16,
    pub character_rank: i16,
    pub character_promotion: i16,
    pub present_time: i16,
    pub revive_num: i16,
    pub death_num: i16,
    pub player_escaped: bool,
}

/// The overview of a player row, with its class named by the id table.
pub fn mission_general_player_info(
    player: &PlayerInfo,
    character_id_to_game_id: &HashMap<i16, String>,
) -> (r: MissionGeneralPlayerInfo)
    requires
        character_id_to_game_id@.contains_key(player.character_id),
    ensures
        r.character_game_id == character_id_to_game_id@[player.character_id],
        r.player_rank == player.player_rank,
        r.character_rank == player.character_rank,
        r.character_promotion == player.character_promotion,
        r.present_time == player.present_time,
        r.revive_num == player.revive_num,
        r.death_num == player.death_num,
        r.player_escaped == player.player_escaped,
{
    MissionGeneralPlayerInfo {
        character_game_id: name_of(character_id_to_game_id, player.character_id).clone(),
        player_rank: player.player_rank,
        character_rank: player.character_rank,
        character_promotion: player.character_promotion,
        present_time: player.present_time,
        revive_num: player.revive_num,
        death_num: player.death_num,
        player_escaped: player.player_escaped,
    }
}

/// Views of a list of strings.
pub open spec fn texts(v: Seq<String>) -> Seq<Seq<char>> {
    v.map_values(|s: String| s@)
}

/// Number of occurrences of `t` in `s`.
pub open spec fn text_count(s: Seq<Seq<char>>, t: Seq<char>) -> nat
    decreases s.len(),
{
    if s.len() == 0 {
        0
    } else {
        text_count(s.drop_last(), t) + if s.last() == t { 1nat } else { 0nat }
    }
}

proof fn lemma_text_count_zero(s: Seq<Seq<char>>, t: Seq<char>)
    ensures
        text_count(s, t) == 0 <==> forall|u: int| 0 <= u < s.len() ==> #[trigger] s[u] != t,
        text_count(s, t) <= s.len(),
    decreases s.len(),
{
    if s.len() > 0 {
        lemma_text_count_zero(s.drop_last(), t);
        if text_count(s, t) == 0 {
            assert forall|u: int| 0 <= u < s.len() implies #[trigger] s[u] != t by {
                if u < s.len() - 1 {
                    assert(s[u] == s.drop_last()[u]);
                }
            }
        } else if text_count(s.drop_last(), t) > 0 {
            let u = choose|u: int| 0 <= u < s.drop_last().len() && #[trigger] s.drop_last()[u] == t;
            assert(s[u] == s.drop_last()[u]);
        }
    }
}

/// Position `t` is the first occurrence of `key` in `s`.
pub open spec fn first_occurrence(s: Seq<Seq<char>>, key: Seq<char>, t: int) -> bool {
    &&& 0 <= t < s.len()
    &&& s[t] == key
    &&& forall|u: int| 0 <= u < t ==> #[trigger] s[u] != key
}

/// The first position at which `key` occurs in `s`, given one position `t`
/// where it does.
proof fn first_index_of(s: Seq<Seq<char>>, key: Seq<char>, t: int) -> (f: int)
    requires
        0 <= t < s.len(),
        s[t] == key,
    ensures
        first_occurrence(s, key, f),
        f <= t,
    decreases t,
{
    if exists|u: int| 0 <= u < t && #[trigger] s[u] == key {
        let u = choose|u: int| 0 <= u < t && #[trigger] s[u] == key;
        first_index_of(s, key, u)
    } else {
        t
    }
}

/// `r` counts the strings of `s`: one entry per distinct string, with its
/// number of occurrences, in order of first occurrence.
pub open spec fn is_text_tally(s: Seq<Seq<char>>, r: Seq<(String, i32)>) -> bool {
    &&& forall|e: int| 0 <= e < r.len() ==> (#[trigger] r[e]).1 as int == text_count(s, r[e].0@)
    &&& forall|e: int| 0 <= e < r.len() ==> (#[trigger] r[e]).1 > 0
    &&& forall|e1: int, e2: int| 0 <= e1 < e2 < r.len() ==> r[e1].0@ != r[e2].0@
    &&& forall|t: int| 0 <= t < s.len() ==> exists|e: int| 0 <= e < r.len() && #[trigger] r[e].0@ == #[trigger] s[t]
    &&& forall|e1: int, e2: int, t2: int| #![trigger r[e1], first_occurrence(s, r[e2].0@, t2)]
        0 <= e1 < e2 < r.len() && first_occurrence(s, r[e2].0@, t2) ==> occurs_before(s, r[e1].0@, t2)
}

/// `key` first occurs in `s` before position `t`.
pub open spec fn occurs_before(s: Seq<Seq<char>>, key: Seq<char>, t: int) -> bool {
    exists|t1: int| 0 <= t1 < t && #[trigger] first_occurrence(s, key, t1)
}

/// Counts equal strings (see `is_text_tally`).
#[verifier::rlimit(100)]
pub fn count_texts(names: &Vec<String>) -> (r: Vec<(String, i32)>)
    requires
        names@.len() <= i32::MAX,
    ensures
        is_text_tally(texts(names@), r@),
{
    let ghost all = texts(names@);
    let mut r: Vec<(String, i32)> = Vec::new();
    let mut i: usize = 0;
    while i < names.len()
        invariant
            0 <= i <= names@.len(),
            names@.len() <= i32::MAX,
            all == texts(names@),
            is_text_tally(all.subrange(0, i as int), r@),
        decreases names@.len() - i,
    {
        let ghost prefix = all.subrange(0, i as int);
        let ghost next = all.subrange(0, i + 1);
        assert(next.drop_last() == prefix);
        assert(next.last() == names@[i as int]@);
        let ghost old_r = r@;
        let mut e: usize = 0;
        let mut found = false;
        while e < r.len()
            invariant_except_break
                !found,
            invariant
                0 <= e <= r@.len(),
                i < names@.len(),
                forall|h: int| 0 <= h < e ==> r@[h].0@ != names@[i as int]@,
            ensures
                found ==> e < r@.len() && r@[e as int].0@ == names@[i as int]@,
                !found ==> e == r@.len(),
            decreases r@.len() - e,
        {
            if same_text(r[e].0.as_str(), names[i].as_str()) {
                found = true;
                break;
            }
            e += 1;
        }
        proof {
            lemma_text_count_zero(prefix, names@[i as int]@);
        }
        if found {
            let count = r[e].1;
            let key = r[e].0.clone();
            r.set(e, (key, count + 1));
        } else {
            r.push((names[i].clone(), 1));
        }
        proof {
            let key = names@[i as int]@;
            assert forall|e1: int| 0 <= e1 < r@.len() implies (#[trigger] r@[e1]).1 as int == text_count(next, r@[e1].0@) by {
                if e1 < old_r.len() {
                    assert(old_r[e1].1 as int == text_count(prefix, old_r[e1].0@));
                }
            }
            assert forall|t: int| 0 <= t < next.len() implies exists|e1: int| 0 <= e1 < r@.len() && #[trigger] r@[e1].0@ == #[trigger] next[t] by {
                if t < i {
                    assert(next[t] == prefix[t]);
                    let e1 = choose|e1: int| 0 <= e1 < old_r.len() && #[trigger] old_r[e1].0@ == #[trigger] prefix[t];
                    assert(r@[e1].0@ == old_r[e1].0@);
                } else {
                    assert(r@[e as int].0@ == key);
                }
            }
            assert forall|k: int| 0 <= k < prefix.len() implies #[trigger] next[k] == prefix[k] by {}
            assert forall|e1: int, e2: int, t2: int| #![trigger r@[e1], first_occurrence(next, r@[e2].0@, t2)]
                0 <= e1 < e2 < r@.len() && first_occurrence(next, r@[e2].0@, t2)
                implies occurs_before(next, r@[e1].0@, t2) by {
                assert(r@[e1].0@ == old_r[e1].0@);
                assert(old_r[e1].1 > 0);
                lemma_text_count_zero(prefix, old_r[e1].0@);
                let tw = choose|tw: int| 0 <= tw < prefix.len() && #[trigger] prefix[tw] == old_r[e1].0@;
                let t1 = first_index_of(prefix, old_r[e1].0@, tw);
                assert(first_occurrence(next, r@[e1].0@, t1));
                if e2 < old_r.len() {
                    assert(r@[e2].0@ == old_r[e2].0@);
                    if t2 < i {
                        assert(first_occurrence(prefix, old_r[e2].0@, t2));
                    } else {
                        assert(text_count(prefix, old_r[e2].0@) > 0);
                    }
                } else {
                    assert(t1 < i);
                }
            }
        }
        i += 1;
    }
    assert(all.subrange(0, names@.len() as int) == all);
    r
}

/// How often each character class was chosen, with the class names.
pub struct CharacterChoiceInfo {
    pub character_choice_count: Vec<(String, i32)>,
    pub character_mapping: Vec<(String, String)>,
}

/// Class game ids of the players of the first `m` missions that are not
/// listed as invalid, in mission and then player order.
pub open spec fn chosen_classes(
    missions: Seq<MissionRow>,
    players: Seq<Vec<PlayerInfo>>,
    invalid: Seq<i32>,
    ids: Map<i16, String>,
    m: int,
) -> Seq<Seq<char>>
    decreases m,
{
    if m <= 0 {
        Seq::empty()
    } else if invalid.contains(missions[m - 1].id) {
        chosen_classes(missions, players, invalid, ids, m - 1)
    } else {
        chosen_classes(missions, players, invalid, ids, m - 1)
            + players[m - 1]@.map_values(|p: PlayerInfo| ids[p.character_id]@)
    }
}

/// Every player of `players` has a class in the id table.
pub open spec fn classes_named(players: Seq<Vec<PlayerInfo>>, ids: Map<i16, String>) -> bool {
    forall|m: int, j: int| 0 <= m < players.len() && 0 <= j < players[m]@.len() ==>
        ids.contains_key(#[trigger] players[m]@[j].character_id)
}

/// Counts, over the missions not listed as invalid, how many players chose
/// each character class; `players[m]` holds the player rows of
/// `missions[m]`.
pub fn generate_choice_info(
    missions: &Vec<MissionRow>,
    players: &Vec<Vec<PlayerInfo>>,
    invalid_mission_id_list: &Vec<i32>,
    character_id_to_game_id: &HashMap<i16, String>,
    character_game_id_to_name: Vec<(String, String)>,
) -> (r: CharacterChoiceInfo)
    requires
        missions@.len() == players@.len(),
        classes_named(players@, character_id_to_game_id@),
        chosen_classes(missions@, players@, invalid_mission_id_list@, character_id_to_game_id@,
            missions@.len() as int).len() <= i32::MAX,
    ensures
        is_text_tally(chosen_classes(missions@, players@, invalid_mission_id_list@,
            character_id_to_game_id@, missions@.len() as int), r.character_choice_count@),
        r.character_mapping@ == character_game_id_to_name@,
{
    let ghost ids = character_id_to_game_id@;
    let ghost inv = invalid_mission_id_list@;
    let mut chosen: Vec<String> = Vec::new();
    let mut m: usize = 0;
    while m < missions.len()
        invariant
            missions@.len() == players@.len(),
            0 <= m <= missions@.len(),
            ids == character_id_to_game_id@,
            inv == invalid_mission_id_list@,
            classes_named(players@, ids),
            texts(chosen@) == chosen_classes(missions@, players@, inv, ids, m as int),
        decreases missions@.len() - m,
    {
        if !contains_id(invalid_mission_id_list, missions[m].id) {
            let roster = &players[m];
            let ghost base = chosen_classes(missions@, players@, inv, ids, m as int);
            let ghost row = roster@.map_values(|p: PlayerInfo| ids[p.character_id]@);
            let mut j: usize = 0;
            while j < roster.len()
                invariant
                    missions@.len() == players@.len(),
                    0 <= m < missions@.len(),
                    *roster == players@[m as int],
                    ids == character_id_to_game_id@,
                    classes_named(players@, ids),
                    row == roster@.map_values(|p: PlayerInfo| ids[p.character_id]@),
                    0 <= j <= roster@.len(),
                    texts(chosen@) == base + row.subrange(0, j as int),
                decreases roster@.len() - j,
            {
                assert(ids.contains_key(players@[m as int]@[j as int].character_id));
                let class = name_of(character_id_to_game_id, roster[j].character_id).clone();
                let ghost before = chosen@;
                chosen.push(class);
                assert(texts(chosen@) == texts(before).push(row[j as int]));
                assert(row.subrange(0, j + 1) == row.subrange(0, j as int).push(row[j as int]));
                assert(texts(chosen@) =~= base + row.subrange(0, j + 1));
                j += 1;
            }
            assert(row.subrange(0, roster@.len() as int) == row);
        }
        m += 1;
    }
    CharacterChoiceInfo {
        character_choice_count: count_texts(&chosen),
        character_mapping: character_game_id_to_name,
    }
}

/// Why a mission is left out of the statistics, if it is: shorter than the
/// threshold, or played alone.
pub open spec fn invalid_reason_spec(mission_time: int, player_count: int) -> Option<Seq<char>> {
    if mission_time < crate::INVALID_MISSION_TIME_THRESHOLD as int {
        Some("任务时间过短"@)
    } else if player_count <= 1 {
        Some("单人游戏"@)
    } else {
        None
    }
}

/// The reason a mission of `mission_time` seconds with `player_count`
/// players is invalid, `None` when it is valid.
pub fn invalid_mission_reason(mission_time: i16, player_count: usize) -> (r: Option<String>)
    ensures
        match r {
            Some(s) => invalid_reason_spec(mission_time as int, player_count as int) == Some(s@),
            None => invalid_reason_spec(mission_time as int, player_count as int) is None,
        },
{
    if mission_time < crate::INVALID_MISSION_TIME_THRESHOLD {
        Some(String::from_str("任务时间过短"))
    } else if player_count <= 1 {
        Some(String::from_str("单人游戏"))
    } else {
        None
    }
}

/// The invalid missions among the first `m` of `missions`, with their
/// reasons, in mission order.
pub open spec fn invalid_list(missions: Seq<MissionRow>, players: Seq<Vec<PlayerInfo>>, m: int) -> Seq<(i32, Seq<char>)>
    decreases m,
{
    if m <= 0 {
        Seq::empty()
    } else {
        let prev = invalid_list(missions, players, m - 1);
        match invalid_reason_spec(missions[m - 1].mission_time as int, players[m - 1]@.len() as int) {
            Some(reason) => prev.push((missions[m - 1].id, reason)),
            None => prev,
        }
    }
}

/// The invalid missions among `missions`, with their reasons, in mission
/// order; `players[m]` holds the player rows of `missions[m]`.
pub fn mark_invalid_missions(missions: &Vec<MissionRow>, players: &Vec<Vec<PlayerInfo>>) -> (r: Vec<(i32, String)>)
    requires
        missions@.len() == players@.len(),
    ensures
        r@.map_values(|e: (i32, String)| (e.0, e.1@)) == invalid_list(missions@, players@, missions@.len() as int),
{
    let mut r: Vec<(i32, String)> = Vec::new();
    let mut m: usize = 0;
    while m < missions.len()
        invariant
            missions@.len() == players@.len(),
            0 <= m <= missions@.len(),
            r@.map_values(|e: (i32, String)| (e.0, e.1@)) == invalid_list(missions@, players@, m as int),
        decreases missions@.len() - m,
    {
        let ghost before = r@;
        match invalid_mission_reason(missions[m].mission_time, players[m].len()) {
            Some(reason) => {
                r.push((missions[m].id, reason));
                assert(r@.map_values(|e: (i32, String)| (e.0, e.1@)) =~= before.map_values(
                    |e: (i32, String)| (e.0, e.1@)).push((r@[r@.len() - 1].0, r@[r@.len() - 1].1@)));
            },
            None => {},
        }
        m += 1;
    }
    r
}

} // verus!
