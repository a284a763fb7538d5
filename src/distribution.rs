//! Selection and grouping of the samples that make up the cross-mission rank
//! distribution, and the index rules of the rank-to-value transform.
use vstd::prelude::*;
use std::collections::HashMap;
use crate::kpi::{CharacterKPIType, role_of, is_character_game_id};
use crate::records::name_of;
use crate::records::{Mission, PlayerInfo};

verus! {

broadcast use vstd::std_specs::hash::group_hash_axioms;

/// Whether `present / mission`, taken as a real quotient of the two times,
/// is below one half (a zero mission time gives an infinite or undefined
/// quotient, which is below one half only when the present time is negative).
pub open spec fn below_half_presence(present: int, mission: int) -> bool {
    if mission > 0 {
        2 * present < mission
    } else if mission == 0 {
        present < 0
    } else {
        2 * present > mission
    }
}

/// Whether a player with `present_time` in a mission of `mission_time` is
/// left out of the rank distribution (player index below one half).
pub fn below_kpi_player_index(present_time: i16, mission_time: i16) -> (r: bool)
    ensures
        r == below_half_presence(present_time as int, mission_time as int),
{
    let p = present_time as i32;
    let m = mission_time as i32;
    if m > 0 {
        2 * p < m
    } else if m == 0 {
        p < 0
    } else {
        2 * p > m
    }
}

/// Whether `id` is listed in `ids`.
pub fn contains_id(ids: &Vec<i32>, id: i32) -> (r: bool)
    ensures
        r == ids@.contains(id),
{
    let mut i: usize = 0;
    while i < ids.len()
        invariant
            0 <= i <= ids@.len(),
            forall|k: int| 0 <= k < i ==> ids@[k] != id,
        decreases ids@.len() - i,
    {
        if ids[i] == id {
            return true;
        }
        i += 1;
    }
    false
}

/// Player `j` of mission `m` contributes a sample to the rank distribution.
pub open spec fn is_sample(
    missions: Seq<Mission>,
    players: Seq<Vec<PlayerInfo>>,
    invalid: Seq<i32>,
    m: int,
    j: int,
) -> bool {
    &&& 0 <= m < missions.len()
    &&& m < players.len()
    &&& 0 <= j < players[m]@.len()
    &&& !invalid.contains(missions[m].id)
    &&& !below_half_presence(players[m]@[j].present_time as int, missions[m].mission_time as int)
}

/// Position `(m, j)` occurs in `r`.
pub open spec fn has_pos(r: Seq<(usize, usize)>, m: int, j: int) -> bool {
    exists|k: int| 0 <= k < r.len() && r[k].0 as int == m && #[trigger] r[k].1 as int == j
}

/// Strict lexicographic order on (mission, player) positions.
pub open spec fn pos_lt(a: (usize, usize), b: (usize, usize)) -> bool {
    a.0 < b.0 || (a.0 == b.0 && a.1 < b.1)
}

/// The (mission, player) positions that feed the rank distribution: players
/// of missions not listed as invalid whose player index is at least one half,
/// in mission order and then player order. `players[m]` holds the player rows
/// of `missions[m]`.
pub fn distribution_samples(
    missions: &Vec<Mission>,
    players: &Vec<Vec<PlayerInfo>>,
    invalid_mission_id_list: &Vec<i32>,
) -> (r: Vec<(usize, usize)>)
    requires
        missions@.len() == players@.len(),
    ensures
        forall|k: int|
            0 <= k < r@.len() ==> is_sample(
                missions@,
                players@,
                invalid_mission_id_list@,
                r@[k].0 as int,
                r@[k].1 as int,
            ),
        forall|m: int, j: int|
            is_sample(missions@, players@, invalid_mission_id_list@, m, j) ==> has_pos(r@, m, j),
        forall|k1: int, k2: int| 0 <= k1 < k2 < r@.len() ==> pos_lt(r@[k1], r@[k2]),
        missions@.len() == 0 ==> r@.len() == 0,
        samples_exact(missions@, players@, invalid_mission_id_list@, r@),
{
    let ghost inv = invalid_mission_id_list@;
    let mut r: Vec<(usize, usize)> = Vec::new();
    let mut m: usize = 0;
    while m < missions.len()
        invariant
            missions@.len() == players@.len(),
            0 <= m <= missions@.len(),
            inv == invalid_mission_id_list@,
            forall|k: int|
                0 <= k < r@.len() ==> is_sample(missions@, players@, inv, r@[k].0 as int, r@[k].1 as int)
                    && r@[k].0 < m,
            forall|mm: int, j: int|
                is_sample(missions@, players@, inv, mm, j) && mm < m ==> has_pos(r@, mm, j),
            forall|k1: int, k2: int| 0 <= k1 < k2 < r@.len() ==> pos_lt(r@[k1], r@[k2]),
        decreases missions@.len() - m,
    {
        let mission = &missions[m];
        if !contains_id(invalid_mission_id_list, mission.id) {
            let roster = &players[m];
            let mut j: usize = 0;
            while j < roster.len()
                invariant
                    missions@.len() == players@.len(),
                    0 <= m < missions@.len(),
                    *roster == players@[m as int],
                    *mission == missions@[m as int],
                    !inv.contains(mission.id),
                    0 <= j <= roster@.len(),
                    inv == invalid_mission_id_list@,
                    forall|k: int|
                        0 <= k < r@.len() ==> is_sample(missions@, players@, inv, r@[k].0 as int, r@[k].1 as int)
                            && pos_lt(r@[k], (m, j)),
                    forall|mm: int, jj: int|
                        is_sample(missions@, players@, inv, mm, jj) && (mm < m || (mm == m && jj < j))
                            ==> has_pos(r@, mm, jj),
                    forall|k1: int, k2: int| 0 <= k1 < k2 < r@.len() ==> pos_lt(r@[k1], r@[k2]),
                decreases roster@.len() - j,
            {
                let ghost old_r = r@;
                if !below_kpi_player_index(roster[j].present_time, mission.mission_time) {
                    r.push((m, j));
                }
                proof {
                    assert forall|mm: int, jj: int|
                        is_sample(missions@, players@, inv, mm, jj) && (mm < m || (mm == m && jj < j + 1))
                            implies has_pos(r@, mm, jj) by {
                        if mm == m && jj == j {
                            let k = r@.len() - 1;
                            assert(r@[k].0 as int == mm && r@[k].1 as int == jj);
                        } else {
                            assert(has_pos(old_r, mm, jj));
                            let k = choose|k: int| 0 <= k < old_r.len() && old_r[k].0 as int == mm && #[trigger] old_r[k].1 as int == jj;
                            assert(r@[k] == old_r[k]);
                        }
                    }
                }
                j += 1;
            }
        } else {
            proof {
                assert forall|mm: int, j: int|
                    is_sample(missions@, players@, inv, mm, j) && mm < m + 1 implies has_pos(r@, mm, j) by {
                    assert(mm != m);
                }
            }
        }
        m += 1;
    }
    if r.len() > 0 {
        assert(is_sample(missions@, players@, inv, r@[0].0 as int, r@[0].1 as int));
    }
    r
}

/// The id tables name every player of `players` and give each a known class.
pub open spec fn roster_is_named(
    players: Seq<PlayerInfo>,
    character_id_to_game_id: Map<i16, String>,
    player_id_to_name: Map<i16, String>,
) -> bool {
    forall|j: int|
        0 <= j < players.len() ==> {
            &&& #[trigger] character_id_to_game_id.contains_key(players[j].character_id)
            &&& is_character_game_id(character_id_to_game_id[players[j].character_id]@)
            &&& player_id_to_name.contains_key(players[j].player_id)
        }
}

/// Role of a player row under the id tables.
pub open spec fn row_role(
    p: PlayerInfo,
    character_id_to_game_id: Map<i16, String>,
    player_id_to_name: Map<i16, String>,
    scout_special: Seq<String>,
) -> CharacterKPIType {
    role_of(
        character_id_to_game_id[p.character_id]@,
        player_id_to_name[p.player_id]@,
        scout_special,
    )
}

/// The role of each player row of a mission.
pub fn player_roles(
    players: &Vec<PlayerInfo>,
    character_id_to_game_id: &HashMap<i16, String>,
    player_id_to_name: &HashMap<i16, String>,
    scout_special_player_set: &Vec<String>,
) -> (r: Vec<CharacterKPIType>)
    requires
        roster_is_named(players@, character_id_to_game_id@, player_id_to_name@),
    ensures
        r@.len() == players@.len(),
        forall|j: int|
            0 <= j < players@.len() ==> #[trigger] r@[j] == row_role(
                players@[j],
                character_id_to_game_id@,
                player_id_to_name@,
                scout_special_player_set@,
            ),
{
    let mut r: Vec<CharacterKPIType> = Vec::new();
    let mut j: usize = 0;
    while j < players.len()
        invariant
            roster_is_named(players@, character_id_to_game_id@, player_id_to_name@),
            0 <= j <= players@.len(),
            r@.len() == j,
            forall|jj: int|
                0 <= jj < j ==> #[trigger] r@[jj] == row_role(
                    players@[jj],
                    character_id_to_game_id@,
                    player_id_to_name@,
                    scout_special_player_set@,
                ),
        decreases players@.len() - j,
    {
        let p = &players[j];
        assert(character_id_to_game_id@.contains_key(players@[j as int].character_id));
        let character_game_id = name_of(character_id_to_game_id, p.character_id);
        let player_name = name_of(player_id_to_name, p.player_id);
        let role = CharacterKPIType::from_player(
            character_game_id.as_str(),
            player_name.as_str(),
            scout_special_player_set,
        );
        r.push(role);
        j += 1;
    }
    r
}

/// Key of a distribution group: a role and a player id.
pub type GroupKey = (CharacterKPIType, i16);

/// Group `g` first occurs at position `t` of `group_of`, after positions
/// that all belong to earlier groups.
pub open spec fn first_at(group_of: Seq<usize>, g: int, t: int) -> bool {
    &&& 0 <= t < group_of.len()
    &&& group_of[t] as int == g
    &&& forall|u: int| 0 <= u < t ==> (#[trigger] group_of[u] as int) < g
}

/// Group `g` occurs in `group_of`, first after earlier groups only.
pub open spec fn has_first(group_of: Seq<usize>, g: int) -> bool {
    exists|t: int| #[trigger] first_at(group_of, g, t)
}

/// Groups equal keys: `keys` returned holds each distinct key once, in order
/// of first occurrence, and `group_of[t]` is the position in it of `keys[t]`.
pub fn group_keys(keys: &Vec<GroupKey>) -> (r: (Vec<GroupKey>, Vec<usize>))
    ensures
        r.1@.len() == keys@.len(),
        forall|t: int| 0 <= t < keys@.len() ==> (#[trigger] r.1@[t]) < r.0@.len(),
        forall|t: int| 0 <= t < keys@.len() ==> r.0@[#[trigger] r.1@[t] as int] == keys@[t],
        forall|g1: int, g2: int| 0 <= g1 < g2 < r.0@.len() ==> r.0@[g1] != r.0@[g2],
        forall|g: int| 0 <= g < r.0@.len() ==> has_first(r.1@, g),
        keys@.len() == 0 ==> r.0@.len() == 0,
{
    let mut distinct: Vec<GroupKey> = Vec::new();
    let mut group_of: Vec<usize> = Vec::new();
    let mut t: usize = 0;
    while t < keys.len()
        invariant
            0 <= t <= keys@.len(),
            group_of@.len() == t,
            forall|u: int| 0 <= u < t ==> (#[trigger] group_of@[u]) < distinct@.len(),
            forall|u: int| 0 <= u < t ==> distinct@[#[trigger] group_of@[u] as int] == keys@[u],
            forall|g1: int, g2: int| 0 <= g1 < g2 < distinct@.len() ==> distinct@[g1] != distinct@[g2],
            forall|g: int| 0 <= g < distinct@.len() ==> has_first(group_of@, g),
        decreases keys@.len() - t,
    {
        let key = keys[t];
        let mut g: usize = 0;
        let mut found = false;
        while g < distinct.len()
            invariant_except_break
                !found,
            invariant
                0 <= g <= distinct@.len(),
                forall|h: int| 0 <= h < g ==> distinct@[h] != key,
            ensures
                found ==> g < distinct@.len() && distinct@[g as int] == key,
                !found ==> g == distinct@.len(),
            decreases distinct@.len() - g,
        {
            if distinct[g].0 == key.0 && distinct[g].1 == key.1 {
                found = true;
                break;
            }
            g += 1;
        }
        let ghost old_group_of = group_of@;
        let ghost old_distinct = distinct@;
        if !found {
            assert(g == distinct@.len());
            distinct.push(key);
        } else {
            assert(distinct@[g as int] == key);
        }
        group_of.push(g);
        proof {
            assert forall|h: int| 0 <= h < distinct@.len() implies has_first(group_of@, h) by {
                if h == old_distinct.len() {
                    assert(first_at(group_of@, h, t as int));
                } else {
                    assert(has_first(old_group_of, h));
                    let u = choose|u: int| #[trigger] first_at(old_group_of, h, u);
                    assert(group_of@[u] == old_group_of[u]);
                    assert(first_at(group_of@, h, u));
                }
            }
            assert forall|u: int| 0 <= u < t + 1 implies distinct@[#[trigger] group_of@[u] as int] == keys@[u] by {
                if u < t {
                    assert(group_of@[u] == old_group_of[u]);
                }
            }
        }
        t += 1;
    }
    if distinct.len() > 0 {
        assert(has_first(group_of@, 0));
    }
    (distinct, group_of)
}

/// Present time of a player row once a recorded zero is read as the whole
/// mission.
pub open spec fn fixed_present_time(recorded: int, mission_time: int) -> int {
    if recorded == 0 { mission_time } else { recorded }
}

/// The player index, present time over mission time, lies between 0 and 1
/// for every player whose recorded present time is within the mission.
pub proof fn lemma_player_index_in_unit_range(recorded: i16, mission_time: i16)
    requires
        mission_time > 0,
        0 <= recorded <= mission_time,
    ensures
        0 <= fixed_present_time(recorded as int, mission_time as int) <= mission_time,
{
}

/// A player whose player index is below one half contributes no sample to
/// the rank distribution, though the player stays on the mission roster
/// (and so in the per-mission role assignment and raw KPI data).
pub proof fn lemma_low_presence_not_sampled(
    missions: Seq<Mission>,
    players: Seq<Vec<PlayerInfo>>,
    invalid: Seq<i32>,
    m: int,
    j: int,
)
    requires
        0 <= m < missions.len(),
        missions.len() == players.len(),
        0 <= j < players[m]@.len(),
        below_half_presence(players[m]@[j].present_time as int, missions[m].mission_time as int),
    ensures
        !is_sample(missions, players, invalid, m, j),
        forall|r: Seq<(usize, usize)>| (forall|k: int| 0 <= k < r.len() ==> is_sample(missions, players,
            invalid, (#[trigger] r[k]).0 as int, r[k].1 as int)) ==> !has_pos(r, m, j),
{
    assert forall|r: Seq<(usize, usize)>| (forall|k: int| 0 <= k < r.len() ==> is_sample(missions, players,
        invalid, (#[trigger] r[k]).0 as int, r[k].1 as int)) implies !has_pos(r, m, j) by {
        if has_pos(r, m, j) {
            let k = choose|k: int| 0 <= k < r.len() && r[k].0 as int == m && #[trigger] r[k].1 as int == j;
            assert(is_sample(missions, players, invalid, r[k].0 as int, r[k].1 as int));
        }
    }
}

/// `r` lists, in order and once each, the positions that feed the rank
/// distribution: what `distribution_samples` returns.
pub open spec fn samples_exact(
    missions: Seq<Mission>,
    players: Seq<Vec<PlayerInfo>>,
    invalid: Seq<i32>,
    r: Seq<(usize, usize)>,
) -> bool {
    &&& forall|k: int| 0 <= k < r.len() ==> is_sample(missions, players, invalid, (#[trigger] r[k]).0 as int, r[k].1 as int)
    &&& forall|m: int, j: int| is_sample(missions, players, invalid, m, j) ==> has_pos(r, m, j)
    &&& forall|k1: int, k2: int| 0 <= k1 < k2 < r.len() ==> pos_lt(r[k1], r[k2])
}

proof fn lemma_sorted_same_members(a: Seq<(usize, usize)>, b: Seq<(usize, usize)>)
    requires
        forall|i: int, j: int| 0 <= i < j < a.len() ==> pos_lt(a[i], a[j]),
        forall|i: int, j: int| 0 <= i < j < b.len() ==> pos_lt(b[i], b[j]),
        forall|x: (usize, usize)| a.contains(x) <==> b.contains(x),
    ensures
        a == b,
    decreases a.len(),
{
    if a.len() == 0 {
        if b.len() > 0 {
            assert(b.contains(b[0]));
        }
        assert(a =~= b);
    } else {
        assert(a.contains(a[0]));
        assert(b.len() > 0);
        assert(b.contains(b[0]));
        assert(b.contains(a[0]));
        assert(a.contains(b[0]));
        let k = choose|k: int| 0 <= k < b.len() && b[k] == a[0];
        let l = choose|l: int| 0 <= l < a.len() && a[l] == b[0];
        if k > 0 && l > 0 {
            assert(pos_lt(b[0], b[k]));
            assert(pos_lt(a[0], a[l]));
        } else if k > 0 {
            assert(pos_lt(b[0], b[k]));
        } else if l > 0 {
            assert(pos_lt(a[0], a[l]));
        }
        assert(a[0] == b[0]);
        let a1 = a.drop_first();
        let b1 = b.drop_first();
        assert forall|x: (usize, usize)| a1.contains(x) <==> b1.contains(x) by {
            if a1.contains(x) {
                let i = choose|i: int| 0 <= i < a1.len() && a1[i] == x;
                assert(a[i + 1] == x);
                assert(pos_lt(a[0], a[i + 1]));
                assert(a.contains(x));
                let j = choose|j: int| 0 <= j < b.len() && b[j] == x;
                assert(j != 0);
                assert(b1[j - 1] == x);
            }
            if b1.contains(x) {
                let i = choose|i: int| 0 <= i < b1.len() && b1[i] == x;
                assert(b[i + 1] == x);
                assert(pos_lt(b[0], b[i + 1]));
                assert(b.contains(x));
                let j = choose|j: int| 0 <= j < a.len() && a[j] == x;
                assert(j != 0);
                assert(a1[j - 1] == x);
            }
        }
        assert forall|i: int, j: int| 0 <= i < j < a1.len() implies pos_lt(a1[i], a1[j]) by {
            assert(pos_lt(a[i + 1], a[j + 1]));
        }
        assert forall|i: int, j: int| 0 <= i < j < b1.len() implies pos_lt(b1[i], b1[j]) by {
            assert(pos_lt(b[i + 1], b[j + 1]));
        }
        lemma_sorted_same_members(a1, b1);
        assert(a.len() == b.len());
        assert forall|i: int| 0 <= i < a.len() implies a[i] == b[i] by {
            if i > 0 {
                assert(a[i] == a1[i - 1]);
                assert(b[i] == b1[i - 1]);
            }
        }
        assert(a =~= b);
    }
}

/// The rank-distribution samples are a function of the missions, their
/// players and the invalid list: two sample lists that both meet the
/// contract of `distribution_samples` on the same input are equal, so
/// rebuilding the distribution from the same input gives the same samples.
pub proof fn lemma_samples_determined(
    missions: Seq<Mission>,
    players: Seq<Vec<PlayerInfo>>,
    invalid: Seq<i32>,
    r1: Seq<(usize, usize)>,
    r2: Seq<(usize, usize)>,
)
    requires
        samples_exact(missions, players, invalid, r1),
        samples_exact(missions, players, invalid, r2),
    ensures
        r1 == r2,
{
    assert forall|x: (usize, usize)| r1.contains(x) <==> r2.contains(x) by {
        if r1.contains(x) {
            let k = choose|k: int| 0 <= k < r1.len() && r1[k] == x;
            assert(is_sample(missions, players, invalid, r1[k].0 as int, r1[k].1 as int));
            assert(has_pos(r2, x.0 as int, x.1 as int));
            let k2 = choose|k2: int| 0 <= k2 < r2.len() && r2[k2].0 as int == x.0 as int && #[trigger] r2[k2].1 as int == x.1 as int;
            assert(r2[k2] == x);
        }
        if r2.contains(x) {
            let k = choose|k: int| 0 <= k < r2.len() && r2[k] == x;
            assert(is_sample(missions, players, invalid, r2[k].0 as int, r2[k].1 as int));
            assert(has_pos(r1, x.0 as int, x.1 as int));
            let k1 = choose|k1: int| 0 <= k1 < r1.len() && r1[k1].0 as int == x.0 as int && #[trigger] r1[k1].1 as int == x.1 as int;
            assert(r1[k1] == x);
        }
    }
    lemma_sorted_same_members(r1, r2);
}

/// The id tables name every player of every mission.
pub open spec fn missions_are_named(
    players: Seq<Vec<PlayerInfo>>,
    character_id_to_game_id: Map<i16, String>,
    player_id_to_name: Map<i16, String>,
) -> bool {
    forall|m: int| 0 <= m < players.len() ==> roster_is_named(
        #[trigger] players[m]@, character_id_to_game_id, player_id_to_name)
}

/// The samples of the rank distribution and their groups: `r.0` are the
/// (mission, player) positions that feed it (as `distribution_samples`),
/// `r.1` the distinct (role, player id) keys in order of first occurrence,
/// and `r.2[k]` the group of sample `k`. Each group yields one mean per
/// component, so a role has as many means as it has sampled players, and no
/// player below the presence threshold is in any group.
pub fn distribution_groups(
    missions: &Vec<Mission>,
    players: &Vec<Vec<PlayerInfo>>,
    invalid_mission_id_list: &Vec<i32>,
    character_id_to_game_id: &HashMap<i16, String>,
    player_id_to_name: &HashMap<i16, String>,
    scout_special_player_set: &Vec<String>,
) -> (r: (Vec<(usize, usize)>, Vec<GroupKey>, Vec<usize>))
    requires
        missions@.len() == players@.len(),
        missions_are_named(players@, character_id_to_game_id@, player_id_to_name@),
    ensures
        samples_exact(missions@, players@, invalid_mission_id_list@, r.0@),
        r.2@.len() == r.0@.len(),
        forall|k: int| 0 <= k < r.0@.len() ==> (#[trigger] r.2@[k]) < r.1@.len(),
        forall|k: int| 0 <= k < r.0@.len() ==> r.1@[#[trigger] r.2@[k] as int] == (
            row_role(players@[r.0@[k].0 as int]@[r.0@[k].1 as int], character_id_to_game_id@,
                player_id_to_name@, scout_special_player_set@),
            players@[r.0@[k].0 as int]@[r.0@[k].1 as int].player_id,
        ),
        forall|g1: int, g2: int| 0 <= g1 < g2 < r.1@.len() ==> r.1@[g1] != r.1@[g2],
        forall|g: int| 0 <= g < r.1@.len() ==> has_first(r.2@, g),
{
    let samples = distribution_samples(missions, players, invalid_mission_id_list);
    let mut keys: Vec<GroupKey> = Vec::new();
    let mut k: usize = 0;
    while k < samples.len()
        invariant
            missions@.len() == players@.len(),
            missions_are_named(players@, character_id_to_game_id@, player_id_to_name@),
            samples_exact(missions@, players@, invalid_mission_id_list@, samples@),
            0 <= k <= samples@.len(),
            keys@.len() == k,
            forall|u: int| 0 <= u < k ==> #[trigger] keys@[u] == (
                row_role(players@[samples@[u].0 as int]@[samples@[u].1 as int], character_id_to_game_id@,
                    player_id_to_name@, scout_special_player_set@),
                players@[samples@[u].0 as int]@[samples@[u].1 as int].player_id,
            ),
        decreases samples@.len() - k,
    {
        let (m, j) = samples[k];
        assert(is_sample(missions@, players@, invalid_mission_id_list@, samples@[k as int].0 as int,
            samples@[k as int].1 as int));
        let p = &players[m][j];
        assert(roster_is_named(players@[m as int]@, character_id_to_game_id@, player_id_to_name@));
        assert(character_id_to_game_id@.contains_key(players@[m as int]@[j as int].character_id));
        let role = CharacterKPIType::from_player(
            name_of(character_id_to_game_id, p.character_id).as_str(),
            name_of(player_id_to_name, p.player_id).as_str(),
            scout_special_player_set,
        );
        keys.push((role, p.player_id));
        k += 1;
    }
    let (distinct, group_of) = group_keys(&keys);
    (samples, distinct, group_of)
}

} // verus!
