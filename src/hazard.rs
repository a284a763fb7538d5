//! Hazard levels: the numeric difficulty of a hazard id, and the deep-dive
//! ids given to consecutive stages of a deep dive.
use vstd::prelude::*;

verus! {

/// Twice the difficulty of a hazard id: ids 1 to 6 are their own level,
/// deep-dive ids 100 to 105 are 3, 3.5, 3.5, 4.5, 5 and 5.5.
pub open spec fn hazard_halves(hazard_id: int) -> Option<int> {
    if 1 <= hazard_id <= 6 {
        Some(2 * hazard_id)
    } else if hazard_id == 100 {
        Some(6)
    } else if hazard_id == 101 || hazard_id == 102 {
        Some(7)
    } else if hazard_id == 103 {
        Some(9)
    } else if hazard_id == 104 {
        Some(10)
    } else if hazard_id == 105 {
        Some(11)
    } else {
        None
    }
}

/// The difficulty of a hazard id counted in halves (3.5 is 7), `None` for an
/// id outside the table.
pub fn hazard_id_to_halves(hazard_id: i16) -> (r: Option<u8>)
    ensures
        match r {
            Some(h) => hazard_halves(hazard_id as int) == Some(h as int),
            None => hazard_halves(hazard_id as int) is None,
        },
{
    if 1 <= hazard_id && hazard_id <= 6 {
        Some(2 * hazard_id as u8)
    } else {
        match hazard_id {
            100 => Some(6),
            101 => Some(7),
            102 => Some(7),
            103 => Some(9),
            104 => Some(10),
            105 => Some(11),
            _ => None,
        }
    }
}

/// What the deep-dive pass reads and writes of a parsed mission.
#[derive(Clone, Copy, Debug, PartialEq, Eq, Structural)]
pub struct DeepDiveSlot {
    pub begin_timestamp: i64,
    pub first_player_join_time: i16,
    pub hazard_id: i16,
}

/// Some mission of `s` that begins at `ts` was joined late by every player,
/// which marks a later deep-dive stage.
pub open spec fn late_stage_at(s: Seq<DeepDiveSlot>, ts: i64) -> bool {
    exists|j: int| 0 <= j < s.len() && #[trigger] s[j].begin_timestamp == ts && s[j].first_player_join_time > 0
}

/// Hazard ids of the previous and the current stage when stage `i` is a
/// later stage: stage three after stage two, else stage two after stage one,
/// normal (level 3) or elite.
pub open spec fn stage_ids(prev_late: bool, prev_hazard: i16) -> (i16, i16) {
    if prev_late {
        if prev_hazard == 3 || prev_hazard == 101 { (101, 102) } else { (104, 105) }
    } else {
        if prev_hazard == 3 || prev_hazard == 100 { (100, 101) } else { (103, 104) }
    }
}

/// One step of the pass, at position `i`; `orig` decides which missions are
/// later stages.
pub open spec fn deep_dive_step(s: Seq<DeepDiveSlot>, i: int, orig: Seq<DeepDiveSlot>) -> Seq<DeepDiveSlot> {
    if 0 < i < s.len() && late_stage_at(orig, s[i].begin_timestamp) {
        let ids = stage_ids(late_stage_at(orig, s[i - 1].begin_timestamp), s[i - 1].hazard_id);
        s.update(i - 1, DeepDiveSlot { hazard_id: ids.0, ..s[i - 1] }).update(
            i,
            DeepDiveSlot { hazard_id: ids.1, ..s[i] },
        )
    } else {
        s
    }
}

/// The missions after the first `n` steps of the pass.
pub open spec fn deep_dive_upto(orig: Seq<DeepDiveSlot>, n: int) -> Seq<DeepDiveSlot>
    decreases n,
{
    if n <= 0 {
        orig
    } else {
        deep_dive_step(deep_dive_upto(orig, n - 1), n - 1, orig)
    }
}

proof fn lemma_upto_keeps_times(orig: Seq<DeepDiveSlot>, n: int)
    requires
        0 <= n <= orig.len(),
    ensures
        deep_dive_upto(orig, n).len() == orig.len(),
        forall|j: int| 0 <= j < orig.len() ==> (#[trigger] deep_dive_upto(orig, n)[j]).begin_timestamp
            == orig[j].begin_timestamp && deep_dive_upto(orig, n)[j].first_player_join_time
            == orig[j].first_player_join_time,
    decreases n,
{
    if n > 0 {
        lemma_upto_keeps_times(orig, n - 1);
    }
}

/// Whether a mission beginning at `ts` is a later deep-dive stage.
fn late_stage(missions: &Vec<DeepDiveSlot>, ts: i64) -> (r: bool)
    ensures
        r == late_stage_at(missions@, ts),
{
    let mut j: usize = 0;
    while j < missions.len()
        invariant
            0 <= j <= missions@.len(),
            forall|k: int| 0 <= k < j ==> !(#[trigger] missions@[k].begin_timestamp == ts
                && missions@[k].first_player_join_time > 0),
        decreases missions@.len() - j,
    {
        if missions[j].begin_timestamp == ts && missions[j].first_player_join_time > 0 {
            return true;
        }
        j += 1;
    }
    false
}

/// Gives deep-dive hazard ids to the stages of deep dives in a list of
/// missions in time order: a mission joined late by every player follows the
/// stage before it, and the two get the ids of stages one and two, or two
/// and three, of a normal or an elite deep dive.
pub fn assign_deep_dive_hazard(missions: &mut Vec<DeepDiveSlot>)
    ensures
        final(missions)@ == deep_dive_upto(old(missions)@, old(missions)@.len() as int),
{
    let ghost orig = missions@;
    let n = missions.len();
    let mut late: Vec<bool> = Vec::new();
    let mut j: usize = 0;
    while j < n
        invariant
            missions@ == orig,
            n == orig.len(),
            0 <= j <= n,
            late@.len() == j,
            forall|k: int| 0 <= k < j ==> #[trigger] late@[k] == late_stage_at(orig, orig[k].begin_timestamp),
        decreases n - j,
    {
        let b = late_stage(missions, missions[j].begin_timestamp);
        late.push(b);
        j += 1;
    }
    let mut i: usize = 0;
    while i < n
        invariant
            n == orig.len(),
            0 <= i <= n,
            late@.len() == n,
            forall|k: int| 0 <= k < n ==> #[trigger] late@[k] == late_stage_at(orig, orig[k].begin_timestamp),
            missions@ == deep_dive_upto(orig, i as int),
        decreases n - i,
    {
        proof {
            lemma_upto_keeps_times(orig, i as int);
        }
        if i > 0 && late[i] {
            let prev = missions[i - 1];
            let cur = missions[i];
            let (prev_id, cur_id): (i16, i16) = if late[i - 1] {
                if prev.hazard_id == 3 || prev.hazard_id == 101 {
                    (101, 102)
                } else {
                    (104, 105)
                }
            } else {
                if prev.hazard_id == 3 || prev.hazard_id == 100 {
                    (100, 101)
                } else {
                    (103, 104)
                }
            };
            missions.set(i - 1, DeepDiveSlot { hazard_id: prev_id, ..prev });
            missions.set(i, DeepDiveSlot { hazard_id: cur_id, ..cur });
        }
        i += 1;
    }
}

} // verus!
