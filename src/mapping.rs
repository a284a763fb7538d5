//! Name mappings and normalisation tables, and client settings.
use vstd::prelude::*;
use crate::text::same_text;

verus! {

/// No key occurs twice in a list of (key, value) pairs.
pub open spec fn distinct_keys(m: Seq<(String, String)>) -> bool {
    forall|i: int, j: int| 0 <= i < j < m.len() ==> m[i].0@ != m[j].0@
}

/// No name occurs twice in a list of names.
pub open spec fn distinct_texts(s: Seq<String>) -> bool {
    forall|i: int, j: int| 0 <= i < j < s.len() ==> s[i]@ != s[j]@
}

/// Whether no key occurs twice in `m`.
pub fn keys_are_distinct(m: &Vec<(String, String)>) -> (r: bool)
    ensures
        r == distinct_keys(m@),
{
    let mut j: usize = 0;
    while j < m.len()
        invariant
            0 <= j <= m@.len(),
            forall|a: int, b: int| 0 <= a < b < j ==> m@[a].0@ != m@[b].0@,
        decreases m@.len() - j,
    {
        let mut i: usize = 0;
        while i < j
            invariant
                0 <= i <= j < m@.len(),
                forall|a: int| 0 <= a < i ==> m@[a].0@ != m@[j as int].0@,
            decreases j - i,
        {
            if same_text(m[i].0.as_str(), m[j].0.as_str()) {
                return false;
            }
            i += 1;
        }
        j += 1;
    }
    true
}

/// Whether no name occurs twice in `s`.
pub fn texts_are_distinct(s: &Vec<String>) -> (r: bool)
    ensures
        r == distinct_texts(s@),
{
    let mut j: usize = 0;
    while j < s.len()
        invariant
            0 <= j <= s@.len(),
            forall|a: int, b: int| 0 <= a < b < j ==> s@[a]@ != s@[b]@,
        decreases s@.len() - j,
    {
        let mut i: usize = 0;
        while i < j
            invariant
                0 <= i <= j < s@.len(),
                forall|a: int| 0 <= a < i ==> s@[a]@ != s@[j as int]@,
            decreases j - i,
        {
            if same_text(s[i].as_str(), s[j].as_str()) {
                return false;
            }
            i += 1;
        }
        j += 1;
    }
    true
}

/// Name mappings and normalisation tables. Maps are lists of
/// (key, value) pairs with distinct keys; sets are lists of distinct names
/// (see `Mapping::wf`).
pub struct Mapping {
    pub character_mapping: Vec<(String, String)>,
    pub entity_mapping: Vec<(String, String)>,
    pub entity_blacklist_set: Vec<String>,
    pub entity_combine: Vec<(String, String)>,
    pub mission_type_mapping: Vec<(String, String)>,
    pub resource_mapping: Vec<(String, String)>,
    pub weapon_mapping: Vec<(String, String)>,
    pub weapon_combine: Vec<(String, String)>,
    pub weapon_character: Vec<(String, String)>,
    pub scout_special_player_set: Vec<String>,
}

impl Mapping {
    /// Every map has distinct keys and every set distinct names.
    pub open spec fn wf(&self) -> bool {
        &&& distinct_keys(self.character_mapping@)
        &&& distinct_keys(self.entity_mapping@)
        &&& distinct_texts(self.entity_blacklist_set@)
        &&& distinct_keys(self.entity_combine@)
        &&& distinct_keys(self.mission_type_mapping@)
        &&& distinct_keys(self.resource_mapping@)
        &&& distinct_keys(self.weapon_mapping@)
        &&& distinct_keys(self.weapon_combine@)
        &&& distinct_keys(self.weapon_character@)
        &&& distinct_texts(self.scout_special_player_set@)
    }

    /// Whether every map has distinct keys and every set distinct names.
    pub fn is_wf(&self) -> (r: bool)
        ensures
            r == self.wf(),
    {
        keys_are_distinct(&self.character_mapping) && keys_are_distinct(&self.entity_mapping)
            && texts_are_distinct(&self.entity_blacklist_set) && keys_are_distinct(&self.entity_combine)
            && keys_are_distinct(&self.mission_type_mapping) && keys_are_distinct(&self.resource_mapping)
            && keys_are_distinct(&self.weapon_mapping) && keys_are_distinct(&self.weapon_combine)
            && keys_are_distinct(&self.weapon_character)
            && texts_are_distinct(&self.scout_special_player_set)
    }
}

impl Default for Mapping {
    fn default() -> (r: Mapping)
        ensures
            r.wf(),
            r.character_mapping@.len() == 0,
            r.entity_mapping@.len() == 0,
            r.entity_blacklist_set@.len() == 0,
            r.entity_combine@.len() == 0,
            r.mission_type_mapping@.len() == 0,
            r.resource_mapping@.len() == 0,
            r.weapon_mapping@.len() == 0,
            r.weapon_combine@.len() == 0,
            r.weapon_character@.len() == 0,
            r.scout_special_player_set@.len() == 0,
    {
        Mapping {
            character_mapping: Vec::new(),
            entity_mapping: Vec::new(),
            entity_blacklist_set: Vec::new(),
            entity_combine: Vec::new(),
            mission_type_mapping: Vec::new(),
            resource_mapping: Vec::new(),
            weapon_mapping: Vec::new(),
            weapon_combine: Vec::new(),
            weapon_character: Vec::new(),
            scout_special_player_set: Vec::new(),
        }
    }
}

/// The mappings as published to clients; maps have distinct keys and the
/// blacklist distinct names (see `APIMapping::wf`).
pub struct APIMapping {
    pub character: Vec<(String, String)>,
    pub entity: Vec<(String, String)>,
    pub entity_blacklist: Vec<String>,
    pub entity_combine: Vec<(String, String)>,
    pub mission_type: Vec<(String, String)>,
    pub resource: Vec<(String, String)>,
    pub weapon: Vec<(String, String)>,
    pub weapon_combine: Vec<(String, String)>,
    pub weapon_character: Vec<(String, String)>,
}

impl APIMapping {
    /// Every map has distinct keys and the blacklist distinct names.
    pub open spec fn wf(&self) -> bool {
        &&& distinct_keys(self.character@)
        &&& distinct_keys(self.entity@)
        &&& distinct_texts(self.entity_blacklist@)
        &&& distinct_keys(self.entity_combine@)
        &&& distinct_keys(self.mission_type@)
        &&& distinct_keys(self.resource@)
        &&& distinct_keys(self.weapon@)
        &&& distinct_keys(self.weapon_combine@)
        &&& distinct_keys(self.weapon_character@)
    }
}

/// The published form of a mapping: every table but the scout-special set,
/// unchanged.
pub fn generate_mapping(mapping: Mapping) -> (r: APIMapping)
    requires
        mapping.wf(),
    ensures
        r.wf(),
        r.character@ == mapping.character_mapping@,
        r.entity@ == mapping.entity_mapping@,
        r.entity_blacklist@ == mapping.entity_blacklist_set@,
        r.entity_combine@ == mapping.entity_combine@,
        r.mission_type@ == mapping.mission_type_mapping@,
        r.resource@ == mapping.resource_mapping@,
        r.weapon@ == mapping.weapon_mapping@,
        r.weapon_combine@ == mapping.weapon_combine@,
        r.weapon_character@ == mapping.weapon_character@,
{
    APIMapping {
        character: mapping.character_mapping,
        entity: mapping.entity_mapping,
        entity_blacklist: mapping.entity_blacklist_set,
        entity_combine: mapping.entity_combine,
        mission_type: mapping.mission_type_mapping,
        resource: mapping.resource_mapping,
        weapon: mapping.weapon_mapping,
        weapon_combine: mapping.weapon_combine,
        weapon_character: mapping.weapon_character,
    }
}

/// Settings of the command-line clients.
pub struct ClientConfig {
    pub access_token: Option<String>,
    pub endpoint_url: String,
    pub mapping_path: Option<String>,
    pub watchlist_path: Option<String>,
    pub kpi_config_path: Option<String>,
}

} // verus!
