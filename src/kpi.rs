//! Roles (character KPI types) and KPI components.
use vstd::prelude::*;
use crate::text::{same_text, contains_text, text_in};

verus! {

/// Aggregation bucket of a player in a mission.
#[derive(PartialEq, Eq, Structural, Hash, Clone, Copy, Debug)]
pub enum CharacterKPIType {
    Driller,
    Engineer,
    Gunner,
    Scout,
    ScoutSpecial,
}

/// The ordinal of a role in the on-disk weight format.
pub open spec fn role_ordinal(r: CharacterKPIType) -> int {
    match r {
        CharacterKPIType::Driller => 0,
        CharacterKPIType::Gunner => 1,
        CharacterKPIType::Engineer => 2,
        CharacterKPIType::Scout => 3,
        CharacterKPIType::ScoutSpecial => 4,
    }
}

/// The four roles whose correction factors form the normaliser.
pub open spec fn is_standard_role(r: CharacterKPIType) -> bool {
    r != CharacterKPIType::ScoutSpecial
}

impl CharacterKPIType {
    /// Role of an ordinal, `None` outside `0..=4`.
    pub fn try_from_ordinal(value: i16) -> (r: Option<CharacterKPIType>)
        ensures
            r is Some <==> 0 <= value <= 4,
            r matches Some(role) ==> role_ordinal(role) == value,
    {
        match value {
            0 => Some(CharacterKPIType::Driller),
            1 => Some(CharacterKPIType::Gunner),
            2 => Some(CharacterKPIType::Engineer),
            3 => Some(CharacterKPIType::Scout),
            4 => Some(CharacterKPIType::ScoutSpecial),
            _ => None,
        }
    }

    /// The ordinal of this role.
    pub fn ordinal(&self) -> (r: i16)
        ensures
            r == role_ordinal(*self),
    {
        match self {
            CharacterKPIType::Driller => 0,
            CharacterKPIType::Gunner => 1,
            CharacterKPIType::Engineer => 2,
            CharacterKPIType::Scout => 3,
            CharacterKPIType::ScoutSpecial => 4,
        }
    }

    /// Lower-case name of the role.
    pub fn name(&self) -> (r: &str)
        ensures
            r@ == role_name(*self),
    {
        match self {
            CharacterKPIType::Driller => "driller",
            CharacterKPIType::Engineer => "engineer",
            CharacterKPIType::Gunner => "gunner",
            CharacterKPIType::Scout => "scout",
            CharacterKPIType::ScoutSpecial => "scout_special",
        }
    }

    /// Whether `character_game_id` names one of the four classes.
    pub fn is_known_class(character_game_id: &str) -> (r: bool)
        ensures
            r == is_character_game_id(character_game_id@),
    {
        same_text(character_game_id, "DRILLER") || same_text(character_game_id, "ENGINEER")
            || same_text(character_game_id, "GUNNER") || same_text(character_game_id, "SCOUT")
    }

    /// Role of a player: the class decides, except that a scout played by a
    /// member of the scout-special set is `ScoutSpecial`.
    pub fn from_player(
        character_game_id: &str,
        player_name: &str,
        scout_special_player_set: &Vec<String>,
    ) -> (r: CharacterKPIType)
        requires
            is_character_game_id(character_game_id@),
        ensures
            r == role_of(character_game_id@, player_name@, scout_special_player_set@),
    {
        if same_text(character_game_id, "DRILLER") {
            CharacterKPIType::Driller
        } else if same_text(character_game_id, "ENGINEER") {
            CharacterKPIType::Engineer
        } else if same_text(character_game_id, "GUNNER") {
            CharacterKPIType::Gunner
        } else if contains_text(scout_special_player_set, player_name) {
            CharacterKPIType::ScoutSpecial
        } else {
            CharacterKPIType::Scout
        }
    }
}

/// Lower-case name of a role.
pub open spec fn role_name(r: CharacterKPIType) -> Seq<char> {
    match r {
        CharacterKPIType::Driller => "driller"@,
        CharacterKPIType::Engineer => "engineer"@,
        CharacterKPIType::Gunner => "gunner"@,
        CharacterKPIType::Scout => "scout"@,
        CharacterKPIType::ScoutSpecial => "scout_special"@,
    }
}

/// The four character-class game ids.
pub open spec fn is_character_game_id(c: Seq<char>) -> bool {
    c == "DRILLER"@ || c == "ENGINEER"@ || c == "GUNNER"@ || c == "SCOUT"@
}

/// Role of a player with class `c` and name `name`.
pub open spec fn role_of(c: Seq<char>, name: Seq<char>, scout_special: Seq<String>) -> CharacterKPIType {
    if c == "DRILLER"@ {
        CharacterKPIType::Driller
    } else if c == "ENGINEER"@ {
        CharacterKPIType::Engineer
    } else if c == "GUNNER"@ {
        CharacterKPIType::Gunner
    } else if text_in(scout_special, name) {
        CharacterKPIType::ScoutSpecial
    } else {
        CharacterKPIType::Scout
    }
}

/// One term of the mission KPI of a player.
#[derive(PartialEq, Eq, Structural, Hash, Clone, Copy, Debug)]
pub enum KPIComponent {
    Kill,
    Damage,
    Priority,
    Revive,
    Death,
    FriendlyFire,
    Nitra,
    Supply,
    Minerals,
}

/// The fixed ordinal of a component: its serialization and sort key.
pub open spec fn component_ordinal(c: KPIComponent) -> int {
    match c {
        KPIComponent::Kill => 0,
        KPIComponent::Damage => 1,
        KPIComponent::Priority => 2,
        KPIComponent::Revive => 3,
        KPIComponent::Death => 4,
        KPIComponent::FriendlyFire => 5,
        KPIComponent::Nitra => 6,
        KPIComponent::Supply => 7,
        KPIComponent::Minerals => 8,
    }
}

/// Components that are corrected across roles and rank-transformed.
pub open spec fn is_correction_component(c: KPIComponent) -> bool {
    c == KPIComponent::Damage || c == KPIComponent::Priority || c == KPIComponent::Kill
        || c == KPIComponent::Nitra || c == KPIComponent::Minerals
}

/// Largest value a component contributes per unit weight: Death and Supply
/// are reported only and contribute nothing.
pub open spec fn component_max_value(c: KPIComponent) -> int {
    if c == KPIComponent::Death || c == KPIComponent::Supply {
        0
    } else {
        1
    }
}

/// Lower-case name of a component.
pub open spec fn component_name(c: KPIComponent) -> Seq<char> {
    match c {
        KPIComponent::Kill => "kill"@,
        KPIComponent::Damage => "damage"@,
        KPIComponent::Priority => "priority"@,
        KPIComponent::Revive => "revive"@,
        KPIComponent::Death => "death"@,
        KPIComponent::FriendlyFire => "friendly_fire"@,
        KPIComponent::Nitra => "nitra"@,
        KPIComponent::Supply => "supply"@,
        KPIComponent::Minerals => "minerals"@,
    }
}

/// Display label of a component.
pub open spec fn component_label_zh(c: KPIComponent) -> Seq<char> {
    match c {
        KPIComponent::Kill => "击杀数指数"@,
        KPIComponent::Damage => "输出指数"@,
        KPIComponent::Priority => "高威胁目标"@,
        KPIComponent::Revive => "救人指数"@,
        KPIComponent::Death => "倒地指数"@,
        KPIComponent::FriendlyFire => "友伤指数"@,
        KPIComponent::Nitra => "硝石指数"@,
        KPIComponent::Supply => "补给指数"@,
        KPIComponent::Minerals => "采集指数"@,
    }
}

impl KPIComponent {
    /// Component of an ordinal, `None` outside `0..=8`.
    pub fn try_from_ordinal(value: usize) -> (r: Option<KPIComponent>)
        ensures
            r is Some <==> value <= 8,
            r matches Some(c) ==> component_ordinal(c) == value,
    {
        match value {
            0 => Some(KPIComponent::Kill),
            1 => Some(KPIComponent::Damage),
            2 => Some(KPIComponent::Priority),
            3 => Some(KPIComponent::Revive),
            4 => Some(KPIComponent::Death),
            5 => Some(KPIComponent::FriendlyFire),
            6 => Some(KPIComponent::Nitra),
            7 => Some(KPIComponent::Supply),
            8 => Some(KPIComponent::Minerals),
            _ => None,
        }
    }

    /// The ordinal of this component.
    pub fn ordinal(&self) -> (r: i16)
        ensures
            r == component_ordinal(*self),
    {
        match self {
            KPIComponent::Kill => 0,
            KPIComponent::Damage => 1,
            KPIComponent::Priority => 2,
            KPIComponent::Revive => 3,
            KPIComponent::Death => 4,
            KPIComponent::FriendlyFire => 5,
            KPIComponent::Nitra => 6,
            KPIComponent::Supply => 7,
            KPIComponent::Minerals => 8,
        }
    }

    /// Lower-case name of the component.
    pub fn name(&self) -> (r: &str)
        ensures
            r@ == component_name(*self),
    {
        match self {
            KPIComponent::Kill => "kill",
            KPIComponent::Damage => "damage",
            KPIComponent::Priority => "priority",
            KPIComponent::Revive => "revive",
            KPIComponent::Death => "death",
            KPIComponent::FriendlyFire => "friendly_fire",
            KPIComponent::Nitra => "nitra",
            KPIComponent::Supply => "supply",
            KPIComponent::Minerals => "minerals",
        }
    }

    /// Display label of the component.
    pub fn to_string_zh(&self) -> (r: String)
        ensures
            r@ == component_label_zh(*self),
    {
        let s: &str = match self {
            KPIComponent::Kill => "击杀数指数",
            KPIComponent::Damage => "输出指数",
            KPIComponent::Priority => "高威胁目标",
            KPIComponent::Revive => "救人指数",
            KPIComponent::Death => "倒地指数",
            KPIComponent::FriendlyFire => "友伤指数",
            KPIComponent::Nitra => "硝石指数",
            KPIComponent::Supply => "补给指数",
            KPIComponent::Minerals => "采集指数",
        };
        String::from_str(s)
    }

    /// Largest value of the component per unit weight (0 or 1).
    pub fn max_value(&self) -> (r: u8)
        ensures
            r == component_max_value(*self),
    {
        match self {
            KPIComponent::Death => 0,
            KPIComponent::Supply => 0,
            _ => 1,
        }
    }

    /// Whether the component is corrected across roles and rank-transformed.
    pub fn is_correction_item(&self) -> (r: bool)
        ensures
            r == is_correction_component(*self),
    {
        match self {
            KPIComponent::Damage | KPIComponent::Priority | KPIComponent::Kill
            | KPIComponent::Nitra | KPIComponent::Minerals => true,
            _ => false,
        }
    }
}

/// The corrected (and rank-transformed) components, in their fixed order.
pub fn correction_items() -> (r: Vec<KPIComponent>)
    ensures
        r@ == seq![KPIComponent::Damage, KPIComponent::Priority, KPIComponent::Kill,
            KPIComponent::Nitra, KPIComponent::Minerals],
        forall|c: KPIComponent| is_correction_component(c) <==> r@.contains(c),
{
    let r = vec![KPIComponent::Damage, KPIComponent::Priority, KPIComponent::Kill,
        KPIComponent::Nitra, KPIComponent::Minerals];
    assert forall|c: KPIComponent| is_correction_component(c) <==> r@.contains(c) by {
        if is_correction_component(c) {
            if c == KPIComponent::Damage { assert(r@[0] == c); }
            else if c == KPIComponent::Priority { assert(r@[1] == c); }
            else if c == KPIComponent::Kill { assert(r@[2] == c); }
            else if c == KPIComponent::Nitra { assert(r@[3] == c); }
            else { assert(r@[4] == c); }
        }
    }
    r
}

/// All nine components in ordinal order: the order of a mission breakdown.
pub fn all_components() -> (r: Vec<KPIComponent>)
    ensures
        r@.len() == 9,
        forall|i: int| 0 <= i < 9 ==> component_ordinal(#[trigger] r@[i]) == i,
{
    vec![KPIComponent::Kill, KPIComponent::Damage, KPIComponent::Priority, KPIComponent::Revive,
        KPIComponent::Death, KPIComponent::FriendlyFire, KPIComponent::Nitra, KPIComponent::Supply,
        KPIComponent::Minerals]
}

/// The four standard roles.
pub fn standard_characters() -> (r: Vec<CharacterKPIType>)
    ensures
        r@ == seq![CharacterKPIType::Driller, CharacterKPIType::Engineer,
            CharacterKPIType::Gunner, CharacterKPIType::Scout],
        forall|c: CharacterKPIType| is_standard_role(c) <==> r@.contains(c),
{
    let r = vec![CharacterKPIType::Driller, CharacterKPIType::Engineer,
        CharacterKPIType::Gunner, CharacterKPIType::Scout];
    assert forall|c: CharacterKPIType| is_standard_role(c) <==> r@.contains(c) by {
        if is_standard_role(c) {
            if c == CharacterKPIType::Driller { assert(r@[0] == c); }
            else if c == CharacterKPIType::Engineer { assert(r@[1] == c); }
            else if c == CharacterKPIType::Gunner { assert(r@[2] == c); }
            else { assert(r@[3] == c); }
        }
    }
    r
}

/// Version of the KPI model, as reported to clients.
pub struct KPIVersionInfo {
    pub version: String,
}

/// The current KPI model version.
pub fn kpi_version_info() -> (r: KPIVersionInfo)
    ensures
        r.version@ == crate::KPI_VERSION@,
{
    KPIVersionInfo { version: String::from_str(crate::KPI_VERSION) }
}

} // verus!
