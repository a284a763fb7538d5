use mission_backend_rs::distribution::{distribution_groups, below_kpi_player_index, contains_id, distribution_samples, group_keys, player_roles};
use mission_backend_rs::general::{invalid_mission_reason, mark_invalid_missions, count_texts, generate_choice_info, generate_mission_general_info, mission_general_player_info};
use mission_backend_rs::kpi::{CharacterKPIType, KPIComponent};
use mission_backend_rs::mapping::{generate_mapping, keys_are_distinct, Mapping};
use mission_backend_rs::mission_raw::{
    count_index, damage_taker, damage_taker_keys, is_friendly_fire, mission_revive_death_totals, resolve_entity,
    tally_kills, weapon_game_id,
};
use mission_backend_rs::records::{DamageInfo, KillInfo, Mission, MissionInvalid, PlayerInfo};
use std::collections::HashMap;

fn mission(id: i32, mission_time: i16) -> Mission {
    Mission {
        id,
        begin_timestamp: 1000 + id as i64,
        mission_time,
        mission_type_id: 1,
        hazard_id: 3,
        result: 0,
        total_supply_count: 2,
    }
}

fn player(player_id: i16, character_id: i16, present_time: i16) -> PlayerInfo {
    PlayerInfo {
        id: player_id as i32,
        mission_id: 1,
        player_id,
        character_id,
        player_rank: 10,
        character_rank: 5,
        character_promotion: 1,
        present_time,
        kill_num: 0,
        revive_num: 1,
        death_num: 0,
        player_escaped: true,
    }
}

fn kill(player_id: i16, entity_id: i16) -> KillInfo {
    KillInfo { id: 0, mission_id: 1, time: 0, player_id, entity_id }
}

fn damage(causer_id: i16, taker_id: i16, causer_type: i16, taker_type: i16) -> DamageInfo {
    DamageInfo { id: 0, mission_id: 1, time: 0, causer_id, taker_id, weapon_id: 1, causer_type, taker_type }
}

fn entity_table() -> HashMap<i16, String> {
    HashMap::from([
        (1, "ED_Grunt".to_string()),
        (2, "ED_Grunt_Guard".to_string()),
        (3, "ED_Spider_Lobber_Proj".to_string()),
        (4, "ED_Praetorian".to_string()),
    ])
}

fn combine() -> Vec<(String, String)> {
    vec![("ED_Grunt_Guard".to_string(), "ED_Grunt".to_string())]
}

fn blacklist() -> Vec<String> {
    vec!["ED_Spider_Lobber_Proj".to_string()]
}

#[test]
fn entities_are_combined_then_blacklisted() {
    assert_eq!(resolve_entity("ED_Grunt_Guard", &combine(), &blacklist()), Some("ED_Grunt".to_string()));
    assert_eq!(resolve_entity("ED_Praetorian", &combine(), &blacklist()), Some("ED_Praetorian".to_string()));
    assert_eq!(resolve_entity("ED_Spider_Lobber_Proj", &combine(), &blacklist()), None);
    let combined_to_blacklisted = vec![("ED_X".to_string(), "ED_Spider_Lobber_Proj".to_string())];
    assert_eq!(resolve_entity("ED_X", &combined_to_blacklisted, &blacklist()), None);
}

#[test]
fn kills_are_tallied_by_player_and_entity() {
    let kills = vec![kill(7, 1), kill(7, 2), kill(7, 3), kill(8, 4), kill(7, 1), kill(8, 1)];
    let tally = tally_kills(&kills, &entity_table(), &combine(), &blacklist());
    let summary: Vec<(i16, String, i16, i32)> =
        tally.iter().map(|(p, k)| (*p, k.taker_name.clone(), k.taker_id, k.total_amount)).collect();
    assert_eq!(
        summary,
        vec![
            (7, "ED_Grunt".to_string(), 1, 3),
            (8, "ED_Praetorian".to_string(), 4, 1),
            (8, "ED_Grunt".to_string(), 1, 1),
        ]
    );
    assert!(tally_kills(&vec![], &entity_table(), &combine(), &blacklist()).is_empty());
}

#[test]
fn damage_takers_are_keyed_by_name() {
    let names = HashMap::from([(1, "Alice".to_string()), (2, "Bob".to_string())]);
    let entities = entity_table();
    assert_eq!(damage_taker(&damage(1, 2, 1, 1), &names, &entities, &combine(), &blacklist()), Some(("Bob".to_string(), 1)));
    assert_eq!(
        damage_taker(&damage(1, 2, 1, 2), &names, &entities, &combine(), &blacklist()),
        Some(("ED_Grunt".to_string(), 2))
    );
    assert_eq!(damage_taker(&damage(1, 3, 1, 2), &names, &entities, &combine(), &blacklist()), None);
    assert_eq!(damage_taker(&damage(4, 1, 2, 1), &names, &entities, &combine(), &blacklist()), None);
    let keys = damage_taker_keys(
        &vec![damage(1, 1, 1, 0), damage(1, 3, 1, 2), damage(2, 1, 1, 1)],
        &names,
        &entities,
        &combine(),
        &blacklist(),
    );
    assert_eq!(keys, vec![Some(("ED_Grunt".to_string(), 0)), None, Some(("Alice".to_string(), 1))]);
}

#[test]
fn weapons_are_combined() {
    let weapons = HashMap::from([(1, "WPN_Pickaxe_C".to_string()), (2, "WPN_M1000".to_string())]);
    let weapon_combine = vec![("WPN_Pickaxe_C".to_string(), "WPN_Melee".to_string())];
    assert_eq!(weapon_game_id(1, &weapons, &weapon_combine), "WPN_Melee");
    assert_eq!(weapon_game_id(2, &weapons, &weapon_combine), "WPN_M1000");
}

#[test]
fn friendly_fire_needs_another_player() {
    assert!(is_friendly_fire(1, 2, 1));
    assert!(!is_friendly_fire(1, 1, 1));
    assert!(!is_friendly_fire(2, 2, 1));
}

#[test]
fn count_indices_of_a_single_player_mission() {
    let players = vec![player(1, 1, 600)];
    let (revives, deaths) = mission_revive_death_totals(&players);
    assert_eq!((revives, deaths), (1, 0));
    let (n, d) = count_index(KPIComponent::Revive, 1, revives);
    assert_eq!(n as f64 / d as f64, 1.0);
    let (n, d) = count_index(KPIComponent::Death, 0, deaths);
    assert_eq!(n as f64 / d as f64, 0.0);
    assert_eq!(count_index(KPIComponent::Supply, 1, 1), (-1, 1));
    assert_eq!(count_index(KPIComponent::Revive, 0, 0), (1, 1));
    assert_eq!(count_index(KPIComponent::Death, 2, 4), (-2, 4));
}

#[test]
fn presence_threshold_is_one_half() {
    assert!(below_kpi_player_index(299, 600));
    assert!(!below_kpi_player_index(300, 600));
    assert!(!below_kpi_player_index(600, 600));
    assert!(!below_kpi_player_index(0, 0));
    assert!(below_kpi_player_index(-1, 0));
    assert!(contains_id(&vec![3, 5], 5));
    assert!(!contains_id(&vec![3, 5], 4));
}

#[test]
fn only_half_present_players_feed_the_distribution() {
    let missions = vec![mission(1, 600)];
    let players = vec![vec![player(1, 1, 200), player(2, 2, 450)]];
    let samples = distribution_samples(&missions, &players, &vec![]);
    assert_eq!(samples, vec![(0, 1)]);
    let characters = HashMap::from([(1, "DRILLER".to_string()), (2, "SCOUT".to_string())]);
    let names = HashMap::from([(1, "Alice".to_string()), (2, "Bob".to_string())]);
    let roles = player_roles(&players[0], &characters, &names, &vec![]);
    assert_eq!(roles, vec![CharacterKPIType::Driller, CharacterKPIType::Scout]);
}

#[test]
fn invalid_and_empty_missions_give_no_samples() {
    let missions = vec![mission(1, 600), mission(2, 600)];
    let players = vec![vec![player(1, 1, 600)], vec![player(1, 1, 600), player(2, 1, 600)]];
    assert_eq!(distribution_samples(&missions, &players, &vec![1]), vec![(1, 0), (1, 1)]);
    assert_eq!(distribution_samples(&missions, &players, &vec![]), vec![(0, 0), (1, 0), (1, 1)]);
    assert!(distribution_samples(&vec![], &vec![], &vec![]).is_empty());
    let (keys, group_of) = group_keys(&vec![]);
    assert!(keys.is_empty() && group_of.is_empty());
}

#[test]
fn samples_group_by_role_and_player() {
    let keys = vec![
        (CharacterKPIType::Driller, 1),
        (CharacterKPIType::Scout, 2),
        (CharacterKPIType::Driller, 1),
        (CharacterKPIType::Driller, 2),
        (CharacterKPIType::Scout, 2),
    ];
    let (distinct, group_of) = group_keys(&keys);
    assert_eq!(
        distinct,
        vec![(CharacterKPIType::Driller, 1), (CharacterKPIType::Scout, 2), (CharacterKPIType::Driller, 2)]
    );
    assert_eq!(group_of, vec![0, 1, 0, 2, 1]);
}

#[test]
fn mission_overview_reports_invalid_reason() {
    let missions = vec![mission(1, 600), mission(2, 100)];
    let invalid = vec![MissionInvalid { id: 1, mission_id: 2, reason: "too short".to_string() }];
    let info = generate_mission_general_info(&missions, &invalid, 2).unwrap();
    assert_eq!(info.mission_id, 2);
    assert_eq!(info.mission_begin_timestamp, 1002);
    assert!(info.mission_invalid);
    assert_eq!(info.mission_invalid_reason, "too short");
    let valid = generate_mission_general_info(&missions, &invalid, 1).unwrap();
    assert!(!valid.mission_invalid);
    assert_eq!(valid.mission_invalid_reason, "");
    assert!(generate_mission_general_info(&missions, &invalid, 3).is_none());
    let characters = HashMap::from([(1, "DRILLER".to_string())]);
    let p = mission_general_player_info(&player(1, 1, 500), &characters);
    assert_eq!(p.character_game_id, "DRILLER");
    assert_eq!(p.present_time, 500);
}

#[test]
fn published_mapping_keeps_tables() {
    let mut mapping = Mapping::default();
    mapping.entity_blacklist_set.push("ED_A".to_string());
    mapping.weapon_combine.push(("WPN_A".to_string(), "WPN_B".to_string()));
    mapping.scout_special_player_set.push("Karl".to_string());
    assert!(mapping.is_wf());
    let api = generate_mapping(mapping);
    assert_eq!(api.entity_blacklist, vec!["ED_A".to_string()]);
    assert_eq!(api.weapon_combine, vec![("WPN_A".to_string(), "WPN_B".to_string())]);
    assert!(api.character.is_empty());
}

#[test]
fn equal_names_are_counted_in_order_of_first_occurrence() {
    let names: Vec<String> = ["b", "a", "b", "c", "b"].iter().map(|s| s.to_string()).collect();
    assert_eq!(
        count_texts(&names),
        vec![("b".to_string(), 3), ("a".to_string(), 1), ("c".to_string(), 1)]
    );
    assert!(count_texts(&vec![]).is_empty());
}

#[test]
fn character_choices_skip_invalid_missions() {
    let missions = vec![mission(1, 600), mission(2, 600), mission(3, 600)];
    let players = vec![
        vec![player(1, 1, 600), player(2, 2, 600)],
        vec![player(1, 2, 600)],
        vec![player(3, 2, 600), player(4, 3, 600)],
    ];
    let characters = HashMap::from([(1, "DRILLER".to_string()), (2, "SCOUT".to_string()), (3, "GUNNER".to_string())]);
    let names = vec![("DRILLER".to_string(), "Driller".to_string())];
    let info = generate_choice_info(&missions, &players, &vec![2], &characters, names.clone());
    assert_eq!(
        info.character_choice_count,
        vec![("DRILLER".to_string(), 1), ("SCOUT".to_string(), 2), ("GUNNER".to_string(), 1)]
    );
    assert_eq!(info.character_mapping, names);
}

#[test]
fn short_and_solo_missions_are_invalid() {
    assert_eq!(invalid_mission_reason(299, 4), Some("任务时间过短".to_string()));
    assert_eq!(invalid_mission_reason(300, 1), Some("单人游戏".to_string()));
    assert_eq!(invalid_mission_reason(300, 2), None);
    let missions = vec![mission(1, 100), mission(2, 900), mission(3, 900)];
    let players = vec![
        vec![player(1, 1, 100), player(2, 1, 100)],
        vec![player(1, 1, 900)],
        vec![player(1, 1, 900), player(2, 1, 900)],
    ];
    assert_eq!(
        mark_invalid_missions(&missions, &players),
        vec![(1, "任务时间过短".to_string()), (2, "单人游戏".to_string())]
    );
}

#[test]
fn sampled_players_are_grouped_by_role_and_player() {
    let missions = vec![mission(1, 600), mission(2, 600)];
    let players = vec![
        vec![player(1, 1, 600), player(2, 2, 100)],
        vec![player(1, 1, 500), player(2, 2, 600)],
    ];
    let characters = HashMap::from([(1, "DRILLER".to_string()), (2, "SCOUT".to_string())]);
    let names = HashMap::from([(1, "Alice".to_string()), (2, "Bob".to_string())]);
    let (samples, groups, group_of) =
        distribution_groups(&missions, &players, &vec![], &characters, &names, &vec!["Bob".to_string()]);
    assert_eq!(samples, vec![(0, 0), (1, 0), (1, 1)]);
    assert_eq!(groups, vec![(CharacterKPIType::Driller, 1), (CharacterKPIType::ScoutSpecial, 2)]);
    assert_eq!(group_of, vec![0, 0, 1]);
}

#[test]
fn mapping_tables_need_distinct_keys() {
    let mut mapping = Mapping::default();
    assert!(mapping.is_wf());
    mapping.entity_combine.push(("A".to_string(), "B".to_string()));
    mapping.entity_combine.push(("A".to_string(), "C".to_string()));
    assert!(!mapping.is_wf());
    assert!(!keys_are_distinct(&mapping.entity_combine));
}
