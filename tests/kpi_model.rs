use mission_backend_rs::registry::IdRegistry;
use mission_backend_rs::cache::{next_cache_step, CacheAction, CacheEvent, CacheState};
use mission_backend_rs::client::{format_size, global_kpi_state_key, mission_kpi_raw_key, mission_raw_key, CacheType};
use mission_backend_rs::hazard::{assign_deep_dive_hazard, hazard_id_to_halves, DeepDiveSlot};
use mission_backend_rs::kpi::{all_components, correction_items, kpi_version_info, standard_characters, CharacterKPIType, KPIComponent};
use mission_backend_rs::transform::{chronological_order, prev_mission_count, rank_source_table, rank_source_indices, select_segment};

#[test]
fn role_ordinals_round_trip() {
    for v in 0i16..5 {
        let role = CharacterKPIType::try_from_ordinal(v).unwrap();
        assert_eq!(role.ordinal(), v);
    }
    assert_eq!(CharacterKPIType::try_from_ordinal(1), Some(CharacterKPIType::Gunner));
    assert_eq!(CharacterKPIType::try_from_ordinal(2), Some(CharacterKPIType::Engineer));
    assert_eq!(CharacterKPIType::try_from_ordinal(5), None);
    assert_eq!(CharacterKPIType::try_from_ordinal(-1), None);
}

#[test]
fn component_ordinals_round_trip() {
    for v in 0usize..9 {
        let c = KPIComponent::try_from_ordinal(v).unwrap();
        assert_eq!(c.ordinal() as usize, v);
    }
    assert_eq!(KPIComponent::try_from_ordinal(5), Some(KPIComponent::FriendlyFire));
    assert_eq!(KPIComponent::try_from_ordinal(9), None);
}

#[test]
fn role_from_player_uses_scout_special_set() {
    let special = vec!["Karl".to_string()];
    assert_eq!(CharacterKPIType::from_player("DRILLER", "Karl", &special), CharacterKPIType::Driller);
    assert_eq!(CharacterKPIType::from_player("ENGINEER", "Bob", &special), CharacterKPIType::Engineer);
    assert_eq!(CharacterKPIType::from_player("GUNNER", "Bob", &special), CharacterKPIType::Gunner);
    assert_eq!(CharacterKPIType::from_player("SCOUT", "Karl", &special), CharacterKPIType::ScoutSpecial);
    assert_eq!(CharacterKPIType::from_player("SCOUT", "Bob", &special), CharacterKPIType::Scout);
    assert!(CharacterKPIType::is_known_class("GUNNER"));
    assert!(!CharacterKPIType::is_known_class("MINER"));
}

#[test]
fn role_and_component_names() {
    assert_eq!(CharacterKPIType::ScoutSpecial.name(), "scout_special");
    assert_eq!(CharacterKPIType::Driller.name(), "driller");
    assert_eq!(KPIComponent::FriendlyFire.name(), "friendly_fire");
    assert_eq!(KPIComponent::Kill.to_string_zh(), "击杀数指数");
    assert_eq!(KPIComponent::Minerals.to_string_zh(), "采集指数");
}

#[test]
fn max_values_of_components() {
    assert_eq!(KPIComponent::Death.max_value(), 0);
    assert_eq!(KPIComponent::Supply.max_value(), 0);
    assert_eq!(KPIComponent::Kill.max_value(), 1);
    assert_eq!(KPIComponent::FriendlyFire.max_value(), 1);
}

#[test]
fn correction_set_and_standard_roles() {
    assert_eq!(
        correction_items(),
        vec![KPIComponent::Damage, KPIComponent::Priority, KPIComponent::Kill, KPIComponent::Nitra, KPIComponent::Minerals]
    );
    assert!(KPIComponent::Nitra.is_correction_item());
    assert!(!KPIComponent::Revive.is_correction_item());
    assert_eq!(standard_characters().len(), 4);
    assert!(!standard_characters().contains(&CharacterKPIType::ScoutSpecial));
    assert_eq!(kpi_version_info().version, "0.3.0");
}

#[test]
fn hazard_table_maps_deep_dive_ids() {
    assert_eq!(hazard_id_to_halves(100), Some(6));
    assert_eq!(hazard_id_to_halves(101), Some(7));
    assert_eq!(hazard_id_to_halves(102), Some(7));
    assert_eq!(hazard_id_to_halves(103), Some(9));
    assert_eq!(hazard_id_to_halves(104), Some(10));
    assert_eq!(hazard_id_to_halves(105), Some(11));
    for h in 1i16..6 {
        assert_eq!(hazard_id_to_halves(h), Some(2 * h as u8));
    }
    assert_eq!(hazard_id_to_halves(6), Some(12));
    assert_eq!(hazard_id_to_halves(7), None);
    assert_eq!(hazard_id_to_halves(0), None);
    assert_eq!(hazard_id_to_halves(106), None);
}

fn slot(ts: i64, join: i16, hazard: i16) -> DeepDiveSlot {
    DeepDiveSlot { begin_timestamp: ts, first_player_join_time: join, hazard_id: hazard }
}

#[test]
fn deep_dive_stages_get_stage_ids() {
    let mut normal = vec![slot(10, 0, 3), slot(20, 30, 3), slot(30, 60, 3), slot(40, 0, 4)];
    assign_deep_dive_hazard(&mut normal);
    let ids: Vec<i16> = normal.iter().map(|s| s.hazard_id).collect();
    assert_eq!(ids, vec![100, 101, 102, 4]);

    let mut elite = vec![slot(10, 0, 5), slot(20, 30, 5), slot(30, 60, 5)];
    assign_deep_dive_hazard(&mut elite);
    let ids: Vec<i16> = elite.iter().map(|s| s.hazard_id).collect();
    assert_eq!(ids, vec![103, 104, 105]);

    let mut plain = vec![slot(10, 0, 2), slot(20, 0, 5)];
    assign_deep_dive_hazard(&mut plain);
    assert_eq!(plain[0].hazard_id, 2);
    assert_eq!(plain[1].hazard_id, 5);
}

#[test]
fn cache_paths_and_keys() {
    assert_eq!(CacheType::MissionRawCache.url_path(), "/cache/update_mission_raw");
    assert_eq!(CacheType::MissionKPIRawCache.url_path(), "/cache/update_mission_kpi_raw");
    assert_eq!(CacheType::GlobalKPIState.url_path(), "/cache/update_global_kpi_state");
    assert_eq!(CacheType::GlobalKPIState.name(), "GlobalKPIState");
    assert_eq!(mission_raw_key(42), "mission_raw:42");
    assert_eq!(mission_raw_key(0), "mission_raw:0");
    assert_eq!(mission_kpi_raw_key(-7), "mission_kpi_raw:-7");
    assert_eq!(mission_kpi_raw_key(2147483647), "mission_kpi_raw:2147483647");
    assert_eq!(global_kpi_state_key(), "global_kpi_state");
}

#[test]
fn sizes_render_like_two_decimal_units() {
    assert_eq!(format_size(0), "0B");
    assert_eq!(format_size(1023), "1023B");
    assert_eq!(format_size(1024), "1.00KiB");
    assert_eq!(format_size(1536), "1.50KiB");
    assert_eq!(format_size(1048575), "1024.00KiB");
    assert_eq!(format_size(1048576), "1.00MiB");
    assert_eq!(format_size(5 * 1048576 + 524288), "5.50MiB");
    for size in [1029usize, 2000, 123456, 999999, 3_000_000, 77_777_777] {
        let expected = if size < 1048576 {
            format!("{:.2}KiB", size as f64 / 1024.0)
        } else {
            format!("{:.2}MiB", size as f64 / 1048576.0)
        };
        assert_eq!(format_size(size), expected);
    }
}

#[test]
fn rank_segments_of_five_means() {
    let n = 5usize;
    let first = rank_source_indices(n, (n as f64 * 0.0) as usize, (n as f64 * 0.5) as usize);
    assert_eq!(first.min_index, None);
    assert_eq!(first.max_index, Some(2));
    assert_eq!(first.player_count, 2);
    let second = rank_source_indices(n, (n as f64 * 0.5) as usize, (n as f64 * 1.0) as usize);
    assert_eq!(second.min_index, Some(2));
    assert_eq!(second.max_index, None);
    assert_eq!(second.player_count, 3);
}

#[test]
fn segment_choice_takes_last_of_leading_run() {
    assert_eq!(select_segment(&vec![true, true, false, true]), 1);
    assert_eq!(select_segment(&vec![false, true]), 0);
    assert_eq!(select_segment(&vec![true, true, true]), 2);
    assert_eq!(select_segment(&vec![]), 0);
}

#[test]
fn bot_kpi_split_of_series() {
    assert_eq!(prev_mission_count(100), 80);
    assert_eq!(prev_mission_count(5), 5);
    assert_eq!(prev_mission_count(12), 10);
    assert_eq!(prev_mission_count(20), 16);
    assert_eq!(prev_mission_count(0), 0);
}

#[test]
fn breakdown_order_follows_ordinals() {
    let all = all_components();
    assert_eq!(all.len(), 9);
    for (i, c) in all.iter().enumerate() {
        assert_eq!(c.ordinal() as usize, i);
    }
}

#[test]
fn read_through_protocol_steps() {
    assert_eq!(next_cache_step(CacheState::Lookup, CacheEvent::Hit), (CacheState::Decode, CacheAction::DecodeBytes));
    assert_eq!(next_cache_step(CacheState::Decode, CacheEvent::DecodeOk), (CacheState::Ready, CacheAction::ReturnArtifact));
    assert_eq!(next_cache_step(CacheState::Decode, CacheEvent::DecodeFailed), (CacheState::Failed, CacheAction::ReturnError));
    assert_eq!(next_cache_step(CacheState::Lookup, CacheEvent::Miss), (CacheState::Build, CacheAction::BuildArtifact));
    assert_eq!(next_cache_step(CacheState::Build, CacheEvent::BuildOk), (CacheState::Store, CacheAction::WriteArtifact));
    assert_eq!(next_cache_step(CacheState::Build, CacheEvent::BuildFailed), (CacheState::Failed, CacheAction::ReturnError));
    assert_eq!(next_cache_step(CacheState::Store, CacheEvent::StoreOk), (CacheState::Ready, CacheAction::ReturnArtifact));
    assert_eq!(next_cache_step(CacheState::Store, CacheEvent::StoreFailed), (CacheState::Failed, CacheAction::ReturnError));
    assert_eq!(next_cache_step(CacheState::Ready, CacheEvent::Hit), (CacheState::Failed, CacheAction::ReturnError));
}

#[test]
fn missions_sort_by_begin_time_stably() {
    assert_eq!(chronological_order(&vec![30, 10, 20, 10]), vec![1, 3, 2, 0]);
    assert!(chronological_order(&vec![]).is_empty());
    let series: Vec<i64> = (0..100).rev().collect();
    let order = chronological_order(&series);
    assert_eq!(order[0], 99);
    assert_eq!(order[99], 0);
    let k = prev_mission_count(order.len());
    assert_eq!((k, order.len() - k), (80, 20));
}

#[test]
fn ids_are_given_on_first_sight_and_kept() {
    let mut reg = IdRegistry::new();
    assert_eq!(reg.lookup("Alice"), None);
    assert_eq!(reg.id_for("Alice"), Some(1));
    assert_eq!(reg.id_for("Bob"), Some(2));
    assert_eq!(reg.id_for("Alice"), Some(1));
    assert_eq!(reg.lookup("Bob"), Some(2));
    assert_eq!(reg.names(), &vec!["Alice".to_string(), "Bob".to_string()]);
}

#[test]
fn segment_counts_add_up_to_the_sampled_players() {
    let table = rank_source_table(5, &vec![(0, 2), (2, 5)]);
    assert_eq!(table.len(), 2);
    assert_eq!(table[0].player_count + table[1].player_count, 5);
    assert_eq!(table[0].min_index, None);
    assert_eq!(table[1].max_index, None);
}
