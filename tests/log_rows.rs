use mission_backend_rs::codec::{compress, decode_log_bytes, decompress_zstd_payload, is_log_file_name, PayloadError};
use mission_backend_rs::mission_log::{
    first_join_time, fix_player_info_split_row, fix_present_time, is_blank_line, merge_runs, mission_result,
    parse_number_field, relative_time, remove_appendix, split_fields, split_trimmed_row, trim_text, transform_record_entity_name, LogDamageKey,
    LogKillInfo, LogParseError,
};

#[test]
fn appendix_is_removed_from_long_names() {
    assert_eq!(remove_appendix("WPN_M1000_C"), "WPN_M1000");
    assert_eq!(remove_appendix("AB_C"), "AB");
    assert_eq!(remove_appendix("A_C"), "A_C");
    assert_eq!(remove_appendix("Unknown"), "Unknown");
}

#[test]
fn enemy_records_are_renamed() {
    assert_eq!(transform_record_entity_name("ENE_Grunt_C"), (true, "ED_Grunt".to_string()));
    assert_eq!(transform_record_entity_name("BP_Turret_C"), (false, "BP_Turret".to_string()));
    assert_eq!(transform_record_entity_name("ENE_C"), (false, "ENE".to_string()));
    assert_eq!(transform_record_entity_name("ENE_AB"), (false, "ENE_AB".to_string()));
}

#[test]
fn short_player_rows_get_join_and_leave() {
    let row14: Vec<&str> = "p|h|1|2|3|600|4|5|6|7.0|8.0|9|1|1".split('|').collect();
    let fixed = fix_player_info_split_row(row14).unwrap();
    assert_eq!(fixed.len(), 16);
    assert_eq!(fixed[5], "0");
    assert_eq!(fixed[6], "0");
    assert_eq!(fixed[7], "600");
    let row16: Vec<&str> = "p|h|1|2|3|10|20|600|4|5|6|7.0|8.0|9|1|1".split('|').collect();
    assert_eq!(fix_player_info_split_row(row16.clone()).unwrap(), row16);
    let row3: Vec<&str> = vec!["a", "b", "c"];
    assert_eq!(fix_player_info_split_row(row3), Err(LogParseError::PlayerFieldCount(3)));
}

#[test]
fn fields_split_at_every_separator() {
    assert_eq!(split_fields("a|b||c", '|'), vec!["a", "b", "", "c"]);
    assert_eq!(split_fields("", '|'), vec![""]);
    assert_eq!(split_fields("|", '|'), vec!["", ""]);
    assert_eq!(split_fields("abc", '|'), vec!["abc"]);
}

#[test]
fn number_fields_ignore_thousands_separators() {
    assert_eq!(parse_number_field("1,234", -32768, 32767), Some(1234));
    assert_eq!(parse_number_field("-12", -32768, 32767), Some(-12));
    assert_eq!(parse_number_field("+7", -32768, 32767), Some(7));
    assert_eq!(parse_number_field("32768", -32768, 32767), None);
    assert_eq!(parse_number_field("-32768", -32768, 32767), Some(-32768));
    assert_eq!(parse_number_field("12a", -32768, 32767), None);
    assert_eq!(parse_number_field("", -32768, 32767), None);
    assert_eq!(parse_number_field("-", -32768, 32767), None);
    assert_eq!(parse_number_field(",", -32768, 32767), None);
    assert_eq!(parse_number_field("1,700,000,000", i64::MIN, i64::MAX), Some(1_700_000_000));
    assert_eq!(parse_number_field("99999999999999999999999", i64::MIN, i64::MAX), None);
    assert_eq!(parse_number_field("-9223372036854775808", i64::MIN, i64::MAX), Some(i64::MIN));
}

#[test]
fn kill_lines_parse() {
    let k = LogKillInfo::parse_line("  1,203|Alice|ENE_Grunt_C \r\n").unwrap();
    assert_eq!(k.mission_time, 1203);
    assert_eq!(k.player_name, "Alice");
    assert_eq!(k.killed_entity, "ED_Grunt");
    assert_eq!(
        LogKillInfo::parse_line("1|Alice").err(),
        Some(LogParseError::FieldCount { expected: 3, found: 2 })
    );
    assert_eq!(LogKillInfo::parse_line("x|Alice|ENE_Grunt_C").err(), Some(LogParseError::BadNumber(0)));
}

#[test]
fn damage_rows_are_normalised() {
    let fields: Vec<&str> = "12|35.5|ENE_Grunt_C|Alice|WPN_Pickaxe_Scout|1|0|0|0".split('|').collect();
    let key = LogDamageKey::from_fields(&fields).unwrap();
    assert_eq!(key.mission_time, 12);
    assert_eq!(key.taker, "ED_Grunt");
    assert_eq!(key.causer, "Alice");
    assert_eq!(key.weapon, "WPN_Pickaxe");
    assert_eq!(key.causer_type, 1);
    assert_eq!(key.taker_type, 2);

    let fields: Vec<&str> = "3|1|Bob|ENE_Spider_C|Unkown|0|1|1|0".split('|').collect();
    let key = LogDamageKey::from_fields(&fields).unwrap();
    assert_eq!(key.weapon, "Unknown");
    assert_eq!(key.causer, "ED_Spider");
    assert_eq!(key.causer_type, 2);
    assert_eq!(key.taker_type, 1);

    let fields: Vec<&str> = "3|1|Bob|BP_Trap_C|BP_Trap_C|0|1|0|0".split('|').collect();
    let key = LogDamageKey::from_fields(&fields).unwrap();
    assert_eq!(key.weapon, "Unknown");
    assert_eq!(key.causer, "BP_Trap");
    assert_eq!(key.causer_type, 0);

    let short: Vec<&str> = vec!["1", "2"];
    assert_eq!(LogDamageKey::from_fields(&short).err(), Some(LogParseError::FieldCount { expected: 9, found: 2 }));
}

fn key(time: i16, taker: &str) -> LogDamageKey {
    LogDamageKey {
        mission_time: time,
        taker: taker.to_string(),
        causer: "Alice".to_string(),
        weapon: "WPN_M1000".to_string(),
        causer_type: 1,
        taker_type: 2,
    }
}

#[test]
fn close_equal_rows_merge() {
    assert!(key(10, "ED_A").combine_eq(&key(14, "ED_A")));
    assert!(!key(10, "ED_A").combine_eq(&key(15, "ED_A")));
    assert!(!key(10, "ED_A").combine_eq(&key(10, "ED_B")));
    let rows = vec![key(0, "ED_A"), key(3, "ED_A"), key(6, "ED_A"), key(6, "ED_B"), key(7, "ED_B")];
    assert_eq!(merge_runs(&rows), vec![(0, 2), (2, 3), (3, 5)]);
    assert!(merge_runs(&vec![]).is_empty());
}

#[test]
fn mission_level_corrections() {
    assert_eq!(mission_result(true, 3), 2);
    assert_eq!(mission_result(false, 0), 1);
    assert_eq!(mission_result(false, 2), 0);
    assert_eq!(fix_present_time(0, 900), 900);
    assert_eq!(fix_present_time(450, 900), 450);
    assert_eq!(first_join_time(&vec![30, 0, 12]), Some(0));
    assert_eq!(first_join_time(&vec![]), None);
    assert_eq!(relative_time(100, 30), Some(70));
    assert_eq!(relative_time(-32768, 1), None);
}

#[test]
fn blank_lines_are_detected() {
    assert!(is_blank_line("  \t\r\n"));
    assert!(is_blank_line(""));
    assert!(!is_blank_line(" x "));
}

#[test]
fn log_bytes_decode_by_byte_order_mark() {
    assert_eq!(decode_log_bytes(b"1|a"), Some("1|a".to_string()));
    assert_eq!(decode_log_bytes(&[0xEF, 0xBB, 0xBF, b'o', b'k']), Some("ok".to_string()));
    assert_eq!(decode_log_bytes(&[0xFF, 0xFE, b'h', 0, b'i', 0]), Some("hi".to_string()));
    assert_eq!(decode_log_bytes(&[0xFE, 0xFF, 0, b'h', 0, b'i']), Some("hi".to_string()));
    assert_eq!(decode_log_bytes(&[0xC3, 0x28]), None);
}

#[test]
fn log_file_names_are_recognised() {
    assert!(is_log_file_name("MissionMonitor_12345.txt"));
    assert!(!is_log_file_name("MissionMonitor_.txt"));
    assert!(!is_log_file_name("notes.txt"));
}

#[test]
fn payload_round_trips_through_zstd() {
    let data: Vec<u8> = (0..4096u32).map(|i| (i % 7) as u8).collect();
    let packed = compress(&data).unwrap();
    assert_ne!(packed, data);
    assert!(packed.len() < data.len());
    assert_eq!(decompress_zstd_payload(&packed), Ok(data));
    assert_eq!(decompress_zstd_payload(b"not zstd"), Err(PayloadError::NotCompressed));
}

#[test]
fn rows_are_trimmed_before_splitting() {
    assert_eq!(split_trimmed_row("  1|a|b \r\n"), vec!["1", "a", "b"]);
    assert_eq!(split_trimmed_row("   "), vec![""]);
}

#[test]
fn trim_matches_std_white_space() {
    for text in ["  a b  ", "\u{3000}x\u{a0}", "\t\r\n", "", "\u{2028}y\u{85}", "z", " \u{200b}z "] {
        assert_eq!(trim_text(text), text.trim());
    }
}
