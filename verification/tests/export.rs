use chrono::DateTime;
use tf2_queue_query::catalog::MapDefinition;
use tf2_queue_query::export::{
    build_snapshot, display_name, display_name_with_capitals, game_mode, rounded_percent, snapshot_from,
};

fn map(index: usize, name: &str, tags: &[&str], queue_eligible: bool) -> MapDefinition {
    MapDefinition {
        index,
        name: name.to_owned(),
        tags: tags.iter().map(|t| t.to_string()).collect(),
        queue_eligible,
    }
}

fn millis(text: &str) -> i64 {
    DateTime::parse_from_rfc3339(text).unwrap().timestamp_millis()
}

#[test]
fn builds_pipe_friendly_snapshot() {
    let snapshot = build_snapshot(
        &[map(1, "pl_badwater", &["payload"], true)],
        &[0, 42],
        millis("2026-07-26T12:00:00Z"),
    )
    .unwrap();
    assert_eq!(snapshot.summary.total_map_selections, 42);
    assert_eq!(snapshot.maps[0].display_name, "Badwater");
    assert_eq!(snapshot.modes[0].game_mode_id, "payload");
}

#[test]
fn capture_time_is_rfc3339_with_milliseconds() {
    let snapshot = build_snapshot(&[], &[], millis("2026-07-26T12:00:00.5+02:00")).unwrap();
    assert_eq!(snapshot.captured_at, "2026-07-26T10:00:00.500Z");
    assert!(build_snapshot(&[], &[], i64::MAX).is_none());
}

#[test]
fn formats_real_map_name_variants() {
    let cases = [
        ("koth_viaduct_event", "Viaduct"),
        ("pl_swiftwater_final1", "Swiftwater"),
        ("cp_a_b", "A B"),
        ("mvm_bigrock", "Bigrock"),
        ("cp_", "cp_"),
    ];
    for (input, expected) in cases {
        assert_eq!(display_name(input), expected, "{input}");
    }
}

#[test]
fn display_names_of_other_shapes() {
    assert_eq!(display_name("no_prefix_here"), "NO Prefix Here");
    assert_eq!(display_name("ctf_2fort"), "2fort");
    assert_eq!(display_name("cp_égypte"), "Égypte");
    assert_eq!(display_name(""), "");
}

#[test]
fn infers_game_mode_from_prefix_without_tags() {
    let m = map(1, "ctf_2fort", &[], false);
    assert_eq!(game_mode(&m).id, "capture-the-flag");
}

#[test]
fn game_mode_prefers_tags_over_prefix() {
    let m = map(1, "ctf_2fort", &["koth"], true);
    assert_eq!(game_mode(&m).id, "king-of-the-hill");
    let unknown = map(2, "zz_custom", &[], false);
    assert_eq!(game_mode(&unknown).id, "other");
}

#[test]
fn percentages_round_half_up_in_hundredths() {
    assert_eq!(rounded_percent(1, 3), 3333);
    assert_eq!(rounded_percent(2, 3), 6667);
    assert_eq!(rounded_percent(42, 42), 10000);
    assert_eq!(rounded_percent(5, 0), 0);
    assert_eq!(rounded_percent(u64::MAX, 1), u32::MAX);
}

fn sample() -> tf2_queue_query::export::Snapshot {
    snapshot_from(
        &[
            map(0, "Missing", &[], false),
            map(1, "pl_badwater", &["payload"], true),
            map(2, "pl_upward", &["payload"], true),
            map(3, "koth_harvest", &["koth"], true),
            map(4, "ctf_2fort", &["ctf"], false),
            map(5, "cp_dustbowl", &["attack_defense"], true),
        ],
        &[99, 10, 30, 30, 0, 5],
        "2026-07-26T12:00:00.000Z".to_owned(),
    )
}

#[test]
fn maps_come_busiest_first_then_by_name() {
    let s = sample();
    let names: Vec<&str> = s.maps.iter().map(|m| m.display_name.as_str()).collect();
    assert_eq!(names, ["Harvest", "Upward", "Badwater", "Dustbowl", "2fort"]);
    for pair in s.maps.windows(2) {
        assert!(pair[0].searching >= pair[1].searching);
    }
}

#[test]
fn totals_add_up() {
    let s = sample();
    let maps: u64 = s.maps.iter().map(|m| u64::from(m.searching)).sum();
    let modes: u64 = s.modes.iter().map(|m| m.searching).sum();
    let counted: usize = s.modes.iter().map(|m| m.map_count).sum();
    assert_eq!(s.summary.total_map_selections, 75);
    assert_eq!(maps, 75);
    assert_eq!(modes, 75);
    assert_eq!(counted, s.maps.len());
    assert_eq!(s.summary.maps_reporting, 5);
    assert_eq!(s.summary.eligible_maps, 4);
}

#[test]
fn busiest_map_and_percentages() {
    let s = sample();
    assert_eq!(s.summary.busiest_map.as_deref(), Some("Harvest"));
    assert_eq!(s.summary.busiest_map_searching, 30);
    // Relative to the largest count of the whole catalogue, placeholders included.
    assert_eq!(s.maps[0].relative_hundredths, 3030);
    assert!(s.maps.iter().all(|m| m.relative_hundredths <= 10000));
    assert!(s.modes.iter().all(|m| m.share_hundredths <= 10000 && m.relative_hundredths <= 10000));
    assert_eq!(s.modes[0].game_mode_id, "payload");
    assert_eq!(s.modes[0].relative_hundredths, 10000);
    assert_eq!(s.modes[0].share_hundredths, 5333);
}

#[test]
fn one_row_per_mode() {
    let s = sample();
    let ids: Vec<&str> = s.modes.iter().map(|m| m.game_mode_id.as_str()).collect();
    assert_eq!(ids, ["payload", "king-of-the-hill", "control-point", "capture-the-flag"]);
}

#[test]
fn no_selections_means_no_busiest_map() {
    let s = snapshot_from(&[map(1, "pl_badwater", &["payload"], true)], &[], "t".to_owned());
    assert_eq!(s.summary.busiest_map, None);
    assert_eq!(s.summary.busiest_map_searching, 0);
    assert_eq!(s.maps[0].searching, 0);
    assert_eq!(s.maps[0].relative_hundredths, 0);
}

#[test]
fn display_name_takes_the_given_capitals() {
    assert_eq!(display_name_with_capitals("pl_badwater", &[vec!['B']]), "Badwater");
    assert_eq!(display_name_with_capitals("pl_badwater", &[vec!['X', 'Y']]), "XYadwater");
    assert_eq!(display_name_with_capitals("koth_lakeside_final", &[vec!['L']]), "Lakeside");
    assert_eq!(display_name_with_capitals("cp_a_b", &[vec!['?'], vec!['?']]), "A B");
    assert_eq!(display_name_with_capitals("cp_", &[]), "cp_");
}
