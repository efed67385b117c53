use tf2_queue_query::catalog::{is_seasonal, parse_master_maps_list, CatalogError, MapDefinition};

#[test]
fn parses_master_map_catalogue() {
    let maps = parse_master_maps_list(
        r#""items_game" { "master_maps_list" {
                "0" { "name" "Missing" }
                "1" { "name" "pl_badwater" "rolling_match_tags" { "payload" "1" "disabled" "0" } }
            } }"#,
    )
    .unwrap();
    assert_eq!(maps.len(), 2);
    assert_eq!(maps[1].name, "pl_badwater");
    assert_eq!(maps[1].tags, ["payload"]);
    assert!(maps[1].queue_eligible);
}

#[test]
fn isolates_the_master_block_and_preserves_utf8() {
    let maps = parse_master_maps_list(
        r#""ignored" { "large" { "prefix" "value" } }
            "master_maps_list" {
                "1" { "name" "cp_café" "rolling_match_tags" { "control_point" "1" } }
            }
            "ignored_after" { "broken-looking" "{ still quoted }" }"#,
    )
    .unwrap();
    assert_eq!(maps.len(), 1);
    assert_eq!(maps[0].name, "cp_café");
}

#[test]
fn catalogue_comes_out_in_index_order() {
    let maps = parse_master_maps_list(
        r#""master_maps_list" {
            "12" { "name" "koth_harvest" "rolling_match_tags" { "koth" "1" } }
            "3" { "name" "ctf_2fort" "rolling_match_tags" { "ctf" "1" } }
            "7" { "name" "cp_dustbowl" }
        }"#,
    )
    .unwrap();
    let indexes: Vec<usize> = maps.iter().map(|m| m.index).collect();
    assert_eq!(indexes, [3, 7, 12]);
    assert!(!maps[1].queue_eligible);
    assert!(maps[1].tags.is_empty());
}

#[test]
fn disabled_and_false_tags_are_dropped_and_tags_lowercased() {
    let maps = parse_master_maps_list(
        r#""master_maps_list" { "4" { "name" "pl_upward" "rolling_match_tags" {
            "Payload" "1" "halloween" "FALSE" "christmas" "0" "Beta" "yes" } } }"#,
    )
    .unwrap();
    assert_eq!(maps[0].tags, ["beta", "payload"]);
    assert!(maps[0].queue_eligible);
}

#[test]
fn entries_without_index_or_name_are_skipped() {
    let maps = parse_master_maps_list(
        r#""master_maps_list" { "x" { "name" "pl_a" } "2" "scalar" "3" { "other" "1" } "5" { "name" "pl_b" } }"#,
    )
    .unwrap();
    assert_eq!(maps.len(), 1);
    assert_eq!(maps[0].index, 5);
    assert_eq!(maps[0].name, "pl_b");
}

#[test]
fn comments_and_escapes_are_understood() {
    let maps = parse_master_maps_list(
        "\"master_maps_list\" { // a } in a comment\n \"1\" { \"name\" \"pl_\\\"quoted\\\"\" } }",
    )
    .unwrap();
    assert_eq!(maps.len(), 1);
    assert_eq!(maps[0].name, "pl_\"quoted\"");
}

#[test]
fn missing_master_block_is_refused() {
    assert!(matches!(
        parse_master_maps_list(r#""items_game" { }"#),
        Err(CatalogError::NoMasterBlock)
    ));
}

#[test]
fn master_block_without_brace_is_refused() {
    assert!(matches!(
        parse_master_maps_list(r#""master_maps_list" "x""#),
        Err(CatalogError::NoOpeningBrace)
    ));
}

#[test]
fn unterminated_master_block_is_refused() {
    assert!(matches!(
        parse_master_maps_list(r#""master_maps_list" { "1" {"#),
        Err(CatalogError::UnterminatedMasterBlock)
    ));
}

#[test]
fn key_without_value_before_block_end_is_refused() {
    assert!(matches!(
        parse_master_maps_list(r#""master_maps_list" { "a" }"#),
        Err(CatalogError::UnexpectedBlockEnd)
    ));
}

#[test]
fn unterminated_string_is_refused() {
    assert!(matches!(
        parse_master_maps_list(r#""master_maps_list" { "k" "v" x"}" }"#),
        Err(CatalogError::UnterminatedString)
    ));
}

#[test]
fn tokens_ending_inside_a_block_are_refused() {
    assert!(matches!(
        parse_master_maps_list(r#""master_maps_list" { "k" x" //" }"#),
        Err(CatalogError::UnterminatedBlock)
    ));
}

#[test]
fn key_at_end_of_tokens_is_refused() {
    assert!(matches!(
        parse_master_maps_list(r#""master_maps_list" { x" //" }"#),
        Err(CatalogError::MissingValue)
    ));
}

#[test]
fn seasonal_maps_are_recognised_by_tag() {
    let map = |tags: &[&str]| MapDefinition {
        index: 1,
        name: "koth_harvest_event".to_owned(),
        tags: tags.iter().map(|t| t.to_string()).collect(),
        queue_eligible: true,
    };
    assert!(is_seasonal(&map(&["koth", "halloween"])));
    assert!(is_seasonal(&map(&["christmas"])));
    assert!(!is_seasonal(&map(&["koth"])));
    assert!(!is_seasonal(&map(&[])));
}
