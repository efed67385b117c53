use tf2_queue_query::catalog::MapDefinition;
use tf2_queue_query::export::snapshot_from;
use tf2_queue_query::tables::{
    csv_layout, decimal_string, hundredths_string, layout_for_stamp, map_records, mode_records,
    summary_records,
};

fn snapshot() -> tf2_queue_query::export::Snapshot {
    snapshot_from(
        &[
            MapDefinition {
                index: 1,
                name: "pl_badwater".to_owned(),
                tags: vec!["payload".to_owned(), "halloween".to_owned()],
                queue_eligible: true,
            },
            MapDefinition {
                index: 2,
                name: "koth_harvest".to_owned(),
                tags: vec![],
                queue_eligible: false,
            },
        ],
        &[0, 42, 7],
        "2026-07-26T12:00:00.000Z".to_owned(),
    )
}

#[test]
fn numbers_are_written_as_rust_writes_them() {
    assert_eq!(decimal_string(0), "0");
    assert_eq!(decimal_string(1234), "1234");
    assert_eq!(decimal_string(u64::MAX), u64::MAX.to_string());
    assert_eq!(hundredths_string(10000), "100.00");
    assert_eq!(hundredths_string(5), "0.05");
    assert_eq!(hundredths_string(1667), "16.67");
    for h in [0u32, 1, 99, 100, 1234, 9999, 10000, 123_456, u32::MAX] {
        assert_eq!(hundredths_string(h), format!("{:.2}", f64::from(h) / 100.0));
    }
}

#[test]
fn summary_table_has_header_and_one_record() {
    let t = summary_records(&snapshot());
    assert_eq!(
        t,
        [
            vec!["captured_at", "total_map_selections", "maps_reporting", "eligible_maps", "busiest_map", "busiest_map_searching"],
            vec!["2026-07-26T12:00:00.000Z", "49", "2", "1", "Badwater", "42"],
        ]
    );
}

#[test]
fn map_table_has_one_record_per_map() {
    let t = map_records(&snapshot());
    assert_eq!(t.len(), 3);
    assert_eq!(t[0][6], "relative_percent");
    assert_eq!(
        t[1],
        ["2026-07-26T12:00:00.000Z", "1", "pl_badwater", "Badwater", "Payload", "42", "100.00", "true", "true", "payload|halloween"]
    );
    assert_eq!(
        t[2],
        ["2026-07-26T12:00:00.000Z", "2", "koth_harvest", "Harvest", "King of the Hill", "7", "16.67", "false", "false", ""]
    );
}

#[test]
fn mode_table_has_one_record_per_mode() {
    let t = mode_records(&snapshot());
    assert_eq!(t.len(), 3);
    assert_eq!(t[0], ["captured_at", "game_mode_id", "game_mode", "map_count", "searching", "share_percent", "relative_percent"]);
    assert_eq!(t[1], ["2026-07-26T12:00:00.000Z", "payload", "Payload", "1", "42", "85.71", "100.00"]);
    assert_eq!(t[2], ["2026-07-26T12:00:00.000Z", "king-of-the-hill", "King of the Hill", "1", "7", "14.29", "16.67"]);
}

#[test]
fn csv_files_go_in_a_stamped_folder_or_lie_flat() {
    let nested = csv_layout("2026-07-26T12:00:00.000Z", "tf2-queue", false).unwrap();
    assert_eq!(nested.subdirectory.as_deref(), Some("20260726T120000Z"));
    assert_eq!(nested.files, ["tf2-queue-summary.csv", "tf2-queue-maps.csv", "tf2-queue-modes.csv"]);
    let flat = layout_for_stamp("S", "p", true);
    assert_eq!(flat.subdirectory, None);
    assert_eq!(flat.files, ["p-summary-S.csv", "p-maps-S.csv", "p-modes-S.csv"]);
    assert!(csv_layout("not a time", "p", true).is_none());
}

#[test]
fn every_record_fills_every_column() {
    let s = snapshot();
    for table in [summary_records(&s), map_records(&s), mode_records(&s)] {
        let width = table[0].len();
        assert!(table.iter().all(|record| record.len() == width));
    }
    assert_eq!(map_records(&s).len(), s.maps.len() + 1);
    assert_eq!(mode_records(&s).len(), s.modes.len() + 1);
}
