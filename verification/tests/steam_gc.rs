use tf2_queue_query::protobuf::{proto_packet, PROTO_MASK};
use tf2_queue_query::steam_gc::{
    is_tf2_process_name, is_white_space, parse_client_version, retrieve_buffer_size, version_number, retrieve_outcome, send_outcome, GcMessage, GcSession,
    GcTimeout, RetrieveOutcome, SendFailure, VersionError, GC_CLIENT_WELCOME, MATCHMAKER_STATS_REQUEST,
    MATCHMAKER_STATS_RESPONSE, TF_CLIENT_INIT,
};

#[test]
fn greets_until_welcomed() {
    let mut s = GcSession::new(7, true);
    assert!(s.hello_due(0));
    s.hello_sent(0);
    assert!(!s.hello_due(2_499_999_999));
    assert!(s.hello_due(2_500_000_000));
    assert!(s.pending_sends().is_empty());
    assert!(matches!(s.on_message(GC_CLIENT_WELCOME | PROTO_MASK, &[]), GcMessage::Continue));
    assert!(!s.hello_due(10_000_000_000));
    let fresh = GcSession::new(7, false);
    assert!(!fresh.hello_due(0));
    assert!(fresh.hello_due(2_500_000_000));
}

#[test]
fn welcome_leads_to_init_then_request_once() {
    let mut s = GcSession::new(300, true);
    let _ = s.on_message(GC_CLIENT_WELCOME, &[]);
    let sends = s.pending_sends();
    assert_eq!(sends.len(), 2);
    assert_eq!(sends[0].0, TF_CLIENT_INIT);
    assert_eq!(sends[0].1, [0x08, 0xac, 0x02, 0x10, 0x00]);
    assert_eq!(sends[1].0, MATCHMAKER_STATS_REQUEST);
    assert!(sends[1].1.is_empty());
    assert!(s.pending_sends().is_empty());
    assert!(s.welcomed && s.init_sent && s.request_sent);
}

#[test]
fn statistics_response_is_decoded() {
    let mut s = GcSession::new(1, true);
    let packet = proto_packet(MATCHMAKER_STATS_RESPONSE, &[0x0a, 0x02, 0x05, 0x06]);
    match s.on_message(MATCHMAKER_STATS_RESPONSE | PROTO_MASK, &packet) {
        GcMessage::Counts(Ok(counts)) => assert_eq!(counts, [5, 6]),
        _ => panic!("expected counts"),
    }
    match s.on_message(MATCHMAKER_STATS_RESPONSE | PROTO_MASK, &proto_packet(MATCHMAKER_STATS_RESPONSE, &[])) {
        GcMessage::Counts(Err(e)) => assert_eq!(e, tf2_queue_query::protobuf::WireError::NoCounts),
        _ => panic!("expected an error"),
    }
    assert!(matches!(s.on_message(9999, &[1, 2]), GcMessage::Continue));
    assert!(!s.welcomed);
}

#[test]
fn timeouts_say_how_far_the_exchange_came() {
    let mut s = GcSession::new(1, true);
    assert_eq!(s.timeout_failure(), GcTimeout::NoWelcome);
    let _ = s.on_message(GC_CLIENT_WELCOME, &[]);
    assert_eq!(s.timeout_failure(), GcTimeout::NoStatistics);
}

#[test]
fn result_codes_of_the_coordinator() {
    assert_eq!(send_outcome(0), Ok(()));
    assert_eq!(send_outcome(3), Err(SendFailure::NotLoggedOn));
    assert_eq!(send_outcome(8), Err(SendFailure::Failed(8)));
    assert_eq!(retrieve_outcome(0, true), RetrieveOutcome::Received);
    assert_eq!(retrieve_outcome(2, true), RetrieveOutcome::Grow);
    assert_eq!(retrieve_outcome(2, false), RetrieveOutcome::Failed(2));
    assert_eq!(retrieve_outcome(1, true), RetrieveOutcome::Failed(1));
}

#[test]
fn client_version_from_steam_inf() {
    let inf = "ClientVersion=  8622567 \r\nServerVersion=8622567\r\nPatchVersion=9546591\n";
    assert_eq!(parse_client_version(inf), Ok(8_622_567));
    assert_eq!(parse_client_version("PatchVersion=1\nClientVersion=\t42"), Ok(42));
    assert_eq!(parse_client_version("ClientVersion=+7"), Ok(7));
    assert_eq!(parse_client_version("PatchVersion=1\n"), Err(VersionError::Missing));
    assert_eq!(parse_client_version(" ClientVersion=1"), Err(VersionError::Missing));
    assert_eq!(parse_client_version("ClientVersion=abc"), Err(VersionError::NotUnsigned));
    assert_eq!(parse_client_version("ClientVersion=4294967296"), Err(VersionError::NotUnsigned));
    assert_eq!(parse_client_version("ClientVersion="), Err(VersionError::NotUnsigned));
    assert_eq!(parse_client_version("ClientVersion=\u{2003}5\u{3000}"), Ok(5));
}

#[test]
fn tf2_process_name_in_any_case() {
    assert!(is_tf2_process_name("tf_win64.exe"));
    assert!(is_tf2_process_name("TF_Win64.EXE"));
    assert!(!is_tf2_process_name("tf.exe"));
    assert!(!is_tf2_process_name("tf_win64.exe "));
}

#[test]
fn version_numbers_are_unsigned_32_bit() {
    let chars = |s: &str| s.chars().collect::<Vec<char>>();
    assert_eq!(version_number(&chars("8622567")), Ok(8_622_567));
    assert_eq!(version_number(&chars("4294967295")), Ok(u32::MAX));
    assert_eq!(version_number(&chars("4294967296")), Err(VersionError::NotUnsigned));
    assert_eq!(version_number(&chars("-1")), Err(VersionError::NotUnsigned));
    assert_eq!(version_number(&chars(" 1")), Err(VersionError::NotUnsigned));
}

#[test]
fn white_space_is_char_is_whitespace() {
    for code in 0..=0x10FFFFu32 {
        if let Some(c) = char::from_u32(code) {
            assert_eq!(is_white_space(c), c.is_whitespace(), "U+{code:04X}");
        }
    }
    assert_eq!(parse_client_version("ClientVersion= 12 "), Ok(12));
}

#[test]
fn retrieve_buffer_holds_at_least_a_header() {
    assert_eq!(retrieve_buffer_size(0), 8);
    assert_eq!(retrieve_buffer_size(7), 8);
    assert_eq!(retrieve_buffer_size(8), 8);
    assert_eq!(retrieve_buffer_size(4096), 4096);
}
