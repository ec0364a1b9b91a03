use pedalboard_bridge::stub::{handle_connection, print_request, print_response, StubMessage, StubRequest, StubStep};

#[test]
fn stub_processes_binary_messages() {
    assert!(matches!(handle_connection(StubMessage::Binary(vec![7])), StubStep::Process(data) if data == vec![7]));
    assert!(matches!(handle_connection(StubMessage::Other), StubStep::Ignore));
    assert!(matches!(handle_connection(StubMessage::Broken), StubStep::Stop));
}

#[test]
fn stub_prints_configuration_traffic() {
    let request = StubRequest::Configuration("Get".to_string());
    assert_eq!(print_request(&request).as_deref(), Some("← Get"));
    assert_eq!(print_response(&request, Some("Got"), &[1]).as_deref(), Some("  → Got"));
    let bytes = [0xF0u8, 0x00, 0x5A, 0xBC, 0xDE, 0x9F];
    assert_eq!(print_response(&request, None, &bytes), Some(format!("  → {bytes:02X?}")));
    assert_eq!(print_response(&request, None, &[]).as_deref(), Some("  → []"));
}

#[test]
fn stub_keeps_quiet_about_other_traffic() {
    assert_eq!(print_request(&StubRequest::Other), None);
    assert_eq!(print_response(&StubRequest::Other, Some("Got"), &[1]), None);
    assert_eq!(print_response(&StubRequest::Other, None, &[1]), None);
}
