use cmux_win::event::TerminalEvent;

#[test]
fn event_names() {
    assert_eq!(TerminalEvent::Output { id: "a".to_string(), data: vec![1] }.event_name(), "terminal-output");
    assert_eq!(
        TerminalEvent::StateChanged { id: "a".to_string(), state: serde_json::Value::Null }.event_name(),
        "terminal-state-changed"
    );
    assert_eq!(TerminalEvent::Closed { id: "a".to_string() }.event_name(), "terminal-closed");
    assert_eq!(
        TerminalEvent::Notification { id: "a".to_string(), message: "m".to_string() }.event_name(),
        "terminal-notification"
    );
}
