use desktop_agent::error::AgentError;

#[test]
fn error_messages() {
    assert_eq!(AgentError::NotRunning.message(), "IPFS daemon not running");
    assert_eq!(AgentError::Subprocess("Error: bad cid".to_string()).message(), "Error: bad cid");
    let e = AgentError::BlockFetch { cid: "bafy".to_string(), index: 17, reason: "timeout".to_string() };
    assert_eq!(e.message(), "Failed to fetch block 17: timeout");
}

#[test]
fn error_status_codes() {
    assert_eq!(AgentError::Validation("Amount cannot be negative".to_string()).status_code(), 400);
    assert_eq!(AgentError::BlockFetch { cid: String::new(), index: 0, reason: String::new() }.status_code(), 404);
    assert_eq!(AgentError::NotRunning.status_code(), 503);
    assert_eq!(AgentError::Subprocess(String::new()).status_code(), 500);
    assert_eq!(AgentError::Spawn(String::new()).status_code(), 500);
}
