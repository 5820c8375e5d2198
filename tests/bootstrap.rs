use desktop_agent::bootstrap::{apply_desktop_settings, desktop_settings, peer_id_in, SettingValue};
use desktop_agent::error::AgentError;
use desktop_agent::supervisor::KuboManager;

#[test]
fn desktop_settings_name_the_four_groups() {
    let s = desktop_settings(5001, 8080);
    assert_eq!(s.len(), 11);
    assert_eq!(s[0].path, vec!["API", "HTTPHeaders", "Access-Control-Allow-Origin"]);
    assert!(matches!(&s[0].value, SettingValue::TextList(v) if v == &vec!["*".to_string()]));
    assert_eq!(s[3].path, vec!["Datastore", "StorageMax"]);
    assert!(matches!(&s[3].value, SettingValue::Text(t) if t == "50GB"));
    assert!(matches!(&s[4].value, SettingValue::Number(90)));
    assert_eq!(s[5].path, vec!["Addresses", "API"]);
    assert!(matches!(&s[5].value, SettingValue::Text(t) if t == "/ip4/127.0.0.1/tcp/5001"));
    assert!(matches!(&s[6].value, SettingValue::Text(t) if t == "/ip4/127.0.0.1/tcp/8080"));
    assert_eq!(s[8].path, vec!["Swarm", "ConnMgr", "HighWater"]);
    assert!(matches!(&s[8].value, SettingValue::Number(100)));
    assert_eq!(s[10].path, vec!["Routing", "Type"]);
}

#[test]
fn bootstrap_reads_the_generated_identity() {
    let generated = r#"{"Identity":{"PeerID":"12D3KooWGenerated"},"API":{"HTTPHeaders":{}}}"#;
    let mut m = KuboManager::new("/repo".to_string());
    let text = m.bootstrap_config(generated).unwrap();
    assert_eq!(m.get_peer_id(), Some("12D3KooWGenerated".to_string()));
    let v: serde_json::Value = serde_json::from_str(&text).unwrap();
    assert_eq!(v["Identity"]["PeerID"], "12D3KooWGenerated");
    assert_eq!(v["Routing"]["Type"], "dhtclient");
    let mut other = KuboManager::new("/repo".to_string());
    assert!(matches!(other.bootstrap_config("nope"), Err(AgentError::ConfigParse(_))));
    assert_eq!(other.get_peer_id(), None);
}

#[test]
fn desktop_config_is_applied_and_other_fields_kept() {
    let document = r#"{"Identity":{"PeerID":"12D3KooWPeer"},"API":{"HTTPHeaders":null},"Swarm":{"ConnMgr":{"Type":"basic"}},"Datastore":{"StorageMax":"10GB","Spec":{"a":1}}}"#;
    let m = KuboManager::new("/repo".to_string());
    let text = m.apply_desktop_config(document).unwrap();
    let v: serde_json::Value = serde_json::from_str(&text).unwrap();
    assert_eq!(v["Identity"]["PeerID"], "12D3KooWPeer");
    assert_eq!(v["API"]["HTTPHeaders"]["Access-Control-Allow-Origin"][0], "*");
    assert_eq!(v["API"]["HTTPHeaders"]["Access-Control-Allow-Methods"][1], "POST");
    assert_eq!(v["API"]["HTTPHeaders"]["Access-Control-Allow-Headers"][3], "Content-Range");
    assert_eq!(v["Datastore"]["StorageMax"], "50GB");
    assert_eq!(v["Datastore"]["StorageGCWatermark"], 90);
    assert_eq!(v["Datastore"]["Spec"]["a"], 1);
    assert_eq!(v["Addresses"]["API"], "/ip4/127.0.0.1/tcp/5001");
    assert_eq!(v["Addresses"]["Gateway"], "/ip4/127.0.0.1/tcp/8080");
    assert_eq!(v["Swarm"]["ConnMgr"]["LowWater"], 50);
    assert_eq!(v["Swarm"]["ConnMgr"]["HighWater"], 100);
    assert_eq!(v["Swarm"]["ConnMgr"]["GracePeriod"], "60s");
    assert_eq!(v["Swarm"]["ConnMgr"]["Type"], "basic");
    assert_eq!(v["Routing"]["Type"], "dhtclient");
}

#[test]
fn desktop_config_rejects_bad_documents() {
    assert!(matches!(apply_desktop_settings("not json", 1, 2), Err(AgentError::ConfigParse(_))));
    assert!(matches!(apply_desktop_settings(r#"{"API":5}"#, 1, 2), Err(AgentError::ConfigParse(_))));
    assert!(matches!(apply_desktop_settings("[1,2]", 1, 2), Err(AgentError::ConfigParse(_))));
    assert!(apply_desktop_settings("null", 1, 2).is_ok());
}

#[test]
fn peer_id_lookup() {
    assert_eq!(peer_id_in(r#"{"Identity":{"PeerID":"abc"}}"#), Ok(Some("abc".to_string())));
    assert_eq!(peer_id_in(r#"{"Identity":{"PeerID":5}}"#), Ok(None));
    assert_eq!(peer_id_in("[]"), Ok(None));
    assert!(matches!(peer_id_in(""), Err(AgentError::ConfigParse(_))));
}
