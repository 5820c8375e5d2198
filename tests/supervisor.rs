use desktop_agent::error::AgentError;
use desktop_agent::supervisor::{
    line_signals_ready, InitStep, KuboManager, NodeCommand, PollStep, RepoStats, StartStep, READINESS_POLL_ATTEMPTS,
    STATS_CACHE_TTL_MS,
};

fn manager() -> KuboManager {
    KuboManager::new("/home/user/.spk-ipfs".to_string())
}

#[test]
fn new_manager_has_standard_ports() {
    let m = manager();
    assert_eq!(m.repo_path(), "/home/user/.spk-ipfs");
    assert_eq!(m.api_port(), 5001);
    assert_eq!(m.gateway_port(), 8080);
    assert_eq!(m.swarm_port(), 4001);
    assert_eq!(m.get_api_url(), "http://127.0.0.1:5001");
    assert_eq!(m.get_peer_id(), None);
}

#[test]
fn initialize_reads_an_existing_repository() {
    let m = manager();
    assert_eq!(m.initialize(true), InitStep::UseExisting);
    assert_eq!(m.initialize(false), InitStep::CreateRepository);
}

#[test]
fn initialize_twice_gives_the_same_identity() {
    let config = r#"{"Identity":{"PeerID":"12D3KooWExample","PrivKey":"x"},"API":{}}"#;
    let mut m = manager();
    assert_eq!(m.initialize(false), InitStep::CreateRepository);
    assert_eq!(m.read_peer_id(config), Ok(()));
    let first = m.get_peer_id();
    assert_eq!(first, Some("12D3KooWExample".to_string()));
    assert_eq!(m.initialize(true), InitStep::UseExisting);
    assert_eq!(m.read_peer_id(config), Ok(()));
    assert_eq!(m.get_peer_id(), first);
}

#[test]
fn read_peer_id_rejects_a_corrupt_document() {
    let mut m = manager();
    assert!(matches!(m.read_peer_id("{not json"), Err(AgentError::ConfigParse(_))));
    assert_eq!(m.get_peer_id(), None);
    assert_eq!(m.read_peer_id(r#"{"Identity":{}}"#), Ok(()));
    assert_eq!(m.get_peer_id(), None);
}

#[test]
fn readiness_gating() {
    let mut m = manager();
    assert!(!m.is_running(true));
    assert!(!m.is_running(false));
    assert_eq!(m.start_daemon(), StartStep::Spawn);
    m.daemon_spawned(4242);
    assert_eq!(m.start_daemon(), StartStep::AlreadyRunning);
    assert!(!m.is_running(false));
    assert!(m.is_running(true));
    assert_eq!(m.stop_daemon(), Some(4242));
    assert_eq!(m.stop_daemon(), None);
    assert!(!m.is_running(true));
}

#[test]
fn readiness_markers() {
    assert!(line_signals_ready("Daemon is ready"));
    assert!(line_signals_ready("RPC API server listening on /ip4/127.0.0.1/tcp/5001"));
    assert!(line_signals_ready("Gateway server listening on /ip4/127.0.0.1/tcp/8080"));
    assert!(!line_signals_ready("Initializing daemon..."));
}

#[test]
fn poll_gives_up_after_the_budget() {
    assert_eq!(KuboManager::poll_readiness(0, false), PollStep::Wait(250));
    assert_eq!(KuboManager::poll_readiness(19, false), PollStep::Wait(250));
    assert_eq!(KuboManager::poll_readiness(READINESS_POLL_ATTEMPTS, false), PollStep::Proceed);
    assert_eq!(KuboManager::poll_readiness(3, true), PollStep::Proceed);
}

#[test]
fn stats_cache_ttl() {
    let mut m = manager();
    let stats = RepoStats { repo_size: 1024, num_pins: 3 };
    assert_eq!(m.get_repo_stats(1_000), None);
    assert_eq!(m.record_repo_stats(Ok(stats), 1_000), Ok(stats));
    assert_eq!(m.get_repo_stats(1_000), Some(stats));
    assert_eq!(m.get_repo_stats(1_000 + STATS_CACHE_TTL_MS - 1), Some(stats));
    assert_eq!(m.get_repo_stats(1_000 + STATS_CACHE_TTL_MS), None);
}

#[test]
fn failed_fetch_leaves_cache_unchanged() {
    let mut m = manager();
    let stats = RepoStats { repo_size: 7, num_pins: 1 };
    m.record_repo_stats(Ok(stats), 0).unwrap();
    let err = AgentError::Subprocess("boom".to_string());
    assert_eq!(m.record_repo_stats(Err(err.clone()), 10), Err(err));
    assert_eq!(m.get_repo_stats(10), Some(stats));
}

#[test]
fn pin_and_unpin_invalidate_the_cache() {
    let mut m = manager();
    let stats = RepoStats { repo_size: 7, num_pins: 1 };
    m.record_repo_stats(Ok(stats), 0).unwrap();
    assert_eq!(m.pin(Err("no such cid".to_string())), Err(AgentError::Subprocess("no such cid".to_string())));
    assert_eq!(m.get_repo_stats(5), Some(stats));
    assert_eq!(m.pin(Ok("pinned bafy".to_string())), Ok(()));
    assert_eq!(m.get_repo_stats(5), None);
    m.record_repo_stats(Ok(stats), 10).unwrap();
    assert_eq!(m.unpin(Ok(String::new())), Ok(()));
    assert_eq!(m.get_repo_stats(11), None);
    m.record_repo_stats(Ok(stats), 20).unwrap();
    m.invalidate_stats_cache();
    assert_eq!(m.get_repo_stats(21), None);
}

#[test]
fn repo_stats_from_command_output() {
    let size = "RepoSize:  123456\nStorageMax: 50000000000\n";
    let pins = "bafyone\n\nbafytwo\r\nbafythree\n";
    let s = KuboManager::fetch_repo_stats(size, pins);
    assert_eq!(s, RepoStats { repo_size: 123456, num_pins: 3 });
    let s = KuboManager::fetch_repo_stats("NumObjects: 4\nRepoSize: x\n", "");
    assert_eq!(s, RepoStats { repo_size: 0, num_pins: 0 });
    assert_eq!(RepoStats::default(), RepoStats { repo_size: 0, num_pins: 0 });
}

#[test]
fn pins_are_listed_in_order() {
    let pins = KuboManager::get_pins(" bafy...xyz \n\nbafyabc\n");
    assert_eq!(pins.len(), 2);
    assert_eq!(pins[0].cid, "bafy...xyz");
    assert_eq!(pins[1].cid, "bafyabc");
    assert_eq!(pins[0].name, "");
    assert_eq!(pins[0].size, 0);
}

#[test]
fn node_command_arguments() {
    assert_eq!(NodeCommand::Init.args(), vec!["init", "--profile=lowpower"]);
    assert_eq!(NodeCommand::Daemon.args(), vec!["daemon", "--enable-gc", "--migrate"]);
    assert_eq!(NodeCommand::RepoStat.args(), vec!["repo", "stat", "--size-only"]);
    assert_eq!(NodeCommand::PinList.args(), vec!["pin", "ls", "-t", "recursive", "-q"]);
    assert_eq!(NodeCommand::PinAdd("bafy".to_string()).args(), vec!["pin", "add", "--progress", "bafy"]);
    assert_eq!(NodeCommand::PinRemove("bafy".to_string()).args(), vec!["pin", "rm", "bafy"]);
}

#[test]
fn end_to_end_example() {
    let mut m = manager();
    assert_eq!(m.initialize(false), InitStep::CreateRepository);
    let fresh = r#"{"Identity":{"PeerID":"12D3KooWNode"},"API":{"HTTPHeaders":{}},"Addresses":{},"Swarm":{}}"#;
    let written = m.apply_desktop_config(fresh).unwrap();
    let doc: serde_json::Value = serde_json::from_str(&written).unwrap();
    assert!(doc["API"]["HTTPHeaders"]["Access-Control-Allow-Origin"].is_array());
    assert_eq!(doc["Datastore"]["StorageMax"], "50GB");
    assert_eq!(doc["Addresses"]["API"], "/ip4/127.0.0.1/tcp/5001");
    assert_eq!(doc["Swarm"]["ConnMgr"]["LowWater"], 50);
    assert_eq!(m.read_peer_id(&written), Ok(()));
    assert_eq!(m.get_peer_id(), Some("12D3KooWNode".to_string()));

    assert_eq!(m.start_daemon(), StartStep::Spawn);
    let mut ready = false;
    let output = ["Initializing daemon...", "RPC API server listening on /ip4/127.0.0.1/tcp/5001"];
    let mut attempt = 0;
    loop {
        if let Some(line) = output.get(attempt as usize) {
            ready = ready || line_signals_ready(line);
        }
        match KuboManager::poll_readiness(attempt, ready) {
            PollStep::Proceed => break,
            PollStep::Wait(_) => attempt += 1,
        }
    }
    assert!(attempt < READINESS_POLL_ATTEMPTS);
    m.daemon_spawned(99);
    assert!(m.is_running(ready));
    assert_eq!(m.get_peer_id(), Some("12D3KooWNode".to_string()));

    assert_eq!(m.pin(Ok("pinned bafy...xyz recursively".to_string())), Ok(()));
    let pins = KuboManager::get_pins("bafy...xyz\n");
    assert!(pins.iter().any(|p| p.cid == "bafy...xyz"));
}

#[test]
fn links_are_picked_by_position() {
    let refs = "bafychild0\n\nbafychild1\n  bafychild2 \n";
    assert_eq!(KuboManager::nth_link(refs, 0), Some("bafychild0".to_string()));
    assert_eq!(KuboManager::nth_link(refs, 2), Some("bafychild2".to_string()));
    assert_eq!(KuboManager::nth_link(refs, 3), None);
    assert_eq!(KuboManager::nth_link("", 0), None);
}
