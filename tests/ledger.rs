use desktop_agent::error::AgentError;
use desktop_agent::ledger::{format_hbd, milestones_crossed, AgentConfig, UpdateConfigRequest};

fn empty_update() -> UpdateConfigRequest {
    UpdateConfigRequest {
        hive_username: None,
        hive_posting_key_hash: None,
        auto_pin: None,
        max_storage_gb: None,
        auto_start: None,
        notify_on_challenge: None,
        notify_on_milestone: None,
        notify_daily_summary: None,
    }
}

#[test]
fn default_config() {
    let c = AgentConfig::default();
    assert_eq!(c.hive_username, None);
    assert!(c.auto_pin);
    assert_eq!(c.max_storage_gb, 50);
    assert!(!c.auto_start);
    assert_eq!(c.total_earned_milli, 0);
    assert_eq!(c.challenge_count, 0);
    assert!(c.notify_on_challenge && c.notify_on_milestone && c.notify_daily_summary);
}

#[test]
fn partial_update_changes_only_given_fields() {
    let mut c = AgentConfig::default();
    let mut u = empty_update();
    u.hive_username = Some("alice".to_string());
    u.max_storage_gb = Some(120);
    u.notify_daily_summary = Some(false);
    c.update_config(&u);
    assert_eq!(c.hive_username, Some("alice".to_string()));
    assert_eq!(c.max_storage_gb, 120);
    assert!(!c.notify_daily_summary);
    assert!(c.auto_pin);
    let mut u = empty_update();
    u.hive_username = Some(String::new());
    c.update_config(&u);
    assert_eq!(c.hive_username, None);
    assert_eq!(c.max_storage_gb, 120);
}

#[test]
fn negative_amount_is_rejected() {
    let mut c = AgentConfig::default();
    c.add_earnings(2_000, None, 100).unwrap();
    let r = c.add_earnings(-1, Some(5), 200);
    assert!(matches!(r, Err(AgentError::Validation(ref m)) if m == "Amount cannot be negative"));
    assert_eq!(c.total_earned_milli, 2_000);
    assert_eq!(c.challenge_count, 1);
    assert_eq!(c.last_challenge_at, Some(100));
}

#[test]
fn addition_updates_the_ledger() {
    let mut c = AgentConfig::default();
    let u = c.add_earnings(250, Some(50), 40).unwrap();
    assert_eq!(u.total_earned_milli, 250);
    assert_eq!(u.challenge_count, 1);
    assert!(u.notify_challenge);
    assert!(u.milestones.is_empty());
    assert_eq!(c.last_challenge_at, Some(50));
    c.add_earnings(0, Some(10), 60).unwrap();
    assert_eq!(c.last_challenge_at, Some(60));
    assert_eq!(c.challenge_count, 2);
    assert_eq!(c.avg_per_challenge_milli(), 125);
}

#[test]
fn overflow_is_rejected() {
    let mut c = AgentConfig::default();
    c.total_earned_milli = u64::MAX - 1;
    assert!(matches!(c.add_earnings(2, None, 0), Err(AgentError::Validation(_))));
    assert_eq!(c.total_earned_milli, u64::MAX - 1);
    assert_eq!(c.challenge_count, 0);
}

#[test]
fn milestone_multiplicity() {
    let mut c = AgentConfig::default();
    c.add_earnings(500, None, 0).unwrap();
    let u = c.add_earnings(10_000, None, 1).unwrap();
    assert_eq!(u.milestones, vec![1_000, 10_000]);
    assert_eq!(milestones_crossed(0, 1_000_000), vec![1_000, 10_000, 50_000, 100_000, 500_000, 1_000_000]);
    assert_eq!(milestones_crossed(1_000, 9_999), Vec::<u64>::new());
    let mut quiet = AgentConfig::default();
    quiet.notify_on_milestone = false;
    assert!(quiet.add_earnings(5_000, None, 0).unwrap().milestones.is_empty());
}

#[test]
fn amounts_are_written_with_three_decimals() {
    assert_eq!(format_hbd(0), "0.000 HBD");
    assert_eq!(format_hbd(5), "0.005 HBD");
    assert_eq!(format_hbd(12_345), "12.345 HBD");
    assert_eq!(format_hbd(7_080), "7.080 HBD");
    assert_eq!(AgentConfig::default().avg_per_challenge_milli(), 0);
}
