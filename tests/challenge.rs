use desktop_agent::challenge::{handle_challenge, ChallengeRequest};
use desktop_agent::error::AgentError;
use sha2::Digest;

fn request(indices: Vec<u64>) -> ChallengeRequest {
    ChallengeRequest { cid: "bafyroot".to_string(), salt: "s4lt".to_string(), block_indices: indices }
}

fn expected(parts: &[&[u8]]) -> String {
    let mut h = sha2::Sha256::new();
    for p in parts {
        h.update(p);
    }
    hex::encode(h.finalize())
}

#[test]
fn node_down_is_reported_first() {
    let r = handle_challenge(false, &request(vec![0]), &vec![Ok(b"x".to_vec())]);
    assert_eq!(r, Err(AgentError::NotRunning));
}

#[test]
fn proof_hashes_salt_then_blocks_in_order() {
    let blocks = vec![Ok(b"alpha".to_vec()), Ok(b"beta".to_vec())];
    let p = handle_challenge(true, &request(vec![2, 0]), &blocks).unwrap();
    assert_eq!(p, expected(&[b"s4lt", b"alpha", b"beta"]));
    assert_eq!(p.len(), 64);
    assert!(p.chars().all(|c| c.is_ascii_digit() || ('a'..='f').contains(&c)));
}

#[test]
fn empty_index_list_hashes_the_salt_alone() {
    let p = handle_challenge(true, &request(vec![]), &vec![]).unwrap();
    assert_eq!(p, expected(&[b"s4lt"]));
}

#[test]
fn challenge_is_deterministic_and_order_sensitive() {
    let a = vec![Ok(b"alpha".to_vec()), Ok(b"beta".to_vec())];
    let b = vec![Ok(b"beta".to_vec()), Ok(b"alpha".to_vec())];
    let p1 = handle_challenge(true, &request(vec![0, 1]), &a).unwrap();
    let p2 = handle_challenge(true, &request(vec![0, 1]), &a).unwrap();
    let p3 = handle_challenge(true, &request(vec![1, 0]), &b).unwrap();
    assert_eq!(p1, p2);
    assert_ne!(p1, p3);
}

#[test]
fn a_failed_block_aborts_the_challenge() {
    let blocks = vec![Ok(b"alpha".to_vec()), Err("block not found".to_string())];
    let r = handle_challenge(true, &request(vec![4, 9, 11]), &blocks);
    assert_eq!(
        r,
        Err(AgentError::BlockFetch { cid: "bafyroot".to_string(), index: 9, reason: "block not found".to_string() })
    );
}

#[test]
fn a_missing_block_aborts_the_challenge() {
    let blocks = vec![Ok(b"alpha".to_vec())];
    let r = handle_challenge(true, &request(vec![4, 9]), &blocks);
    assert!(matches!(r, Err(AgentError::BlockFetch { index: 9, .. })));
}

#[test]
fn blocks_are_fetched_in_order_until_a_failure() {
    let req = request(vec![5, 3, 8]);
    let mut fetched: Vec<Result<Vec<u8>, String>> = Vec::new();
    assert_eq!(req.next_block(false, &fetched), None);
    assert_eq!(req.next_block(true, &fetched), Some(5));
    fetched.push(Ok(b"a".to_vec()));
    assert_eq!(req.next_block(true, &fetched), Some(3));
    fetched.push(Err("gone".to_string()));
    assert_eq!(req.next_block(true, &fetched), None);
    let all = vec![Ok(b"a".to_vec()), Ok(b"b".to_vec()), Ok(b"c".to_vec())];
    assert_eq!(req.next_block(true, &all), None);
}
