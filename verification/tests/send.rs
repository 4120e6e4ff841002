use oreos::abi::{AuthPath, NoteWitness};
use oreos::errors::PipelineError;
use oreos::notes::TransactionReceiver;
use oreos::send::{interpret_broadcast, SendAction, SendPhase, SendResult, SendSession};
use oreos::resolve_expiration;

fn spend(index: u64, value: u64) -> TransactionReceiver {
    TransactionReceiver {
        index,
        address: "me".to_string(),
        value,
        assetId: "00".repeat(32),
        memo: "m".to_string(),
    }
}

fn witness_record() -> NoteWitness {
    NoteWitness {
        treeSize: 64,
        rootHash: "00".repeat(32),
        authPath: vec![AuthPath { side: "Left".to_string(), hashOfSibling: "11".repeat(32) }],
    }
}

fn session(expiration: Option<u32>) -> SendSession {
    SendSession::new(
        vec![spend(7, 500)],
        "receiver".to_string(),
        "memo".to_string(),
        "me".to_string(),
        100,
        1,
        expiration,
    )
}

#[test]
fn broadcast_success_yields_the_hash() {
    let r = interpret_broadcast(true, "abc123".to_string(), None);
    assert!(matches!(r, SendResult::Success(h) if h == "abc123"));
}

#[test]
fn broadcast_refusal_yields_the_reason_verbatim() {
    let r = interpret_broadcast(false, String::new(), Some("expired".to_string()));
    assert!(matches!(r, SendResult::Rejected(t) if t == "expired"));
}

#[test]
fn broadcast_refusal_without_reason_yields_the_sentinel() {
    let r = interpret_broadcast(false, String::new(), None);
    assert!(matches!(r, SendResult::Rejected(t) if t == "no reason supplied"));
}

#[test]
fn expiration_defaults_to_height_plus_window() {
    assert_eq!(resolve_expiration(None, 100), 130);
    assert_eq!(resolve_expiration(Some(9), 100), 9);
}

#[test]
fn send_flow_walks_every_station() {
    let mut s = session(None);
    assert!(matches!(s.next_action(), SendAction::FetchWitness(7)));
    s.witness_fetched(&witness_record());
    assert_eq!(s.phase, SendPhase::AwaitHeight);
    assert!(matches!(s.next_action(), SendAction::FetchHeight));
    s.height_fetched(100);
    assert_eq!(s.expiration, Some(130));
    assert!(matches!(s.next_action(), SendAction::Prove));
    s.prove_succeeded(&[0xab, 0xcd]);
    match s.next_action() {
        SendAction::Broadcast(tx) => assert_eq!(tx, "abcd"),
        other => panic!("expected a broadcast action, got {:?}", other),
    }
    s.broadcast_replied(true, "deadbeef".to_string(), None);
    assert_eq!(s.phase, SendPhase::Done);
    assert!(matches!(s.next_action(), SendAction::Finish(SendResult::Success(h)) if h == "deadbeef"));
}

#[test]
fn explicit_expiration_skips_the_height_fetch() {
    let mut s = session(Some(42));
    s.witness_fetched(&witness_record());
    assert_eq!(s.phase, SendPhase::Proving);
    assert_eq!(s.expiration, Some(42));
}

#[test]
fn witnesses_are_fetched_in_spend_order() {
    let mut s = SendSession::new(
        vec![spend(3, 1), spend(9, 2)],
        "receiver".to_string(),
        String::new(),
        "me".to_string(),
        1,
        1,
        Some(5),
    );
    assert!(matches!(s.next_action(), SendAction::FetchWitness(3)));
    s.witness_fetched(&witness_record());
    assert!(matches!(s.next_action(), SendAction::FetchWitness(9)));
    s.witness_fetched(&witness_record());
    assert_eq!(s.phase, SendPhase::Proving);
    assert_eq!(s.witnesses.len(), 2);
}

#[test]
fn malformed_witness_aborts_the_send() {
    let mut s = session(None);
    let mut rec = witness_record();
    rec.authPath[0].hashOfSibling = "nope".to_string();
    s.witness_fetched(&rec);
    assert_eq!(s.phase, SendPhase::Done);
    assert!(matches!(
        s.outcome,
        Some(SendResult::Failed(PipelineError::MalformedInput))
    ));
}

#[test]
fn fetch_failure_aborts_the_send() {
    let mut s = session(None);
    s.fetch_failed();
    assert_eq!(s.phase, SendPhase::Done);
    assert!(matches!(
        s.outcome,
        Some(SendResult::Failed(PipelineError::TransactionUnavailable))
    ));
}

#[test]
fn prove_refusal_is_never_broadcast() {
    let mut s = session(Some(10));
    s.witness_fetched(&witness_record());
    assert_eq!(s.phase, SendPhase::Proving);
    s.prove_failed();
    assert_eq!(s.phase, SendPhase::Done);
    assert!(matches!(
        s.outcome,
        Some(SendResult::Failed(PipelineError::ProofOrSignatureFailure))
    ));
}

#[test]
fn rejected_broadcast_closes_with_the_reason() {
    let mut s = session(Some(10));
    s.witness_fetched(&witness_record());
    s.prove_succeeded(&[0x00]);
    s.broadcast_replied(false, String::new(), Some("expired".to_string()));
    assert!(matches!(
        &s.outcome,
        Some(SendResult::Rejected(t)) if t == "expired"
    ));
}
