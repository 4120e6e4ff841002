use oreos::abi::{AuthPath, NoteWitness};
use oreos::notes::{aggregate_decrypted, NoteContents, TrialOutcome};
use oreos::select::select_spends;
use oreos::send::{SendAction, SendPhase, SendResult, SendSession};
use oreos::amount::parse_iron_amount;

// One causal send from aggregation to broadcast: a transaction with two
// encrypted notes, one decryptable with value 500 and owned by the caller,
// the other foreign; a requested send of 0.000001 units.
#[test]
fn causal_send_end_to_end() {
    let outcomes = vec![
        TrialOutcome::AsOwner(NoteContents {
            owner: "me".to_string(),
            sender: "alice".to_string(),
            value: 500,
            assetId: "00".repeat(32),
            memo: String::new(),
        }),
        TrialOutcome::NotOwned,
    ];
    let groups = aggregate_decrypted(&outcomes, 10, 2);
    assert_eq!(groups.len(), 1);

    let amount = parse_iron_amount("0.00000001").unwrap();
    assert_eq!(amount, 1);

    let sel = select_spends(&groups, &"me".to_string(), amount).unwrap();
    assert_eq!(sel.total, 500);

    let mut session = SendSession::new(
        sel.spends,
        "receiver".to_string(),
        "thanks".to_string(),
        "me".to_string(),
        amount,
        1,
        None,
    );
    assert!(matches!(session.next_action(), SendAction::FetchWitness(8)));
    session.witness_fetched(&NoteWitness {
        treeSize: 10,
        rootHash: "22".repeat(32),
        authPath: vec![AuthPath {
            side: "Right".to_string(),
            hashOfSibling: "33".repeat(32),
        }],
    });
    assert_eq!(session.phase, SendPhase::AwaitHeight);
    session.height_fetched(1000);
    assert_eq!(session.expiration, Some(1030));
    session.prove_succeeded(&[0x01, 0x02, 0x03]);
    match session.next_action() {
        SendAction::Broadcast(tx) => assert_eq!(tx, "010203"),
        other => panic!("expected a broadcast action, got {:?}", other),
    }
    session.broadcast_replied(true, "abc123".to_string(), None);
    assert!(matches!(
        session.outcome,
        Some(SendResult::Success(h)) if h == "abc123"
    ));
}
