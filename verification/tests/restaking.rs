use signer_core::restaking::OperatorPubKeys;
use signer_core::restaking::OperatorState;
use signer_core::restaking::summarize_quorums;

fn operator(seed: u8, stake: u128) -> OperatorState {
    OperatorState {
        address: vec![seed; 20],
        stake,
        pub_keys: Some(OperatorPubKeys {
            g1_pub_key: vec![seed; 48],
            g2_pub_key: vec![seed; 96],
        }),
        socket: Some(format!("10.0.0.{}:9000", seed)),
    }
}

#[test]
fn two_quorums_are_summarized_exactly() {
    let states = vec![
        vec![operator(1, 100), operator(2, 250)],
        vec![operator(3, 7)],
    ];
    let summaries = summarize_quorums(states);
    assert_eq!(summaries.len(), 2);

    assert_eq!(summaries[0].quorum_number, 0);
    assert_eq!(summaries[0].operator_count, 2);
    assert_eq!(summaries[0].total_stake, 350);
    assert_eq!(summaries[0].operators.len(), 2);
    assert_eq!(summaries[0].operators[0].address, vec![1u8; 20]);
    assert_eq!(summaries[0].operators[0].stake, 100);
    assert_eq!(summaries[0].operators[0].quorum_number, 0);
    assert_eq!(summaries[0].operators[1].address, vec![2u8; 20]);
    assert_eq!(summaries[0].operators[1].stake, 250);

    assert_eq!(summaries[1].quorum_number, 1);
    assert_eq!(summaries[1].operator_count, 1);
    assert_eq!(summaries[1].total_stake, 7);
    assert_eq!(summaries[1].operators[0].address, vec![3u8; 20]);
    assert_eq!(
        summaries[1].operators[0].socket.as_deref(),
        Some("10.0.0.3:9000")
    );
    let keys = summaries[1].operators[0].pub_keys.as_ref().unwrap();
    assert_eq!(keys.g1_pub_key, vec![3u8; 48]);
    assert_eq!(keys.g2_pub_key, vec![3u8; 96]);
}

#[test]
fn operators_without_keys_are_kept() {
    let states = vec![vec![OperatorState {
        address: vec![9u8; 20],
        stake: 42,
        pub_keys: None,
        socket: None,
    }]];
    let summaries = summarize_quorums(states);
    assert_eq!(summaries.len(), 1);
    assert_eq!(summaries[0].total_stake, 42);
    assert!(summaries[0].operators[0].pub_keys.is_none());
    assert!(summaries[0].operators[0].socket.is_none());
}

#[test]
fn empty_input_yields_no_summaries() {
    let summaries = summarize_quorums(Vec::new());
    assert!(summaries.is_empty());
}

#[test]
fn empty_quorum_has_zero_stake() {
    let summaries = summarize_quorums(vec![Vec::new(), vec![operator(1, 5)]]);
    assert_eq!(summaries.len(), 2);
    assert_eq!(summaries[0].operator_count, 0);
    assert_eq!(summaries[0].total_stake, 0);
    assert_eq!(summaries[1].total_stake, 5);
}
