use signer_core::encoder::encode_certificate;
use signer_core::encoder::encode_payload;
use signer_core::encoder::TAG_FINALIZE;
use signer_core::encoder::TAG_LOCK;
use signer_core::encoder::TAG_PROPOSE;
use signer_core::encoder::TAG_SEED;
use signer_core::encoder::TAG_VOTE;
use signer_core::ingress::Message;
use signer_core::signer::Actor;
use signer_core::signer::Config;
use signer_core::signer::ConfigError;
use signer_core::signer::Error;
use signer_core::signer::Outcome;
use signer_core::supervisor::EpochInfo;
use signer_core::supervisor::Share;
use signer_core::supervisor::Supervisor;

fn validator_key(i: u8) -> Vec<u8> {
    vec![i; 32]
}

/// Four validators, threshold 3, epoch 0; this actor is validator 2.
fn supervisor_for_epoch_zero() -> Supervisor {
    let mut supervisor = Supervisor::new();
    let registered = supervisor.register(EpochInfo {
        epoch: 0,
        identity: vec![0x50u8; 48],
        validators: vec![
            validator_key(1),
            validator_key(2),
            validator_key(3),
            validator_key(4),
        ],
        share: Some(Share { index: 2, secret: vec![0x33u8; 32] }),
        threshold: 3,
    });
    assert!(registered);
    supervisor
}

fn test_actor() -> Actor {
    let config = Config {
        mailbox_size: 8,
        share: Share { index: 2, secret: vec![0x33u8; 32] },
        namespace: b"test".to_vec(),
        supervisor: supervisor_for_epoch_zero(),
    };
    let (actor, _mailbox) = Actor::new(config).unwrap();
    actor
}

fn block_a() -> Vec<u8> {
    vec![0xaau8; 32]
}

fn block_b() -> Vec<u8> {
    vec![0xbbu8; 32]
}

fn single_sig() -> Vec<u8> {
    vec![0x77u8; 48]
}

fn quorum_sig() -> Vec<u8> {
    vec![0x99u8; 48]
}

fn expect_rejected(outcome: Outcome, expected: Error) {
    match outcome {
        Outcome::Rejected { error } => assert_eq!(error, expected),
        other => panic!("expected rejection {:?}, got {:?}", expected, other),
    }
}

#[test]
fn vote_emits_exact_payload() {
    // Validator 2 receives Vote{epoch 0, view 5, block B}: it owes one
    // partial signature over the canonical domain-separated payload.
    let mut actor = test_actor();
    let outcome = actor.handle(Message::Vote {
        epoch: 0,
        view: 5,
        block: block_a(),
        signature: single_sig(),
    });
    match outcome {
        Outcome::Emitted { epoch, view, tag, signer, payload } => {
            assert_eq!(epoch, 0);
            assert_eq!(view, 5);
            assert_eq!(tag, TAG_VOTE);
            assert_eq!(signer, 2);
            assert_eq!(payload, encode_payload(&b"test".to_vec(), TAG_VOTE, 0, 5, &block_a()));
        },
        other => panic!("expected emission, got {:?}", other),
    }
}

#[test]
fn conflicting_vote_is_equivocation() {
    // A second vote for the same (epoch, view) with a different block is
    // refused as equivocation; no second partial signature is emitted.
    let mut actor = test_actor();
    let first = actor.handle(Message::Vote {
        epoch: 0,
        view: 5,
        block: block_a(),
        signature: single_sig(),
    });
    assert!(matches!(first, Outcome::Emitted { .. }));
    let second = actor.handle(Message::Vote {
        epoch: 0,
        view: 5,
        block: block_b(),
        signature: single_sig(),
    });
    expect_rejected(second, Error::EquivocationAttempt);
}

#[test]
fn repeated_vote_is_duplicate() {
    let mut actor = test_actor();
    let vote = Message::Vote { epoch: 0, view: 5, block: block_a(), signature: single_sig() };
    let first = actor.handle(vote);
    assert!(matches!(first, Outcome::Emitted { .. }));
    let replay = Message::Vote { epoch: 0, view: 5, block: block_a(), signature: single_sig() };
    expect_rejected(actor.handle(replay), Error::Duplicate);
}

#[test]
fn advance_raises_watermark_and_stales_old_votes() {
    // Advance{epoch 0, view 5} arrives before any vote for view 5: the
    // high-water mark reaches 5 and a vote for view 4 is stale.
    let mut actor = test_actor();
    let cert = encode_certificate(0, 5, &block_a(), &quorum_sig());
    let outcome = actor.handle(Message::Advance {
        epoch: 0,
        view: 5,
        block: block_a(),
        notarization: cert,
    });
    match outcome {
        Outcome::Advanced { epoch, view } => {
            assert_eq!(epoch, 0);
            assert_eq!(view, 5);
        },
        other => panic!("expected view change, got {:?}", other),
    }
    let stale_vote = actor.handle(Message::Vote {
        epoch: 0,
        view: 4,
        block: block_a(),
        signature: single_sig(),
    });
    expect_rejected(stale_vote, Error::StaleView);
    // The current view itself is still signable.
    let current_vote = actor.handle(Message::Vote {
        epoch: 0,
        view: 5,
        block: block_a(),
        signature: single_sig(),
    });
    assert!(matches!(current_vote, Outcome::Emitted { .. }));
}

#[test]
fn advance_never_lowers_the_watermark() {
    let mut actor = test_actor();
    let high = encode_certificate(0, 9, &block_a(), &quorum_sig());
    let low = encode_certificate(0, 3, &block_a(), &quorum_sig());
    assert!(matches!(
        actor.handle(Message::Advance { epoch: 0, view: 9, block: block_a(), notarization: high }),
        Outcome::Advanced { .. }
    ));
    assert!(matches!(
        actor.handle(Message::Advance { epoch: 0, view: 3, block: block_a(), notarization: low }),
        Outcome::Advanced { .. }
    ));
    let stale = actor.handle(Message::Vote {
        epoch: 0,
        view: 8,
        block: block_a(),
        signature: single_sig(),
    });
    expect_rejected(stale, Error::StaleView);
}

#[test]
fn seed_replay_is_rejected() {
    // Replaying an already-processed Seed{epoch, view} yields an explicit
    // duplicate rejection, never a divergent second signature.
    let mut actor = test_actor();
    let first = actor.handle(Message::Seed { epoch: 0, view: 5, signature: single_sig() });
    match first {
        Outcome::Emitted { tag, payload, .. } => {
            assert_eq!(tag, TAG_SEED);
            assert_eq!(payload, encode_payload(&b"test".to_vec(), TAG_SEED, 0, 5, &Vec::new()));
        },
        other => panic!("expected emission, got {:?}", other),
    }
    let replay = actor.handle(Message::Seed { epoch: 0, view: 5, signature: single_sig() });
    expect_rejected(replay, Error::Duplicate);
}

#[test]
fn unknown_epoch_is_rejected() {
    let mut actor = test_actor();
    let outcome = actor.handle(Message::Vote {
        epoch: 7,
        view: 1,
        block: block_a(),
        signature: single_sig(),
    });
    expect_rejected(outcome, Error::UnknownEpoch);
}

#[test]
fn non_participant_epoch_is_rejected() {
    let mut supervisor = supervisor_for_epoch_zero();
    assert!(supervisor.register(EpochInfo {
        epoch: 1,
        identity: vec![0x51u8; 48],
        validators: vec![validator_key(5), validator_key(6), validator_key(7)],
        share: None,
        threshold: 2,
    }));
    let config = Config {
        mailbox_size: 8,
        share: Share { index: 2, secret: vec![0x33u8; 32] },
        namespace: b"test".to_vec(),
        supervisor,
    };
    let (mut actor, _mailbox) = Actor::new(config).unwrap();
    let outcome = actor.handle(Message::Seed { epoch: 1, view: 0, signature: single_sig() });
    expect_rejected(outcome, Error::NotAParticipant);
}

#[test]
fn finalize_requires_valid_certificate() {
    let mut actor = test_actor();
    let garbage = vec![0u8; 96];
    let bad = actor.handle(Message::Finalize {
        epoch: 0,
        view: 5,
        block: block_a(),
        notarization: garbage,
        signature: single_sig(),
    });
    expect_rejected(bad, Error::MalformedCertificate);

    let cert = encode_certificate(0, 5, &block_a(), &quorum_sig());
    let good = actor.handle(Message::Finalize {
        epoch: 0,
        view: 5,
        block: block_a(),
        notarization: cert,
        signature: single_sig(),
    });
    match good {
        Outcome::Emitted { tag, view, payload, .. } => {
            assert_eq!(tag, TAG_FINALIZE);
            assert_eq!(view, 5);
            assert_eq!(payload, encode_payload(&b"test".to_vec(), TAG_FINALIZE, 0, 5, &block_a()));
        },
        other => panic!("expected emission, got {:?}", other),
    }
}

#[test]
fn finalize_views_are_monotonic() {
    // Finalize at view 5, then view 3: the second is stale.  View 6 is
    // still signable afterwards.
    let mut actor = test_actor();
    let at = |view: u64| Message::Finalize {
        epoch: 0,
        view,
        block: block_a(),
        notarization: encode_certificate(0, view, &block_a(), &quorum_sig()),
        signature: single_sig(),
    };
    assert!(matches!(actor.handle(at(5)), Outcome::Emitted { .. }));
    expect_rejected(actor.handle(at(3)), Error::StaleView);
    assert!(matches!(actor.handle(at(6)), Outcome::Emitted { .. }));
}

#[test]
fn lock_requires_both_certificates() {
    let mut actor = test_actor();
    let cert = |view: u64| encode_certificate(0, view, &block_a(), &quorum_sig());
    let bad = actor.handle(Message::Lock {
        epoch: 0,
        view: 4,
        block: block_a(),
        notarization: cert(4),
        finalization: vec![1u8; 96],
    });
    expect_rejected(bad, Error::MalformedCertificate);
    let good = actor.handle(Message::Lock {
        epoch: 0,
        view: 4,
        block: block_a(),
        notarization: cert(4),
        finalization: cert(4),
    });
    match good {
        Outcome::Emitted { tag, view, .. } => {
            assert_eq!(tag, TAG_LOCK);
            assert_eq!(view, 4);
        },
        other => panic!("expected emission, got {:?}", other),
    }
}

#[test]
fn propose_signs_its_own_role() {
    let mut actor = test_actor();
    let outcome = actor.handle(Message::Propose {
        epoch: 0,
        view: 2,
        block: block_a(),
        payload: b"block body".to_vec(),
        signature: single_sig(),
    });
    match outcome {
        Outcome::Emitted { tag, payload, .. } => {
            assert_eq!(tag, TAG_PROPOSE);
            assert_eq!(payload, encode_payload(&b"test".to_vec(), TAG_PROPOSE, 0, 2, &block_a()));
        },
        other => panic!("expected emission, got {:?}", other),
    }
    // A proposal for a different block at the same view is equivocation.
    let conflicting = actor.handle(Message::Propose {
        epoch: 0,
        view: 2,
        block: block_b(),
        payload: b"other body".to_vec(),
        signature: single_sig(),
    });
    expect_rejected(conflicting, Error::EquivocationAttempt);
}

#[test]
fn drain_processes_in_mailbox_order() {
    let config = Config {
        mailbox_size: 4,
        share: Share { index: 2, secret: vec![0x33u8; 32] },
        namespace: b"test".to_vec(),
        supervisor: supervisor_for_epoch_zero(),
    };
    let (mut actor, mut mailbox) = Actor::new(config).unwrap();
    mailbox
        .try_send(Message::Vote { epoch: 0, view: 1, block: block_a(), signature: single_sig() })
        .unwrap();
    mailbox
        .try_send(Message::Vote { epoch: 0, view: 1, block: block_b(), signature: single_sig() })
        .unwrap();
    mailbox
        .try_send(Message::Seed { epoch: 0, view: 1, signature: single_sig() })
        .unwrap();
    let outcomes = actor.drain(&mut mailbox);
    assert_eq!(outcomes.len(), 3);
    assert_eq!(mailbox.len(), 0);
    assert!(matches!(outcomes[0], Outcome::Emitted { tag, .. } if tag == TAG_VOTE));
    assert!(matches!(
        outcomes[1],
        Outcome::Rejected { error: Error::EquivocationAttempt }
    ));
    assert!(matches!(outcomes[2], Outcome::Emitted { tag, .. } if tag == TAG_SEED));
}

#[test]
fn zero_capacity_config_is_fatal() {
    let config = Config {
        mailbox_size: 0,
        share: Share { index: 2, secret: vec![0x33u8; 32] },
        namespace: b"test".to_vec(),
        supervisor: supervisor_for_epoch_zero(),
    };
    match Actor::new(config) {
        Err(error) => assert_eq!(error, ConfigError::MailboxSizeZero),
        Ok(_) => panic!("expected construction to be refused"),
    }
}

#[test]
fn bad_share_length_is_fatal() {
    let config = Config {
        mailbox_size: 1,
        share: Share { index: 2, secret: vec![0x33u8; 31] },
        namespace: b"test".to_vec(),
        supervisor: supervisor_for_epoch_zero(),
    };
    match Actor::new(config) {
        Err(error) => assert_eq!(error, ConfigError::BadShareLength),
        Ok(_) => panic!("expected construction to be refused"),
    }
}

#[test]
fn supervisor_answers_epoch_queries() {
    let supervisor = supervisor_for_epoch_zero();
    assert_eq!(supervisor.identity(0), Some(&vec![0x50u8; 48]));
    assert!(supervisor.identity(1).is_none());
    assert_eq!(supervisor.threshold(0), Some(3));
    assert!(supervisor.threshold(9).is_none());
    let share = supervisor.share(0).unwrap();
    assert_eq!(share.index, 2);
    assert!(supervisor.is_participant(0, &validator_key(3)));
    assert!(!supervisor.is_participant(0, &validator_key(9)));
    assert!(!supervisor.is_participant(5, &validator_key(1)));
}

#[test]
fn well_formed_checks_block_hashes() {
    let good = Message::Vote { epoch: 0, view: 1, block: vec![0u8; 32], signature: vec![] };
    assert!(good.well_formed());
    let bad = Message::Vote { epoch: 0, view: 1, block: vec![0u8; 31], signature: vec![] };
    assert!(!bad.well_formed());
    let seed = Message::Seed { epoch: 0, view: 1, signature: vec![] };
    assert!(seed.well_formed());
}

#[test]
fn duplicate_epoch_registration_is_refused() {
    let mut supervisor = supervisor_for_epoch_zero();
    let refused = supervisor.register(EpochInfo {
        epoch: 0,
        identity: vec![0x52u8; 48],
        validators: vec![validator_key(8)],
        share: None,
        threshold: 1,
    });
    assert!(!refused);
    // The original registration still answers.
    assert_eq!(supervisor.identity(0), Some(&vec![0x50u8; 48]));
}
