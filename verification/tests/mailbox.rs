use signer_core::ingress::Mailbox;
use signer_core::ingress::Message;
use signer_core::ingress::SendError;

fn seed(view: u64) -> Message {
    Message::Seed { epoch: 0, view, signature: vec![7u8; 48] }
}

#[test]
fn backpressure_at_capacity() {
    // Sending `capacity + 1` messages without draining any: the last send
    // is refused until the consumer takes one message out.
    let mut mailbox = Mailbox::new(2);
    assert!(mailbox.try_send(seed(1)).is_ok());
    assert!(mailbox.try_send(seed(2)).is_ok());
    assert_eq!(mailbox.try_send(seed(3)), Err(SendError::Full));
    assert_eq!(mailbox.len(), 2);
    assert!(mailbox.is_full());

    let drained = mailbox.recv();
    assert!(drained.is_some());
    assert!(mailbox.try_send(seed(3)).is_ok());
    assert_eq!(mailbox.try_send(seed(4)), Err(SendError::Full));
}

#[test]
fn closed_mailbox_refuses_sends() {
    let mut mailbox = Mailbox::new(4);
    assert!(mailbox.try_send(seed(1)).is_ok());
    mailbox.close();
    assert_eq!(mailbox.try_send(seed(2)), Err(SendError::Closed));
    // What was queued before closing can still be drained.
    assert!(mailbox.recv().is_some());
    assert!(mailbox.recv().is_none());
}

#[test]
fn delivery_preserves_send_order() {
    let mut mailbox = Mailbox::new(3);
    mailbox.try_send(seed(10)).unwrap();
    mailbox.try_send(seed(11)).unwrap();
    mailbox.try_send(seed(12)).unwrap();
    for expected in 10..13u64 {
        match mailbox.recv() {
            Some(Message::Seed { view, .. }) => assert_eq!(view, expected),
            other => panic!("unexpected message: {:?}", other),
        }
    }
    assert!(mailbox.recv().is_none());
}

#[test]
fn empty_mailbox_recv_returns_none() {
    let mut mailbox = Mailbox::new(1);
    assert!(mailbox.recv().is_none());
    assert_eq!(mailbox.len(), 0);
}
