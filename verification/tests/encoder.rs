use signer_core::codec::bytes_eq;
use signer_core::codec::u64_to_be_bytes;
use signer_core::encoder::check_certificate;
use signer_core::encoder::encode_certificate;
use signer_core::encoder::encode_payload;
use signer_core::encoder::TAG_SEED;
use signer_core::encoder::TAG_VOTE;

#[test]
fn u64_big_endian_bytes() {
    assert_eq!(u64_to_be_bytes(0), vec![0u8; 8]);
    assert_eq!(
        u64_to_be_bytes(0x0102030405060708),
        vec![1u8, 2, 3, 4, 5, 6, 7, 8]
    );
    assert_eq!(u64_to_be_bytes(u64::MAX), vec![0xffu8; 8]);
    assert_eq!(u64_to_be_bytes(5), vec![0u8, 0, 0, 0, 0, 0, 0, 5]);
}

#[test]
fn payload_layout_is_exact() {
    // len(namespace) ++ namespace ++ tag ++ epoch ++ view ++ block.
    let namespace = b"test".to_vec();
    let block = vec![0xabu8; 32];
    let payload = encode_payload(&namespace, TAG_VOTE, 0, 5, &block);

    let mut expected: Vec<u8> = vec![0, 0, 0, 0, 0, 0, 0, 4];
    expected.extend_from_slice(b"test");
    expected.push(TAG_VOTE);
    expected.extend_from_slice(&[0u8; 8]);
    expected.extend_from_slice(&[0, 0, 0, 0, 0, 0, 0, 5]);
    expected.extend_from_slice(&[0xabu8; 32]);
    assert_eq!(payload, expected);
}

#[test]
fn payloads_differ_across_namespaces() {
    let block = vec![1u8; 32];
    let p1 = encode_payload(&b"alpha".to_vec(), TAG_VOTE, 3, 9, &block);
    let p2 = encode_payload(&b"beta".to_vec(), TAG_VOTE, 3, 9, &block);
    assert_ne!(p1, p2);
}

#[test]
fn payloads_differ_across_tags() {
    let block = vec![1u8; 32];
    let ns = b"ns".to_vec();
    let p1 = encode_payload(&ns, TAG_VOTE, 3, 9, &block);
    let p2 = encode_payload(&ns, TAG_SEED, 3, 9, &block);
    assert_ne!(p1, p2);
}

#[test]
fn certificate_round_trip() {
    let block = vec![0x11u8; 32];
    let sig = vec![0x22u8; 48];
    let cert = encode_certificate(7, 42, &block, &sig);
    assert_eq!(cert.len(), 96);
    assert!(check_certificate(&cert, 7, 42, &block));
    // The same bytes are refused for any other (epoch, view, block).
    assert!(!check_certificate(&cert, 8, 42, &block));
    assert!(!check_certificate(&cert, 7, 43, &block));
    assert!(!check_certificate(&cert, 7, 42, &vec![0x12u8; 32]));
}

#[test]
fn truncated_certificate_is_refused() {
    let block = vec![0x11u8; 32];
    let sig = vec![0x22u8; 48];
    let mut cert = encode_certificate(7, 42, &block, &sig);
    cert.pop();
    assert!(!check_certificate(&cert, 7, 42, &block));
    assert!(!check_certificate(&Vec::new(), 7, 42, &block));
}

#[test]
fn bytes_eq_compares_contents() {
    assert!(bytes_eq(&vec![1u8, 2, 3], &vec![1u8, 2, 3]));
    assert!(!bytes_eq(&vec![1u8, 2, 3], &vec![1u8, 2, 4]));
    assert!(!bytes_eq(&vec![1u8, 2, 3], &vec![1u8, 2]));
    assert!(bytes_eq(&Vec::new(), &Vec::new()));
}
