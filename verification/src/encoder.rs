//! Canonical byte payloads for partial signatures.
//!
//! Every partial signature the signer requests is over a domain-separated
//! payload: a length-prefixed namespace, a role tag, the epoch and view as
//! big-endian counters, and the block hash (empty for beacon seeds).  The
//! framing is injective, so payloads for different namespaces, roles, epochs,
//! views or blocks never collide; the lemmas at the end of this module state
//! that.  Quorum certificates carried by messages use a fixed structural
//! layout that the signer re-validates before signing.

use vstd::prelude::*;

use crate::codec::bytes_eq;
use crate::codec::lemma_u64_be_injective;
use crate::codec::u64_be;
use crate::codec::u64_to_be_bytes;

verus! {

/// Role tag of a proposal signature.
pub const TAG_PROPOSE: u8 = 0;

/// Role tag of a vote signature.
pub const TAG_VOTE: u8 = 1;

/// Role tag of a finalization signature.
pub const TAG_FINALIZE: u8 = 2;

/// Role tag of a view-change lock signature.
pub const TAG_LOCK: u8 = 3;

/// Role tag of a beacon seed signature.
pub const TAG_SEED: u8 = 4;

/// Length in bytes of a block hash.
pub const BLOCK_HASH_LEN: usize = 32;

/// Length in bytes of an aggregated quorum signature.
pub const QUORUM_SIG_LEN: usize = 48;

/// Length in bytes of a quorum certificate.
pub const CERT_LEN: usize = 96;

/// The canonical domain-separated payload over which a partial signature is
/// produced: `len(namespace) ++ namespace ++ tag ++ epoch ++ view ++ block`,
/// with all counters as eight big-endian bytes.
pub open spec fn payload_spec(ns: Seq<u8>, tag: u8, epoch: u64, view: u64, block: Seq<u8>) -> Seq<
    u8,
> {
    u64_be(ns.len() as u64) + ns + seq![tag] + u64_be(epoch) + u64_be(view) + block
}

/// Append the contents of `src` to `dst`.
pub fn append_bytes(dst: &mut Vec<u8>, src: &Vec<u8>)
    ensures
        final(dst)@ == old(dst)@ + src@,
{
    let mut i: usize = 0;
    while i < src.len()
        invariant
            i <= src@.len(),
            dst@ == old(dst)@ + src@.subrange(0, i as int),
        decreases src@.len() - i,
    {
        let b = src[i];
        dst.push(b);
        proof {
            assert(old(dst)@ + src@.subrange(0, i as int) + seq![src@[i as int]] =~= old(dst)@
                + src@.subrange(0, i + 1));
        }
        i += 1;
    }
    proof {
        assert(src@.subrange(0, src@.len() as int) =~= src@);
    }
}

/// Build the canonical signing payload for one event.
pub fn encode_payload(namespace: &Vec<u8>, tag: u8, epoch: u64, view: u64, block: &Vec<u8>) -> (r:
    Vec<u8>)
    ensures
        r@ == payload_spec(namespace@, tag, epoch, view, block@),
{
    let mut r = u64_to_be_bytes(namespace.len() as u64);
    append_bytes(&mut r, namespace);
    r.push(tag);
    let mut e = u64_to_be_bytes(epoch);
    r.append(&mut e);
    let mut v = u64_to_be_bytes(view);
    r.append(&mut v);
    append_bytes(&mut r, block);
    proof {
        assert(r@ =~= payload_spec(namespace@, tag, epoch, view, block@));
    }
    r
}

/// A quorum certificate is well-formed for `(epoch, view, block)` when it is
/// exactly `CERT_LEN` bytes laid out as: epoch (eight big-endian bytes), view
/// (eight bytes), the 32-byte block hash, and the aggregated signature.
pub open spec fn cert_wf(cert: Seq<u8>, epoch: u64, view: u64, block: Seq<u8>) -> bool {
    &&& cert.len() == CERT_LEN
    &&& block.len() == BLOCK_HASH_LEN
    &&& cert.subrange(0, 8) == u64_be(epoch)
    &&& cert.subrange(8, 16) == u64_be(view)
    &&& cert.subrange(16, 48) == block
}

/// Copy the bytes of `src` between `start` and `end`.
pub fn subvec(src: &Vec<u8>, start: usize, end: usize) -> (r: Vec<u8>)
    requires
        start <= end <= src@.len(),
    ensures
        r@ == src@.subrange(start as int, end as int),
{
    let mut r: Vec<u8> = Vec::new();
    let mut i: usize = start;
    while i < end
        invariant
            start <= i <= end <= src@.len(),
            r@ == src@.subrange(start as int, i as int),
        decreases end - i,
    {
        let b = src[i];
        r.push(b);
        proof {
            assert(src@.subrange(start as int, i as int) + seq![src@[i as int]] =~= src@.subrange(
                start as int,
                i + 1,
            ));
        }
        i += 1;
    }
    r
}

/// Assemble a well-formed quorum certificate for `(epoch, view, block)`.
pub fn encode_certificate(epoch: u64, view: u64, block: &Vec<u8>, quorum_sig: &Vec<u8>) -> (r: Vec<
    u8,
>)
    requires
        block@.len() == BLOCK_HASH_LEN,
        quorum_sig@.len() == QUORUM_SIG_LEN,
    ensures
        cert_wf(r@, epoch, view, block@),
        r@.subrange(48, 96) == quorum_sig@,
{
    let mut r = u64_to_be_bytes(epoch);
    let mut v = u64_to_be_bytes(view);
    r.append(&mut v);
    append_bytes(&mut r, block);
    append_bytes(&mut r, quorum_sig);
    proof {
        assert(r@.subrange(0, 8) =~= u64_be(epoch));
        assert(r@.subrange(8, 16) =~= u64_be(view));
        assert(r@.subrange(16, 48) =~= block@);
        assert(r@.subrange(48, 96) =~= quorum_sig@);
    }
    r
}

/// Structurally validate a quorum certificate against the stated
/// `(epoch, view, block)`.
pub fn check_certificate(cert: &Vec<u8>, epoch: u64, view: u64, block: &Vec<u8>) -> (r: bool)
    ensures
        r == cert_wf(cert@, epoch, view, block@),
{
    if cert.len() != CERT_LEN {
        return false;
    }
    if block.len() != BLOCK_HASH_LEN {
        return false;
    }
    let e = u64_to_be_bytes(epoch);
    let ce = subvec(cert, 0, 8);
    if !bytes_eq(&ce, &e) {
        return false;
    }
    let v = u64_to_be_bytes(view);
    let cv = subvec(cert, 8, 16);
    if !bytes_eq(&cv, &v) {
        return false;
    }
    let cb = subvec(cert, 16, 48);
    if !bytes_eq(&cb, block) {
        return false;
    }
    true
}

/// The canonical payload framing is injective: equal payloads can only come
/// from the same namespace, role tag, epoch, view and block.
pub proof fn lemma_payload_injective(
    ns1: Seq<u8>,
    t1: u8,
    e1: u64,
    v1: u64,
    b1: Seq<u8>,
    ns2: Seq<u8>,
    t2: u8,
    e2: u64,
    v2: u64,
    b2: Seq<u8>,
)
    requires
        payload_spec(ns1, t1, e1, v1, b1) == payload_spec(ns2, t2, e2, v2, b2),
        ns1.len() <= u64::MAX,
        ns2.len() <= u64::MAX,
    ensures
        ns1 == ns2,
        t1 == t2,
        e1 == e2,
        v1 == v2,
        b1 == b2,
{
    let p1 = payload_spec(ns1, t1, e1, v1, b1);
    let p2 = payload_spec(ns2, t2, e2, v2, b2);
    assert(p1.subrange(0, 8) =~= u64_be(ns1.len() as u64));
    assert(p2.subrange(0, 8) =~= u64_be(ns2.len() as u64));
    lemma_u64_be_injective(ns1.len() as u64, ns2.len() as u64);
    assert(ns1.len() == ns2.len());
    let n = ns1.len() as int;
    assert(p1.subrange(8, 8 + n) =~= ns1);
    assert(p2.subrange(8, 8 + n) =~= ns2);
    assert(ns1 == ns2);
    assert(p1[8 + n] == t1);
    assert(p2[8 + n] == t2);
    assert(t1 == t2);
    assert(p1.subrange(9 + n, 17 + n) =~= u64_be(e1));
    assert(p2.subrange(9 + n, 17 + n) =~= u64_be(e2));
    lemma_u64_be_injective(e1, e2);
    assert(p1.subrange(17 + n, 25 + n) =~= u64_be(v1));
    assert(p2.subrange(17 + n, 25 + n) =~= u64_be(v2));
    lemma_u64_be_injective(v1, v2);
    assert(p1.len() == 25 + n + b1.len());
    assert(p2.len() == 25 + n + b2.len());
    assert(p1.subrange(25 + n, p1.len() as int) =~= b1);
    assert(p2.subrange(25 + n, p2.len() as int) =~= b2);
    assert(b1 == b2);
}

/// Domain separation: the same raw event signed under two different
/// namespaces never yields the same payload, so a partial signature from one
/// deployment can never be replayed in another.
pub proof fn lemma_domain_separation(
    ns1: Seq<u8>,
    ns2: Seq<u8>,
    tag: u8,
    epoch: u64,
    view: u64,
    block: Seq<u8>,
)
    requires
        ns1 != ns2,
        ns1.len() <= u64::MAX,
        ns2.len() <= u64::MAX,
    ensures
        payload_spec(ns1, tag, epoch, view, block) != payload_spec(ns2, tag, epoch, view, block),
{
    if payload_spec(ns1, tag, epoch, view, block) == payload_spec(ns2, tag, epoch, view, block) {
        lemma_payload_injective(ns1, tag, epoch, view, block, ns2, tag, epoch, view, block);
    }
}

/// Two different message roles never map to colliding payloads, whatever the
/// rest of the event looks like.
pub proof fn lemma_variant_separation(
    ns: Seq<u8>,
    t1: u8,
    e1: u64,
    v1: u64,
    b1: Seq<u8>,
    t2: u8,
    e2: u64,
    v2: u64,
    b2: Seq<u8>,
)
    requires
        t1 != t2,
        ns.len() <= u64::MAX,
    ensures
        payload_spec(ns, t1, e1, v1, b1) != payload_spec(ns, t2, e2, v2, b2),
{
    if payload_spec(ns, t1, e1, v1, b1) == payload_spec(ns, t2, e2, v2, b2) {
        lemma_payload_injective(ns, t1, e1, v1, b1, ns, t2, e2, v2, b2);
    }
}

} // verus!
