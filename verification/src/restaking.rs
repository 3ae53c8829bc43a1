//! Summaries of restaking operator state.
//!
//! The registry collaborator fetches, per quorum, the raw operator records
//! registered on chain — address, stake, optionally the operator's BLS
//! public keys and socket.  This module holds the computation over those
//! records: folding each quorum's operators into a [`QuorumInfo`] summary
//! with the exact total stake, the operator count, and every operator
//! labelled with its quorum number.  Fetching is the caller's business;
//! the summary is computed and proved here over plain values.

use vstd::prelude::*;

verus! {

/// An operator's BLS public key pair, as registered on chain.
#[derive(Debug)]
pub struct OperatorPubKeys {
    pub g1_pub_key: Vec<u8>,
    pub g2_pub_key: Vec<u8>,
}

/// One operator's raw record, as fetched from the registry for one quorum.
#[derive(Debug)]
pub struct OperatorState {
    /// The operator's 20-byte account address.
    pub address: Vec<u8>,
    /// The operator's stake; the registry stores it as a 96-bit quantity.
    pub stake: u128,
    /// The operator's published BLS keys, when the key service knows them.
    pub pub_keys: Option<OperatorPubKeys>,
    /// The operator's published socket, when one is registered.
    pub socket: Option<String>,
}

/// One operator within a summarized quorum.
#[derive(Debug)]
pub struct OperatorInfo {
    pub address: Vec<u8>,
    pub stake: u128,
    pub pub_keys: Option<OperatorPubKeys>,
    pub socket: Option<String>,
    pub quorum_number: u8,
}

/// The summary of one quorum: its operators and their combined stake.
#[derive(Debug)]
pub struct QuorumInfo {
    pub quorum_number: u8,
    pub operator_count: usize,
    pub total_stake: u128,
    pub operators: Vec<OperatorInfo>,
}

/// The registry's stake type holds 96 bits; no single stake reaches this.
pub const STAKE_LIMIT: u128 = 0x1000000000000000000000000;

/// The combined stake of a list of operator records.
pub open spec fn sum_stakes(ops: Seq<OperatorState>) -> int
    decreases ops.len(),
{
    if ops.len() == 0 {
        0
    } else {
        sum_stakes(ops.drop_last()) + ops.last().stake
    }
}

/// A summarized operator carries its record's fields unchanged plus its
/// quorum number.
pub open spec fn info_matches(op: OperatorState, info: OperatorInfo, quorum: u8) -> bool {
    &&& info.address == op.address
    &&& info.stake == op.stake
    &&& info.pub_keys == op.pub_keys
    &&& info.socket == op.socket
    &&& info.quorum_number == quorum
}

/// Bounded stakes have a bounded sum.
pub proof fn lemma_sum_stakes_bound(ops: Seq<OperatorState>)
    requires
        forall|i: int| 0 <= i < ops.len() ==> (#[trigger] ops[i]).stake < STAKE_LIMIT,
    ensures
        0 <= sum_stakes(ops) <= ops.len() * (STAKE_LIMIT - 1),
    decreases ops.len(),
{
    if ops.len() > 0 {
        lemma_sum_stakes_bound(ops.drop_last());
    }
}

/// Fold raw per-quorum operator records into quorum summaries: quorum `q`
/// of the input becomes the summary numbered `q`, holding every one of its
/// operators unchanged and the exact total of their stakes.
pub fn summarize_quorums(states: Vec<Vec<OperatorState>>) -> (r: Vec<QuorumInfo>)
    requires
        states@.len() <= 255,
        forall|q: int| 0 <= q < states@.len() ==> (#[trigger] states@[q])@.len()
            <= 0x100000000u64,
        forall|q: int, k: int|
            0 <= q < states@.len() && 0 <= k < states@[q]@.len() ==> (
            #[trigger] states@[q]@[k]).stake < STAKE_LIMIT,
    ensures
        r@.len() == states@.len(),
        forall|q: int|
            0 <= q < r@.len() ==> {
                &&& (#[trigger] r@[q]).quorum_number == q as u8
                &&& r@[q].operator_count == states@[q]@.len()
                &&& r@[q].total_stake == sum_stakes(states@[q]@)
                &&& r@[q].operators@.len() == states@[q]@.len()
                &&& forall|k: int|
                    0 <= k < states@[q]@.len() ==> info_matches(
                        states@[q]@[k],
                        #[trigger] r@[q].operators@[k],
                        q as u8,
                    )
            },
{
    let ghost all = states@;
    let mut states = states;
    let mut r: Vec<QuorumInfo> = Vec::new();
    let mut q: usize = 0;
    while states.len() > 0
        invariant
            q + states@.len() == all.len(),
            all.len() <= 255,
            states@ =~= all.skip(q as int),
            forall|qq: int| 0 <= qq < all.len() ==> (#[trigger] all[qq])@.len() <= 0x100000000u64,
            forall|qq: int, k: int|
                0 <= qq < all.len() && 0 <= k < all[qq]@.len() ==> (#[trigger] all[qq]@[k]).stake
                    < STAKE_LIMIT,
            r@.len() == q,
            forall|qq: int|
                0 <= qq < q ==> {
                    &&& (#[trigger] r@[qq]).quorum_number == qq as u8
                    &&& r@[qq].operator_count == all[qq]@.len()
                    &&& r@[qq].total_stake == sum_stakes(all[qq]@)
                    &&& r@[qq].operators@.len() == all[qq]@.len()
                    &&& forall|k: int|
                        0 <= k < all[qq]@.len() ==> info_matches(
                            all[qq]@[k],
                            #[trigger] r@[qq].operators@[k],
                            qq as u8,
                        )
                },
        decreases states@.len(),
    {
        let ops = states.remove(0);
        let ghost this_quorum = all[q as int]@;
        proof {
            assert(ops@ == this_quorum);
            assert(states@ =~= all.skip(q + 1));
        }
        let quorum_number = q as u8;
        let mut ops = ops;
        let mut operators: Vec<OperatorInfo> = Vec::new();
        let mut total_stake: u128 = 0;
        let ghost count = this_quorum.len();
        while ops.len() > 0
            invariant
                operators@.len() + ops@.len() == count,
                count <= 0x100000000u64,
                count == this_quorum.len(),
                quorum_number == q as u8,
                ops@ =~= this_quorum.skip(operators@.len() as int),
                forall|k: int| 0 <= k < count ==> (#[trigger] this_quorum[k]).stake < STAKE_LIMIT,
                total_stake == sum_stakes(this_quorum.take(operators@.len() as int)),
                forall|k: int|
                    0 <= k < operators@.len() ==> info_matches(
                        this_quorum[k],
                        #[trigger] operators@[k],
                        q as u8,
                    ),
            decreases ops@.len(),
        {
            let ghost done = operators@.len() as int;
            let op = ops.remove(0);
            proof {
                assert(op == this_quorum[done]);
                assert(ops@ =~= this_quorum.skip(done + 1));
                assert(this_quorum.take(done + 1).drop_last() =~= this_quorum.take(done));
                assert(this_quorum.take(done + 1).last() == this_quorum[done]);
                lemma_sum_stakes_bound(this_quorum.take(done + 1));
                assert(forall|k: int|
                    0 <= k < done + 1 ==> (#[trigger] this_quorum.take(done + 1)[k]).stake
                        < STAKE_LIMIT);
            }
            total_stake = total_stake + op.stake;
            let info = OperatorInfo {
                address: op.address,
                stake: op.stake,
                pub_keys: op.pub_keys,
                socket: op.socket,
                quorum_number,
            };
            operators.push(info);
        }
        proof {
            assert(this_quorum.take(count as int) =~= this_quorum);
        }
        let operator_count = operators.len();
        r.push(QuorumInfo { quorum_number, operator_count, total_stake, operators });
        q += 1;
    }
    proof {
        assert(all.skip(all.len() as int).len() == 0);
    }
    r
}

} // verus!
