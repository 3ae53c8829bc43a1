//! The signer's window into consensus-wide shared state.
//!
//! For each epoch the supervisor records the public group identity, the
//! validator set, the quorum threshold, and this participant's own share of
//! the distributed secret when it is a member.  The signer actor queries it
//! to decide whether an event's epoch is recognized and whether it may sign
//! at all; it never hardcodes a threshold or a validator set of its own.

use vstd::prelude::*;

verus! {

/// This participant's fragment of the distributed secret: the share index
/// within the epoch's polynomial and the secret scalar bytes.
#[derive(Debug)]
pub struct Share {
    pub index: u32,
    pub secret: Vec<u8>,
}

/// Length in bytes of a share's secret scalar.
pub const SHARE_SECRET_LEN: usize = 32;

impl Share {
    /// A share's secret scalar has the fixed length.
    pub open spec fn wf(self) -> bool {
        self.secret@.len() == SHARE_SECRET_LEN
    }
}

/// Everything the supervisor knows about one epoch.
#[derive(Debug)]
pub struct EpochInfo {
    /// The epoch these records belong to.
    pub epoch: u64,
    /// The public group commitment against which partial signatures for this
    /// epoch are eventually verified.
    pub identity: Vec<u8>,
    /// The public keys of the epoch's validator set.
    pub validators: Vec<Vec<u8>>,
    /// This participant's share for the epoch, or `None` when it is not a
    /// member of the validator set.
    pub share: Option<Share>,
    /// How many partial signatures reconstruct a group signature.
    pub threshold: u64,
}

impl EpochInfo {
    /// The threshold is positive and within the validator set, and the own
    /// share, when present, is well-formed.
    pub open spec fn wf(self) -> bool {
        &&& 1 <= self.threshold <= self.validators@.len()
        &&& match self.share {
            Some(sh) => sh.wf(),
            None => true,
        }
    }
}

/// Look an epoch up in a list of records; the first match wins.
pub open spec fn find_epoch(s: Seq<EpochInfo>, epoch: u64) -> Option<EpochInfo>
    decreases s.len(),
{
    if s.len() == 0 {
        None
    } else if s[0].epoch == epoch {
        Some(s[0])
    } else {
        find_epoch(s.drop_first(), epoch)
    }
}

/// Whether a list of epoch records recognizes an epoch.
pub open spec fn knows_epoch(s: Seq<EpochInfo>, epoch: u64) -> bool {
    find_epoch(s, epoch) is Some
}

/// Whether this participant holds a share for an epoch.
pub open spec fn participates(s: Seq<EpochInfo>, epoch: u64) -> bool {
    match find_epoch(s, epoch) {
        Some(info) => info.share is Some,
        None => false,
    }
}

/// The threshold supervisor: the single source of truth for epoch
/// membership, group identity, quorum size and the local share.
pub struct Supervisor {
    epochs: Vec<EpochInfo>,
}

impl Supervisor {
    /// The recorded epochs, in registration order.
    pub closed spec fn view(&self) -> Seq<EpochInfo> {
        self.epochs@
    }

    /// Epochs are registered at most once and every record is well-formed.
    pub open spec fn wf(&self) -> bool {
        &&& forall|i: int, j: int|
            0 <= i < j < self@.len() ==> (#[trigger] self@[i].epoch) != (#[trigger] self@[j].epoch)
        &&& forall|i: int| 0 <= i < self@.len() ==> (#[trigger] self@[i]).wf()
    }

    /// A supervisor that recognizes no epoch yet.
    pub fn new() -> (r: Self)
        ensures
            r.wf(),
            r@ == Seq::<EpochInfo>::empty(),
    {
        Supervisor { epochs: Vec::new() }
    }

    /// Record one epoch.  Refused (returning `false`, with nothing changed)
    /// when the epoch is already registered.
    pub fn register(&mut self, info: EpochInfo) -> (r: bool)
        requires
            old(self).wf(),
            info.wf(),
        ensures
            final(self).wf(),
            r == !knows_epoch(old(self)@, info.epoch),
            r ==> final(self)@ == old(self)@.push(info),
            !r ==> final(self)@ == old(self)@,
    {
        if self.find_index(info.epoch).is_some() {
            return false;
        }
        proof {
            lemma_find_epoch_index(self@, info.epoch);
        }
        self.epochs.push(info);
        true
    }

    /// Index of the record for `epoch`, when one exists.
    fn find_index(&self, epoch: u64) -> (r: Option<usize>)
        ensures
            match r {
                Some(i) => i < self@.len() && self@[i as int].epoch == epoch && find_epoch(
                    self@,
                    epoch,
                ) == Some(self@[i as int]),
                None => !knows_epoch(self@, epoch),
            },
    {
        let ghost s = self@;
        proof {
            assert(s.skip(0) =~= s);
        }
        let mut i: usize = 0;
        while i < self.epochs.len()
            invariant
                i <= s.len(),
                self@ == s,
                find_epoch(s, epoch) == find_epoch(s.skip(i as int), epoch),
            decreases s.len() - i,
        {
            if self.epochs[i].epoch == epoch {
                proof {
                    assert(s.skip(i as int)[0] == s[i as int]);
                }
                return Some(i);
            }
            proof {
                assert(s.skip(i as int)[0] == s[i as int]);
                assert(s.skip(i as int).drop_first() =~= s.skip(i + 1));
            }
            i += 1;
        }
        proof {
            assert(s.skip(s.len() as int).len() == 0);
        }
        None
    }

    /// The public group identity for an epoch, or `None` when the epoch is
    /// not recognized (the caller reports `UnknownEpoch`).
    pub fn identity(&self, epoch: u64) -> (r: Option<&Vec<u8>>)
        ensures
            match find_epoch(self@, epoch) {
                Some(info) => r matches Some(id) && id@ == info.identity@,
                None => r is None,
            },
    {
        match self.find_index(epoch) {
            Some(i) => Some(&self.epochs[i].identity),
            None => None,
        }
    }

    /// This participant's share for an epoch, or `None` when the epoch is
    /// unknown or the participant is not in its validator set.
    pub fn share(&self, epoch: u64) -> (r: Option<&Share>)
        ensures
            match r {
                Some(sh) => participates(self@, epoch) && *sh
                    == find_epoch(self@, epoch)->Some_0.share->Some_0,
                None => !participates(self@, epoch),
            },
    {
        match self.find_index(epoch) {
            Some(i) => {
                match &self.epochs[i].share {
                    Some(sh) => Some(sh),
                    None => None,
                }
            },
            None => None,
        }
    }

    /// Whether a public key belongs to an epoch's validator set; used to
    /// validate the signer sets of incoming certificates.
    pub fn is_participant(&self, epoch: u64, candidate: &Vec<u8>) -> (r: bool)
        ensures
            r == match find_epoch(self@, epoch) {
                Some(info) => exists|k: int|
                    0 <= k < info.validators@.len() && (#[trigger] info.validators@[k])@
                        == candidate@,
                None => false,
            },
    {
        match self.find_index(epoch) {
            Some(i) => {
                let ghost info = find_epoch(self@, epoch)->Some_0;
                let validators = &self.epochs[i].validators;
                proof {
                    assert(info.validators@ == validators@);
                }
                let mut k: usize = 0;
                while k < validators.len()
                    invariant
                        k <= validators@.len(),
                        find_epoch(self@, epoch) == Some(info),
                        info.validators@ == validators@,
                        forall|j: int|
                            0 <= j < k ==> (#[trigger] info.validators@[j])@ != candidate@,
                    decreases validators@.len() - k,
                {
                    if crate::codec::bytes_eq(&validators[k], candidate) {
                        proof {
                            assert((k as int) < info.validators@.len() && (info.validators@[k as int])@
                                == candidate@);
                            assert(exists|j: int|
                                0 <= j < info.validators@.len() && (#[trigger] info.validators@[j])@
                                    == candidate@);
                        }
                        return true;
                    }
                    k += 1;
                }
                false
            },
            None => false,
        }
    }

    /// The quorum threshold for an epoch, or `None` when it is unknown.
    pub fn threshold(&self, epoch: u64) -> (r: Option<u64>)
        ensures
            r == match find_epoch(self@, epoch) {
                Some(info) => Some(info.threshold),
                None => None::<u64>,
            },
    {
        match self.find_index(epoch) {
            Some(i) => Some(self.epochs[i].threshold),
            None => None,
        }
    }
}

/// A recognized epoch is found exactly when some record carries it.
pub proof fn lemma_find_epoch_index(s: Seq<EpochInfo>, epoch: u64)
    ensures
        knows_epoch(s, epoch) <==> exists|i: int| 0 <= i < s.len() && (#[trigger] s[i]).epoch
            == epoch,
    decreases s.len(),
{
    if s.len() > 0 {
        lemma_find_epoch_index(s.drop_first(), epoch);
        if exists|i: int| 0 <= i < s.drop_first().len() && (#[trigger] s.drop_first()[i]).epoch
            == epoch {
            let i = choose|i: int|
                0 <= i < s.drop_first().len() && (#[trigger] s.drop_first()[i]).epoch == epoch;
            assert(s[i + 1].epoch == epoch);
        }
        if exists|i: int| 0 <= i < s.len() && (#[trigger] s[i]).epoch == epoch {
            let i = choose|i: int| 0 <= i < s.len() && (#[trigger] s[i]).epoch == epoch;
            if s[0].epoch != epoch {
                assert(s.drop_first()[i - 1].epoch == epoch);
            }
        }
    }
}

} // verus!
