//! The signer actor: the state machine that turns admissible consensus
//! events into partial-signature requests.
//!
//! For each event the actor resolves the epoch with the supervisor, rejects
//! events whose epoch is unknown or in which this participant holds no
//! share, re-validates attached quorum certificates, refuses views behind
//! the epoch's high-water mark, and guards against signing the same role
//! twice for one `(epoch, view)` — the equivocation guard.  Admissible
//! events yield the exact domain-separated payload to sign; the caller
//! applies the local share to it and broadcasts the result.
//!
//! The whole transition is specified by the [`step`] function; every law at
//! the end of this module — no double-signing, monotonic view signing,
//! deterministic rejection of replayed seeds — is proved about it, and
//! [`Actor::handle`] is proved to implement it exactly.

use vstd::prelude::*;

use crate::codec::bytes_eq;
use crate::encoder::cert_wf;
use crate::encoder::encode_payload;
use crate::encoder::check_certificate;
use crate::encoder::payload_spec;
use crate::encoder::TAG_FINALIZE;
use crate::encoder::TAG_LOCK;
use crate::encoder::TAG_PROPOSE;
use crate::encoder::TAG_SEED;
use crate::encoder::TAG_VOTE;
use crate::ingress::Mailbox;
use crate::ingress::Message;
use crate::supervisor::find_epoch;
use crate::supervisor::knows_epoch;
use crate::supervisor::participates;
use crate::supervisor::EpochInfo;
use crate::supervisor::Share;
use crate::supervisor::Supervisor;
use crate::supervisor::SHARE_SECRET_LEN;

verus! {

/// Why a message was dropped without a signature.
#[derive(Clone, Copy, Debug, PartialEq, Eq)]
pub enum Error {
    /// The supervisor has no record of the stated epoch.
    UnknownEpoch,
    /// This participant holds no share for the stated epoch.
    NotAParticipant,
    /// The view is behind the epoch's high-water mark.
    StaleView,
    /// A second, conflicting signing request for an already-signed
    /// `(epoch, view)`: a safety-critical signal, not a routine drop.
    EquivocationAttempt,
    /// The identical signing request was already served once.
    Duplicate,
    /// An attached certificate fails structural validation.
    MalformedCertificate,
}

/// What the actor did with one message.
#[derive(Debug)]
pub enum Outcome {
    /// A partial signature is owed: sign `payload` with the share whose
    /// index is `signer` and broadcast it under `(epoch, view, tag)`.
    Emitted { epoch: u64, view: u64, tag: u8, signer: u32, payload: Vec<u8> },
    /// A view-change was recorded; nothing is signed.
    Advanced { epoch: u64, view: u64 },
    /// The message was dropped.
    Rejected { error: Error },
}

/// The mathematical shadow of an [`Outcome`].
pub enum OutcomeModel {
    Emitted { epoch: u64, view: u64, tag: u8, signer: u32, payload: Seq<u8> },
    Advanced { epoch: u64, view: u64 },
    Rejected { error: Error },
}

impl Outcome {
    /// The outcome as spec-level data.
    pub open spec fn model(self) -> OutcomeModel {
        match self {
            Outcome::Emitted { epoch, view, tag, signer, payload } => OutcomeModel::Emitted {
                epoch,
                view,
                tag,
                signer,
                payload: payload@,
            },
            Outcome::Advanced { epoch, view } => OutcomeModel::Advanced { epoch, view },
            Outcome::Rejected { error } => OutcomeModel::Rejected { error },
        }
    }
}

/// One signing the actor has already performed: the role `tag` over `block`
/// at `(epoch, view)`.
pub struct SignRecord {
    pub epoch: u64,
    pub view: u64,
    pub tag: u8,
    pub block: Vec<u8>,
}

/// One epoch's view high-water mark.
pub struct ViewKey {
    pub epoch: u64,
    pub view: u64,
}

/// The signings a record list stands for; a later record for the same
/// `(epoch, view, tag)` supersedes an earlier one.
pub open spec fn signed_map(s: Seq<SignRecord>) -> Map<(u64, u64, u8), Seq<u8>>
    decreases s.len(),
{
    if s.len() == 0 {
        Map::empty()
    } else {
        signed_map(s.drop_last()).insert(
            (s.last().epoch, s.last().view, s.last().tag),
            s.last().block@,
        )
    }
}

/// The per-epoch high-water marks a record list stands for; the latest
/// record for an epoch wins.
pub open spec fn last_map(s: Seq<ViewKey>) -> Map<u64, u64>
    decreases s.len(),
{
    if s.len() == 0 {
        Map::empty()
    } else {
        last_map(s.drop_last()).insert(s.last().epoch, s.last().view)
    }
}

/// The actor's abstract state: which `(epoch, view, role)` triples have
/// been signed over which block, and each epoch's view high-water mark.
#[verifier::ext_equal]
pub struct StateModel {
    pub signed: Map<(u64, u64, u8), Seq<u8>>,
    pub last_signed: Map<u64, u64>,
}

/// The state of a freshly constructed actor: nothing signed yet.
pub open spec fn initial_state() -> StateModel {
    StateModel { signed: Map::empty(), last_signed: Map::empty() }
}

/// Whether a view is behind an epoch's high-water mark.
pub open spec fn stale(s: StateModel, epoch: u64, view: u64) -> bool {
    s.last_signed.contains_key(epoch) && view < s.last_signed[epoch]
}

/// The transition for one signing role: gates in order — unknown epoch, no
/// share, malformed certificate, stale view, duplicate or conflicting
/// request — then the emission, which records the signing and, for the
/// finalize and lock roles, raises the epoch's high-water mark to `view`.
pub open spec fn step_sign(
    sup: Seq<EpochInfo>,
    ns: Seq<u8>,
    s: StateModel,
    epoch: u64,
    view: u64,
    tag: u8,
    block: Seq<u8>,
    certs_ok: bool,
) -> (StateModel, OutcomeModel) {
    if !knows_epoch(sup, epoch) {
        (s, OutcomeModel::Rejected { error: Error::UnknownEpoch })
    } else if !participates(sup, epoch) {
        (s, OutcomeModel::Rejected { error: Error::NotAParticipant })
    } else if !certs_ok {
        (s, OutcomeModel::Rejected { error: Error::MalformedCertificate })
    } else if stale(s, epoch, view) {
        (s, OutcomeModel::Rejected { error: Error::StaleView })
    } else if s.signed.contains_key((epoch, view, tag)) {
        if s.signed[(epoch, view, tag)] == block {
            (s, OutcomeModel::Rejected { error: Error::Duplicate })
        } else {
            (s, OutcomeModel::Rejected { error: Error::EquivocationAttempt })
        }
    } else {
        (
            StateModel {
                signed: s.signed.insert((epoch, view, tag), block),
                last_signed: if tag == TAG_FINALIZE || tag == TAG_LOCK {
                    s.last_signed.insert(epoch, view)
                } else {
                    s.last_signed
                },
            },
            OutcomeModel::Emitted {
                epoch,
                view,
                tag,
                signer: find_epoch(sup, epoch)->Some_0.share->Some_0.index,
                payload: payload_spec(ns, tag, epoch, view, block),
            },
        )
    }
}

/// The transition for a view-change signal: nothing is signed, but a valid
/// certificate raises the epoch's high-water mark to at least `view`.
pub open spec fn step_advance(
    sup: Seq<EpochInfo>,
    s: StateModel,
    epoch: u64,
    view: u64,
    block: Seq<u8>,
    cert: Seq<u8>,
) -> (StateModel, OutcomeModel) {
    if !knows_epoch(sup, epoch) {
        (s, OutcomeModel::Rejected { error: Error::UnknownEpoch })
    } else if !cert_wf(cert, epoch, view, block) {
        (s, OutcomeModel::Rejected { error: Error::MalformedCertificate })
    } else {
        (
            StateModel {
                signed: s.signed,
                last_signed: if s.last_signed.contains_key(epoch) && s.last_signed[epoch] >= view {
                    s.last_signed
                } else {
                    s.last_signed.insert(epoch, view)
                },
            },
            OutcomeModel::Advanced { epoch, view },
        )
    }
}

/// The actor's full transition: what one message does to the state and
/// which outcome it yields.
pub open spec fn step(sup: Seq<EpochInfo>, ns: Seq<u8>, s: StateModel, m: Message) -> (
    StateModel,
    OutcomeModel,
) {
    match m {
        Message::Propose { epoch, view, block, .. } => step_sign(
            sup,
            ns,
            s,
            epoch,
            view,
            TAG_PROPOSE,
            block@,
            true,
        ),
        Message::Vote { epoch, view, block, .. } => step_sign(
            sup,
            ns,
            s,
            epoch,
            view,
            TAG_VOTE,
            block@,
            true,
        ),
        Message::Finalize { epoch, view, block, notarization, .. } => step_sign(
            sup,
            ns,
            s,
            epoch,
            view,
            TAG_FINALIZE,
            block@,
            cert_wf(notarization@, epoch, view, block@),
        ),
        Message::Advance { epoch, view, block, notarization } => step_advance(
            sup,
            s,
            epoch,
            view,
            block@,
            notarization@,
        ),
        Message::Lock { epoch, view, block, notarization, finalization } => step_sign(
            sup,
            ns,
            s,
            epoch,
            view,
            TAG_LOCK,
            block@,
            cert_wf(notarization@, epoch, view, block@) && cert_wf(
                finalization@,
                epoch,
                view,
                block@,
            ),
        ),
        Message::Seed { epoch, view, .. } => step_sign(
            sup,
            ns,
            s,
            epoch,
            view,
            TAG_SEED,
            Seq::empty(),
            true,
        ),
    }
}

/// The actor's transition folded over a whole message sequence: the final
/// state and the outcome of every message, in order.
pub open spec fn run_seq(sup: Seq<EpochInfo>, ns: Seq<u8>, s: StateModel, msgs: Seq<Message>) -> (
    StateModel,
    Seq<OutcomeModel>,
)
    decreases msgs.len(),
{
    if msgs.len() == 0 {
        (s, Seq::empty())
    } else {
        let first = step(sup, ns, s, msgs[0]);
        let rest = run_seq(sup, ns, first.0, msgs.drop_first());
        (rest.0, seq![first.1] + rest.1)
    }
}

/// Immutable construction parameters of a signer actor.
pub struct Config {
    /// Capacity of the actor's mailbox; backpressure starts beyond it.
    pub mailbox_size: usize,
    /// This participant's initial share of the distributed secret.
    pub share: Share,
    /// The deployment's domain-separation tag; mixed into every payload.
    pub namespace: Vec<u8>,
    /// The supervisor answering epoch membership questions.
    pub supervisor: Supervisor,
}

/// Why construction was refused; these are fatal, the actor never starts.
#[derive(Clone, Copy, Debug, PartialEq, Eq)]
pub enum ConfigError {
    /// A mailbox with no capacity could never accept a message.
    MailboxSizeZero,
    /// The share's secret scalar has the wrong length.
    BadShareLength,
}

/// The signer actor.
pub struct Actor {
    supervisor: Supervisor,
    namespace: Vec<u8>,
    share: Share,
    signed: Vec<SignRecord>,
    last_signed: Vec<ViewKey>,
}

/// Look up the block already signed for `(epoch, view, tag)`, if any.
fn lookup_signed(records: &Vec<SignRecord>, epoch: u64, view: u64, tag: u8) -> (r: Option<
    &Vec<u8>,
>)
    ensures
        match r {
            Some(b) => signed_map(records@).contains_key((epoch, view, tag)) && b@ == signed_map(
                records@,
            )[(epoch, view, tag)],
            None => !signed_map(records@).contains_key((epoch, view, tag)),
        },
{
    let ghost full = records@;
    proof {
        assert(full.take(full.len() as int) =~= full);
    }
    let mut i: usize = records.len();
    while i > 0
        invariant
            i <= full.len(),
            records@ == full,
            signed_map(full).contains_key((epoch, view, tag)) == signed_map(
                full.take(i as int),
            ).contains_key((epoch, view, tag)),
            signed_map(full).contains_key((epoch, view, tag)) ==> signed_map(full)[
                (epoch, view, tag)
            ] == signed_map(full.take(i as int))[(epoch, view, tag)],
        decreases i,
    {
        let j: usize = i - 1;
        proof {
            assert(full.take(i as int).drop_last() =~= full.take(j as int));
            assert(full.take(i as int).last() == full[j as int]);
            assert(signed_map(full.take(i as int)) == signed_map(full.take(j as int)).insert(
                (full[j as int].epoch, full[j as int].view, full[j as int].tag),
                full[j as int].block@,
            ));
        }
        if records[j].epoch == epoch && records[j].view == view && records[j].tag == tag {
            return Some(&records[j].block);
        }
        i = j;
    }
    proof {
        assert(full.take(0).len() == 0);
    }
    None
}

/// Look up an epoch's view high-water mark, if one was recorded.
fn lookup_last(records: &Vec<ViewKey>, epoch: u64) -> (r: Option<u64>)
    ensures
        match r {
            Some(v) => last_map(records@).contains_key(epoch) && v == last_map(records@)[epoch],
            None => !last_map(records@).contains_key(epoch),
        },
{
    let ghost full = records@;
    proof {
        assert(full.take(full.len() as int) =~= full);
    }
    let mut i: usize = records.len();
    while i > 0
        invariant
            i <= full.len(),
            records@ == full,
            last_map(full).contains_key(epoch) == last_map(full.take(i as int)).contains_key(
                epoch,
            ),
            last_map(full).contains_key(epoch) ==> last_map(full)[epoch] == last_map(
                full.take(i as int),
            )[epoch],
        decreases i,
    {
        let j: usize = i - 1;
        proof {
            assert(full.take(i as int).drop_last() =~= full.take(j as int));
            assert(full.take(i as int).last() == full[j as int]);
            assert(last_map(full.take(i as int)) == last_map(full.take(j as int)).insert(
                full[j as int].epoch,
                full[j as int].view,
            ));
        }
        if records[j].epoch == epoch {
            return Some(records[j].view);
        }
        i = j;
    }
    proof {
        assert(full.take(0).len() == 0);
    }
    None
}

impl Actor {
    /// The epochs the actor's supervisor recognizes.
    pub closed spec fn supervisor_spec(&self) -> Seq<EpochInfo> {
        self.supervisor@
    }

    /// The deployment's domain-separation tag.
    pub closed spec fn namespace_spec(&self) -> Seq<u8> {
        self.namespace@
    }

    /// The initial share the actor was constructed with.
    pub closed spec fn share_spec(&self) -> Share {
        self.share
    }

    /// The actor's abstract state.
    pub closed spec fn model(&self) -> StateModel {
        StateModel {
            signed: signed_map(self.signed@),
            last_signed: last_map(self.last_signed@),
        }
    }

    /// Build an actor from its configuration, together with the mailbox
    /// handle producers enqueue events through.  Construction-time defects
    /// are fatal: a capacity of zero or a malformed share is refused and no
    /// actor starts.
    pub fn new(cfg: Config) -> (r: Result<(Actor, Mailbox), ConfigError>)
        ensures
            cfg.mailbox_size == 0 ==> r == Err::<(Actor, Mailbox), ConfigError>(
                ConfigError::MailboxSizeZero,
            ),
            cfg.mailbox_size >= 1 && cfg.share.secret@.len() != SHARE_SECRET_LEN ==> r == Err::<
                (Actor, Mailbox),
                ConfigError,
            >(ConfigError::BadShareLength),
            cfg.mailbox_size >= 1 && cfg.share.wf() ==> (r matches Ok(am) && {
                &&& am.0.model() == initial_state()
                &&& am.0.namespace_spec() == cfg.namespace@
                &&& am.0.supervisor_spec() == cfg.supervisor@
                &&& am.0.share_spec() == cfg.share
                &&& am.1.wf()
                &&& am.1@ == Seq::<Message>::empty()
                &&& am.1.capacity_spec() == cfg.mailbox_size
                &&& !am.1.closed_spec()
            }),
    {
        if cfg.mailbox_size == 0 {
            return Err(ConfigError::MailboxSizeZero);
        }
        if cfg.share.secret.len() != SHARE_SECRET_LEN {
            return Err(ConfigError::BadShareLength);
        }
        let mailbox = Mailbox::new(cfg.mailbox_size);
        let actor = Actor {
            supervisor: cfg.supervisor,
            namespace: cfg.namespace,
            share: cfg.share,
            signed: Vec::new(),
            last_signed: Vec::new(),
        };
        Ok((actor, mailbox))
    }

    /// The deployment's domain-separation tag.
    pub fn namespace(&self) -> (r: &Vec<u8>)
        ensures
            r@ == self.namespace_spec(),
    {
        &self.namespace
    }

    /// The initial share the actor was constructed with.
    pub fn share(&self) -> (r: &Share)
        ensures
            *r == self.share_spec(),
    {
        &self.share
    }

    /// The actor's supervisor.
    pub fn supervisor(&self) -> (r: &Supervisor)
        ensures
            r@ == self.supervisor_spec(),
    {
        &self.supervisor
    }

    /// Process one consensus event: exactly the [`step`] transition.
    pub fn handle(&mut self, msg: Message) -> (r: Outcome)
        requires
            msg.wf(),
        ensures
            final(self).namespace_spec() == old(self).namespace_spec(),
            final(self).supervisor_spec() == old(self).supervisor_spec(),
            final(self).share_spec() == old(self).share_spec(),
            ({
                let sr = step(
                    old(self).supervisor_spec(),
                    old(self).namespace_spec(),
                    old(self).model(),
                    msg,
                );
                final(self).model() == sr.0 && r.model() == sr.1
            }),
    {
        match msg {
            Message::Propose { epoch, view, block, payload: _, signature: _ } => self.handle_sign(
                epoch,
                view,
                block,
                TAG_PROPOSE,
                true,
            ),
            Message::Vote { epoch, view, block, signature: _ } => self.handle_sign(
                epoch,
                view,
                block,
                TAG_VOTE,
                true,
            ),
            Message::Finalize { epoch, view, block, notarization, signature: _ } => {
                let ok = check_certificate(&notarization, epoch, view, &block);
                self.handle_sign(epoch, view, block, TAG_FINALIZE, ok)
            },
            Message::Advance { epoch, view, block, notarization } => self.handle_advance(
                epoch,
                view,
                block,
                notarization,
            ),
            Message::Lock { epoch, view, block, notarization, finalization } => {
                let ok1 = check_certificate(&notarization, epoch, view, &block);
                let ok2 = check_certificate(&finalization, epoch, view, &block);
                self.handle_sign(epoch, view, block, TAG_LOCK, ok1 && ok2)
            },
            Message::Seed { epoch, view, signature: _ } => {
                let empty: Vec<u8> = Vec::new();
                proof {
                    assert(empty@ =~= Seq::<u8>::empty());
                }
                self.handle_sign(epoch, view, empty, TAG_SEED, true)
            },
        }
    }

    /// One signing role, as [`step_sign`] specifies it.
    fn handle_sign(
        &mut self,
        epoch: u64,
        view: u64,
        block: Vec<u8>,
        tag: u8,
        certs_ok: bool,
    ) -> (r: Outcome)
        ensures
            final(self).namespace_spec() == old(self).namespace_spec(),
            final(self).supervisor_spec() == old(self).supervisor_spec(),
            final(self).share_spec() == old(self).share_spec(),
            ({
                let sr = step_sign(
                    old(self).supervisor_spec(),
                    old(self).namespace_spec(),
                    old(self).model(),
                    epoch,
                    view,
                    tag,
                    block@,
                    certs_ok,
                );
                final(self).model() == sr.0 && r.model() == sr.1
            }),
    {
        if self.supervisor.identity(epoch).is_none() {
            return Outcome::Rejected { error: Error::UnknownEpoch };
        }
        let signer = match self.supervisor.share(epoch) {
            Some(sh) => sh.index,
            None => {
                return Outcome::Rejected { error: Error::NotAParticipant };
            },
        };
        if !certs_ok {
            return Outcome::Rejected { error: Error::MalformedCertificate };
        }
        match lookup_last(&self.last_signed, epoch) {
            Some(mark) => {
                if view < mark {
                    return Outcome::Rejected { error: Error::StaleView };
                }
            },
            None => {},
        }
        match lookup_signed(&self.signed, epoch, view, tag) {
            Some(prev) => {
                if bytes_eq(prev, &block) {
                    return Outcome::Rejected { error: Error::Duplicate };
                } else {
                    return Outcome::Rejected { error: Error::EquivocationAttempt };
                }
            },
            None => {},
        }
        let payload = encode_payload(&self.namespace, tag, epoch, view, &block);
        let ghost signed0 = self.signed@;
        let ghost last0 = self.last_signed@;
        self.signed.push(SignRecord { epoch, view, tag, block });
        proof {
            assert(self.signed@.drop_last() =~= signed0);
        }
        if tag == TAG_FINALIZE || tag == TAG_LOCK {
            self.last_signed.push(ViewKey { epoch, view });
            proof {
                assert(self.last_signed@.drop_last() =~= last0);
            }
        }
        Outcome::Emitted { epoch, view, tag, signer, payload }
    }

    /// A view-change signal, as [`step_advance`] specifies it.
    fn handle_advance(
        &mut self,
        epoch: u64,
        view: u64,
        block: Vec<u8>,
        notarization: Vec<u8>,
    ) -> (r: Outcome)
        ensures
            final(self).namespace_spec() == old(self).namespace_spec(),
            final(self).supervisor_spec() == old(self).supervisor_spec(),
            final(self).share_spec() == old(self).share_spec(),
            ({
                let sr = step_advance(
                    old(self).supervisor_spec(),
                    old(self).model(),
                    epoch,
                    view,
                    block@,
                    notarization@,
                );
                final(self).model() == sr.0 && r.model() == sr.1
            }),
    {
        if self.supervisor.identity(epoch).is_none() {
            return Outcome::Rejected { error: Error::UnknownEpoch };
        }
        if !check_certificate(&notarization, epoch, view, &block) {
            return Outcome::Rejected { error: Error::MalformedCertificate };
        }
        let keep = match lookup_last(&self.last_signed, epoch) {
            Some(mark) => mark >= view,
            None => false,
        };
        if !keep {
            let ghost last0 = self.last_signed@;
            self.last_signed.push(ViewKey { epoch, view });
            proof {
                assert(self.last_signed@.drop_last() =~= last0);
            }
        }
        Outcome::Advanced { epoch, view }
    }

    /// Process every message currently queued, oldest first: exactly the
    /// [`run_seq`] fold of [`step`] over the queue.
    pub fn drain(&mut self, mailbox: &mut Mailbox) -> (outs: Vec<Outcome>)
        requires
            old(mailbox).wf(),
        ensures
            final(mailbox).wf(),
            final(mailbox)@.len() == 0,
            final(mailbox).capacity_spec() == old(mailbox).capacity_spec(),
            final(mailbox).closed_spec() == old(mailbox).closed_spec(),
            final(self).namespace_spec() == old(self).namespace_spec(),
            final(self).supervisor_spec() == old(self).supervisor_spec(),
            final(self).share_spec() == old(self).share_spec(),
            ({
                let rr = run_seq(
                    old(self).supervisor_spec(),
                    old(self).namespace_spec(),
                    old(self).model(),
                    old(mailbox)@,
                );
                &&& final(self).model() == rr.0
                &&& outs@.len() == rr.1.len()
                &&& forall|i: int| 0 <= i < outs@.len() ==> (#[trigger] outs@[i]).model() == rr.1[i]
            }),
    {
        let ghost sup0 = self.supervisor_spec();
        let ghost ns0 = self.namespace_spec();
        let ghost s0 = self.model();
        let ghost q0 = mailbox@;
        let ghost share0 = self.share_spec();
        let mut outs: Vec<Outcome> = Vec::new();
        loop
            invariant
                mailbox.wf(),
                mailbox.capacity_spec() == old(mailbox).capacity_spec(),
                mailbox.closed_spec() == old(mailbox).closed_spec(),
                self.supervisor_spec() == sup0,
                self.namespace_spec() == ns0,
                self.share_spec() == share0,
                run_seq(sup0, ns0, s0, q0).0 == run_seq(sup0, ns0, self.model(), mailbox@).0,
                run_seq(sup0, ns0, s0, q0).1 =~= outs@.map_values(|o: Outcome| o.model())
                    + run_seq(sup0, ns0, self.model(), mailbox@).1,
            ensures
                mailbox.wf(),
                mailbox.capacity_spec() == old(mailbox).capacity_spec(),
                mailbox.closed_spec() == old(mailbox).closed_spec(),
                self.supervisor_spec() == sup0,
                self.namespace_spec() == ns0,
                self.share_spec() == share0,
                mailbox@.len() == 0,
                run_seq(sup0, ns0, s0, q0).0 == run_seq(sup0, ns0, self.model(), mailbox@).0,
                run_seq(sup0, ns0, s0, q0).1 =~= outs@.map_values(|o: Outcome| o.model())
                    + run_seq(sup0, ns0, self.model(), mailbox@).1,
            decreases mailbox@.len(),
        {
            let ghost s_pre = self.model();
            let ghost q_pre = mailbox@;
            let msg = match mailbox.recv() {
                Some(m) => m,
                None => {
                    break ;
                },
            };
            let o = self.handle(msg);
            outs.push(o);
            proof {
                assert(run_seq(sup0, ns0, s_pre, q_pre).0 == run_seq(
                    sup0,
                    ns0,
                    self.model(),
                    mailbox@,
                ).0);
                assert(run_seq(sup0, ns0, s_pre, q_pre).1 == seq![o.model()] + run_seq(
                    sup0,
                    ns0,
                    self.model(),
                    mailbox@,
                ).1);
                assert(outs@.map_values(|x: Outcome| x.model()) =~= outs@.drop_last().map_values(
                    |x: Outcome| x.model(),
                ).push(o.model()));
                assert(outs@.drop_last().map_values(|x: Outcome| x.model()).push(o.model())
                    + run_seq(sup0, ns0, self.model(), mailbox@).1 =~= outs@.drop_last().map_values(
                    |x: Outcome| x.model(),
                ) + (seq![o.model()] + run_seq(sup0, ns0, self.model(), mailbox@).1));
            }
        }
        proof {
            assert(run_seq(sup0, ns0, self.model(), mailbox@).1 =~= Seq::<OutcomeModel>::empty());
            assert(run_seq(sup0, ns0, s0, q0).1 =~= outs@.map_values(|o: Outcome| o.model()));
        }
        outs
    }
}

/// Whether an outcome is a partial-signature emission for exactly this
/// `(epoch, view)` and role.
pub open spec fn is_emission(o: OutcomeModel, epoch: u64, view: u64, tag: u8) -> bool {
    o matches OutcomeModel::Emitted { epoch: e, view: v, tag: t, .. } && e == epoch && v == view
        && t == tag
}

/// How many of these outcomes emit a signature for the given role.
pub open spec fn count_emissions(os: Seq<OutcomeModel>, epoch: u64, view: u64, tag: u8) -> nat
    decreases os.len(),
{
    if os.len() == 0 {
        0
    } else {
        (if is_emission(os[0], epoch, view, tag) {
            1nat
        } else {
            0nat
        }) + count_emissions(os.drop_first(), epoch, view, tag)
    }
}

/// One step never forgets a recorded signing, records a role exactly when
/// it emits for it, and emits only for roles not yet signed.
pub proof fn lemma_step_records(
    sup: Seq<EpochInfo>,
    ns: Seq<u8>,
    s: StateModel,
    m: Message,
    epoch: u64,
    view: u64,
    tag: u8,
)
    ensures
        ({
            let st = step(sup, ns, s, m);
            &&& s.signed.contains_key((epoch, view, tag)) ==> st.0.signed.contains_key(
                (epoch, view, tag),
            ) && st.0.signed[(epoch, view, tag)] == s.signed[(epoch, view, tag)]
            &&& is_emission(st.1, epoch, view, tag) ==> !s.signed.contains_key((epoch, view, tag))
                && st.0.signed.contains_key((epoch, view, tag))
            &&& !is_emission(st.1, epoch, view, tag) ==> st.0.signed.contains_key(
                (epoch, view, tag),
            ) == s.signed.contains_key((epoch, view, tag))
        }),
{
}

/// A role already signed is never emitted again, and a fresh role is
/// emitted at most once, over any message sequence.
pub proof fn lemma_signed_at_most_once(
    sup: Seq<EpochInfo>,
    ns: Seq<u8>,
    s: StateModel,
    msgs: Seq<Message>,
    epoch: u64,
    view: u64,
    tag: u8,
)
    ensures
        count_emissions(run_seq(sup, ns, s, msgs).1, epoch, view, tag) <= (
        if s.signed.contains_key((epoch, view, tag)) {
            0nat
        } else {
            1nat
        }),
    decreases msgs.len(),
{
    if msgs.len() > 0 {
        let st = step(sup, ns, s, msgs[0]);
        let rest = run_seq(sup, ns, st.0, msgs.drop_first());
        lemma_step_records(sup, ns, s, msgs[0], epoch, view, tag);
        lemma_signed_at_most_once(sup, ns, st.0, msgs.drop_first(), epoch, view, tag);
        assert((seq![st.1] + rest.1)[0] == st.1);
        assert((seq![st.1] + rest.1).drop_first() =~= rest.1);
    }
}

/// No double-signing: from a state that has not yet signed a vote for
/// `(epoch, view)`, any message sequence — in particular any number of
/// `Vote` messages for that view, with equal or differing blocks — yields
/// at most one vote partial signature for `(epoch, view)`.
pub proof fn lemma_no_double_signing(
    sup: Seq<EpochInfo>,
    ns: Seq<u8>,
    s: StateModel,
    msgs: Seq<Message>,
    epoch: u64,
    view: u64,
)
    requires
        !s.signed.contains_key((epoch, view, TAG_VOTE)),
    ensures
        count_emissions(run_seq(sup, ns, s, msgs).1, epoch, view, TAG_VOTE) <= 1,
{
    lemma_signed_at_most_once(sup, ns, s, msgs, epoch, view, TAG_VOTE);
}

/// Deterministic rejection of seed replays: once the seed for
/// `(epoch, view)` has been signed, a replayed `Seed` message for it is
/// rejected outright, and no sequence of further messages ever emits that
/// seed again — there is never a second, possibly divergent, seed
/// signature.
pub proof fn lemma_seed_replay_rejected(
    sup: Seq<EpochInfo>,
    ns: Seq<u8>,
    s: StateModel,
    msgs: Seq<Message>,
    epoch: u64,
    view: u64,
)
    requires
        s.signed.contains_key((epoch, view, TAG_SEED)),
    ensures
        count_emissions(run_seq(sup, ns, s, msgs).1, epoch, view, TAG_SEED) == 0,
        forall|sig: Vec<u8>|
            (#[trigger] step(sup, ns, s, Message::Seed { epoch, view, signature: sig }).1) matches
                OutcomeModel::Rejected { .. },
{
    lemma_signed_at_most_once(sup, ns, s, msgs, epoch, view, TAG_SEED);
}

/// Whether an outcome emits a finalize or lock signature for this epoch:
/// the roles that raise the epoch's view high-water mark.
pub open spec fn is_watermark_emission(o: OutcomeModel, epoch: u64) -> bool {
    o matches OutcomeModel::Emitted { epoch: e, tag, .. } && e == epoch && (tag == TAG_FINALIZE
        || tag == TAG_LOCK)
}

/// The view carried by an emission or view-change outcome.
pub open spec fn outcome_view(o: OutcomeModel) -> u64 {
    match o {
        OutcomeModel::Emitted { view, .. } => view,
        OutcomeModel::Advanced { view, .. } => view,
        OutcomeModel::Rejected { .. } => 0,
    }
}

/// One step never lowers an epoch's high-water mark, and a finalize or
/// lock emission lands exactly on the new mark, at or above the old one.
pub proof fn lemma_step_watermark(
    sup: Seq<EpochInfo>,
    ns: Seq<u8>,
    s: StateModel,
    m: Message,
    epoch: u64,
)
    ensures
        ({
            let st = step(sup, ns, s, m);
            &&& s.last_signed.contains_key(epoch) ==> st.0.last_signed.contains_key(epoch)
                && s.last_signed[epoch] <= st.0.last_signed[epoch]
            &&& is_watermark_emission(st.1, epoch) ==> st.0.last_signed.contains_key(epoch)
                && st.0.last_signed[epoch] == outcome_view(st.1) && (s.last_signed.contains_key(
                epoch,
            ) ==> s.last_signed[epoch] <= outcome_view(st.1))
        }),
{
}

/// Every finalize/lock emission in a run lies between the epoch's starting
/// high-water mark and its final one.
pub proof fn lemma_run_watermarks(
    sup: Seq<EpochInfo>,
    ns: Seq<u8>,
    s: StateModel,
    msgs: Seq<Message>,
    epoch: u64,
)
    ensures
        ({
            let rr = run_seq(sup, ns, s, msgs);
            &&& s.last_signed.contains_key(epoch) ==> rr.0.last_signed.contains_key(epoch)
                && s.last_signed[epoch] <= rr.0.last_signed[epoch]
            &&& forall|k: int|
                0 <= k < rr.1.len() && is_watermark_emission(#[trigger] rr.1[k], epoch) ==> {
                    &&& s.last_signed.contains_key(epoch) ==> s.last_signed[epoch] <= outcome_view(
                        rr.1[k],
                    )
                    &&& rr.0.last_signed.contains_key(epoch)
                    &&& outcome_view(rr.1[k]) <= rr.0.last_signed[epoch]
                }
        }),
    decreases msgs.len(),
{
    if msgs.len() > 0 {
        let st = step(sup, ns, s, msgs[0]);
        let rest = run_seq(sup, ns, st.0, msgs.drop_first());
        lemma_step_watermark(sup, ns, s, msgs[0], epoch);
        lemma_run_watermarks(sup, ns, st.0, msgs.drop_first(), epoch);
        assert((seq![st.1] + rest.1)[0] == st.1);
        assert(forall|k: int|
            1 <= k < (seq![st.1] + rest.1).len() ==> (#[trigger] (seq![st.1] + rest.1)[k])
                == rest.1[k - 1]);
    }
}

/// Monotonic view signing: in every run, the finalize/lock partial
/// signatures for one epoch are emitted with non-decreasing views, in
/// processing order.
pub proof fn lemma_monotonic_view_signing(
    sup: Seq<EpochInfo>,
    ns: Seq<u8>,
    s: StateModel,
    msgs: Seq<Message>,
    epoch: u64,
    i: int,
    j: int,
)
    requires
        0 <= i < j < run_seq(sup, ns, s, msgs).1.len(),
        is_watermark_emission(run_seq(sup, ns, s, msgs).1[i], epoch),
        is_watermark_emission(run_seq(sup, ns, s, msgs).1[j], epoch),
    ensures
        outcome_view(run_seq(sup, ns, s, msgs).1[i]) <= outcome_view(
            run_seq(sup, ns, s, msgs).1[j],
        ),
    decreases msgs.len(),
{
    let st = step(sup, ns, s, msgs[0]);
    let rest = run_seq(sup, ns, st.0, msgs.drop_first());
    assert((seq![st.1] + rest.1)[0] == st.1);
    assert(forall|k: int|
        1 <= k < (seq![st.1] + rest.1).len() ==> (#[trigger] (seq![st.1] + rest.1)[k]) == rest.1[k
            - 1]);
    if i == 0 {
        lemma_step_watermark(sup, ns, s, msgs[0], epoch);
        lemma_run_watermarks(sup, ns, st.0, msgs.drop_first(), epoch);
    } else {
        lemma_monotonic_view_signing(sup, ns, st.0, msgs.drop_first(), epoch, i - 1, j - 1);
    }
}

} // verus!
