//! Proposal governance: propose, vote, queue behind a timelock once the quorum is met,
//! and execute.
use vstd::prelude::*;
use crate::error::ProtocolError;
use crate::host::same_text;
use crate::identity::Identity;
use crate::table::{Key, Table};

verus! {

/// The share of votes in favour that queuing asks for, unless set otherwise: 1000 basis
/// points, a tenth.
pub const DEFAULT_QUORUM_BPS: i128 = 1000;

/// The delay between queuing and execution, unless set otherwise: 60 seconds.
pub const DEFAULT_TIMELOCK: u64 = 60;

/// The number of basis points in the whole.
pub const BPS_DENOMINATOR: i128 = 10000;

/// A proposal and where it stands in its life.
#[derive(Debug, PartialEq, Eq)]
pub struct Proposal {
    /// The number the proposal was given when it was made.
    pub id: u64,
    pub proposer: Identity,
    /// The title, a text in the host; it is kept as it was given.
    pub title: soroban_sdk::String,
    /// When the proposal was made, in seconds since the epoch.
    pub created: u64,
    /// The last second at which a vote counts.
    pub voting_ends: u64,
    /// From when on the proposal may be executed; 0 while it is not queued.
    pub queued_until: u64,
    /// The summed weight of the votes in favour.
    pub for_votes: i128,
    /// The summed weight of the votes against.
    pub against_votes: i128,
    pub executed: bool,
}

impl Proposal {
    /// What holds of every proposal: voting ends no earlier than the proposal was made,
    /// and a queued proposal is queued until some time after voting has ended.
    pub open spec fn wf(&self) -> bool {
        &&& self.created <= self.voting_ends
        &&& (self.queued_until == 0 || self.queued_until >= self.voting_ends)
    }

    /// The proposal that is made at `now` under number `id`, open to votes for
    /// `voting_period_secs` seconds: no votes yet, not queued, not executed.
    pub open spec fn made(
        id: u64,
        proposer: Identity,
        title: soroban_sdk::String,
        now: u64,
        voting_period_secs: u64,
    ) -> Proposal {
        Proposal {
            id,
            proposer,
            title,
            created: now,
            voting_ends: (now + voting_period_secs) as u64,
            queued_until: 0,
            for_votes: 0,
            against_votes: 0,
            executed: false,
        }
    }

    /// Makes the proposal of number `id` at `now`, open to votes for `voting_period_secs`
    /// seconds.
    pub fn new(
        id: u64,
        proposer: Identity,
        title: soroban_sdk::String,
        now: u64,
        voting_period_secs: u64,
    ) -> (proposal: Proposal)
        requires
            now + voting_period_secs <= u64::MAX,
        ensures
            proposal == Proposal::made(id, proposer, title, now, voting_period_secs),
            proposal.created == now,
            proposal.voting_ends == proposal.created + voting_period_secs,
            proposal.queued_until == 0,
            proposal.wf(),
    {
        Proposal {
            id,
            proposer,
            title,
            created: now,
            voting_ends: now + voting_period_secs,
            queued_until: 0,
            for_votes: 0,
            against_votes: 0,
            executed: false,
        }
    }

    /// Whether votes on the proposal still count at `now`.
    pub open spec fn open_at(&self, now: u64) -> bool {
        now <= self.voting_ends
    }

    /// Whether the proposal may be executed at `now`: it is queued and its timelock has
    /// run out.
    pub open spec fn ripe_at(&self, now: u64) -> bool {
        self.queued_until != 0 && now >= self.queued_until
    }
}

impl Clone for Proposal {
    fn clone(&self) -> (copy: Self)
        ensures
            copy == *self,
    {
        Proposal {
            id: self.id,
            proposer: self.proposer,
            title: same_text(&self.title),
            created: self.created,
            voting_ends: self.voting_ends,
            queued_until: self.queued_until,
            for_votes: self.for_votes,
            against_votes: self.against_votes,
            executed: self.executed,
        }
    }
}

/// The record of a vote: who voted, which way, and with what weight.
#[derive(Clone, Copy, Debug, PartialEq, Eq)]
pub struct VoteReceipt {
    pub voter: Identity,
    pub support: bool,
    pub weight: i128,
}

/// What a receipt is kept under: the proposal and the voter.
#[derive(Clone, Copy, Debug, PartialEq, Eq)]
pub struct ReceiptKey {
    pub id: u64,
    pub voter: Identity,
}

impl Key for ReceiptKey {
    fn same_key(&self, other: &ReceiptKey) -> (same: bool) {
        self.id == other.id && self.voter.same(&other.voter)
    }
}

/// What the governance store holds.
pub ghost struct GovState {
    /// The number given to the proposal made last; 0 before the first.
    pub counter: u64,
    pub proposals: Map<u64, Proposal>,
    /// The last receipt of each voter on each proposal.
    pub receipts: Map<ReceiptKey, VoteReceipt>,
    /// The share of votes in favour that queuing asks for, in basis points.
    pub quorum_bps: i128,
    /// The delay between queuing and execution, in seconds.
    pub timelock: u64,
    /// Whom each delegator has named.
    pub delegations: Map<Identity, Identity>,
}

impl GovState {
    /// Every proposal is kept under its own number, which was given out by the counter,
    /// and is well-formed.
    pub open spec fn wf(self) -> bool {
        forall|id: u64| #[trigger]
            self.proposals.contains_key(id) ==> {
                &&& self.proposals[id].id == id
                &&& 1 <= id <= self.counter
                &&& self.proposals[id].wf()
            }
    }
}

/// The governance store: proposals, receipts, delegations, the counter and the tunables.
pub struct GovStorage {
    counter: u64,
    proposals: Table<u64, Proposal>,
    receipts: Table<ReceiptKey, VoteReceipt>,
    quorum_bps: i128,
    timelock: u64,
    delegations: Table<Identity, Identity>,
}

impl View for GovStorage {
    type V = GovState;

    closed spec fn view(&self) -> GovState {
        GovState {
            counter: self.counter,
            proposals: self.proposals@,
            receipts: self.receipts@,
            quorum_bps: self.quorum_bps,
            timelock: self.timelock,
            delegations: self.delegations@,
        }
    }
}

impl GovStorage {
    /// The tables of the store are in order.
    pub closed spec fn tables_wf(&self) -> bool {
        &&& self.proposals.wf()
        &&& self.receipts.wf()
        &&& self.delegations.wf()
    }

    /// The store is in order: its tables are, and what it holds is well-formed.
    pub open spec fn wf(&self) -> bool {
        self.tables_wf() && self@.wf()
    }

    /// An empty store with the default tunables.
    pub fn new() -> (store: Self)
        ensures
            store.wf(),
            store@ == (GovState {
                counter: 0,
                proposals: Map::empty(),
                receipts: Map::empty(),
                quorum_bps: DEFAULT_QUORUM_BPS,
                timelock: DEFAULT_TIMELOCK,
                delegations: Map::empty(),
            }),
    {
        GovStorage {
            counter: 0,
            proposals: Table::new(),
            receipts: Table::new(),
            quorum_bps: DEFAULT_QUORUM_BPS,
            timelock: DEFAULT_TIMELOCK,
            delegations: Table::new(),
        }
    }

    /// A store without proposals that takes up where an earlier one left off: with the
    /// counter and the tunables that were last kept.
    pub fn restored(counter: u64, quorum_bps: i128, timelock: u64) -> (store: Self)
        ensures
            store.wf(),
            store@ == (GovState {
                counter,
                proposals: Map::empty(),
                receipts: Map::empty(),
                quorum_bps,
                timelock,
                delegations: Map::empty(),
            }),
    {
        GovStorage {
            counter,
            proposals: Table::new(),
            receipts: Table::new(),
            quorum_bps,
            timelock,
            delegations: Table::new(),
        }
    }

    /// The number given to the proposal made last; 0 before the first.
    pub fn counter(&self) -> (counter: u64)
        ensures
            counter == self@.counter,
    {
        self.counter
    }

    /// Gives out the next proposal number: one more than the last.
    pub fn next_id(&mut self) -> (id: u64)
        requires
            old(self).wf(),
            old(self)@.counter < u64::MAX,
        ensures
            id == old(self)@.counter + 1,
            final(self).wf(),
            final(self)@ == (GovState { counter: id, ..old(self)@ }),
    {
        self.counter = self.counter + 1;
        self.counter
    }

    /// Keeps `proposal` under its number, in place of what was kept there.
    pub fn save_proposal(&mut self, proposal: &Proposal)
        requires
            old(self).wf(),
            proposal.wf(),
            1 <= proposal.id <= old(self)@.counter,
        ensures
            final(self).wf(),
            final(self)@ == (GovState {
                proposals: old(self)@.proposals.insert(proposal.id, *proposal),
                ..old(self)@
            }),
    {
        self.proposals.put(proposal.id, proposal.clone());
    }

    /// The proposal with number `id`, if there is one.
    pub fn get_proposal(&self, id: u64) -> (found: Option<Proposal>)
        requires
            self.wf(),
        ensures
            found == if self@.proposals.contains_key(id) {
                Some(self@.proposals[id])
            } else {
                None
            },
    {
        match self.proposals.get(&id) {
            Some(proposal) => Some(proposal.clone()),
            None => None,
        }
    }

    /// Keeps `receipt` as the voter's receipt on proposal `id`, in place of an earlier one.
    pub fn save_receipt(&mut self, id: u64, receipt: &VoteReceipt)
        requires
            old(self).wf(),
        ensures
            final(self).wf(),
            final(self)@ == (GovState {
                receipts: old(self)@.receipts.insert(ReceiptKey { id, voter: receipt.voter }, *receipt),
                ..old(self)@
            }),
    {
        self.receipts.put(ReceiptKey { id, voter: receipt.voter }, *receipt);
    }

    /// The receipt of `voter` on proposal `id`, if one is kept.
    pub fn get_receipt(&self, id: u64, voter: &Identity) -> (found: Option<VoteReceipt>)
        requires
            self.wf(),
        ensures
            found == if self@.receipts.contains_key(ReceiptKey { id, voter: *voter }) {
                Some(self@.receipts[ReceiptKey { id, voter: *voter }])
            } else {
                None
            },
    {
        match self.receipts.get(&ReceiptKey { id, voter: *voter }) {
            Some(receipt) => Some(*receipt),
            None => None,
        }
    }

    /// The share of votes in favour that queuing asks for, in basis points.
    pub fn get_quorum_bps(&self) -> (bps: i128)
        ensures
            bps == self@.quorum_bps,
    {
        self.quorum_bps
    }

    /// Sets the share of votes in favour that queuing asks for, in basis points.
    pub fn set_quorum_bps(&mut self, bps: i128)
        ensures
            final(self).wf() == old(self).wf(),
            final(self)@ == (GovState { quorum_bps: bps, ..old(self)@ }),
    {
        self.quorum_bps = bps;
    }

    /// The delay between queuing and execution, in seconds.
    pub fn get_timelock(&self) -> (secs: u64)
        ensures
            secs == self@.timelock,
    {
        self.timelock
    }

    /// Sets the delay between queuing and execution, in seconds.
    pub fn set_timelock(&mut self, secs: u64)
        ensures
            final(self).wf() == old(self).wf(),
            final(self)@ == (GovState { timelock: secs, ..old(self)@ }),
    {
        self.timelock = secs;
    }
}

/// `a / b` rounded towards zero, for a positive `b`.
pub open spec fn truncated_quotient(a: int, b: int) -> int {
    if a >= 0 {
        a / b
    } else {
        -((-a) / b)
    }
}

/// Whether the tallies meet the quorum: some weight was cast on balance, and the share of
/// it in favour, in basis points and rounded towards zero, is at least `quorum_bps`.
pub open spec fn quorum_holds(for_votes: i128, against_votes: i128, quorum_bps: i128) -> bool {
    let total = for_votes + against_votes;
    total > 0 && truncated_quotient(for_votes * BPS_DENOMINATOR, total) >= quorum_bps
}

/// Whether the numbers that the quorum test forms fit 128 bits: the sum of the tallies,
/// and the product for the share where the sum is positive. Where it is not, no share is
/// formed.
pub open spec fn tally_fits(for_votes: i128, against_votes: i128) -> bool {
    &&& i128::MIN <= for_votes + against_votes <= i128::MAX
    &&& for_votes + against_votes > 0 ==> i128::MIN <= for_votes * BPS_DENOMINATOR <= i128::MAX
}

/// `proposal` after a vote at `now`: the weight is added to the tally of its side while
/// voting is open, and nothing changes afterwards.
pub open spec fn voted(proposal: Proposal, now: u64, support: bool, weight: i128) -> Proposal {
    if !proposal.open_at(now) {
        proposal
    } else if support {
        Proposal { for_votes: (proposal.for_votes + weight) as i128, ..proposal }
    } else {
        Proposal { against_votes: (proposal.against_votes + weight) as i128, ..proposal }
    }
}

/// Whether the tally that a vote at `now` would form fits 128 bits.
pub open spec fn vote_fits(proposal: Proposal, now: u64, support: bool, weight: i128) -> bool {
    proposal.open_at(now) ==> if support {
        i128::MIN <= proposal.for_votes + weight <= i128::MAX
    } else {
        i128::MIN <= proposal.against_votes + weight <= i128::MAX
    }
}

/// Whether `proposal` is to be queued at `now`: the quorum holds and voting has ended.
pub open spec fn queueable(proposal: Proposal, now: u64, quorum_bps: i128) -> bool {
    quorum_holds(proposal.for_votes, proposal.against_votes, quorum_bps) && now >= proposal.voting_ends
}

/// `proposal` after it was asked to be queued at `now`: queued until the timelock has run
/// out where it is queueable, unchanged where it is not.
pub open spec fn queued(proposal: Proposal, now: u64, quorum_bps: i128, timelock: u64) -> Proposal {
    if queueable(proposal, now, quorum_bps) {
        Proposal { queued_until: (now + timelock) as u64, ..proposal }
    } else {
        proposal
    }
}

/// Whether the numbers that queuing `proposal` at `now` forms fit their types.
pub open spec fn queue_fits(proposal: Proposal, now: u64, quorum_bps: i128, timelock: u64) -> bool {
    &&& tally_fits(proposal.for_votes, proposal.against_votes)
    &&& queueable(proposal, now, quorum_bps) ==> now + timelock <= u64::MAX
}

/// `proposal` after it was asked to be executed at `now`: executed where it is ripe,
/// unchanged where it is not.
pub open spec fn executed(proposal: Proposal, now: u64) -> Proposal {
    if proposal.ripe_at(now) {
        Proposal { executed: true, ..proposal }
    } else {
        proposal
    }
}

impl GovState {
    /// The state with `proposal` kept under its number.
    pub open spec fn with_proposal(self, proposal: Proposal) -> GovState {
        GovState { proposals: self.proposals.insert(proposal.id, proposal), ..self }
    }

    /// The state after a vote on proposal `id` at `now`.
    pub open spec fn after_vote(self, now: u64, id: u64, voter: Identity, support: bool, weight: i128) -> GovState {
        if self.proposals.contains_key(id) && self.proposals[id].open_at(now) {
            GovState {
                proposals: self.proposals.insert(id, voted(self.proposals[id], now, support, weight)),
                receipts: self.receipts.insert(
                    ReceiptKey { id, voter },
                    VoteReceipt { voter, support, weight },
                ),
                ..self
            }
        } else {
            self
        }
    }

    /// The state after proposal `id` was asked to be queued at `now`.
    pub open spec fn after_queue(self, now: u64, id: u64) -> GovState {
        if self.proposals.contains_key(id) {
            GovState {
                proposals: self.proposals.insert(
                    id,
                    queued(self.proposals[id], now, self.quorum_bps, self.timelock),
                ),
                ..self
            }
        } else {
            self
        }
    }

    /// The state after proposal `id` was asked to be executed at `now`.
    pub open spec fn after_execute(self, now: u64, id: u64) -> GovState {
        if self.proposals.contains_key(id) {
            GovState { proposals: self.proposals.insert(id, executed(self.proposals[id], now)), ..self }
        } else {
            self
        }
    }
}

/// The governance engine's operations.
pub struct Governance;

impl Governance {
    /// Whether the tallies meet the quorum.
    pub fn has_quorum(for_votes: i128, against_votes: i128, quorum_bps: i128) -> (holds: bool)
        requires
            tally_fits(for_votes, against_votes),
        ensures
            holds == quorum_holds(for_votes, against_votes, quorum_bps),
    {
        let total: i128 = for_votes + against_votes;
        if total <= 0 {
            return false;
        }
        for_votes * BPS_DENOMINATOR / total >= quorum_bps
    }

    /// Makes a proposal at `now`, open to votes for `voting_period_secs` seconds. Anyone
    /// may propose. The proposal gets the next number, no votes, and is not queued.
    pub fn propose(
        store: &mut GovStorage,
        now: u64,
        proposer: &Identity,
        title: soroban_sdk::String,
        voting_period_secs: u64,
    ) -> (proposal: Proposal)
        requires
            old(store).wf(),
            old(store)@.counter < u64::MAX,
            now + voting_period_secs <= u64::MAX,
        ensures
            final(store).wf(),
            proposal == Proposal::made(
                (old(store)@.counter + 1) as u64,
                *proposer,
                title,
                now,
                voting_period_secs,
            ),
            proposal.created == now,
            proposal.voting_ends == proposal.created + voting_period_secs,
            proposal.queued_until == 0,
            !old(store)@.proposals.contains_key(proposal.id),
            final(store)@ == (GovState { counter: proposal.id, ..old(store)@ }).with_proposal(proposal),
    {
        let id = store.next_id();
        let proposal = Proposal::new(id, *proposer, title, now, voting_period_secs);
        store.save_proposal(&proposal);
        proposal
    }

    /// Casts a vote of `weight` on proposal `id` at `now`.
    ///
    /// While voting is open the weight is added to the tally of the chosen side and the
    /// voter's receipt is kept, in place of an earlier one; every call adds, also a second
    /// one by the same voter. After voting has ended nothing changes. The proposal is
    /// handed back as it then stands.
    pub fn vote(
        store: &mut GovStorage,
        now: u64,
        id: u64,
        voter: &Identity,
        support: bool,
        weight: i128,
    ) -> (outcome: Result<Proposal, ProtocolError>)
        requires
            old(store).wf(),
            old(store)@.proposals.contains_key(id) ==> vote_fits(
                old(store)@.proposals[id],
                now,
                support,
                weight,
            ),
        ensures
            final(store).wf(),
            final(store)@ == old(store)@.after_vote(now, id, *voter, support, weight),
            outcome == if old(store)@.proposals.contains_key(id) {
                Ok::<Proposal, ProtocolError>(voted(old(store)@.proposals[id], now, support, weight))
            } else {
                Err::<Proposal, ProtocolError>(ProtocolError::NotFound)
            },
    {
        let mut proposal = match store.get_proposal(id) {
            Some(proposal) => proposal,
            None => {
                return Err(ProtocolError::NotFound);
            },
        };
        if now > proposal.voting_ends {
            return Ok(proposal);
        }
        if support {
            proposal.for_votes = proposal.for_votes + weight;
        } else {
            proposal.against_votes = proposal.against_votes + weight;
        }
        store.save_receipt(id, &VoteReceipt { voter: *voter, support, weight });
        store.save_proposal(&proposal);
        Ok(proposal)
    }

    /// Queues proposal `id` at `now`, if the quorum holds and voting has ended: it may then
    /// be executed once the timelock has run out. Otherwise nothing changes; asking again
    /// later is in order.
    pub fn queue(store: &mut GovStorage, now: u64, id: u64) -> (outcome: Result<Proposal, ProtocolError>)
        requires
            old(store).wf(),
            old(store)@.proposals.contains_key(id) ==> queue_fits(
                old(store)@.proposals[id],
                now,
                old(store)@.quorum_bps,
                old(store)@.timelock,
            ),
        ensures
            final(store).wf(),
            final(store)@ == old(store)@.after_queue(now, id),
            outcome == if old(store)@.proposals.contains_key(id) {
                Ok::<Proposal, ProtocolError>(
                    queued(
                        old(store)@.proposals[id],
                        now,
                        old(store)@.quorum_bps,
                        old(store)@.timelock,
                    ),
                )
            } else {
                Err::<Proposal, ProtocolError>(ProtocolError::NotFound)
            },
    {
        let mut proposal = match store.get_proposal(id) {
            Some(proposal) => proposal,
            None => {
                return Err(ProtocolError::NotFound);
            },
        };
        let have_quorum = Self::has_quorum(
            proposal.for_votes,
            proposal.against_votes,
            store.get_quorum_bps(),
        );
        if have_quorum && now >= proposal.voting_ends {
            proposal.queued_until = now + store.get_timelock();
        }
        store.save_proposal(&proposal);
        Ok(proposal)
    }

    /// Executes proposal `id` at `now`, if it is queued and its timelock has run out.
    /// Otherwise nothing changes. A proposal that is executed stays so.
    pub fn execute(store: &mut GovStorage, now: u64, id: u64) -> (outcome: Result<Proposal, ProtocolError>)
        requires
            old(store).wf(),
        ensures
            final(store).wf(),
            final(store)@ == old(store)@.after_execute(now, id),
            outcome == if old(store)@.proposals.contains_key(id) {
                Ok::<Proposal, ProtocolError>(executed(old(store)@.proposals[id], now))
            } else {
                Err::<Proposal, ProtocolError>(ProtocolError::NotFound)
            },
    {
        let mut proposal = match store.get_proposal(id) {
            Some(proposal) => proposal,
            None => {
                return Err(ProtocolError::NotFound);
            },
        };
        if now >= proposal.queued_until && proposal.queued_until != 0 {
            proposal.executed = true;
        }
        store.save_proposal(&proposal);
        Ok(proposal)
    }

    /// Records that `from` names `to` as its delegate, in place of an earlier choice.
    /// Tallies do not look at delegations.
    pub fn delegate(store: &mut GovStorage, from: &Identity, to: &Identity)
        requires
            old(store).wf(),
        ensures
            final(store).wf(),
            final(store)@ == (GovState {
                delegations: old(store)@.delegations.insert(*from, *to),
                ..old(store)@
            }),
    {
        store.delegations.put(*from, *to);
    }

    /// Whom `from` has named as its delegate, if anyone.
    pub fn get_delegate(store: &GovStorage, from: &Identity) -> (delegate: Option<Identity>)
        requires
            store.wf(),
        ensures
            delegate == if store@.delegations.contains_key(*from) {
                Some(store@.delegations[*from])
            } else {
                None
            },
    {
        match store.delegations.get(from) {
            Some(to) => Some(*to),
            None => None,
        }
    }
}

/// At its making a proposal's voting ends its voting period after it was made, and it is
/// not queued: whatever its number, and whoever makes it.
pub proof fn law_new_proposal_ends_after_its_period(
    id: u64,
    proposer: Identity,
    title: soroban_sdk::String,
    now: u64,
    voting_period_secs: u64,
)
    requires
        now + voting_period_secs <= u64::MAX,
    ensures
        ({
            let proposal = Proposal::made(id, proposer, title, now, voting_period_secs);
            &&& proposal.created == now
            &&& proposal.voting_ends == proposal.created + voting_period_secs
            &&& proposal.queued_until == 0
            &&& proposal.wf()
        }),
{
}

/// A proposal that is made, voted on, queued and executed stays well-formed; queuing
/// leaves it either not queued or queued until some time after voting has ended.
pub proof fn law_lifecycle_keeps_proposals_well_formed(
    proposal: Proposal,
    now: u64,
    support: bool,
    weight: i128,
    quorum_bps: i128,
    timelock: u64,
)
    requires
        proposal.wf(),
        now + timelock <= u64::MAX,
    ensures
        voted(proposal, now, support, weight).wf(),
        queued(proposal, now, quorum_bps, timelock).wf(),
        executed(proposal, now).wf(),
{
}

/// Every vote counts, also a second one by the same voter: both weights are in the
/// tally, and the receipt that is kept is the one of the later vote.
pub proof fn law_repeated_votes_add_up(
    state: GovState,
    now: u64,
    id: u64,
    voter: Identity,
    support: bool,
    first: i128,
    second: i128,
)
    requires
        state.proposals.contains_key(id),
        state.proposals[id].open_at(now),
        vote_fits(state.proposals[id], now, support, first),
        vote_fits(voted(state.proposals[id], now, support, first), now, support, second),
    ensures
        ({
            let before = state.proposals[id];
            let after = state.after_vote(now, id, voter, support, first).after_vote(
                now,
                id,
                voter,
                support,
                second,
            );
            &&& after.proposals[id].for_votes + after.proposals[id].against_votes == before.for_votes
                + before.against_votes + first + second
            &&& after.receipts[ReceiptKey { id, voter }] == (VoteReceipt { voter, support, weight: second })
        }),
{
}

/// Queuing is idempotent: asked twice at the same time, with nothing changed in between,
/// it leaves the proposal and the store as the first call left them.
pub proof fn law_queue_is_idempotent(state: GovState, now: u64, id: u64)
    ensures
        state.after_queue(now, id).after_queue(now, id) == state.after_queue(now, id),
        state.proposals.contains_key(id) ==> queued(
            queued(state.proposals[id], now, state.quorum_bps, state.timelock),
            now,
            state.quorum_bps,
            state.timelock,
        ) == queued(state.proposals[id], now, state.quorum_bps, state.timelock),
{
    let once = state.after_queue(now, id);
    assert(once.after_queue(now, id).proposals =~= once.proposals);
}

/// Execution happens only once the timelock has run out: a proposal is executed after the
/// call exactly if it was before, or is queued with `now` at or past the time it is
/// queued until. Asked earlier, a proposal that was not executed stays so.
pub proof fn law_execute_waits_for_timelock(proposal: Proposal, now: u64)
    ensures
        executed(proposal, now).executed == (proposal.executed || (proposal.queued_until != 0 && now
            >= proposal.queued_until)),
        !proposal.executed && (proposal.queued_until == 0 || now < proposal.queued_until) ==> !executed(
            proposal,
            now,
        ).executed,
{
}

} // verus!
