use vstd::prelude::*;

use crate::error::PayraError;
use crate::identity::{contains_identity, Identity};
use crate::state::{
    percentage_sum, utf8_len, Event, EventView, Proposal, ProposalType, ProposalView,
    SpendingShare, MAX_NAME_LEN,
};

verus! {

/// Sum of the percentages of `spendings`.
pub fn total_percentage(spendings: &Vec<SpendingShare>) -> (r: u128)
    ensures
        r == percentage_sum(spendings@),
{
    let n = spendings.len();
    let mut sum: u128 = 0;
    let mut i: usize = 0;
    while i < n
        invariant
            0 <= i <= n,
            n == spendings.len(),
            sum == percentage_sum(spendings@.subrange(0, i as int)),
            sum <= 255 * i,
        decreases n - i,
    {
        assert(spendings@.subrange(0, i + 1).drop_last() =~= spendings@.subrange(0, i as int));
        sum = sum + spendings[i].percentage as u128;
        i = i + 1;
    }
    assert(spendings@.subrange(0, n as int) =~= spendings@);
    sum
}

/// The event and the new proposal after `caller` proposes to spend `amount` by `spendings`,
/// or the error that refuses it.
pub open spec fn create_proposal_result(
    caller: Identity,
    e: EventView,
    title: Seq<char>,
    amount: u64,
    spendings: Seq<SpendingShare>,
    deadline: i64,
    now: i64,
) -> Result<(EventView, ProposalView), PayraError> {
    if !e.whitelist.contains(caller) {
        Err(PayraError::NotWhitelisted)
    } else if spendings.len() == 0 {
        Err(PayraError::NoParticipants)
    } else if percentage_sum(spendings) != 100 {
        Err(PayraError::InvalidPercentage)
    } else if deadline <= now {
        Err(PayraError::InvalidDeadline)
    } else if utf8_len(title) > MAX_NAME_LEN {
        Err(PayraError::NameTooLong)
    } else if e.proposal_count == u16::MAX {
        Err(PayraError::ProposalCounterOverflow)
    } else {
        Ok(
            (
                EventView { proposal_count: (e.proposal_count + 1) as u16, ..e },
                ProposalView {
                    proposal_id: e.proposal_count,
                    title,
                    amount,
                    proposal_type: ProposalType::Spending,
                    spendings,
                    yes_votes: Seq::empty(),
                    no_votes: Seq::empty(),
                    creator: caller,
                    deadline,
                    settled: false,
                    cancelled: false,
                },
            ),
        )
    }
}

/// The records that proposing a spending reads and writes.
pub struct CreateProposal {
    /// The caller, who must be whitelisted.
    pub creator: Identity,
    pub event: Event,
    /// The record that the new proposal is written to.
    pub proposal: Proposal,
}

impl CreateProposal {
    /// Proposes to pay `amount` out of the event, charged to the recipients of `spendings` by
    /// their percentages, which must add up to exactly 100. The proposal takes the event's next
    /// proposal number. On an error nothing changes.
    pub fn create_proposal(
        &mut self,
        title: String,
        amount: u64,
        spendings: Vec<SpendingShare>,
        deadline: i64,
        now: i64,
    ) -> (r: Result<(), PayraError>)
        ensures
            match create_proposal_result(
                old(self).creator,
                old(self).event@,
                title@,
                amount,
                spendings@,
                deadline,
                now,
            ) {
                Ok((e, p)) => r == Ok::<(), PayraError>(()) && final(self).event@ == e
                    && final(self).proposal@ == p,
                Err(err) => r == Err::<(), PayraError>(err) && final(self).event@ == old(self).event@
                    && final(self).proposal@ == old(self).proposal@,
            },
            r is Ok ==> final(self).proposal@.wf(),
            old(self).event@.wf() ==> final(self).event@.wf(),
            final(self).creator == old(self).creator,
    {
        if !contains_identity(&self.event.whitelist, &self.creator) {
            return Err(PayraError::NotWhitelisted);
        }
        if spendings.len() == 0 {
            return Err(PayraError::NoParticipants);
        }
        if total_percentage(&spendings) != 100 {
            return Err(PayraError::InvalidPercentage);
        }
        if deadline <= now {
            return Err(PayraError::InvalidDeadline);
        }
        if title.as_str().as_bytes().len() > MAX_NAME_LEN {
            return Err(PayraError::NameTooLong);
        }
        let proposal_id = self.event.proposal_count;
        let next = match proposal_id.checked_add(1) {
            Some(c) => c,
            None => return Err(PayraError::ProposalCounterOverflow),
        };
        self.proposal = Proposal {
            proposal_id,
            title,
            amount,
            proposal_type: ProposalType::Spending,
            spendings,
            yes_votes: Vec::new(),
            no_votes: Vec::new(),
            creator: self.creator,
            deadline,
            settled: false,
            cancelled: false,
        };
        self.event.proposal_count = next;
        Ok(())
    }
}

/// The event and the new proposal after `caller` proposes to settle the event, or the error
/// that refuses it.
pub open spec fn create_settle_proposal_result(
    caller: Identity,
    e: EventView,
    deadline: i64,
    now: i64,
) -> Result<(EventView, ProposalView), PayraError> {
    if !(e.whitelist.contains(caller) || caller == e.creator) {
        Err(PayraError::NotWhitelisted)
    } else if deadline <= now {
        Err(PayraError::InvalidDeadline)
    } else if e.proposal_count == u16::MAX {
        Err(PayraError::ProposalCounterOverflow)
    } else {
        Ok(
            (
                EventView { proposal_count: (e.proposal_count + 1) as u16, ..e },
                ProposalView {
                    proposal_id: e.proposal_count,
                    title: "Settlement"@,
                    amount: 0,
                    proposal_type: ProposalType::EventSettlement,
                    spendings: Seq::empty(),
                    yes_votes: Seq::empty(),
                    no_votes: Seq::empty(),
                    creator: caller,
                    deadline,
                    settled: false,
                    cancelled: false,
                },
            ),
        )
    }
}

/// The records that proposing the final settlement reads and writes.
pub struct CreateSettleProposal {
    /// The caller, who must be whitelisted or the event's creator.
    pub creator: Identity,
    pub event: Event,
    /// The record that the new proposal is written to.
    pub proposal: Proposal,
}

impl CreateSettleProposal {
    /// Proposes to close the event's books. Every whitelisted wallet and the creator may vote
    /// on it. The proposal takes the event's next proposal number. On an error nothing changes.
    pub fn create_settle_proposal(&mut self, deadline: i64, now: i64) -> (r: Result<(), PayraError>)
        ensures
            match create_settle_proposal_result(old(self).creator, old(self).event@, deadline, now) {
                Ok((e, p)) => r == Ok::<(), PayraError>(()) && final(self).event@ == e
                    && final(self).proposal@ == p,
                Err(err) => r == Err::<(), PayraError>(err) && final(self).event@ == old(self).event@
                    && final(self).proposal@ == old(self).proposal@,
            },
            r is Ok ==> final(self).proposal@.wf(),
            old(self).event@.wf() ==> final(self).event@.wf(),
            final(self).creator == old(self).creator,
    {
        if !(contains_identity(&self.event.whitelist, &self.creator) || self.creator
            == self.event.creator) {
            return Err(PayraError::NotWhitelisted);
        }
        if deadline <= now {
            return Err(PayraError::InvalidDeadline);
        }
        let proposal_id = self.event.proposal_count;
        let next = match proposal_id.checked_add(1) {
            Some(c) => c,
            None => return Err(PayraError::ProposalCounterOverflow),
        };
        self.proposal = Proposal {
            proposal_id,
            title: "Settlement".to_owned(),
            amount: 0,
            proposal_type: ProposalType::EventSettlement,
            spendings: Vec::new(),
            yes_votes: Vec::new(),
            no_votes: Vec::new(),
            creator: self.creator,
            deadline,
            settled: false,
            cancelled: false,
        };
        self.event.proposal_count = next;
        Ok(())
    }
}

/// Whether `w` may vote on proposal `p` of event `e`: a spending proposal admits its
/// recipients, a settlement proposal the whitelisted wallets and the creator.
pub open spec fn may_vote(e: EventView, p: ProposalView, w: Identity) -> bool {
    match p.proposal_type {
        ProposalType::Spending => p.is_recipient(w),
        ProposalType::EventSettlement => e.whitelist.contains(w) || w == e.creator,
    }
}

/// The proposal after `voter` votes `choice` (true for yes) at `now`, or the error that
/// refuses it.
pub open spec fn vote_result(
    voter: Identity,
    e: EventView,
    p: ProposalView,
    choice: bool,
    now: i64,
) -> Result<ProposalView, PayraError> {
    if now > p.deadline {
        Err(PayraError::ProposalExpired)
    } else if !may_vote(e, p, voter) {
        Err(PayraError::NotAuthorizedToVote)
    } else if p.has_voted(voter) {
        Err(PayraError::AlreadyVoted)
    } else if p.settled {
        Err(PayraError::AlreadySettled)
    } else if choice {
        Ok(ProposalView { yes_votes: p.yes_votes.push(voter), ..p })
    } else {
        Ok(ProposalView { no_votes: p.no_votes.push(voter), ..p })
    }
}

/// Whether `w` is a recipient of one of `spendings`.
fn is_recipient(spendings: &Vec<SpendingShare>, w: &Identity) -> (r: bool)
    ensures
        r == exists|i: int| 0 <= i < spendings@.len() && #[trigger] spendings@[i].wallet == *w,
{
    let mut i: usize = 0;
    while i < spendings.len()
        invariant
            0 <= i <= spendings.len(),
            forall|j: int| 0 <= j < i ==> spendings@[j].wallet != *w,
        decreases spendings.len() - i,
    {
        if spendings[i].wallet == *w {
            assert(spendings@[i as int].wallet == *w);
            return true;
        }
        i = i + 1;
    }
    false
}

/// The records that a vote reads and writes.
pub struct Vote {
    /// The caller, who casts the vote.
    pub voter: Identity,
    pub event: Event,
    pub proposal: Proposal,
}

impl Vote {
    /// Casts the caller's vote, yes when `vote_choice` holds, on an open proposal. Each
    /// eligible wallet votes at most once and cannot change its vote. On an error nothing
    /// changes.
    pub fn vote(&mut self, vote_choice: bool, now: i64) -> (r: Result<(), PayraError>)
        ensures
            match vote_result(old(self).voter, old(self).event@, old(self).proposal@, vote_choice, now) {
                Ok(p) => r == Ok::<(), PayraError>(()) && final(self).proposal@ == p,
                Err(err) => r == Err::<(), PayraError>(err) && final(self).proposal@ == old(self).proposal@,
            },
            old(self).proposal@.wf() ==> final(self).proposal@.wf(),
            final(self).event@ == old(self).event@,
            final(self).voter == old(self).voter,
    {
        if now > self.proposal.deadline {
            return Err(PayraError::ProposalExpired);
        }
        let allowed = match self.proposal.proposal_type {
            ProposalType::Spending => is_recipient(&self.proposal.spendings, &self.voter),
            ProposalType::EventSettlement => contains_identity(&self.event.whitelist, &self.voter)
                || self.voter == self.event.creator,
        };
        if !allowed {
            return Err(PayraError::NotAuthorizedToVote);
        }
        if contains_identity(&self.proposal.yes_votes, &self.voter) || contains_identity(
            &self.proposal.no_votes,
            &self.voter,
        ) {
            return Err(PayraError::AlreadyVoted);
        }
        if self.proposal.settled {
            return Err(PayraError::AlreadySettled);
        }
        let voter = self.voter;
        if vote_choice {
            self.proposal.yes_votes.push(voter);
        } else {
            self.proposal.no_votes.push(voter);
        }
        proof {
            let prev = old(self).proposal@;
            let cur = self.proposal@;
            if prev.wf() {
                assert forall|w: Identity| !(#[trigger] cur.yes_votes.contains(w) && cur.no_votes.contains(w)) by {
                    if cur.yes_votes.contains(w) && cur.no_votes.contains(w) {
                        let k = choose|k: int| 0 <= k < cur.yes_votes.len() && cur.yes_votes[k] == w;
                        let l = choose|l: int| 0 <= l < cur.no_votes.len() && cur.no_votes[l] == w;
                        if vote_choice {
                            assert(prev.no_votes[l] == w);
                            if k < prev.yes_votes.len() {
                                assert(prev.yes_votes[k] == w);
                                assert(prev.yes_votes.contains(w));
                            } else {
                                assert(w == voter);
                                assert(prev.no_votes.contains(voter));
                            }
                        } else {
                            assert(prev.yes_votes[k] == w);
                            if l < prev.no_votes.len() {
                                assert(prev.no_votes[l] == w);
                                assert(prev.yes_votes.contains(w));
                                assert(prev.no_votes.contains(w));
                            } else {
                                assert(w == voter);
                                assert(prev.yes_votes.contains(voter));
                            }
                        }
                    }
                }
                assert forall|a: int, b: int| 0 <= a < b < cur.yes_votes.len() implies cur.yes_votes[a] != cur.yes_votes[b] by {
                    if vote_choice && b == cur.yes_votes.len() - 1 {
                        assert(prev.yes_votes[a] == cur.yes_votes[a]);
                    }
                }
                assert forall|a: int, b: int| 0 <= a < b < cur.no_votes.len() implies cur.no_votes[a] != cur.no_votes[b] by {
                    if !vote_choice && b == cur.no_votes.len() - 1 {
                        assert(prev.no_votes[a] == cur.no_votes[a]);
                    }
                }
            }
        }
        Ok(())
    }
}

} // verus!
