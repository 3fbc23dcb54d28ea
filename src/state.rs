use vstd::prelude::*;

use crate::identity::Identity;

verus! {

/// Longest name or title that a record can hold, in bytes.
pub const MAX_NAME_LEN: usize = 32;

/// Most wallets that an event's whitelist can hold.
pub const MAX_WHITELIST: usize = 10;

/// Byte length of the UTF-8 encoding of `s`, the length that a stored name takes.
pub open spec fn utf8_len(s: Seq<char>) -> nat {
    vstd::utf8::encode_utf8(s).len()
}

/// The process-wide source of event identifiers.
#[derive(Clone, Copy, Debug)]
pub struct EventCounter {
    pub count: u64,
}

/// What a creator gives when opening an event.
#[derive(Clone, Debug)]
pub struct EventArgs {
    pub name: String,
    pub deadline: i64,
    pub target_amount: u64,
}

/// One contribution campaign.
#[derive(Clone, Debug)]
pub struct Event {
    pub event_id: u64,
    pub creator: Identity,
    pub withdraw_token_account: Identity,
    pub target_amount: u64,
    pub total_contributed: u64,
    pub total_spent: u64,
    pub whitelist: Vec<Identity>,
    pub is_cancelled: bool,
    pub is_finalized: bool,
    pub deadline: i64,
    pub name: String,
    pub proposal_count: u16,
}

/// The mathematical content of an [`Event`].
pub struct EventView {
    pub event_id: u64,
    pub creator: Identity,
    pub withdraw_token_account: Identity,
    pub target_amount: u64,
    pub total_contributed: u64,
    pub total_spent: u64,
    pub whitelist: Seq<Identity>,
    pub is_cancelled: bool,
    pub is_finalized: bool,
    pub deadline: i64,
    pub name: Seq<char>,
    pub proposal_count: u16,
}

impl View for Event {
    type V = EventView;

    open spec fn view(&self) -> EventView {
        EventView {
            event_id: self.event_id,
            creator: self.creator,
            withdraw_token_account: self.withdraw_token_account,
            target_amount: self.target_amount,
            total_contributed: self.total_contributed,
            total_spent: self.total_spent,
            whitelist: self.whitelist@,
            is_cancelled: self.is_cancelled,
            is_finalized: self.is_finalized,
            deadline: self.deadline,
            name: self.name@,
            proposal_count: self.proposal_count,
        }
    }
}

impl EventView {
    /// The invariant of a stored event: a bounded whitelist without repeats, a bounded name.
    pub open spec fn wf(self) -> bool {
        &&& self.whitelist.len() <= MAX_WHITELIST
        &&& self.whitelist.no_duplicates()
        &&& utf8_len(self.name) <= MAX_NAME_LEN
    }

    /// Number of wallets that may vote on the final settlement: the whitelist and the creator.
    pub open spec fn settlement_voters(self) -> nat {
        self.whitelist.len() + 1
    }

    /// Wallets whose ledger entries the final settlement expects, in order.
    pub open spec fn expected_wallets(self) -> Seq<Identity> {
        self.whitelist.push(self.creator)
    }
}

/// The ledger entry of one wallet in one event.
#[derive(Clone, Copy, Debug)]
pub struct Participant {
    /// Address of the event record that the entry belongs to.
    pub event: Identity,
    pub event_id: u64,
    pub wallet: Identity,
    pub contributed: u64,
    pub spent: u64,
    pub refunded: bool,
    /// `contributed - spent`, written at the final settlement of the event.
    pub net_owed: i64,
}

/// The two kinds of proposal.
#[derive(Clone, Copy, Debug, PartialEq, Eq, Structural)]
pub enum ProposalType {
    /// Pays an amount out to the event's withdraw account, charged to recipients by share.
    Spending,
    /// Closes the event's books: every participant's net balance is computed.
    EventSettlement,
}

/// A recipient of a spending proposal and its share, in percent.
#[derive(Clone, Copy, Debug)]
pub struct SpendingShare {
    pub wallet: Identity,
    pub percentage: u8,
}

/// One governance action inside an event.
#[derive(Clone, Debug)]
pub struct Proposal {
    pub proposal_id: u16,
    pub title: String,
    pub amount: u64,
    pub proposal_type: ProposalType,
    pub spendings: Vec<SpendingShare>,
    pub yes_votes: Vec<Identity>,
    pub no_votes: Vec<Identity>,
    pub creator: Identity,
    pub deadline: i64,
    pub settled: bool,
    pub cancelled: bool,
}

/// The mathematical content of a [`Proposal`].
pub struct ProposalView {
    pub proposal_id: u16,
    pub title: Seq<char>,
    pub amount: u64,
    pub proposal_type: ProposalType,
    pub spendings: Seq<SpendingShare>,
    pub yes_votes: Seq<Identity>,
    pub no_votes: Seq<Identity>,
    pub creator: Identity,
    pub deadline: i64,
    pub settled: bool,
    pub cancelled: bool,
}

impl View for Proposal {
    type V = ProposalView;

    open spec fn view(&self) -> ProposalView {
        ProposalView {
            proposal_id: self.proposal_id,
            title: self.title@,
            amount: self.amount,
            proposal_type: self.proposal_type,
            spendings: self.spendings@,
            yes_votes: self.yes_votes@,
            no_votes: self.no_votes@,
            creator: self.creator,
            deadline: self.deadline,
            settled: self.settled,
            cancelled: self.cancelled,
        }
    }
}

impl ProposalView {
    /// Whether `w` has voted, either way.
    pub open spec fn has_voted(self, w: Identity) -> bool {
        self.yes_votes.contains(w) || self.no_votes.contains(w)
    }

    /// Whether `w` is one of the recipients of the spending shares.
    pub open spec fn is_recipient(self, w: Identity) -> bool {
        exists|i: int| 0 <= i < self.spendings.len() && #[trigger] self.spendings[i].wallet == w
    }

    /// The invariant of a stored proposal: nobody votes twice, and the shares of a spending
    /// proposal are not empty and add up to 100.
    pub open spec fn wf(self) -> bool {
        &&& self.yes_votes.no_duplicates()
        &&& self.no_votes.no_duplicates()
        &&& forall|w: Identity| !(#[trigger] self.yes_votes.contains(w) && self.no_votes.contains(w))
        &&& self.proposal_type == ProposalType::Spending ==> self.spendings.len() > 0
            && percentage_sum(self.spendings) == 100
    }

    /// Number of votes cast.
    pub open spec fn total_votes(self) -> nat {
        self.yes_votes.len() + self.no_votes.len()
    }
}

/// Sum of the percentages of `s`.
pub open spec fn percentage_sum(s: Seq<SpendingShare>) -> int
    decreases s.len(),
{
    if s.len() == 0 {
        0
    } else {
        percentage_sum(s.drop_last()) + s.last().percentage
    }
}

} // verus!
