use vstd::prelude::*;

verus! {

/// Every way an operation can be refused. Each names the exact precondition that failed.
#[derive(Clone, Copy, Debug, PartialEq, Eq, Structural)]
pub enum PayraError {
    /// The given deadline is not in the future.
    InvalidDeadline,
    /// The event's contribution window is over.
    DeadlineAlreadyReached,
    /// A name or title is longer than 32 bytes.
    NameTooLong,
    /// The event counter cannot be incremented further.
    EventCounterOverflow,
    /// A contribution would overflow a running total.
    ContributionOverflow,
    /// The event's proposal counter cannot be incremented further.
    ProposalCounterOverflow,
    /// The proposal's voting deadline has passed.
    ProposalExpired,
    /// The voter is not eligible to vote on this proposal.
    NotAuthorizedToVote,
    /// The voter has already voted on this proposal.
    AlreadyVoted,
    /// The withdraw account does not match the event's withdraw account.
    InvalidWithdrawAccount,
    /// The proposal was not approved.
    NotApproved,
    /// An expected ledger entry was not supplied.
    MissingParticipantAccount,
    /// The proposal has already been settled.
    AlreadySettled,
    /// Neither the deadline has passed nor has every eligible voter voted.
    TooEarlyToSettle,
    /// A supplied ledger entry belongs to another event.
    InvalidParticipantEvent,
    /// A supplied ledger entry belongs to a wallet that is not a recipient.
    InvalidParticipantWallet,
    /// The supplied ledger entries are not the expected set.
    InvalidParticipantAccounts,
    /// Checked arithmetic overflowed.
    MathOverflow,
    /// The caller is not allowed to perform this operation.
    Unauthorised,
    /// The event deadline has not been reached yet.
    DeadlineNotReached,
    /// The event has been cancelled.
    EventCancelled,
    /// The event's target has already been met.
    TargetMetAlready,
    /// Spending percentages do not add up to exactly 100.
    InvalidPercentage,
    /// A spending proposal lists no recipients.
    NoParticipants,
    /// The whitelist would grow beyond its capacity.
    WhitelistFull,
    /// A wallet would appear twice in the whitelist.
    DuplicateWallet,
    /// The wallet is not in the event's whitelist.
    NotWhitelisted,
}

} // verus!
