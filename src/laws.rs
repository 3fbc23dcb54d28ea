//! Properties that hold across calls.
use vstd::prelude::*;

use crate::error::PayraError;
use crate::event::{contributed_so_far, contribute_result};
use crate::identity::Identity;
use crate::proposal::{create_proposal_result, vote_result};
use crate::settle::{settle_event_result, settle_proposal_result, share_amount};
use crate::state::{percentage_sum, EventView, Participant, ProposalView, SpendingShare};

verus! {

/// Sum of the contributions recorded in the ledger entries `ps`.
pub open spec fn ledger_total(ps: Seq<Participant>) -> int
    decreases ps.len(),
{
    if ps.len() == 0 {
        0
    } else {
        ledger_total(ps.drop_last()) + ps.last().contributed
    }
}

/// Two ledgers entry by entry equal in what was contributed have the same total.
pub proof fn lemma_ledger_total_same_contributions(a: Seq<Participant>, b: Seq<Participant>)
    requires
        a.len() == b.len(),
        forall|i: int| 0 <= i < a.len() ==> #[trigger] a[i].contributed == b[i].contributed,
    ensures
        ledger_total(a) == ledger_total(b),
    decreases a.len(),
{
    if a.len() > 0 {
        assert forall|i: int| 0 <= i < a.drop_last().len() implies #[trigger] a.drop_last()[i].contributed
            == b.drop_last()[i].contributed by {
            assert(a.drop_last()[i] == a[i] && b.drop_last()[i] == b[i]);
        }
        lemma_ledger_total_same_contributions(a.drop_last(), b.drop_last());
    }
}

/// A contribution keeps the event's total equal to the sum of its ledger: when the total equals
/// the sum over the other entries `others` and the contributor's entry (if it exists), then
/// after a successful contribution the new total equals the sum over `others` and the
/// contributor's new entry.
pub proof fn lemma_contribution_keeps_ledger_total(
    contributor: Identity,
    event_key: Identity,
    e: EventView,
    entry: Option<Participant>,
    others: Seq<Participant>,
    amount: u64,
    now: i64,
)
    requires
        e.total_contributed == ledger_total(others) + contributed_so_far(entry),
    ensures
        match contribute_result(contributor, event_key, e, entry, amount, now) {
            Ok((settled_e, q)) => settled_e.total_contributed == ledger_total(others.push(q)),
            Err(_) => true,
        },
{
    match contribute_result(contributor, event_key, e, entry, amount, now) {
        Ok((settled_e, q)) => {
            assert(others.push(q).drop_last() =~= others);
        },
        Err(_) => {},
    }
}

/// Settlement never touches what was contributed: a successful settlement of either kind
/// leaves the sum over the supplied ledger entries, and the event's total, as they were.
pub proof fn lemma_settlement_keeps_ledger_total(
    event_key: Identity,
    e: EventView,
    p: ProposalView,
    withdraw_account: Identity,
    ps: Seq<Participant>,
    now: i64,
)
    ensures
        match settle_proposal_result(event_key, e, p, withdraw_account, ps, now) {
            Ok((_, settled_ps)) => ledger_total(settled_ps) == ledger_total(ps),
            Err(_) => true,
        },
        match settle_event_result(event_key, e, p, ps, now) {
            Ok((settled_e, _, settled_ps)) => ledger_total(settled_ps) == ledger_total(ps) && settled_e.total_contributed
                == e.total_contributed,
            Err(_) => true,
        },
{
    match settle_proposal_result(event_key, e, p, withdraw_account, ps, now) {
        Ok((_, settled_ps)) => lemma_ledger_total_same_contributions(settled_ps, ps),
        Err(_) => {},
    }
    match settle_event_result(event_key, e, p, ps, now) {
        Ok((_, _, settled_ps)) => lemma_ledger_total_same_contributions(settled_ps, ps),
        Err(_) => {},
    }
}

/// A wallet votes at most once: after its vote on a proposal is recorded, any further vote by
/// it on that proposal up to the proposal's deadline fails with `AlreadyVoted`, whatever either
/// choice. (After the deadline every vote fails with `ProposalExpired`.)
pub proof fn lemma_no_second_vote(
    voter: Identity,
    e: EventView,
    p: ProposalView,
    first: bool,
    now: i64,
    second: bool,
    later: i64,
)
    requires
        vote_result(voter, e, p, first, now) is Ok,
        later <= p.deadline,
    ensures
        match vote_result(voter, e, p, first, now) {
            Ok(voted) => vote_result(voter, e, voted, second, later) == Err::<ProposalView, PayraError>(
                PayraError::AlreadyVoted,
            ),
            Err(_) => true,
        },
{
    match vote_result(voter, e, p, first, now) {
        Ok(voted) => {
            if first {
                assert(voted.yes_votes[voted.yes_votes.len() - 1] == voter);
            } else {
                assert(voted.no_votes[voted.no_votes.len() - 1] == voter);
            }
        },
        Err(_) => {},
    }
}

/// Settlement happens once: settling an already settled proposal, in either way, fails with
/// `AlreadySettled`; and a proposal that a settlement went through is settled, so that every
/// later settlement of it fails so.
pub proof fn lemma_settle_once(
    event_key: Identity,
    e: EventView,
    p: ProposalView,
    withdraw_account: Identity,
    ps: Seq<Participant>,
    now: i64,
    later: i64,
)
    ensures
        p.settled ==> settle_proposal_result(event_key, e, p, withdraw_account, ps, now) == Err::<
            (ProposalView, Seq<Participant>),
            PayraError,
        >(PayraError::AlreadySettled),
        p.settled ==> settle_event_result(event_key, e, p, ps, now) == Err::<
            (EventView, ProposalView, Seq<Participant>),
            PayraError,
        >(PayraError::AlreadySettled),
        match settle_proposal_result(event_key, e, p, withdraw_account, ps, now) {
            Ok((settled_p, settled_ps)) => settle_proposal_result(event_key, e, settled_p, withdraw_account, settled_ps, later)
                == Err::<(ProposalView, Seq<Participant>), PayraError>(PayraError::AlreadySettled),
            Err(_) => true,
        },
        match settle_event_result(event_key, e, p, ps, now) {
            Ok((settled_e, settled_p, settled_ps)) => settle_event_result(event_key, settled_e, settled_p, settled_ps, later) == Err::<
                (EventView, ProposalView, Seq<Participant>),
                PayraError,
            >(PayraError::AlreadySettled),
            Err(_) => true,
        },
{
}

/// Spending shares must add up to exactly 100, and that is checked when the proposal is made:
/// a whitelisted caller who offers a non-empty list of shares adding up to anything else (99,
/// 101) is refused with `InvalidPercentage`, and no settlement ever fails with
/// `InvalidPercentage`.
pub proof fn lemma_percentages_checked_at_creation(
    caller: Identity,
    e: EventView,
    title: Seq<char>,
    amount: u64,
    spendings: Seq<SpendingShare>,
    deadline: i64,
    now: i64,
    event_key: Identity,
    p: ProposalView,
    withdraw_account: Identity,
    ps: Seq<Participant>,
)
    requires
        e.whitelist.contains(caller),
        spendings.len() > 0,
        percentage_sum(spendings) != 100,
    ensures
        create_proposal_result(caller, e, title, amount, spendings, deadline, now) == Err::<
            (EventView, ProposalView),
            PayraError,
        >(PayraError::InvalidPercentage),
        settle_proposal_result(event_key, e, p, withdraw_account, ps, now) != Err::<
            (ProposalView, Seq<Participant>),
            PayraError,
        >(PayraError::InvalidPercentage),
        settle_event_result(event_key, e, p, ps, now) != Err::<
            (EventView, ProposalView, Seq<Participant>),
            PayraError,
        >(PayraError::InvalidPercentage),
{
}

/// Sum of what splitting `amount` by the shares `s` charges, each share rounded down.
pub open spec fn charged_total(amount: u64, s: Seq<SpendingShare>) -> int
    decreases s.len(),
{
    if s.len() == 0 {
        0
    } else {
        charged_total(amount, s.drop_last()) + share_amount(amount, s.last().percentage)
    }
}

/// Rounding down loses less than one unit per share: the charged total, scaled by 100, lies
/// between `amount` times the sum of the percentages less 99 per share, and that product.
proof fn lemma_charged_total_bounds(amount: u64, s: Seq<SpendingShare>)
    ensures
        100 * charged_total(amount, s) <= amount * percentage_sum(s),
        amount * percentage_sum(s) - 100 * charged_total(amount, s) <= 99 * s.len(),
    decreases s.len(),
{
    if s.len() > 0 {
        lemma_charged_total_bounds(amount, s.drop_last());
        let x: int = amount * s.last().percentage;
        let a: int = amount as int;
        let p: int = s.last().percentage as int;
        let rest: int = percentage_sum(s.drop_last());
        assert(x >= 0) by (nonlinear_arith)
            requires x == a * p, a >= 0, p >= 0;
        assert(100 * (x / 100) <= x && x - 100 * (x / 100) <= 99) by (nonlinear_arith)
            requires x >= 0;
        assert(a * (rest + p) == a * rest + a * p) by (nonlinear_arith);
    }
}

/// Splitting a spending amount by shares that add up to 100, each rounded down, never charges
/// more than the amount, and leaves less than one unit per share uncharged.
pub proof fn lemma_shares_cover_amount(amount: u64, s: Seq<SpendingShare>)
    requires
        percentage_sum(s) == 100,
    ensures
        charged_total(amount, s) <= amount,
        amount - charged_total(amount, s) < s.len(),
{
    lemma_charged_total_bounds(amount, s);
    if s.len() == 0 {
        assert(percentage_sum(s) == 0);
    }
}

} // verus!
