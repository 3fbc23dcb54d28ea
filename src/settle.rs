use vstd::prelude::*;

use crate::error::PayraError;
use crate::identity::{contains_identity, Identity};
use crate::state::{Event, EventView, Participant, Proposal, ProposalView, SpendingShare};

verus! {

/// The percentage of the first share of `w` in `s` at index `i` or later.
pub open spec fn share_from(s: Seq<SpendingShare>, w: Identity, i: int) -> Option<u8>
    decreases s.len() - i,
{
    if i < 0 || i >= s.len() {
        None
    } else if s[i].wallet == w {
        Some(s[i].percentage)
    } else {
        share_from(s, w, i + 1)
    }
}

/// The percentage of the first share of `w` in `s`, if `w` is a recipient.
pub open spec fn share_of(s: Seq<SpendingShare>, w: Identity) -> Option<u8> {
    share_from(s, w, 0)
}

/// The part of `amount` charged to a recipient with share `pct`, rounded down.
pub open spec fn share_amount(amount: u64, pct: u8) -> int {
    (amount * pct) / 100
}

/// Whether some entry of `ps` is the one of wallet `w`.
pub open spec fn has_entry(ps: Seq<Participant>, w: Identity) -> bool {
    exists|i: int| 0 <= i < ps.len() && #[trigger] ps[i].wallet == w
}

/// Whether some entry of `ps` is the one of wallet `w` in the event numbered `event_id`.
pub open spec fn has_entry_in(ps: Seq<Participant>, w: Identity, event_id: u64) -> bool {
    exists|i: int| 0 <= i < ps.len() && #[trigger] ps[i].wallet == w && ps[i].event_id == event_id
}

/// Whether every entry of `ps` belongs to the event stored at `event_key`.
pub open spec fn all_in_event(ps: Seq<Participant>, event_key: Identity) -> bool {
    forall|i: int| 0 <= i < ps.len() ==> #[trigger] ps[i].event == event_key
}

/// Whether charging entry `q` its share of `amount` overflows, given its share `pct`.
pub open spec fn charge_overflows(q: Participant, amount: u64, pct: u8) -> bool {
    amount * pct > u64::MAX || q.spent + share_amount(amount, pct) > u64::MAX
}

/// Entry `q` after being charged its share of `amount` under the shares `s`.
pub open spec fn charged(q: Participant, s: Seq<SpendingShare>, amount: u64) -> Participant {
    Participant { spent: (q.spent + share_amount(amount, share_of(s, q.wallet).unwrap())) as u64, ..q }
}

/// Whether a spending proposal may be settled at `now`: its deadline has passed or every
/// recipient has voted.
pub open spec fn spending_quorum(p: ProposalView, now: i64) -> bool {
    now > p.deadline || p.total_votes() == p.spendings.len()
}

/// Whether `yes` votes among `eligible` voters approve: there are voters, and the yes share,
/// in whole percent rounded down, is at least 50.
pub open spec fn approves(yes: nat, eligible: nat) -> bool {
    eligible > 0 && (yes * 100) as int / eligible as int >= 50
}

/// What settling spending proposal `p` of event `e` does to the proposal and to the supplied
/// ledger entries `ps`, or the error that refuses it.
pub open spec fn settle_proposal_result(
    event_key: Identity,
    e: EventView,
    p: ProposalView,
    withdraw_account: Identity,
    ps: Seq<Participant>,
    now: i64,
) -> Result<(ProposalView, Seq<Participant>), PayraError> {
    if p.settled {
        Err(PayraError::AlreadySettled)
    } else if withdraw_account != e.withdraw_token_account {
        Err(PayraError::InvalidWithdrawAccount)
    } else if !spending_quorum(p, now) {
        Err(PayraError::TooEarlyToSettle)
    } else if p.no_votes.len() > 0 {
        Ok((ProposalView { cancelled: true, settled: true, ..p }, ps))
    } else if p.yes_votes.len() * 100 > u64::MAX {
        Err(PayraError::MathOverflow)
    } else if !approves(p.yes_votes.len(), p.spendings.len()) {
        Ok((ProposalView { cancelled: true, settled: true, ..p }, ps))
    } else if ps.len() != p.spendings.len() {
        Err(PayraError::InvalidParticipantAccounts)
    } else if !all_in_event(ps, event_key) {
        Err(PayraError::InvalidParticipantEvent)
    } else if exists|i: int| 0 <= i < ps.len() && (#[trigger] share_of(p.spendings, ps[i].wallet)) is None {
        Err(PayraError::InvalidParticipantWallet)
    } else if exists|j: int| 0 <= j < p.spendings.len() && !has_entry(ps, #[trigger] p.spendings[j].wallet) {
        Err(PayraError::MissingParticipantAccount)
    } else if exists|i: int| 0 <= i < ps.len() && #[trigger] charge_overflows(
        ps[i],
        p.amount,
        share_of(p.spendings, ps[i].wallet).unwrap(),
    ) {
        Err(PayraError::MathOverflow)
    } else {
        Ok(
            (
                ProposalView { settled: true, ..p },
                Seq::new(ps.len(), |i: int| charged(ps[i], p.spendings, p.amount)),
            ),
        )
    }
}

/// The records that settling a spending proposal reads and writes.
pub struct SettleProposal {
    /// Whoever submits the settlement; any identity may.
    pub signer: Identity,
    /// Address of the event record.
    pub event_key: Identity,
    pub event: Event,
    pub proposal: Proposal,
    /// The account that is to receive the proposal's amount.
    pub withdraw_account: Identity,
    /// The ledger entries of the proposal's recipients.
    pub participants: Vec<Participant>,
}

/// The first share percentage of `w` in `spendings`.
fn find_share(spendings: &Vec<SpendingShare>, w: &Identity) -> (r: Option<u8>)
    ensures
        r == share_of(spendings@, *w),
{
    let mut i: usize = 0;
    while i < spendings.len()
        invariant
            0 <= i <= spendings.len(),
            share_from(spendings@, *w, 0) == share_from(spendings@, *w, i as int),
        decreases spendings.len() - i,
    {
        if spendings[i].wallet == *w {
            return Some(spendings[i].percentage);
        }
        i = i + 1;
    }
    None
}

/// Whether `ps` holds an entry of wallet `w`.
fn find_entry(ps: &Vec<Participant>, w: &Identity) -> (r: bool)
    ensures
        r == has_entry(ps@, *w),
{
    let mut i: usize = 0;
    while i < ps.len()
        invariant
            0 <= i <= ps.len(),
            forall|j: int| 0 <= j < i ==> ps@[j].wallet != *w,
        decreases ps.len() - i,
    {
        if ps[i].wallet == *w {
            return true;
        }
        i = i + 1;
    }
    false
}

/// Whether every entry of `ps` belongs to the event stored at `event_key`.
fn check_event(ps: &Vec<Participant>, event_key: &Identity) -> (r: bool)
    ensures
        r == all_in_event(ps@, *event_key),
{
    let mut i: usize = 0;
    while i < ps.len()
        invariant
            0 <= i <= ps.len(),
            forall|j: int| 0 <= j < i ==> ps@[j].event == *event_key,
        decreases ps.len() - i,
    {
        if ps[i].event != *event_key {
            return false;
        }
        i = i + 1;
    }
    true
}

/// Settles a spending proposal.
///
/// A proposal with any no vote, or with yes votes from fewer than half of its recipients, is
/// rejected: it is marked cancelled and settled and nothing else changes. Otherwise every
/// supplied ledger entry is charged its recipient's share of the amount, rounded down, and the
/// proposal is marked settled; the host then moves the amount
/// from the event's balance to its withdraw account. On an error nothing changes.
#[verifier::loop_isolation(false)]
pub fn settle_proposal_handler(ctx: &mut SettleProposal, now: i64) -> (r: Result<(), PayraError>)
    ensures
        match settle_proposal_result(
            old(ctx).event_key,
            old(ctx).event@,
            old(ctx).proposal@,
            old(ctx).withdraw_account,
            old(ctx).participants@,
            now,
        ) {
            Ok((p, ps)) => r == Ok::<(), PayraError>(()) && final(ctx).proposal@ == p
                && final(ctx).participants@ == ps,
            Err(e) => r == Err::<(), PayraError>(e) && final(ctx).proposal@ == old(ctx).proposal@
                && final(ctx).participants@ == old(ctx).participants@,
        },
        old(ctx).proposal@.wf() ==> final(ctx).proposal@.wf(),
        final(ctx).event@ == old(ctx).event@,
        final(ctx).event_key == old(ctx).event_key,
        final(ctx).signer == old(ctx).signer,
        final(ctx).withdraw_account == old(ctx).withdraw_account,
{
    if ctx.proposal.settled {
        return Err(PayraError::AlreadySettled);
    }
    if ctx.withdraw_account != ctx.event.withdraw_token_account {
        return Err(PayraError::InvalidWithdrawAccount);
    }
    let total_votes = ctx.proposal.yes_votes.len() as u128 + ctx.proposal.no_votes.len() as u128;
    if !(now > ctx.proposal.deadline || total_votes == ctx.proposal.spendings.len() as u128) {
        return Err(PayraError::TooEarlyToSettle);
    }
    if ctx.proposal.no_votes.len() > 0 {
        ctx.proposal.cancelled = true;
        ctx.proposal.settled = true;
        return Ok(());
    }
    let yes = ctx.proposal.yes_votes.len() as u128;
    if yes * 100 > u64::MAX as u128 {
        return Err(PayraError::MathOverflow);
    }
    let eligible = ctx.proposal.spendings.len() as u128;
    if eligible == 0 || yes * 100 / eligible < 50 {
        ctx.proposal.cancelled = true;
        ctx.proposal.settled = true;
        return Ok(());
    }
    if ctx.participants.len() != ctx.proposal.spendings.len() {
        return Err(PayraError::InvalidParticipantAccounts);
    }
    if !check_event(&ctx.participants, &ctx.event_key) {
        return Err(PayraError::InvalidParticipantEvent);
    }
    let n = ctx.participants.len();
    let mut i: usize = 0;
    while i < n
        invariant
            0 <= i <= n,
            n == ctx.participants.len(),
            *ctx == *old(ctx),
            forall|j: int| 0 <= j < i ==> (#[trigger] share_of(ctx.proposal.spendings@, ctx.participants@[j].wallet)) is Some,
        decreases n - i,
    {
        if find_share(&ctx.proposal.spendings, &ctx.participants[i].wallet).is_none() {
            return Err(PayraError::InvalidParticipantWallet);
        }
        i = i + 1;
    }
    let m = ctx.proposal.spendings.len();
    let mut j: usize = 0;
    while j < m
        invariant
            0 <= j <= m,
            m == ctx.proposal.spendings.len(),
            *ctx == *old(ctx),
            n == ctx.participants.len(),
            forall|k: int| 0 <= k < n ==> (#[trigger] share_of(ctx.proposal.spendings@, ctx.participants@[k].wallet)) is Some,
            forall|k: int| 0 <= k < j ==> has_entry(ctx.participants@, #[trigger] ctx.proposal.spendings@[k].wallet),
        decreases m - j,
    {
        if !find_entry(&ctx.participants, &ctx.proposal.spendings[j].wallet) {
            assert(!has_entry(ctx.participants@, ctx.proposal.spendings@[j as int].wallet));
            return Err(PayraError::MissingParticipantAccount);
        }
        j = j + 1;
    }
    let amount = ctx.proposal.amount;
    let ghost s = ctx.proposal.spendings@;
    let mut i: usize = 0;
    while i < n
        invariant
            0 <= i <= n,
            n == ctx.participants.len(),
            amount == ctx.proposal.amount,
            s == ctx.proposal.spendings@,
            *ctx == *old(ctx),
            forall|k: int| 0 <= k < m ==> has_entry(ctx.participants@, #[trigger] s[k].wallet),
            forall|j: int| 0 <= j < n ==> (#[trigger] share_of(s, ctx.participants@[j].wallet)) is Some,
            forall|j: int| 0 <= j < i ==> !(#[trigger] charge_overflows(
                ctx.participants@[j],
                amount,
                share_of(s, ctx.participants@[j].wallet).unwrap(),
            )),
        decreases n - i,
    {
        let pct = find_share(&ctx.proposal.spendings, &ctx.participants[i].wallet).unwrap();
        match amount.checked_mul(pct as u64) {
            None => {
                assert(charge_overflows(ctx.participants@[i as int], amount, pct));
                return Err(PayraError::MathOverflow);
            },
            Some(product) => {
                if ctx.participants[i].spent.checked_add(product / 100).is_none() {
                    assert(charge_overflows(ctx.participants@[i as int], amount, pct));
                    return Err(PayraError::MathOverflow);
                }
            },
        }
        i = i + 1;
    }
    let ghost before = ctx.participants@;
    let mut i: usize = 0;
    while i < n
        invariant
            0 <= i <= n,
            n == ctx.participants.len(),
            before.len() == n,
            before == old(ctx).participants@,
            ctx.event == old(ctx).event,
            ctx.proposal == old(ctx).proposal,
            ctx.event_key == old(ctx).event_key,
            ctx.signer == old(ctx).signer,
            ctx.withdraw_account == old(ctx).withdraw_account,
            amount == ctx.proposal.amount,
            s == ctx.proposal.spendings@,
            forall|j: int| 0 <= j < n ==> (#[trigger] share_of(s, before[j].wallet)) is Some,
            forall|j: int| 0 <= j < n ==> !(#[trigger] charge_overflows(
                before[j],
                amount,
                share_of(s, before[j].wallet).unwrap(),
            )),
            forall|j: int| 0 <= j < i ==> ctx.participants@[j] == #[trigger] charged(before[j], s, amount),
            forall|j: int| i <= j < n ==> ctx.participants@[j] == #[trigger] before[j],
        decreases n - i,
    {
        let q = ctx.participants[i];
        assert(share_of(s, before[i as int].wallet) is Some);
        let pct = find_share(&ctx.proposal.spendings, &q.wallet).unwrap();
        assert(!charge_overflows(before[i as int], amount, pct));
        let share = amount * (pct as u64) / 100;
        let updated = Participant { spent: q.spent + share, ..q };
        ctx.participants.set(i, updated);
        i = i + 1;
    }
    ctx.proposal.settled = true;
    assert(ctx.participants@ =~= Seq::new(n as nat, |j: int| charged(before[j], s, amount)));
    Ok(())
}

/// Whether `x` can be held in an `i64`.
pub open spec fn fits_i64(x: int) -> bool {
    i64::MIN <= x <= i64::MAX
}

/// Entry `q` with its net balance written.
pub open spec fn with_net_owed(q: Participant) -> Participant {
    Participant { net_owed: (q.contributed - q.spent) as i64, ..q }
}

/// Whether every entry of `ps` is the one of a whitelisted wallet or of the creator of event
/// `e`, in that event.
pub open spec fn all_expected(e: EventView, ps: Seq<Participant>) -> bool {
    forall|i: int| 0 <= i < ps.len() ==> #[trigger] expected_entry(e, ps[i])
}

/// Whether `q` is the entry of a whitelisted wallet or of the creator of event `e`, in that
/// event.
pub open spec fn expected_entry(e: EventView, q: Participant) -> bool {
    e.expected_wallets().contains(q.wallet) && q.event_id == e.event_id
}

/// Whether no two entries of `ps` are of the same wallet.
pub open spec fn distinct_wallets(ps: Seq<Participant>) -> bool {
    forall|i: int, j: int| 0 <= i < j < ps.len() ==> ps[i].wallet != ps[j].wallet
}

/// What settling settlement proposal `p` of event `e` does to the event, the proposal and the
/// supplied ledger entries `ps`, or the error that refuses it.
pub open spec fn settle_event_result(
    event_key: Identity,
    e: EventView,
    p: ProposalView,
    ps: Seq<Participant>,
    now: i64,
) -> Result<(EventView, ProposalView, Seq<Participant>), PayraError> {
    if p.settled {
        Err(PayraError::AlreadySettled)
    } else if !(now > p.deadline || p.total_votes() == e.settlement_voters()) {
        Err(PayraError::TooEarlyToSettle)
    } else if p.yes_votes.len() * 100 > u64::MAX {
        Err(PayraError::MathOverflow)
    } else if !approves(p.yes_votes.len(), e.settlement_voters()) {
        Ok((e, ProposalView { cancelled: true, settled: true, ..p }, ps))
    } else if !all_in_event(ps, event_key) {
        Err(PayraError::InvalidParticipantEvent)
    } else if !all_expected(e, ps) || !distinct_wallets(ps) {
        Err(PayraError::InvalidParticipantAccounts)
    } else if exists|j: int| 0 <= j < e.expected_wallets().len() && !has_entry_in(ps, #[trigger] e.expected_wallets()[j], e.event_id) {
        Err(PayraError::MissingParticipantAccount)
    } else if exists|i: int| 0 <= i < ps.len() && !fits_i64(#[trigger] ps[i].contributed - ps[i].spent) {
        Err(PayraError::MathOverflow)
    } else {
        Ok(
            (
                EventView { is_finalized: true, ..e },
                ProposalView { settled: true, ..p },
                Seq::new(ps.len(), |i: int| with_net_owed(ps[i])),
            ),
        )
    }
}

/// The records that the final settlement of an event reads and writes.
pub struct SettleEvent {
    /// Whoever submits the settlement; any identity may.
    pub signer: Identity,
    /// Address of the event record.
    pub event_key: Identity,
    pub event: Event,
    pub proposal: Proposal,
    /// The ledger entries of every whitelisted wallet and of the creator.
    pub participants: Vec<Participant>,
}

/// Whether `ps` holds an entry of wallet `w` in the event numbered `event_id`.
fn find_entry_in(ps: &Vec<Participant>, w: &Identity, event_id: u64) -> (r: bool)
    ensures
        r == has_entry_in(ps@, *w, event_id),
{
    let mut i: usize = 0;
    while i < ps.len()
        invariant
            0 <= i <= ps.len(),
            forall|j: int| 0 <= j < i ==> !(ps@[j].wallet == *w && ps@[j].event_id == event_id),
        decreases ps.len() - i,
    {
        if ps[i].wallet == *w && ps[i].event_id == event_id {
            return true;
        }
        i = i + 1;
    }
    false
}

/// Whether every entry of `ps` is the one of a whitelisted wallet or of the creator of `e`, in
/// that event.
fn check_expected(e: &Event, ps: &Vec<Participant>) -> (r: bool)
    ensures
        r == all_expected(e@, ps@),
{
    let mut i: usize = 0;
    while i < ps.len()
        invariant
            0 <= i <= ps.len(),
            forall|k: int| 0 <= k < i ==> #[trigger] expected_entry(e@, ps@[k]),
        decreases ps.len() - i,
    {
        let w = ps[i].wallet;
        let known = contains_identity(&e.whitelist, &w) || w == e.creator;
        proof {
            let ex = e@.expected_wallets();
            if e.whitelist@.contains(w) {
                let k = choose|k: int| 0 <= k < e.whitelist@.len() && e.whitelist@[k] == w;
                assert(ex[k] == w);
                assert(ex.contains(w));
            }
            if w == e.creator {
                assert(ex[ex.len() - 1] == w);
                assert(ex.contains(w));
            }
            assert(ps@[i as int].wallet == w);
            if ex.contains(w) {
                let k = choose|k: int| 0 <= k < ex.len() && ex[k] == w;
                if k < e.whitelist@.len() {
                    assert(e.whitelist@[k] == w);
                    assert(e.whitelist@.contains(w));
                } else {
                    assert(ex[k] == e.creator);
                }
            }
        }
        if !known || ps[i].event_id != e.event_id {
            assert(!expected_entry(e@, ps@[i as int]));
            return false;
        }
        assert(expected_entry(e@, ps@[i as int]));
        i = i + 1;
    }
    true
}

/// Whether no two entries of `ps` are of the same wallet.
fn check_distinct(ps: &Vec<Participant>) -> (r: bool)
    ensures
        r == distinct_wallets(ps@),
{
    let n = ps.len();
    let mut i: usize = 0;
    while i < n
        invariant
            0 <= i <= n,
            n == ps.len(),
            forall|a: int, b: int| 0 <= a < b < i ==> ps@[a].wallet != ps@[b].wallet,
        decreases n - i,
    {
        let mut j: usize = 0;
        while j < i
            invariant
                0 <= j <= i < n,
                n == ps.len(),
                forall|a: int, b: int| 0 <= a < b < i ==> ps@[a].wallet != ps@[b].wallet,
                forall|a: int| 0 <= a < j ==> ps@[a].wallet != ps@[i as int].wallet,
            decreases i - j,
        {
            if ps[j].wallet == ps[i].wallet {
                return false;
            }
            j = j + 1;
        }
        i = i + 1;
    }
    true
}

/// Settles an event-settlement proposal: the event's books are closed.
///
/// A proposal that fewer than half of the eligible voters (the whitelist and the creator)
/// approved is rejected: it is marked cancelled and settled and nothing else changes.
/// Otherwise every ledger entry gets its net balance `contributed - spent`, the event is marked
/// finalized and the proposal settled; paying the balances out is left to the host. The entries
/// supplied must be exactly those of the whitelisted wallets and the creator, one each: an
/// entry of another event fails with `InvalidParticipantEvent`, one of another wallet or a
/// second one of a wallet with `InvalidParticipantAccounts`, and a missing one with
/// `MissingParticipantAccount`. On an error nothing changes.
#[verifier::loop_isolation(false)]
pub fn settle_event_handler(ctx: &mut SettleEvent, now: i64) -> (r: Result<(), PayraError>)
    ensures
        match settle_event_result(
            old(ctx).event_key,
            old(ctx).event@,
            old(ctx).proposal@,
            old(ctx).participants@,
            now,
        ) {
            Ok((e, p, ps)) => r == Ok::<(), PayraError>(()) && final(ctx).event@ == e
                && final(ctx).proposal@ == p && final(ctx).participants@ == ps,
            Err(err) => r == Err::<(), PayraError>(err) && final(ctx).event@ == old(ctx).event@
                && final(ctx).proposal@ == old(ctx).proposal@
                && final(ctx).participants@ == old(ctx).participants@,
        },
        old(ctx).event@.wf() ==> final(ctx).event@.wf(),
        old(ctx).proposal@.wf() ==> final(ctx).proposal@.wf(),
        final(ctx).event_key == old(ctx).event_key,
        final(ctx).signer == old(ctx).signer,
{
    if ctx.proposal.settled {
        return Err(PayraError::AlreadySettled);
    }
    let eligible = ctx.event.whitelist.len() as u128 + 1;
    let yes = ctx.proposal.yes_votes.len() as u128;
    let total_votes = yes + ctx.proposal.no_votes.len() as u128;
    if !(now > ctx.proposal.deadline || total_votes == eligible) {
        return Err(PayraError::TooEarlyToSettle);
    }
    if yes * 100 > u64::MAX as u128 {
        return Err(PayraError::MathOverflow);
    }
    if yes * 100 / eligible < 50 {
        ctx.proposal.cancelled = true;
        ctx.proposal.settled = true;
        return Ok(());
    }
    if !check_event(&ctx.participants, &ctx.event_key) {
        return Err(PayraError::InvalidParticipantEvent);
    }
    if !check_expected(&ctx.event, &ctx.participants) || !check_distinct(&ctx.participants) {
        return Err(PayraError::InvalidParticipantAccounts);
    }
    let ghost expected = ctx.event@.expected_wallets();
    let wl = ctx.event.whitelist.len();
    let mut j: usize = 0;
    while j < wl
        invariant
            0 <= j <= wl,
            wl == ctx.event.whitelist.len(),
            *ctx == *old(ctx),
            forall|k: int| 0 <= k < j ==> has_entry_in(ctx.participants@, #[trigger] expected[k], ctx.event.event_id),
        decreases wl - j,
    {
        if !find_entry_in(&ctx.participants, &ctx.event.whitelist[j], ctx.event.event_id) {
            assert(!has_entry_in(ctx.participants@, expected[j as int], ctx.event.event_id));
            return Err(PayraError::MissingParticipantAccount);
        }
        j = j + 1;
    }
    if !find_entry_in(&ctx.participants, &ctx.event.creator, ctx.event.event_id) {
        assert(!has_entry_in(ctx.participants@, expected[wl as int], ctx.event.event_id));
        return Err(PayraError::MissingParticipantAccount);
    }
    assert(forall|k: int| 0 <= k < expected.len() ==> has_entry_in(ctx.participants@, #[trigger] expected[k], ctx.event.event_id));
    let n = ctx.participants.len();
    let mut i: usize = 0;
    while i < n
        invariant
            0 <= i <= n,
            n == ctx.participants.len(),
            *ctx == *old(ctx),
            forall|k: int| 0 <= k < i ==> fits_i64(#[trigger] ctx.participants@[k].contributed - ctx.participants@[k].spent),
        decreases n - i,
    {
        let q = ctx.participants[i];
        let diff = (q.contributed as i128) - (q.spent as i128);
        if diff > i64::MAX as i128 || diff < i64::MIN as i128 {
            return Err(PayraError::MathOverflow);
        }
        i = i + 1;
    }
    let ghost before = ctx.participants@;
    let mut i: usize = 0;
    while i < n
        invariant
            0 <= i <= n,
            n == ctx.participants.len(),
            before.len() == n,
            before == old(ctx).participants@,
            ctx.event == old(ctx).event,
            ctx.proposal == old(ctx).proposal,
            ctx.event_key == old(ctx).event_key,
            ctx.signer == old(ctx).signer,
            forall|k: int| 0 <= k < n ==> fits_i64(#[trigger] before[k].contributed - before[k].spent),
            forall|k: int| 0 <= k < i ==> ctx.participants@[k] == #[trigger] with_net_owed(before[k]),
            forall|k: int| i <= k < n ==> ctx.participants@[k] == #[trigger] before[k],
        decreases n - i,
    {
        let q = ctx.participants[i];
        assert(fits_i64(before[i as int].contributed - before[i as int].spent));
        let net = ((q.contributed as i128) - (q.spent as i128)) as i64;
        let updated = Participant { net_owed: net, ..q };
        ctx.participants.set(i, updated);
        i = i + 1;
    }
    ctx.event.is_finalized = true;
    ctx.proposal.settled = true;
    assert(ctx.participants@ =~= Seq::new(n as nat, |k: int| with_net_owed(before[k])));
    Ok(())
}

} // verus!
