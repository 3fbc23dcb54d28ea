use payra::{
    close_event, contribute, create_event, initialize, settle_event_handler,
    settle_proposal_handler, whitelist, CloseEvent, Contribute, CreateEvent, CreateProposal,
    CreateSettleProposal, Event, EventArgs, EventCounter, Identity, Initialize, Participant,
    PayraError, Proposal, ProposalType, SettleEvent, SettleProposal, SpendingShare, Vote, Whitelist,
};

const T: i64 = 1_000;

fn id(n: u8) -> Identity {
    Identity { bytes: [n; 32] }
}

fn blank_event() -> Event {
    Event {
        event_id: 0,
        creator: id(0),
        withdraw_token_account: id(0),
        target_amount: 0,
        total_contributed: 0,
        total_spent: 0,
        whitelist: Vec::new(),
        is_cancelled: false,
        is_finalized: false,
        deadline: 0,
        name: String::new(),
        proposal_count: 0,
    }
}

fn blank_proposal() -> Proposal {
    Proposal {
        proposal_id: 0,
        title: String::new(),
        amount: 0,
        proposal_type: ProposalType::Spending,
        spendings: Vec::new(),
        yes_votes: Vec::new(),
        no_votes: Vec::new(),
        creator: id(0),
        deadline: 0,
        settled: false,
        cancelled: false,
    }
}

/// An event made by wallet 1, with withdraw account 99, target `target`, deadline `deadline`,
/// and the given whitelist.
fn event_with(target: u64, deadline: i64, members: &[u8]) -> Event {
    let mut e = blank_event();
    e.event_id = 7;
    e.creator = id(1);
    e.withdraw_token_account = id(99);
    e.target_amount = target;
    e.deadline = deadline;
    e.name = "trip".to_string();
    e.whitelist = members.iter().map(|m| id(*m)).collect();
    e
}

fn entry(wallet: u8, contributed: u64, spent: u64) -> Participant {
    Participant {
        event: id(200),
        event_id: 7,
        wallet: id(wallet),
        contributed,
        spent,
        refunded: false,
        net_owed: 0,
    }
}

fn share(wallet: u8, percentage: u8) -> SpendingShare {
    SpendingShare { wallet: id(wallet), percentage }
}

fn contribute_as(event: Event, entry: Option<Participant>, who: u8, amount: u64, now: i64) -> (Contribute, Result<(), PayraError>) {
    let mut ctx = Contribute { contributor: id(who), event_key: id(200), event, participant: entry };
    let r = contribute(&mut ctx, amount, now);
    (ctx, r)
}

// ---------------------------------------------------------------- counter and event creation

#[test]
fn initialize_starts_counter_at_zero() {
    let mut ctx = Initialize { admin: id(1), event_counter: EventCounter { count: 42 } };
    assert_eq!(initialize(&mut ctx), Ok(()));
    assert_eq!(ctx.event_counter.count, 0);
}

#[test]
fn next_id_hands_out_increasing_ids() {
    let mut c = EventCounter { count: 5 };
    assert_eq!(c.next_id(), Ok(5));
    assert_eq!(c.next_id(), Ok(6));
    assert_eq!(c.count, 7);
}

#[test]
fn next_id_overflow() {
    let mut c = EventCounter { count: u64::MAX };
    assert_eq!(c.next_id(), Err(PayraError::EventCounterOverflow));
    assert_eq!(c.count, u64::MAX);
}

#[test]
fn create_event_sets_fields_and_advances_counter() {
    let mut ctx = CreateEvent {
        creator: id(1),
        withdraw_account: id(99),
        event_counter: EventCounter { count: 3 },
        event: blank_event(),
    };
    let args = EventArgs { name: "party".to_string(), deadline: T + 10, target_amount: 1000 };
    assert_eq!(create_event(&mut ctx, args, T), Ok(3));
    assert_eq!(ctx.event_counter.count, 4);
    assert_eq!(ctx.event.event_id, 3);
    assert_eq!(ctx.event.creator, id(1));
    assert_eq!(ctx.event.withdraw_token_account, id(99));
    assert_eq!(ctx.event.target_amount, 1000);
    assert_eq!(ctx.event.total_contributed, 0);
    assert_eq!(ctx.event.deadline, T + 10);
    assert_eq!(ctx.event.name, "party");
    assert!(ctx.event.whitelist.is_empty());
    assert!(!ctx.event.is_cancelled && !ctx.event.is_finalized);
}

#[test]
fn create_event_name_limits() {
    let mk = || CreateEvent {
        creator: id(1),
        withdraw_account: id(99),
        event_counter: EventCounter { count: 0 },
        event: blank_event(),
    };
    let mut ok = mk();
    let args = EventArgs { name: "a".repeat(32), deadline: T + 1, target_amount: 1 };
    assert_eq!(ok.create_event(args, T), Ok(0));
    let mut long = mk();
    let args = EventArgs { name: "a".repeat(33), deadline: T + 1, target_amount: 1 };
    assert_eq!(long.create_event(args, T), Err(PayraError::NameTooLong));
    assert_eq!(long.event_counter.count, 0);
}

#[test]
fn create_event_deadline_must_be_future() {
    let mut ctx = CreateEvent {
        creator: id(1),
        withdraw_account: id(99),
        event_counter: EventCounter { count: 0 },
        event: blank_event(),
    };
    let args = EventArgs { name: "x".to_string(), deadline: T, target_amount: 1 };
    assert_eq!(ctx.create_event(args, T), Err(PayraError::InvalidDeadline));
    assert_eq!(ctx.event_counter.count, 0);
}

#[test]
fn create_event_counter_overflow() {
    let mut ctx = CreateEvent {
        creator: id(1),
        withdraw_account: id(99),
        event_counter: EventCounter { count: u64::MAX },
        event: blank_event(),
    };
    let args = EventArgs { name: "x".to_string(), deadline: T + 1, target_amount: 1 };
    assert_eq!(ctx.create_event(args, T), Err(PayraError::EventCounterOverflow));
}

// ---------------------------------------------------------------- closing

#[test]
fn close_event_before_deadline_fails() {
    let mut ctx = CloseEvent { creator: id(1), event: event_with(1000, T + 10, &[]) };
    assert_eq!(close_event(&mut ctx, T + 9), Err(PayraError::DeadlineNotReached));
    assert!(!ctx.event.is_cancelled);
}

#[test]
fn close_event_target_met_fails() {
    let mut e = event_with(1000, T + 10, &[]);
    e.total_contributed = 1000;
    let mut ctx = CloseEvent { creator: id(1), event: e };
    assert_eq!(close_event(&mut ctx, T + 10), Err(PayraError::TargetMetAlready));
    assert!(!ctx.event.is_cancelled);
}

#[test]
fn close_event_cancels() {
    let mut e = event_with(1000, T + 10, &[]);
    e.total_contributed = 999;
    let mut ctx = CloseEvent { creator: id(1), event: e };
    assert_eq!(close_event(&mut ctx, T + 10), Ok(()));
    assert!(ctx.event.is_cancelled);
}

// ---------------------------------------------------------------- whitelist

#[test]
fn whitelist_adds_in_order() {
    let mut ctx = Whitelist { creator: id(1), event: event_with(1000, T + 10, &[2]) };
    assert_eq!(whitelist(&mut ctx, vec![id(3), id(4)]), Ok(()));
    assert_eq!(ctx.event.whitelist, vec![id(2), id(3), id(4)]);
}

#[test]
fn whitelist_needs_creator() {
    let mut ctx = Whitelist { creator: id(2), event: event_with(1000, T + 10, &[]) };
    assert_eq!(ctx.whitelist(vec![id(3)]), Err(PayraError::Unauthorised));
    assert!(ctx.event.whitelist.is_empty());
}

#[test]
fn whitelist_full_and_duplicate_at_capacity() {
    let members: Vec<u8> = (10..20).collect();
    let mut ctx = Whitelist { creator: id(1), event: event_with(1000, T + 10, &members) };
    assert_eq!(ctx.whitelist(vec![id(50)]), Err(PayraError::WhitelistFull));
    assert_eq!(ctx.event.whitelist.len(), 10);
    assert_eq!(ctx.whitelist(vec![id(10)]), Err(PayraError::DuplicateWallet));
    assert_eq!(ctx.event.whitelist.len(), 10);
    let mut ctx = Whitelist { creator: id(1), event: event_with(1000, T + 10, &members[..9]) };
    assert_eq!(ctx.whitelist(vec![id(50), id(51)]), Err(PayraError::WhitelistFull));
    assert_eq!(ctx.event.whitelist.len(), 9);
}

#[test]
fn whitelist_batch_duplicates_admit_nothing() {
    let mut ctx = Whitelist { creator: id(1), event: event_with(1000, T + 10, &[2]) };
    assert_eq!(ctx.whitelist(vec![id(3), id(4), id(3)]), Err(PayraError::DuplicateWallet));
    assert_eq!(ctx.event.whitelist, vec![id(2)]);
    assert_eq!(ctx.whitelist(vec![id(5), id(2)]), Err(PayraError::DuplicateWallet));
    assert_eq!(ctx.event.whitelist, vec![id(2)]);
}

#[test]
fn whitelist_fills_to_exactly_ten() {
    let mut ctx = Whitelist { creator: id(1), event: event_with(1000, T + 10, &[2, 3]) };
    let batch: Vec<Identity> = (30..38).map(id).collect();
    assert_eq!(ctx.whitelist(batch), Ok(()));
    assert_eq!(ctx.event.whitelist.len(), 10);
}

// ---------------------------------------------------------------- contributions

#[test]
fn contributions_and_deadline_scenario() {
    let e = event_with(1000, T + 10, &[2, 3]);
    let (ctx, r) = contribute_as(e, None, 2, 400, T);
    assert_eq!(r, Ok(()));
    let first = ctx.participant.unwrap();
    assert_eq!(first.contributed, 400);
    let (ctx, r) = contribute_as(ctx.event, None, 3, 700, T + 5);
    assert_eq!(r, Ok(()));
    assert_eq!(ctx.event.total_contributed, 1100);
    assert_eq!(first.contributed + ctx.participant.unwrap().contributed, 1100);
    let (ctx, r) = contribute_as(ctx.event, Some(first), 2, 50, T + 11);
    assert_eq!(r, Err(PayraError::DeadlineAlreadyReached));
    assert_eq!(ctx.event.total_contributed, 1100);
    assert_eq!(ctx.participant.unwrap().contributed, 400);
}

#[test]
fn contribute_creates_entry() {
    let (ctx, r) = contribute_as(event_with(1000, T + 10, &[2]), None, 2, 25, T);
    assert_eq!(r, Ok(()));
    let q = ctx.participant.unwrap();
    assert_eq!(q.event, id(200));
    assert_eq!(q.event_id, 7);
    assert_eq!(q.wallet, id(2));
    assert_eq!(q.contributed, 25);
    assert_eq!(q.spent, 0);
    assert!(!q.refunded);
}

#[test]
fn contribute_adds_to_entry() {
    let mut e = event_with(1000, T + 10, &[2]);
    e.total_contributed = 10;
    let (ctx, r) = contribute_as(e, Some(entry(2, 10, 3)), 2, 5, T);
    assert_eq!(r, Ok(()));
    let q = ctx.participant.unwrap();
    assert_eq!((q.contributed, q.spent), (15, 3));
    assert_eq!(ctx.event.total_contributed, 15);
}

#[test]
fn contribute_at_deadline_fails() {
    let (_, r) = contribute_as(event_with(1000, T + 10, &[2]), None, 2, 5, T + 10);
    assert_eq!(r, Err(PayraError::DeadlineAlreadyReached));
}

#[test]
fn contribute_needs_whitelist() {
    let (ctx, r) = contribute_as(event_with(1000, T + 10, &[2]), None, 1, 5, T);
    assert_eq!(r, Err(PayraError::NotWhitelisted));
    assert!(ctx.participant.is_none());
    assert_eq!(ctx.event.total_contributed, 0);
}

#[test]
fn contribute_to_cancelled_event_fails() {
    let mut e = event_with(1000, T + 10, &[2]);
    e.is_cancelled = true;
    let (_, r) = contribute_as(e, None, 2, 5, T);
    assert_eq!(r, Err(PayraError::EventCancelled));
}

#[test]
fn contribute_overflow_leaves_nothing() {
    let mut e = event_with(1000, T + 10, &[2]);
    e.total_contributed = u64::MAX - 1;
    let (ctx, r) = contribute_as(e, Some(entry(2, 1, 0)), 2, 2, T);
    assert_eq!(r, Err(PayraError::ContributionOverflow));
    assert_eq!(ctx.event.total_contributed, u64::MAX - 1);
    assert_eq!(ctx.participant.unwrap().contributed, 1);
    let (_, r) = contribute_as(event_with(1000, T + 10, &[2]), Some(entry(2, u64::MAX, 0)), 2, 1, T);
    assert_eq!(r, Err(PayraError::ContributionOverflow));
}

// ---------------------------------------------------------------- proposals

fn propose(event: Event, who: u8, title: &str, spendings: Vec<SpendingShare>, deadline: i64) -> (CreateProposal, Result<(), PayraError>) {
    let mut ctx = CreateProposal { creator: id(who), event, proposal: blank_proposal() };
    let r = ctx.create_proposal(title.to_string(), 500, spendings, deadline, T);
    (ctx, r)
}

#[test]
fn create_proposal_sets_fields() {
    let mut e = event_with(1000, T + 10, &[2, 3]);
    e.proposal_count = 4;
    let (ctx, r) = propose(e, 2, "food", vec![share(2, 60), share(3, 40)], T + 5);
    assert_eq!(r, Ok(()));
    assert_eq!(ctx.event.proposal_count, 5);
    let p = ctx.proposal;
    assert_eq!(p.proposal_id, 4);
    assert_eq!(p.title, "food");
    assert_eq!(p.amount, 500);
    assert_eq!(p.proposal_type, ProposalType::Spending);
    assert_eq!(p.spendings.len(), 2);
    assert_eq!(p.creator, id(2));
    assert_eq!(p.deadline, T + 5);
    assert!(p.yes_votes.is_empty() && p.no_votes.is_empty() && !p.settled && !p.cancelled);
}

#[test]
fn create_proposal_percentages_99_and_101_fail() {
    let e = event_with(1000, T + 10, &[2, 3]);
    let (ctx, r) = propose(e.clone(), 2, "food", vec![share(2, 60), share(3, 39)], T + 5);
    assert_eq!(r, Err(PayraError::InvalidPercentage));
    assert_eq!(ctx.event.proposal_count, 0);
    let (_, r) = propose(e, 2, "food", vec![share(2, 60), share(3, 41)], T + 5);
    assert_eq!(r, Err(PayraError::InvalidPercentage));
}

#[test]
fn create_proposal_large_percentages_fail() {
    let e = event_with(1000, T + 10, &[2]);
    let many: Vec<SpendingShare> = (0..300).map(|_| share(2, 255)).collect();
    let (_, r) = propose(e, 2, "food", many, T + 5);
    assert_eq!(r, Err(PayraError::InvalidPercentage));
}

#[test]
fn create_proposal_errors() {
    let e = event_with(1000, T + 10, &[2]);
    let (_, r) = propose(e.clone(), 1, "food", vec![share(2, 100)], T + 5);
    assert_eq!(r, Err(PayraError::NotWhitelisted));
    let (_, r) = propose(e.clone(), 2, "food", vec![], T + 5);
    assert_eq!(r, Err(PayraError::NoParticipants));
    let (_, r) = propose(e.clone(), 2, "food", vec![share(2, 100)], T);
    assert_eq!(r, Err(PayraError::InvalidDeadline));
    let (_, r) = propose(e.clone(), 2, &"t".repeat(33), vec![share(2, 100)], T + 5);
    assert_eq!(r, Err(PayraError::NameTooLong));
    let (_, r) = propose(e.clone(), 2, &"t".repeat(33), vec![share(2, 99)], T + 5);
    assert_eq!(r, Err(PayraError::InvalidPercentage));
    let (_, r) = propose(e.clone(), 1, &"t".repeat(33), vec![share(2, 100)], T + 5);
    assert_eq!(r, Err(PayraError::NotWhitelisted));
    let (_, r) = propose(e.clone(), 2, &"t".repeat(33), vec![share(2, 100)], T);
    assert_eq!(r, Err(PayraError::InvalidDeadline));
    let mut full = e;
    full.proposal_count = u16::MAX;
    let (_, r) = propose(full, 2, "food", vec![share(2, 100)], T + 5);
    assert_eq!(r, Err(PayraError::ProposalCounterOverflow));
}

#[test]
fn create_settle_proposal_by_creator() {
    let mut ctx = CreateSettleProposal {
        creator: id(1),
        event: event_with(1000, T + 10, &[2]),
        proposal: blank_proposal(),
    };
    assert_eq!(ctx.create_settle_proposal(T + 20, T), Ok(()));
    assert_eq!(ctx.proposal.title, "Settlement");
    assert_eq!(ctx.proposal.amount, 0);
    assert_eq!(ctx.proposal.proposal_type, ProposalType::EventSettlement);
    assert!(ctx.proposal.spendings.is_empty());
    assert_eq!(ctx.proposal.proposal_id, 0);
    assert_eq!(ctx.event.proposal_count, 1);
}

#[test]
fn create_settle_proposal_errors() {
    let mk = |who: u8| CreateSettleProposal {
        creator: id(who),
        event: event_with(1000, T + 10, &[2]),
        proposal: blank_proposal(),
    };
    assert_eq!(mk(2).create_settle_proposal(T + 1, T), Ok(()));
    assert_eq!(mk(5).create_settle_proposal(T + 1, T), Err(PayraError::NotWhitelisted));
    assert_eq!(mk(2).create_settle_proposal(T, T), Err(PayraError::InvalidDeadline));
    let mut full = mk(2);
    full.event.proposal_count = u16::MAX;
    assert_eq!(full.create_settle_proposal(T + 1, T), Err(PayraError::ProposalCounterOverflow));
}

// ---------------------------------------------------------------- voting

fn spending_proposal(shares: Vec<SpendingShare>, amount: u64, deadline: i64) -> Proposal {
    let mut p = blank_proposal();
    p.amount = amount;
    p.spendings = shares;
    p.deadline = deadline;
    p
}

fn settlement_proposal(deadline: i64) -> Proposal {
    let mut p = blank_proposal();
    p.proposal_type = ProposalType::EventSettlement;
    p.title = "Settlement".to_string();
    p.deadline = deadline;
    p
}

#[test]
fn vote_twice_fails() {
    let mut ctx = Vote {
        voter: id(2),
        event: event_with(1000, T + 10, &[2, 3]),
        proposal: spending_proposal(vec![share(2, 50), share(3, 50)], 100, T + 5),
    };
    assert_eq!(ctx.vote(true, T), Ok(()));
    assert_eq!(ctx.proposal.yes_votes, vec![id(2)]);
    assert_eq!(ctx.vote(false, T), Err(PayraError::AlreadyVoted));
    assert_eq!(ctx.vote(true, T + 5), Err(PayraError::AlreadyVoted));
    assert_eq!(ctx.vote(true, T + 100), Err(PayraError::ProposalExpired));
    assert_eq!(ctx.proposal.yes_votes, vec![id(2)]);
    assert!(ctx.proposal.no_votes.is_empty());
}

#[test]
fn vote_no_is_recorded() {
    let mut ctx = Vote {
        voter: id(3),
        event: event_with(1000, T + 10, &[2, 3]),
        proposal: spending_proposal(vec![share(2, 50), share(3, 50)], 100, T + 5),
    };
    assert_eq!(ctx.vote(false, T + 5), Ok(()));
    assert_eq!(ctx.proposal.no_votes, vec![id(3)]);
}

#[test]
fn vote_errors() {
    let mk = |who: u8, p: Proposal| Vote { voter: id(who), event: event_with(1000, T + 10, &[2, 3]), proposal: p };
    let sp = || spending_proposal(vec![share(2, 100)], 100, T + 5);
    assert_eq!(mk(2, sp()).vote(true, T + 6), Err(PayraError::ProposalExpired));
    assert_eq!(mk(3, sp()).vote(true, T), Err(PayraError::NotAuthorizedToVote));
    assert_eq!(mk(9, settlement_proposal(T + 5)).vote(true, T), Err(PayraError::NotAuthorizedToVote));
    assert_eq!(mk(1, settlement_proposal(T + 5)).vote(true, T), Ok(()));
    assert_eq!(mk(3, settlement_proposal(T + 5)).vote(false, T), Ok(()));
    let mut settled = sp();
    settled.settled = true;
    assert_eq!(mk(2, settled.clone()).vote(true, T), Err(PayraError::AlreadySettled));
    assert_eq!(mk(2, settled.clone()).vote(true, T + 6), Err(PayraError::ProposalExpired));
    assert_eq!(mk(3, settled).vote(true, T), Err(PayraError::NotAuthorizedToVote));
}

// ---------------------------------------------------------------- spending settlement

fn settle_ctx(p: Proposal, participants: Vec<Participant>) -> SettleProposal {
    SettleProposal {
        signer: id(4),
        event_key: id(200),
        event: event_with(1000, T + 10, &[1, 2, 3]),
        proposal: p,
        withdraw_account: id(99),
        participants,
    }
}

#[test]
fn spending_settlement_splits_by_share() {
    let mut p = spending_proposal(vec![share(10, 60), share(11, 40)], 500, T + 5);
    p.yes_votes = vec![id(10), id(11)];
    let mut ctx = settle_ctx(p, vec![entry(11, 300, 0), entry(10, 600, 7)]);
    assert_eq!(settle_proposal_handler(&mut ctx, T), Ok(()));
    assert!(ctx.proposal.settled && !ctx.proposal.cancelled);
    assert_eq!(ctx.participants[0].spent, 200);
    assert_eq!(ctx.participants[1].spent, 307);
    assert_eq!(ctx.participants[0].spent + ctx.participants[1].spent - 7, 500);
    assert_eq!(ctx.participants[1].contributed, 600);
    assert_eq!(settle_proposal_handler(&mut ctx, T + 50), Err(PayraError::AlreadySettled));
    assert_eq!(ctx.participants[1].spent, 307);
}

#[test]
fn spending_settlement_rounds_down() {
    let mut p = spending_proposal(vec![share(10, 33), share(11, 67)], 10, T + 5);
    p.yes_votes = vec![id(10), id(11)];
    let mut ctx = settle_ctx(p, vec![entry(10, 0, 0), entry(11, 0, 0)]);
    assert_eq!(settle_proposal_handler(&mut ctx, T), Ok(()));
    assert_eq!(ctx.participants[0].spent, 3);
    assert_eq!(ctx.participants[1].spent, 6);
}

#[test]
fn spending_settlement_rejected_by_no_vote() {
    let mut p = spending_proposal(vec![share(10, 60), share(11, 40)], 500, T + 5);
    p.yes_votes = vec![id(10)];
    p.no_votes = vec![id(11)];
    let mut ctx = settle_ctx(p, vec![]);
    assert_eq!(settle_proposal_handler(&mut ctx, T), Ok(()));
    assert!(ctx.proposal.settled && ctx.proposal.cancelled);
    assert!(ctx.participants.is_empty());
}

#[test]
fn spending_settlement_rejected_without_majority() {
    let mut p = spending_proposal(vec![share(10, 30), share(11, 30), share(12, 40)], 500, T + 5);
    p.yes_votes = vec![id(10)];
    let mut ctx = settle_ctx(p, vec![entry(10, 0, 0), entry(11, 0, 0), entry(12, 0, 0)]);
    assert_eq!(settle_proposal_handler(&mut ctx, T + 6), Ok(()));
    assert!(ctx.proposal.settled && ctx.proposal.cancelled);
    assert_eq!(ctx.participants[0].spent, 0);
    let mut silent = spending_proposal(vec![share(10, 100)], 500, T + 5);
    silent.yes_votes = vec![];
    let mut ctx = settle_ctx(silent, vec![entry(10, 0, 0)]);
    assert_eq!(settle_proposal_handler(&mut ctx, T + 6), Ok(()));
    assert!(ctx.proposal.cancelled);
    assert_eq!(ctx.participants[0].spent, 0);
}

#[test]
fn spending_settlement_too_early_then_after_deadline() {
    let mut p = spending_proposal(vec![share(10, 60), share(11, 40)], 500, T + 5);
    p.yes_votes = vec![id(10)];
    let mut ctx = settle_ctx(p, vec![entry(10, 0, 0), entry(11, 0, 0)]);
    assert_eq!(settle_proposal_handler(&mut ctx, T + 5), Err(PayraError::TooEarlyToSettle));
    assert!(!ctx.proposal.settled);
    assert_eq!(settle_proposal_handler(&mut ctx, T + 6), Ok(()));
    assert_eq!(ctx.participants[1].spent, 200);
}

#[test]
fn spending_settlement_errors() {
    let voted = || {
        let mut p = spending_proposal(vec![share(10, 60), share(11, 40)], 500, T + 5);
        p.yes_votes = vec![id(10), id(11)];
        p
    };
    let mut ctx = settle_ctx(voted(), vec![entry(10, 0, 0), entry(11, 0, 0)]);
    ctx.withdraw_account = id(98);
    assert_eq!(settle_proposal_handler(&mut ctx, T), Err(PayraError::InvalidWithdrawAccount));
    let mut ctx = settle_ctx(voted(), vec![entry(10, 0, 0)]);
    assert_eq!(settle_proposal_handler(&mut ctx, T), Err(PayraError::InvalidParticipantAccounts));
    let mut other = entry(11, 0, 0);
    other.event = id(201);
    let mut ctx = settle_ctx(voted(), vec![entry(10, 0, 0), other]);
    assert_eq!(settle_proposal_handler(&mut ctx, T), Err(PayraError::InvalidParticipantEvent));
    let mut ctx = settle_ctx(voted(), vec![entry(10, 0, 0), entry(12, 0, 0)]);
    assert_eq!(settle_proposal_handler(&mut ctx, T), Err(PayraError::InvalidParticipantWallet));
    let mut ctx = settle_ctx(voted(), vec![entry(10, 0, 0), entry(10, 0, 0)]);
    assert_eq!(settle_proposal_handler(&mut ctx, T), Err(PayraError::MissingParticipantAccount));
    let mut ctx = settle_ctx(voted(), vec![entry(10, 0, u64::MAX), entry(11, 0, 0)]);
    assert_eq!(settle_proposal_handler(&mut ctx, T), Err(PayraError::MathOverflow));
    assert_eq!(ctx.participants[1].spent, 0);
    assert!(!ctx.proposal.settled);
    let mut big = voted();
    big.amount = u64::MAX;
    let mut ctx = settle_ctx(big, vec![entry(10, 0, 0), entry(11, 0, 0)]);
    assert_eq!(settle_proposal_handler(&mut ctx, T), Err(PayraError::MathOverflow));
}

// ---------------------------------------------------------------- final settlement

fn final_ctx(p: Proposal, participants: Vec<Participant>) -> SettleEvent {
    SettleEvent {
        signer: id(4),
        event_key: id(200),
        event: event_with(1000, T + 10, &[2, 3, 4, 5]),
        proposal: p,
        participants,
    }
}

fn all_entries() -> Vec<Participant> {
    vec![entry(2, 100, 30), entry(3, 50, 80), entry(4, 0, 0), entry(5, 10, 0), entry(1, 5, 5)]
}

#[test]
fn final_settlement_waits_for_deadline() {
    let mut p = settlement_proposal(T + 5);
    p.yes_votes = vec![id(1), id(2), id(3)];
    let mut ctx = final_ctx(p, all_entries());
    assert_eq!(settle_event_handler(&mut ctx, T + 5), Err(PayraError::TooEarlyToSettle));
    assert!(!ctx.proposal.settled);
    assert_eq!(ctx.participants[0].net_owed, 0);
    assert_eq!(settle_event_handler(&mut ctx, T + 6), Ok(()));
    assert!(ctx.proposal.settled && !ctx.proposal.cancelled);
    assert!(ctx.event.is_finalized);
    let owed: Vec<i64> = ctx.participants.iter().map(|q| q.net_owed).collect();
    assert_eq!(owed, vec![70, -30, 0, 10, 0]);
    assert_eq!(settle_event_handler(&mut ctx, T + 7), Err(PayraError::AlreadySettled));
}

#[test]
fn final_settlement_early_on_full_participation() {
    let mut p = settlement_proposal(T + 5);
    p.yes_votes = vec![id(1), id(2), id(3)];
    p.no_votes = vec![id(4), id(5)];
    let mut ctx = final_ctx(p, all_entries());
    assert_eq!(settle_event_handler(&mut ctx, T), Ok(()));
    assert!(ctx.event.is_finalized);
}

#[test]
fn final_settlement_rejected_below_half() {
    let mut p = settlement_proposal(T + 5);
    p.yes_votes = vec![id(1), id(2)];
    p.no_votes = vec![id(3)];
    let mut ctx = final_ctx(p, all_entries());
    assert_eq!(settle_event_handler(&mut ctx, T + 6), Ok(()));
    assert!(ctx.proposal.settled && ctx.proposal.cancelled);
    assert!(!ctx.event.is_finalized);
    assert_eq!(ctx.participants[0].net_owed, 0);
}

#[test]
fn final_settlement_errors() {
    let approved = || {
        let mut p = settlement_proposal(T + 5);
        p.yes_votes = vec![id(1), id(2), id(3)];
        p
    };
    let mut short = all_entries();
    short.pop();
    let mut ctx = final_ctx(approved(), short);
    assert_eq!(settle_event_handler(&mut ctx, T + 6), Err(PayraError::MissingParticipantAccount));
    let mut extra = all_entries();
    extra.push(entry(9, 0, 0));
    let mut ctx = final_ctx(approved(), extra);
    assert_eq!(settle_event_handler(&mut ctx, T + 6), Err(PayraError::InvalidParticipantAccounts));
    let mut twice = all_entries();
    twice[4] = entry(2, 0, 0);
    let mut ctx = final_ctx(approved(), twice);
    assert_eq!(settle_event_handler(&mut ctx, T + 6), Err(PayraError::InvalidParticipantAccounts));
    let mut other_id = all_entries();
    other_id[0].event_id = 8;
    let mut ctx = final_ctx(approved(), other_id);
    assert_eq!(settle_event_handler(&mut ctx, T + 6), Err(PayraError::InvalidParticipantAccounts));
    let mut cross = all_entries();
    cross[2].event = id(201);
    let mut ctx = final_ctx(approved(), cross);
    assert_eq!(settle_event_handler(&mut ctx, T + 6), Err(PayraError::InvalidParticipantEvent));
    let mut stranger = all_entries();
    stranger[4] = entry(9, 0, 0);
    let mut ctx = final_ctx(approved(), stranger);
    assert_eq!(settle_event_handler(&mut ctx, T + 6), Err(PayraError::InvalidParticipantAccounts));
    let mut huge = all_entries();
    huge[1] = entry(3, u64::MAX, 0);
    let mut ctx = final_ctx(approved(), huge);
    assert_eq!(settle_event_handler(&mut ctx, T + 6), Err(PayraError::MathOverflow));
    assert_eq!(ctx.participants[0].net_owed, 0);
    assert!(!ctx.proposal.settled);
}

#[test]
fn final_settlement_with_whitelisted_creator() {
    let mut p = settlement_proposal(T + 5);
    p.yes_votes = vec![id(1), id(2), id(3)];
    let entries = vec![entry(1, 5, 0), entry(2, 9, 4), entry(3, 0, 0)];
    let mut ctx = SettleEvent {
        signer: id(4),
        event_key: id(200),
        event: event_with(1000, T + 10, &[1, 2, 3]),
        proposal: p.clone(),
        participants: entries.clone(),
    };
    assert_eq!(settle_event_handler(&mut ctx, T + 6), Ok(()));
    let owed: Vec<i64> = ctx.participants.iter().map(|q| q.net_owed).collect();
    assert_eq!(owed, vec![5, 5, 0]);
    let mut extra = entries;
    extra.push(entry(2, 9, 4));
    let mut ctx = SettleEvent {
        signer: id(4),
        event_key: id(200),
        event: event_with(1000, T + 10, &[1, 2, 3]),
        proposal: p,
        participants: extra,
    };
    assert_eq!(settle_event_handler(&mut ctx, T + 6), Err(PayraError::InvalidParticipantAccounts));
    assert!(!ctx.proposal.settled);
}

#[test]
fn spending_shares_round_down_within_one_per_share() {
    let mut p = spending_proposal(vec![share(10, 33), share(11, 33), share(12, 34)], 101, T + 5);
    p.yes_votes = vec![id(10), id(11), id(12)];
    let mut ctx = settle_ctx(p, vec![entry(10, 0, 0), entry(11, 0, 0), entry(12, 0, 0)]);
    assert_eq!(settle_proposal_handler(&mut ctx, T), Ok(()));
    let spent: Vec<u64> = ctx.participants.iter().map(|q| q.spent).collect();
    assert_eq!(spent, vec![33, 33, 34]);
    let total: u64 = spent.iter().sum();
    assert!(total <= 101 && 101 - total < 3);
}

#[test]
fn identity_equality() {
    let mut a = id(3);
    assert_eq!(a, id(3));
    a.bytes[31] = 4;
    assert_ne!(a, id(3));
}
