//! Contribution pools: time-boxed, target-amount campaigns whose pooled funds are
//! spent or settled by majority vote among whitelisted stakeholders.
//!
//! Every operation takes the current time and the caller's authenticated identity as
//! plain values, checks its preconditions, and either applies its whole effect or
//! returns a `PayraError` and leaves every record as it was. Token transfers and
//! persistent storage are left to the host.
use vstd::prelude::*;

pub mod error;
pub mod identity;
pub mod state;
pub mod event;
pub mod proposal;
pub mod settle;
pub mod laws;

pub use error::PayraError;
pub use identity::Identity;
pub use event::{CloseEvent, Contribute, CreateEvent, Initialize, Whitelist};
pub use proposal::{CreateProposal, CreateSettleProposal, Vote};
pub use settle::{settle_event_handler, settle_proposal_handler, SettleEvent, SettleProposal};
pub use state::{
    Event, EventArgs, EventCounter, EventView, Participant, Proposal, ProposalType, ProposalView,
    SpendingShare,
};

verus! {

/// Sets up the event counter; see [`Initialize::handler`].
pub fn initialize(ctx: &mut Initialize) -> (r: Result<(), PayraError>)
    ensures
        r is Ok,
        final(ctx).event_counter.count == 0,
        final(ctx).admin == old(ctx).admin,
{
    ctx.handler()
}

/// Opens an event; see [`CreateEvent::create_event`].
pub fn create_event(ctx: &mut CreateEvent, args: EventArgs, now: i64) -> (r: Result<u64, PayraError>)
    ensures
        match event::create_event_result(
            old(ctx).creator,
            old(ctx).withdraw_account,
            old(ctx).event_counter.count,
            args.name@,
            args.deadline,
            args.target_amount,
            now,
        ) {
            Ok(e) => r == Ok::<u64, PayraError>(e.event_id) && final(ctx).event@ == e
                && final(ctx).event_counter.count == old(ctx).event_counter.count + 1,
            Err(err) => r == Err::<u64, PayraError>(err) && final(ctx).event@ == old(ctx).event@
                && final(ctx).event_counter == old(ctx).event_counter,
        },
        final(ctx).creator == old(ctx).creator,
        final(ctx).withdraw_account == old(ctx).withdraw_account,
{
    ctx.create_event(args, now)
}

/// Cancels an event that missed its target; see [`CloseEvent::close_event`].
pub fn close_event(ctx: &mut CloseEvent, now: i64) -> (r: Result<(), PayraError>)
    ensures
        match event::close_event_result(old(ctx).event@, now) {
            Ok(e) => r == Ok::<(), PayraError>(()) && final(ctx).event@ == e,
            Err(err) => r == Err::<(), PayraError>(err) && final(ctx).event@ == old(ctx).event@,
        },
        final(ctx).creator == old(ctx).creator,
{
    ctx.close_event(now)
}

/// Records a contribution; see [`Contribute::contribute`].
pub fn contribute(ctx: &mut Contribute, amount: u64, now: i64) -> (r: Result<(), PayraError>)
    ensures
        match event::contribute_result(
            old(ctx).contributor,
            old(ctx).event_key,
            old(ctx).event@,
            old(ctx).participant,
            amount,
            now,
        ) {
            Ok((e, q)) => r == Ok::<(), PayraError>(()) && final(ctx).event@ == e
                && final(ctx).participant == Some(q),
            Err(err) => r == Err::<(), PayraError>(err) && final(ctx).event@ == old(ctx).event@
                && final(ctx).participant == old(ctx).participant,
        },
        final(ctx).contributor == old(ctx).contributor,
        final(ctx).event_key == old(ctx).event_key,
{
    ctx.contribute(amount, now)
}

/// Grows an event's whitelist; see [`Whitelist::whitelist`].
pub fn whitelist(ctx: &mut Whitelist, wallets_to_add: Vec<Identity>) -> (r: Result<(), PayraError>)
    ensures
        match event::whitelist_result(old(ctx).creator, old(ctx).event@, wallets_to_add@) {
            Ok(e) => r == Ok::<(), PayraError>(()) && final(ctx).event@ == e,
            Err(err) => r == Err::<(), PayraError>(err) && final(ctx).event@ == old(ctx).event@,
        },
        final(ctx).creator == old(ctx).creator,
{
    ctx.whitelist(wallets_to_add)
}

} // verus!
