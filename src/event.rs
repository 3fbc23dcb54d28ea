use vstd::prelude::*;

use crate::error::PayraError;
use crate::identity::{contains_identity, Identity};
use crate::state::{
    utf8_len, Event, EventArgs, EventCounter, EventView, Participant, MAX_NAME_LEN, MAX_WHITELIST,
};

verus! {

impl EventCounter {
    /// Hands out the current count as a fresh event identifier and advances the counter.
    /// Fails when the counter cannot advance.
    pub fn next_id(&mut self) -> (r: Result<u64, PayraError>)
        ensures
            old(self).count < u64::MAX ==> r == Ok::<u64, PayraError>(old(self).count)
                && final(self).count == old(self).count + 1,
            old(self).count == u64::MAX ==> r == Err::<u64, PayraError>(PayraError::EventCounterOverflow)
                && final(self).count == old(self).count,
    {
        let id = self.count;
        match id.checked_add(1) {
            Some(next) => {
                self.count = next;
                Ok(id)
            },
            None => Err(PayraError::EventCounterOverflow),
        }
    }
}

/// The records that setting up the event counter writes.
pub struct Initialize {
    pub admin: Identity,
    pub event_counter: EventCounter,
}

impl Initialize {
    /// Starts the event counter at zero.
    pub fn handler(&mut self) -> (r: Result<(), PayraError>)
        ensures
            r is Ok,
            final(self).event_counter.count == 0,
            final(self).admin == old(self).admin,
    {
        self.event_counter = EventCounter { count: 0 };
        Ok(())
    }
}

/// The event that `create_event` makes with identifier `id`.
pub open spec fn new_event(
    id: u64,
    creator: Identity,
    withdraw_account: Identity,
    name: Seq<char>,
    deadline: i64,
    target_amount: u64,
) -> EventView {
    EventView {
        event_id: id,
        creator,
        withdraw_token_account: withdraw_account,
        target_amount,
        total_contributed: 0,
        total_spent: 0,
        whitelist: Seq::empty(),
        is_cancelled: false,
        is_finalized: false,
        deadline,
        name,
        proposal_count: 0,
    }
}

/// The event that creating one from `name`, `deadline` and `target_amount` at `now` makes,
/// with the counter at `count`, or the error that refuses it.
pub open spec fn create_event_result(
    creator: Identity,
    withdraw_account: Identity,
    count: u64,
    name: Seq<char>,
    deadline: i64,
    target_amount: u64,
    now: i64,
) -> Result<EventView, PayraError> {
    if utf8_len(name) > MAX_NAME_LEN {
        Err(PayraError::NameTooLong)
    } else if deadline <= now {
        Err(PayraError::InvalidDeadline)
    } else if count == u64::MAX {
        Err(PayraError::EventCounterOverflow)
    } else {
        Ok(new_event(count, creator, withdraw_account, name, deadline, target_amount))
    }
}

/// The records that opening an event reads and writes.
pub struct CreateEvent {
    /// The caller, who becomes the event's creator.
    pub creator: Identity,
    /// The account that is to receive funds that proposals pay out.
    pub withdraw_account: Identity,
    pub event_counter: EventCounter,
    /// The record that the new event is written to.
    pub event: Event,
}

impl CreateEvent {
    /// Opens an event with the next identifier, empty whitelist and zero totals, and returns
    /// the identifier. The name must take at most 32 bytes and the deadline must lie after
    /// `now`. On an error nothing changes.
    pub fn create_event(&mut self, args: EventArgs, now: i64) -> (r: Result<u64, PayraError>)
        ensures
            match create_event_result(
                old(self).creator,
                old(self).withdraw_account,
                old(self).event_counter.count,
                args.name@,
                args.deadline,
                args.target_amount,
                now,
            ) {
                Ok(e) => r == Ok::<u64, PayraError>(e.event_id) && final(self).event@ == e
                    && final(self).event_counter.count == old(self).event_counter.count + 1,
                Err(err) => r == Err::<u64, PayraError>(err) && final(self).event@ == old(self).event@
                    && final(self).event_counter == old(self).event_counter,
            },
            r is Ok ==> final(self).event@.wf(),
            final(self).creator == old(self).creator,
            final(self).withdraw_account == old(self).withdraw_account,
    {
        let name_len = args.name.as_str().as_bytes().len();
        if name_len > MAX_NAME_LEN {
            return Err(PayraError::NameTooLong);
        }
        if args.deadline <= now {
            return Err(PayraError::InvalidDeadline);
        }
        let event_id = self.event_counter.next_id()?;
        self.event = Event {
            event_id,
            creator: self.creator,
            withdraw_token_account: self.withdraw_account,
            target_amount: args.target_amount,
            total_contributed: 0,
            total_spent: 0,
            whitelist: Vec::new(),
            is_cancelled: false,
            is_finalized: false,
            deadline: args.deadline,
            name: args.name,
            proposal_count: 0,
        };
        Ok(event_id)
    }
}

/// The event after closing it at `now`, or the error that refuses it.
pub open spec fn close_event_result(e: EventView, now: i64) -> Result<EventView, PayraError> {
    if now < e.deadline {
        Err(PayraError::DeadlineNotReached)
    } else if e.total_contributed >= e.target_amount {
        Err(PayraError::TargetMetAlready)
    } else {
        Ok(EventView { is_cancelled: true, ..e })
    }
}

/// The records that cancelling an event reads and writes.
pub struct CloseEvent {
    pub creator: Identity,
    pub event: Event,
}

impl CloseEvent {
    /// Cancels an event whose deadline has been reached without meeting its target, so that
    /// its contributors can be refunded. On an error nothing changes.
    pub fn close_event(&mut self, now: i64) -> (r: Result<(), PayraError>)
        ensures
            match close_event_result(old(self).event@, now) {
                Ok(e) => r == Ok::<(), PayraError>(()) && final(self).event@ == e,
                Err(err) => r == Err::<(), PayraError>(err) && final(self).event@ == old(self).event@,
            },
            old(self).event@.wf() ==> final(self).event@.wf(),
            final(self).creator == old(self).creator,
    {
        if now < self.event.deadline {
            return Err(PayraError::DeadlineNotReached);
        }
        if self.event.total_contributed >= self.event.target_amount {
            return Err(PayraError::TargetMetAlready);
        }
        self.event.is_cancelled = true;
        Ok(())
    }
}

/// Contributions recorded so far by an entry, or none when it does not exist yet.
pub open spec fn contributed_so_far(entry: Option<Participant>) -> int {
    match entry {
        Some(q) => q.contributed as int,
        None => 0,
    }
}

/// The ledger entry of `wallet` after contributing `amount` to it.
pub open spec fn entry_after(
    entry: Option<Participant>,
    event_key: Identity,
    event_id: u64,
    wallet: Identity,
    amount: u64,
) -> Participant {
    match entry {
        Some(q) => Participant { contributed: (q.contributed + amount) as u64, ..q },
        None => Participant {
            event: event_key,
            event_id,
            wallet,
            contributed: amount,
            spent: 0,
            refunded: false,
            net_owed: 0,
        },
    }
}

/// The event and the contributor's ledger entry after `contributor` gives `amount` at `now`,
/// or the error that refuses it.
pub open spec fn contribute_result(
    contributor: Identity,
    event_key: Identity,
    e: EventView,
    entry: Option<Participant>,
    amount: u64,
    now: i64,
) -> Result<(EventView, Participant), PayraError> {
    if now >= e.deadline {
        Err(PayraError::DeadlineAlreadyReached)
    } else if !e.whitelist.contains(contributor) {
        Err(PayraError::NotWhitelisted)
    } else if e.is_cancelled {
        Err(PayraError::EventCancelled)
    } else if contributed_so_far(entry) + amount > u64::MAX || e.total_contributed + amount
        > u64::MAX {
        Err(PayraError::ContributionOverflow)
    } else {
        Ok(
            (
                EventView { total_contributed: (e.total_contributed + amount) as u64, ..e },
                entry_after(entry, event_key, e.event_id, contributor, amount),
            ),
        )
    }
}

/// The records that a contribution reads and writes.
pub struct Contribute {
    /// The caller, who gives the funds.
    pub contributor: Identity,
    /// Address of the event record.
    pub event_key: Identity,
    pub event: Event,
    /// The contributor's ledger entry in this event, if it exists yet.
    pub participant: Option<Participant>,
}

impl Contribute {
    /// Records a contribution of `amount` by a whitelisted wallet before the deadline: the
    /// wallet's ledger entry (made on its first contribution) and the event's total both grow
    /// by `amount`. The host moves the funds into the event's balance. On an error nothing
    /// changes.
    pub fn contribute(&mut self, amount: u64, now: i64) -> (r: Result<(), PayraError>)
        ensures
            match contribute_result(
                old(self).contributor,
                old(self).event_key,
                old(self).event@,
                old(self).participant,
                amount,
                now,
            ) {
                Ok((e, q)) => r == Ok::<(), PayraError>(()) && final(self).event@ == e
                    && final(self).participant == Some(q),
                Err(err) => r == Err::<(), PayraError>(err) && final(self).event@ == old(self).event@
                    && final(self).participant == old(self).participant,
            },
            old(self).event@.wf() ==> final(self).event@.wf(),
            final(self).contributor == old(self).contributor,
            final(self).event_key == old(self).event_key,
    {
        if now >= self.event.deadline {
            return Err(PayraError::DeadlineAlreadyReached);
        }
        if !contains_identity(&self.event.whitelist, &self.contributor) {
            return Err(PayraError::NotWhitelisted);
        }
        if self.event.is_cancelled {
            return Err(PayraError::EventCancelled);
        }
        let entry = match self.participant {
            Some(q) => match q.contributed.checked_add(amount) {
                Some(c) => Participant { contributed: c, ..q },
                None => return Err(PayraError::ContributionOverflow),
            },
            None => Participant {
                event: self.event_key,
                event_id: self.event.event_id,
                wallet: self.contributor,
                contributed: amount,
                spent: 0,
                refunded: false,
                net_owed: 0,
            },
        };
        let total = match self.event.total_contributed.checked_add(amount) {
            Some(t) => t,
            None => return Err(PayraError::ContributionOverflow),
        };
        self.participant = Some(entry);
        self.event.total_contributed = total;
        Ok(())
    }
}

/// The event after `caller` adds `wallets` to its whitelist, or the error that refuses it.
pub open spec fn whitelist_result(caller: Identity, e: EventView, wallets: Seq<Identity>) -> Result<
    EventView,
    PayraError,
> {
    if caller != e.creator {
        Err(PayraError::Unauthorised)
    } else if !wallets.no_duplicates() {
        Err(PayraError::DuplicateWallet)
    } else if exists|i: int| 0 <= i < wallets.len() && e.whitelist.contains(#[trigger] wallets[i]) {
        Err(PayraError::DuplicateWallet)
    } else if e.whitelist.len() + wallets.len() > MAX_WHITELIST {
        Err(PayraError::WhitelistFull)
    } else {
        Ok(EventView { whitelist: e.whitelist + wallets, ..e })
    }
}

/// The records that growing a whitelist reads and writes.
pub struct Whitelist {
    /// The caller, who must be the event's creator.
    pub creator: Identity,
    pub event: Event,
}

/// Whether `wallets` holds no wallet twice.
fn all_distinct(wallets: &Vec<Identity>) -> (r: bool)
    ensures
        r == wallets@.no_duplicates(),
{
    let n = wallets.len();
    let mut i: usize = 0;
    while i < n
        invariant
            0 <= i <= n,
            n == wallets.len(),
            forall|a: int, b: int| 0 <= a < b < i ==> wallets@[a] != wallets@[b],
        decreases n - i,
    {
        let mut j: usize = 0;
        while j < i
            invariant
                0 <= j <= i < n,
                n == wallets.len(),
                forall|a: int, b: int| 0 <= a < b < i ==> wallets@[a] != wallets@[b],
                forall|a: int| 0 <= a < j ==> wallets@[a] != wallets@[i as int],
            decreases i - j,
        {
            if wallets[j] == wallets[i] {
                assert(wallets@[j as int] == wallets@[i as int]);
                return false;
            }
            j = j + 1;
        }
        i = i + 1;
    }
    true
}

impl Whitelist {
    /// Adds a batch of wallets to the event's whitelist, all of them or none. The caller must
    /// be the creator, no wallet may appear twice, and the whitelist may hold at most 10
    /// wallets. On an error nothing changes.
    #[verifier::loop_isolation(false)]
    pub fn whitelist(&mut self, wallets_to_add: Vec<Identity>) -> (r: Result<(), PayraError>)
        ensures
            match whitelist_result(old(self).creator, old(self).event@, wallets_to_add@) {
                Ok(e) => r == Ok::<(), PayraError>(()) && final(self).event@ == e,
                Err(err) => r == Err::<(), PayraError>(err) && final(self).event@ == old(self).event@,
            },
            old(self).event@.wf() ==> final(self).event@.wf(),
            final(self).creator == old(self).creator,
    {
        if self.creator != self.event.creator {
            return Err(PayraError::Unauthorised);
        }
        if !all_distinct(&wallets_to_add) {
            return Err(PayraError::DuplicateWallet);
        }
        let n = wallets_to_add.len();
        let mut i: usize = 0;
        while i < n
            invariant
                0 <= i <= n,
                n == wallets_to_add.len(),
                *self == *old(self),
                forall|k: int| 0 <= k < i ==> !self.event.whitelist@.contains(#[trigger] wallets_to_add@[k]),
            decreases n - i,
        {
            if contains_identity(&self.event.whitelist, &wallets_to_add[i]) {
                return Err(PayraError::DuplicateWallet);
            }
            i = i + 1;
        }
        if self.event.whitelist.len() as u128 + wallets_to_add.len() as u128 > MAX_WHITELIST as u128 {
            return Err(PayraError::WhitelistFull);
        }
        let ghost before = self.event.whitelist@;
        let mut i: usize = 0;
        while i < n
            invariant
                0 <= i <= n,
                n == wallets_to_add.len(),
                self.event.whitelist@ == before + wallets_to_add@.subrange(0, i as int),
                self.creator == old(self).creator,
                self.event@ == (EventView { whitelist: self.event.whitelist@, ..old(self).event@ }),
            decreases n - i,
        {
            self.event.whitelist.push(wallets_to_add[i]);
            assert(wallets_to_add@.subrange(0, i + 1) =~= wallets_to_add@.subrange(0, i as int).push(wallets_to_add@[i as int]));
            i = i + 1;
        }
        assert(wallets_to_add@.subrange(0, n as int) =~= wallets_to_add@);
        proof {
            let all = before + wallets_to_add@;
            let w = wallets_to_add@;
            if before.no_duplicates() {
                assert forall|a: int, b: int| 0 <= a < all.len() && 0 <= b < all.len() && a != b implies all[a] != all[b] by {
                    if a < before.len() && b < before.len() {
                        assert(all[a] == before[a] && all[b] == before[b]);
                    } else if a >= before.len() && b >= before.len() {
                        assert(all[a] == w[a - before.len()] && all[b] == w[b - before.len()]);
                    } else if a < before.len() {
                        assert(all[a] == before[a] && all[b] == w[b - before.len()]);
                        assert(!before.contains(w[b - before.len()]));
                    } else {
                        assert(all[b] == before[b] && all[a] == w[a - before.len()]);
                        assert(!before.contains(w[a - before.len()]));
                    }
                }
                assert(all.no_duplicates());
            }
        }
        Ok(())
    }
}

} // verus!
