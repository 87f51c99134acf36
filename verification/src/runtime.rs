//! A system to run the registry in, held in memory: a ledger of balances, seed
//! material, a block number and a log of events.
use crate::config::{released, InsufficientFunds, Trait};
use crate::types::{AccountId, Balance, Event};
use std::collections::HashMap;
use vstd::prelude::*;

verus! {

broadcast use vstd::std_specs::hash::group_hash_axioms;

/// The balances of one account.
#[derive(Clone, Copy, Debug, PartialEq, Eq)]
pub struct AccountData {
    /// What the account can spend.
    pub free: Balance,
    /// What is set aside as collateral.
    pub reserved: Balance,
}

/// An entry of the event log.
#[derive(Clone, Copy, Debug, PartialEq, Eq)]
pub enum Record {
    /// `Reserved(who, amount)`: the ledger moved `amount` into the reserve of `who`.
    Reserved(AccountId, Balance),
    /// `Unreserved(who, amount)`: the ledger moved `amount` out of the reserve of `who`.
    Unreserved(AccountId, Balance),
    /// An event of the registry of kitties.
    Kitties(Event),
}

/// The events of the registry among the entries of `log`, in their order.
pub open spec fn kitty_events(log: Seq<Record>) -> Seq<Event>
    decreases log.len(),
{
    if log.len() == 0 {
        Seq::<Event>::empty()
    } else {
        match log.last() {
            Record::Kitties(event) => kitty_events(log.drop_last()).push(event),
            _ => kitty_events(log.drop_last()),
        }
    }
}

/// What an entry appended to a log adds to the events of the registry in it.
pub proof fn lemma_kitty_events_push(log: Seq<Record>, record: Record)
    ensures
        kitty_events(log.push(record)) == match record {
            Record::Kitties(event) => kitty_events(log).push(event),
            _ => kitty_events(log),
        },
{
    assert(log.push(record).drop_last() =~= log);
}

/// What a `Runtime` holds.
pub struct RuntimeView {
    /// The number of the current block.
    pub block_number: u64,
    /// The seed material on offer.
    pub seed: Seq<u8>,
    /// The index of the call being executed, if there is one.
    pub extrinsic_index: Option<u32>,
    /// The collateral that one kitty costs its owner.
    pub new_kitty_reserve: Balance,
    /// The accounts that the ledger has an entry for. Any other account is empty.
    pub accounts: Map<AccountId, AccountData>,
    /// The event log, oldest entry first.
    pub events: Seq<Record>,
}

impl RuntimeView {
    /// The balances of `who`: those of its entry, or nothing where it has none.
    pub open spec fn account(self, who: AccountId) -> AccountData {
        if self.accounts.contains_key(who) {
            self.accounts[who]
        } else {
            AccountData { free: 0, reserved: 0 }
        }
    }
}

/// A ledger, a source of seed material and an event log, all held in memory.
#[derive(Clone, Debug, PartialEq, Eq)]
pub struct Runtime {
    block_number: u64,
    seed: [u8; 32],
    extrinsic_index: Option<u32>,
    new_kitty_reserve: Balance,
    accounts: HashMap<AccountId, AccountData>,
    events: Vec<Record>,
}

impl View for Runtime {
    type V = RuntimeView;

    closed spec fn view(&self) -> RuntimeView {
        RuntimeView {
            block_number: self.block_number,
            seed: self.seed@,
            extrinsic_index: self.extrinsic_index,
            new_kitty_reserve: self.new_kitty_reserve,
            accounts: self.accounts@,
            events: self.events@,
        }
    }
}

impl Runtime {
    /// The free and the reserved balance of every account fit into one `Balance`
    /// together.
    pub open spec fn balances_fit(&self) -> bool {
        forall|who: AccountId| #[trigger]
            self@.account(who).free + self@.account(who).reserved <= Balance::MAX
    }

    /// A system at block zero, without balances or events, that offers a seed of zeros,
    /// executes no call, and asks `new_kitty_reserve` as collateral for a kitty.
    pub fn new(new_kitty_reserve: Balance) -> (r: Runtime)
        ensures
            r.balances_fit(),
            r@ == (RuntimeView {
                block_number: 0,
                seed: Seq::new(32, |i: int| 0u8),
                extrinsic_index: None,
                new_kitty_reserve,
                accounts: Map::empty(),
                events: Seq::empty(),
            }),
    {
        let r = Runtime {
            block_number: 0,
            seed: [0u8; 32],
            extrinsic_index: None,
            new_kitty_reserve,
            accounts: HashMap::new(),
            events: Vec::new(),
        };
        assert(r@.seed =~= Seq::new(32, |i: int| 0u8));
        r
    }

    /// The number of the current block.
    pub fn block_number(&self) -> (r: u64)
        ensures
            r == self@.block_number,
    {
        self.block_number
    }

    /// Makes `number` the number of the current block.
    pub fn set_block_number(&mut self, number: u64)
        ensures
            final(self)@ == (RuntimeView { block_number: number, ..old(self)@ }),
    {
        self.block_number = number;
    }

    /// Makes `seed` the seed material on offer.
    pub fn set_random_seed(&mut self, seed: [u8; 32])
        ensures
            final(self)@ == (RuntimeView { seed: seed@, ..old(self)@ }),
    {
        self.seed = seed;
    }

    /// Makes `index` the index of the call being executed.
    pub fn set_extrinsic_index(&mut self, index: Option<u32>)
        ensures
            final(self)@ == (RuntimeView { extrinsic_index: index, ..old(self)@ }),
    {
        self.extrinsic_index = index;
    }

    /// Gives `who` a free balance of `free` and nothing in reserve.
    pub fn set_balance(&mut self, who: AccountId, free: Balance)
        requires
            old(self).balances_fit(),
        ensures
            final(self).balances_fit(),
            final(self)@ == (RuntimeView {
                accounts: old(self)@.accounts.insert(who, AccountData { free, reserved: 0 }),
                ..old(self)@
            }),
    {
        self.accounts.insert(who, AccountData { free, reserved: 0 });
        proof {
            assert forall|a: AccountId| #[trigger]
                self@.account(a).free + self@.account(a).reserved <= Balance::MAX by {
                if a != who {
                    assert(self@.account(a) == old(self)@.account(a));
                }
            }
        }
    }

    /// The balances of `who`.
    pub fn account(&self, who: AccountId) -> (r: AccountData)
        ensures
            r == self@.account(who),
    {
        match self.accounts.get(&who) {
            Some(data) => *data,
            None => AccountData { free: 0, reserved: 0 },
        }
    }

    /// The event log, oldest entry first.
    pub fn events(&self) -> (r: &Vec<Record>)
        ensures
            r@ == self@.events,
    {
        &self.events
    }
}

impl Trait for Runtime {
    open spec fn wf(&self) -> bool {
        self.balances_fit()
    }

    open spec fn free_balance(&self, who: AccountId) -> nat {
        self@.account(who).free as nat
    }

    open spec fn reserved_balance(&self, who: AccountId) -> nat {
        self@.account(who).reserved as nat
    }

    /// A reservation is granted exactly if the free balance covers it.
    open spec fn can_reserve(&self, who: AccountId, value: Balance) -> bool {
        self@.account(who).free >= value
    }

    open spec fn kitty_reserve(&self) -> Balance {
        self@.new_kitty_reserve
    }

    open spec fn seed(&self) -> Seq<u8> {
        self@.seed
    }

    open spec fn call_index(&self) -> Option<u32> {
        self@.extrinsic_index
    }

    open spec fn deposited(&self) -> Seq<Event> {
        kitty_events(self@.events)
    }

    fn new_kitty_reserve(&self) -> (r: Balance) {
        self.new_kitty_reserve
    }

    fn random_seed(&self) -> (r: [u8; 32]) {
        self.seed
    }

    fn extrinsic_index(&self) -> (r: Option<u32>) {
        self.extrinsic_index
    }

    /// Logs `Reserved(who, value)` where it succeeds.
    fn reserve(&mut self, who: AccountId, value: Balance) -> (r: Result<(), InsufficientFunds>)
        ensures
            final(self)@ == (if old(self)@.account(who).free >= value {
                RuntimeView {
                    accounts: old(self)@.accounts.insert(
                        who,
                        AccountData {
                            free: (old(self)@.account(who).free - value) as Balance,
                            reserved: (old(self)@.account(who).reserved + value) as Balance,
                        },
                    ),
                    events: old(self)@.events.push(Record::Reserved(who, value)),
                    ..old(self)@
                }
            } else {
                old(self)@
            }),
    {
        let data = self.account(who);
        if data.free < value {
            return Err(InsufficientFunds);
        }
        assert(data.free + data.reserved <= Balance::MAX);
        let updated = AccountData { free: data.free - value, reserved: data.reserved + value };
        self.accounts.insert(who, updated);
        self.events.push(Record::Reserved(who, value));
        proof {
            lemma_kitty_events_push(old(self)@.events, Record::Reserved(who, value));
            assert forall|a: AccountId| #[trigger]
                self@.account(a).free + self@.account(a).reserved <= Balance::MAX by {
                if a != who {
                    assert(self@.account(a) == old(self)@.account(a));
                }
            }
            assert forall|a: AccountId| a != who implies #[trigger] self@.account(a) == old(
                self,
            )@.account(a) by {}
        }
        Ok(())
    }

    /// Logs `Unreserved(who, amount)` with the amount that was moved.
    fn unreserve(&mut self, who: AccountId, value: Balance) -> (r: Balance)
        ensures
            final(self)@ == (RuntimeView {
                accounts: old(self)@.accounts.insert(
                    who,
                    AccountData {
                        free: (old(self)@.account(who).free + released(
                            old(self)@.account(who).reserved as nat,
                            value as nat,
                        )) as Balance,
                        reserved: (old(self)@.account(who).reserved - released(
                            old(self)@.account(who).reserved as nat,
                            value as nat,
                        )) as Balance,
                    },
                ),
                events: old(self)@.events.push(
                    Record::Unreserved(
                        who,
                        released(old(self)@.account(who).reserved as nat, value as nat) as Balance,
                    ),
                ),
                ..old(self)@
            }),
    {
        let data = self.account(who);
        let moved = if data.reserved < value {
            data.reserved
        } else {
            value
        };
        assert(data.free + data.reserved <= Balance::MAX);
        let updated = AccountData { free: data.free + moved, reserved: data.reserved - moved };
        self.accounts.insert(who, updated);
        self.events.push(Record::Unreserved(who, moved));
        proof {
            lemma_kitty_events_push(old(self)@.events, Record::Unreserved(who, moved));
            assert forall|a: AccountId| #[trigger]
                self@.account(a).free + self@.account(a).reserved <= Balance::MAX by {
                if a != who {
                    assert(self@.account(a) == old(self)@.account(a));
                }
            }
            assert forall|a: AccountId| a != who implies #[trigger] self@.account(a) == old(
                self,
            )@.account(a) by {}
        }
        value - moved
    }

    /// Logs the event as it is.
    fn deposit_event(&mut self, event: Event)
        ensures
            final(self)@ == (RuntimeView {
                events: old(self)@.events.push(Record::Kitties(event)),
                ..old(self)@
            }),
    {
        self.events.push(Record::Kitties(event));
        proof {
            lemma_kitty_events_push(old(self)@.events, Record::Kitties(event));
            assert forall|a: AccountId| #[trigger]
                self@.account(a).free + self@.account(a).reserved <= Balance::MAX by {
                assert(self@.account(a) == old(self)@.account(a));
            }
        }
    }
}

/// Moves the system forward, block by block, until the current block is `n`. A system
/// that is already at `n` or past it stays where it is.
pub fn run_to_block(rt: &mut Runtime, n: u64)
    ensures
        final(rt)@ == (RuntimeView {
            block_number: if old(rt)@.block_number < n {
                n
            } else {
                old(rt)@.block_number
            },
            ..old(rt)@
        }),
{
    while rt.block_number() < n
        invariant
            rt@ == (RuntimeView { block_number: rt@.block_number, ..old(rt)@ }),
            old(rt)@.block_number <= rt@.block_number,
            old(rt)@.block_number < n ==> rt@.block_number <= n,
            old(rt)@.block_number >= n ==> rt@.block_number == old(rt)@.block_number,
        decreases n - rt@.block_number,
    {
        let next = rt.block_number() + 1;
        rt.set_block_number(next);
    }
}

} // verus!
