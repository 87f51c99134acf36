//! The collaborators of the registry: a balance ledger that reserves collateral, a
//! source of seed material, and a sink for events.
use crate::types::{AccountId, Balance, Event};
use vstd::prelude::*;

verus! {

/// The ledger's refusal to reserve an amount.
#[derive(Clone, Copy, Debug, PartialEq, Eq)]
pub struct InsufficientFunds;

/// What the registry needs from the system around it.
///
/// The spec functions are the model of an implementation's state that the contracts of
/// the registry speak of: balances per account, the seed material on offer, and the
/// events handed over so far. An implementation that is to be verified defines them; one
/// that leaves them out has a model of which nothing is known.
pub trait Trait: Sized {
    /// The invariant of the implementation. Every method keeps it.
    open spec fn wf(&self) -> bool {
        true
    }

    /// The freely spendable balance of `who`.
    open spec fn free_balance(&self, who: AccountId) -> nat {
        arbitrary()
    }

    /// The balance of `who` that is set aside as collateral.
    open spec fn reserved_balance(&self, who: AccountId) -> nat {
        arbitrary()
    }

    /// Whether a reservation of `value` for `who` would be granted in this state.
    open spec fn can_reserve(&self, who: AccountId, value: Balance) -> bool {
        arbitrary()
    }

    /// The collateral that one kitty costs its owner.
    open spec fn kitty_reserve(&self) -> Balance {
        arbitrary()
    }

    /// The seed material that the randomness source offers in this state.
    open spec fn seed(&self) -> Seq<u8> {
        arbitrary()
    }

    /// The index of the call being executed, if there is one.
    open spec fn call_index(&self) -> Option<u32> {
        arbitrary()
    }

    /// The events handed to the sink so far, oldest first.
    open spec fn deposited(&self) -> Seq<Event> {
        arbitrary()
    }

    /// The fixed amount reserved per kitty owned.
    fn new_kitty_reserve(&self) -> (r: Balance)
        requires
            self.wf(),
        ensures
            r == self.kitty_reserve(),
    ;

    /// Seed material, unpredictable to callers ahead of time.
    fn random_seed(&self) -> (r: [u8; 32])
        requires
            self.wf(),
        ensures
            r@ == self.seed(),
    ;

    /// The index of the call being executed.
    fn extrinsic_index(&self) -> (r: Option<u32>)
        requires
            self.wf(),
        ensures
            r == self.call_index(),
    ;

    /// Moves `value` from the free balance of `who` to its reserved balance, or moves
    /// nothing and fails. It fails whenever the free balance is below `value`.
    fn reserve(&mut self, who: AccountId, value: Balance) -> (r: Result<(), InsufficientFunds>)
        requires
            old(self).wf(),
        ensures
            final(self).wf(),
            r.is_ok() == old(self).can_reserve(who, value),
            r.is_ok() ==> old(self).free_balance(who) >= value,
            forall|a: AccountId|
                #![trigger old(self).free_balance(a)]
                #![trigger final(self).free_balance(a)]
                final(self).free_balance(a) == old(self).free_balance(a) - (if r.is_ok() && a
                    == who {
                    value as nat
                } else {
                    0
                }),
            forall|a: AccountId|
                #![trigger old(self).reserved_balance(a)]
                #![trigger final(self).reserved_balance(a)]
                final(self).reserved_balance(a) == old(self).reserved_balance(a) + (if r.is_ok()
                    && a == who {
                    value as nat
                } else {
                    0
                }),
            r.is_err() ==> forall|a: AccountId, v: Balance|
                #![trigger old(self).can_reserve(a, v)]
                #![trigger final(self).can_reserve(a, v)]
                final(self).can_reserve(a, v) == old(self).can_reserve(a, v),
            final(self).kitty_reserve() == old(self).kitty_reserve(),
            final(self).seed() == old(self).seed(),
            final(self).call_index() == old(self).call_index(),
            final(self).deposited() == old(self).deposited(),
    ;

    /// Moves as much of `value` as is reserved for `who` back to its free balance, and
    /// returns the part of `value` that was not there to move.
    fn unreserve(&mut self, who: AccountId, value: Balance) -> (r: Balance)
        requires
            old(self).wf(),
        ensures
            final(self).wf(),
            r == value - released(old(self).reserved_balance(who), value as nat),
            forall|a: AccountId|
                #![trigger old(self).free_balance(a)]
                #![trigger final(self).free_balance(a)]
                final(self).free_balance(a) == old(self).free_balance(a) + (if a == who {
                    released(old(self).reserved_balance(who), value as nat)
                } else {
                    0
                }),
            forall|a: AccountId|
                #![trigger old(self).reserved_balance(a)]
                #![trigger final(self).reserved_balance(a)]
                final(self).reserved_balance(a) == old(self).reserved_balance(a) - (if a == who {
                    released(old(self).reserved_balance(who), value as nat)
                } else {
                    0
                }),
            final(self).kitty_reserve() == old(self).kitty_reserve(),
            final(self).seed() == old(self).seed(),
            final(self).call_index() == old(self).call_index(),
            final(self).deposited() == old(self).deposited(),
    ;

    /// Hands `event` to the sink. The ledger and the randomness source are not touched.
    fn deposit_event(&mut self, event: Event)
        requires
            old(self).wf(),
        ensures
            final(self).wf(),
            final(self).deposited() == old(self).deposited().push(event),
            forall|a: AccountId|
                #![trigger old(self).free_balance(a)]
                #![trigger final(self).free_balance(a)]
                final(self).free_balance(a) == old(self).free_balance(a),
            forall|a: AccountId|
                #![trigger old(self).reserved_balance(a)]
                #![trigger final(self).reserved_balance(a)]
                final(self).reserved_balance(a) == old(self).reserved_balance(a),
            forall|a: AccountId, v: Balance|
                #![trigger old(self).can_reserve(a, v)]
                #![trigger final(self).can_reserve(a, v)]
                final(self).can_reserve(a, v) == old(self).can_reserve(a, v),
            final(self).kitty_reserve() == old(self).kitty_reserve(),
            final(self).seed() == old(self).seed(),
            final(self).call_index() == old(self).call_index(),
    ;
}

/// How much of `value` can be released from a reserved balance of `reserved`.
pub open spec fn released(reserved: nat, value: nat) -> nat {
    if reserved < value {
        reserved
    } else {
        value
    }
}

} // verus!
