//! The operations on kitties: creation, transfer and breeding.
//!
//! Every operation either takes effect as a whole or changes nothing at all.
use crate::config::{released, Trait};
use crate::dna::{combine, spec_combine};
use crate::ownership::Ownership;
use crate::random::{random_value, spec_random_value};
use crate::registry::Registry;
use crate::types::{AccountId, Balance, Error, Event, Kitty, KittyIndex};
use vstd::prelude::*;

verus! {

/// What the registry of kitties holds.
pub struct ModuleView {
    /// The genome of each kitty that exists.
    pub kitties: Map<KittyIndex, Kitty>,
    /// The next identifier to hand out.
    pub count: KittyIndex,
    /// The owner of each kitty.
    pub owners: Map<KittyIndex, AccountId>,
}

impl ModuleView {
    /// The state after `kitty` has come into being under `id`, owned by `owner`.
    pub open spec fn insert(self, id: KittyIndex, owner: AccountId, kitty: Kitty) -> ModuleView {
        ModuleView {
            kitties: self.kitties.insert(id, kitty),
            count: (id + 1) as KittyIndex,
            owners: self.owners.insert(id, owner),
        }
    }

    /// The state after `id` has passed to `to`.
    pub open spec fn give(self, id: KittyIndex, to: AccountId) -> ModuleView {
        ModuleView { owners: self.owners.insert(id, to), ..self }
    }

    /// Whether `id` names a kitty owned by `who`.
    pub open spec fn owns(self, who: AccountId, id: KittyIndex) -> bool {
        self.owners.contains_key(id) && self.owners[id] == who
    }
}

/// Every account has the same free and reserved balance in `a` and in `b`, and the ledger
/// would grant the same reservations.
pub open spec fn same_ledger<T: Trait>(a: &T, b: &T) -> bool {
    &&& forall|who: AccountId, value: Balance|
        #![trigger a.can_reserve(who, value)]
        #![trigger b.can_reserve(who, value)]
        b.can_reserve(who, value) == a.can_reserve(who, value)
    &&& forall|who: AccountId|
        #![trigger a.free_balance(who)]
        #![trigger b.free_balance(who)]
        b.free_balance(who) == a.free_balance(who)
    &&& forall|who: AccountId|
        #![trigger a.reserved_balance(who)]
        #![trigger b.reserved_balance(who)]
        b.reserved_balance(who) == a.reserved_balance(who)
}

/// `a` and `b` offer the same seed material, call index and collateral unit.
pub open spec fn same_source<T: Trait>(a: &T, b: &T) -> bool {
    &&& b.seed() == a.seed()
    &&& b.call_index() == a.call_index()
    &&& b.kitty_reserve() == a.kitty_reserve()
}

/// From `a` to `b` no balance has changed, the same seed material is on offer and no
/// event has been handed over.
pub open spec fn untouched<T: Trait>(a: &T, b: &T) -> bool {
    &&& same_ledger(a, b)
    &&& same_source(a, b)
    &&& b.deposited() == a.deposited()
}

/// From `a` to `b`, `amount` has moved from the free to the reserved balance of `who`,
/// and no other balance has changed.
pub open spec fn reserved_for<T: Trait>(a: &T, b: &T, who: AccountId, amount: nat) -> bool {
    &&& a.free_balance(who) >= amount
    &&& forall|x: AccountId|
        #![trigger a.free_balance(x)]
        #![trigger b.free_balance(x)]
        b.free_balance(x) == a.free_balance(x) - (if x == who {
            amount
        } else {
            0
        })
    &&& forall|x: AccountId|
        #![trigger a.reserved_balance(x)]
        #![trigger b.reserved_balance(x)]
        b.reserved_balance(x) == a.reserved_balance(x) + (if x == who {
            amount
        } else {
            0
        })
}

/// What a transfer releases to the account `from`: the whole `amount` where `from` is
/// also the receiver, who has just reserved it, and otherwise as much of `amount` as
/// `from` has in reserve.
pub open spec fn released_to<T: Trait>(a: &T, from: AccountId, to: AccountId, amount: nat) -> nat {
    if from == to {
        amount
    } else {
        released(a.reserved_balance(from), amount)
    }
}

/// From `a` to `b`, `amount` has been reserved for `to`, and then as much of `amount`
/// as `from` had in reserve has been released; no other balance has changed.
pub open spec fn collateral_moved<T: Trait>(
    a: &T,
    b: &T,
    from: AccountId,
    to: AccountId,
    amount: nat,
) -> bool {
    &&& a.free_balance(to) >= amount
    &&& forall|x: AccountId|
        #![trigger a.free_balance(x)]
        #![trigger b.free_balance(x)]
        b.free_balance(x) == a.free_balance(x) - (if x == to {
            amount
        } else {
            0
        }) + (if x == from {
            released_to(a, from, to, amount)
        } else {
            0
        })
    &&& forall|x: AccountId|
        #![trigger a.reserved_balance(x)]
        #![trigger b.reserved_balance(x)]
        b.reserved_balance(x) == a.reserved_balance(x) + (if x == to {
            amount
        } else {
            0
        }) - (if x == from {
            released_to(a, from, to, amount)
        } else {
            0
        })
}

/// The result of creating a kitty in `state`, given whether the ledger grants the
/// reservation of the collateral.
pub open spec fn create_outcome(state: ModuleView, can_reserve: bool) -> Result<KittyIndex, Error> {
    if state.count == KittyIndex::MAX {
        Err(Error::KittiesCountOverFlow)
    } else if !can_reserve {
        Err(Error::MoneyNotEnough)
    } else {
        Ok(state.count)
    }
}

/// The result of a transfer of `kitty_id` asked for by `sender` in `state`, given whether
/// the ledger grants the reservation of the collateral for the receiver.
pub open spec fn transfer_outcome(
    state: ModuleView,
    sender: AccountId,
    kitty_id: KittyIndex,
    can_reserve: bool,
) -> Result<(), Error> {
    if !state.owners.contains_key(kitty_id) {
        Err(Error::InvalidKittyId)
    } else if state.owners[kitty_id] != sender {
        Err(Error::NotKittyOwner)
    } else if !can_reserve {
        Err(Error::MoneyNotEnough)
    } else {
        Ok(())
    }
}

/// The result of breeding `kitty_id_1` with `kitty_id_2` in `state`.
pub open spec fn breed_outcome(
    state: ModuleView,
    kitty_id_1: KittyIndex,
    kitty_id_2: KittyIndex,
) -> Result<KittyIndex, Error> {
    if !(state.kitties.contains_key(kitty_id_1) && state.kitties.contains_key(kitty_id_2)) {
        Err(Error::InvalidKittyId)
    } else if kitty_id_1 == kitty_id_2 {
        Err(Error::RrquireDifferentParent)
    } else if state.count == KittyIndex::MAX {
        Err(Error::KittiesCountOverFlow)
    } else {
        Ok(state.count)
    }
}

/// The registry of kitties with its ownership index.
#[derive(Clone, Debug, PartialEq, Eq)]
pub struct Module {
    registry: Registry,
    ownership: Ownership,
}

impl View for Module {
    type V = ModuleView;

    closed spec fn view(&self) -> ModuleView {
        ModuleView {
            kitties: self.registry@.kitties,
            count: self.registry@.count,
            owners: self.ownership.owners(),
        }
    }
}

impl Module {
    /// The kitties listed under `who` in the ownership index.
    pub closed spec fn owned_by(&self, who: AccountId) -> Set<KittyIndex> {
        self.ownership.owned_by(who)
    }

    /// No account lists a kitty twice.
    pub closed spec fn index_wf(&self) -> bool {
        self.ownership.wf()
    }

    /// The invariant of the registry: the counter lies above every identifier in use,
    /// every kitty has an owner and only kitties have one, and an account lists a kitty
    /// exactly if it is the kitty's owner.
    pub open spec fn wf(&self) -> bool {
        &&& self.index_wf()
        &&& forall|id: KittyIndex| #[trigger] self@.kitties.contains_key(id) ==> id < self@.count
        &&& forall|id: KittyIndex| #[trigger]
            self@.owners.contains_key(id) <==> self@.kitties.contains_key(id)
        &&& forall|who: AccountId, id: KittyIndex| #[trigger]
            self.owned_by(who).contains(id) <==> self@.owns(who, id)
    }

    /// A registry without kitties whose first identifier will be zero.
    pub fn new() -> (r: Module)
        ensures
            r.wf(),
            r@.kitties == Map::<KittyIndex, Kitty>::empty(),
            r@.owners == Map::<KittyIndex, AccountId>::empty(),
            r@.count == 0,
    {
        Module::with_count(0)
    }

    /// A registry without kitties whose first identifier will be `count`.
    pub fn with_count(count: KittyIndex) -> (r: Module)
        ensures
            r.wf(),
            r@.kitties == Map::<KittyIndex, Kitty>::empty(),
            r@.owners == Map::<KittyIndex, AccountId>::empty(),
            r@.count == count,
    {
        Module { registry: Registry::with_count(count), ownership: Ownership::new() }
    }

    /// The kitty stored under `id`, if there is one.
    pub fn kitties(&self, id: KittyIndex) -> (r: Option<Kitty>)
        ensures
            r == if self@.kitties.contains_key(id) {
                Some(self@.kitties[id])
            } else {
                None
            },
    {
        self.registry.kitties(id)
    }

    /// The number of identifiers handed out so far, which is the next one to hand out.
    pub fn kitties_count(&self) -> (r: KittyIndex)
        ensures
            r == self@.count,
    {
        self.registry.kitties_count()
    }

    /// The owner of `id`, if it names a kitty.
    pub fn kitty_owner(&self, id: KittyIndex) -> (r: Option<AccountId>)
        ensures
            r == if self@.owners.contains_key(id) {
                Some(self@.owners[id])
            } else {
                None
            },
    {
        self.ownership.kitty_owner(id)
    }

    /// The kitties that `who` owns, each once, in no particular order.
    pub fn owned_kitties(&self, who: AccountId) -> (r: Vec<KittyIndex>)
        requires
            self.wf(),
        ensures
            r@.no_duplicates(),
            r@.to_set() == self.owned_by(who),
            forall|id: KittyIndex| r@.contains(id) <==> self@.owns(who, id),
    {
        let r = self.ownership.owned_kitties(who);
        proof {
            assert forall|id: KittyIndex| r@.contains(id) <==> self@.owns(who, id) by {
                assert(r@.to_set().contains(id) <==> r@.contains(id));
                assert(self.owned_by(who).contains(id) <==> self@.owns(who, id));
            }
        }
        r
    }

    /// The identifier that the next kitty will get. Fails once the counter has reached
    /// the largest representable value.
    pub fn next_kitty_id(&self) -> (r: Result<KittyIndex, Error>)
        ensures
            r == if self@.count == KittyIndex::MAX {
                Err::<KittyIndex, Error>(Error::KittiesCountOverFlow)
            } else {
                Ok::<KittyIndex, Error>(self@.count)
            },
    {
        self.registry.next_kitty_id()
    }

    /// Brings `kitty` into being under `kitty_id`, owned by `owner`: stores it, moves the
    /// counter past it, records the owner and lists the kitty under the owner.
    pub fn insert_kitty(&mut self, owner: AccountId, kitty_id: KittyIndex, kitty: Kitty)
        requires
            old(self).wf(),
            old(self)@.count <= kitty_id < KittyIndex::MAX,
        ensures
            final(self).wf(),
            final(self)@ == old(self)@.insert(kitty_id, owner, kitty),
            final(self).owned_by(owner) == old(self).owned_by(owner).insert(kitty_id),
            forall|who: AccountId|
                who != owner ==> #[trigger] final(self).owned_by(who) == old(self).owned_by(who),
    {
        proof {
            assert forall|id: KittyIndex| #[trigger]
                self.registry@.kitties.contains_key(id) implies id < self.registry@.count by {
                assert(self@.kitties.contains_key(id));
            }
        }
        self.registry.store(kitty_id, kitty);
        self.ownership.set_owner(kitty_id, owner);
        self.ownership.update_kitty_owner_count(owner, kitty_id, true);
        proof {
            assert(!old(self)@.owners.contains_key(kitty_id)) by {
                assert(!old(self)@.kitties.contains_key(kitty_id));
            }
            assert forall|who: AccountId, id: KittyIndex| #[trigger]
                self.owned_by(who).contains(id) <==> self@.owns(who, id) by {
                assert(old(self).owned_by(who).contains(id) <==> old(self)@.owns(who, id));
            }
            assert forall|id: KittyIndex| #[trigger]
                self@.owners.contains_key(id) <==> self@.kitties.contains_key(id) by {
                assert(old(self)@.owners.contains_key(id) <==> old(self)@.kitties.contains_key(id));
            }
        }
    }

    /// Creates a kitty for `sender`, with a genome drawn from the randomness source,
    /// against a reservation of the collateral unit from the free balance of `sender`.
    ///
    /// Fails with `KittiesCountOverFlow` where no identifier is left, and otherwise with
    /// `MoneyNotEnough` where the ledger refuses the reservation.
    pub fn create<T: Trait>(&mut self, rt: &mut T, sender: AccountId) -> (r: Result<
        KittyIndex,
        Error,
    >)
        requires
            old(self).wf(),
            old(rt).wf(),
        ensures
            final(self).wf(),
            final(rt).wf(),
            r == create_outcome(
                old(self)@,
                old(rt).can_reserve(sender, old(rt).kitty_reserve()),
            ),
            match r {
                Ok(id) => {
                    &&& forall|k: KittyIndex| #[trigger]
                        old(self)@.kitties.contains_key(k) ==> k < id
                    &&& final(self)@.kitties.contains_key(id)
                    &&& final(self)@.kitties[id].0@ == spec_random_value(
                        old(rt).seed(),
                        sender,
                        old(rt).call_index(),
                    )
                    &&& final(self)@ == old(self)@.insert(id, sender, final(self)@.kitties[id])
                    &&& final(self).owned_by(sender) == old(self).owned_by(sender).insert(id)
                    &&& forall|who: AccountId|
                        who != sender ==> #[trigger] final(self).owned_by(who) == old(
                            self,
                        ).owned_by(who)
                    &&& reserved_for(old(rt), final(rt), sender, old(rt).kitty_reserve() as nat)
                    &&& same_source(old(rt), final(rt))
                    &&& final(rt).deposited() == old(rt).deposited().push(
                        Event::Created(sender, id),
                    )
                },
                Err(_) => {
                    &&& *final(self) == *old(self)
                    &&& untouched(old(rt), final(rt))
                },
            },
            old(self)@.count == KittyIndex::MAX ==> *final(rt) == *old(rt),
    {
        let kitty_id = match self.next_kitty_id() {
            Ok(id) => id,
            Err(e) => {
                return Err(e);
            },
        };
        let dna = random_value(&*rt, sender);
        let unit = rt.new_kitty_reserve();
        match rt.reserve(sender, unit) {
            Ok(_) => {},
            Err(_) => {
                return Err(Error::MoneyNotEnough);
            },
        }
        self.insert_kitty(sender, kitty_id, Kitty(dna));
        rt.deposit_event(Event::Created(sender, kitty_id));
        Ok(kitty_id)
    }

    /// Passes the kitty `kitty_id` from `sender` to `to`. The collateral unit is reserved
    /// for `to` first, and only then released to `sender`.
    ///
    /// Fails with `InvalidKittyId` where the kitty has no owner, otherwise with
    /// `NotKittyOwner` where the owner is not `sender`, and otherwise with
    /// `MoneyNotEnough` where the ledger refuses the reservation for `to`.
    pub fn transfer<T: Trait>(
        &mut self,
        rt: &mut T,
        sender: AccountId,
        to: AccountId,
        kitty_id: KittyIndex,
    ) -> (r: Result<(), Error>)
        requires
            old(self).wf(),
            old(rt).wf(),
        ensures
            final(self).wf(),
            final(rt).wf(),
            r == transfer_outcome(
                old(self)@,
                sender,
                kitty_id,
                old(rt).can_reserve(to, old(rt).kitty_reserve()),
            ),
            match r {
                Ok(_) => {
                    &&& final(self)@ == old(self)@.give(kitty_id, to)
                    &&& final(self).owned_by(to) == old(self).owned_by(to).insert(kitty_id)
                    &&& sender != to ==> final(self).owned_by(sender) == old(self).owned_by(
                        sender,
                    ).remove(kitty_id)
                    &&& forall|who: AccountId|
                        who != sender && who != to ==> #[trigger] final(self).owned_by(who)
                            == old(self).owned_by(who)
                    &&& collateral_moved(
                        old(rt),
                        final(rt),
                        sender,
                        to,
                        old(rt).kitty_reserve() as nat,
                    )
                    &&& same_source(old(rt), final(rt))
                    &&& final(rt).deposited() == old(rt).deposited().push(
                        Event::Transferred(sender, to, kitty_id),
                    )
                },
                Err(_) => {
                    &&& *final(self) == *old(self)
                    &&& untouched(old(rt), final(rt))
                },
            },
            !old(self)@.owns(sender, kitty_id) ==> *final(rt) == *old(rt),
    {
        let account_id = match self.kitty_owner(kitty_id) {
            Some(owner) => owner,
            None => {
                return Err(Error::InvalidKittyId);
            },
        };
        if account_id != sender {
            return Err(Error::NotKittyOwner);
        }
        let unit = rt.new_kitty_reserve();
        match rt.reserve(to, unit) {
            Ok(_) => {},
            Err(_) => {
                return Err(Error::MoneyNotEnough);
            },
        }
        let _ = rt.unreserve(sender, unit);
        self.ownership.set_owner(kitty_id, to);
        self.ownership.update_kitty_owner_count(sender, kitty_id, false);
        self.ownership.update_kitty_owner_count(to, kitty_id, true);
        rt.deposit_event(Event::Transferred(sender, to, kitty_id));
        proof {
            assert forall|who: AccountId, id: KittyIndex| #[trigger]
                self.owned_by(who).contains(id) <==> self@.owns(who, id) by {
                assert(old(self).owned_by(who).contains(id) <==> old(self)@.owns(who, id));
            }
            assert forall|id: KittyIndex| #[trigger]
                self@.owners.contains_key(id) <==> self@.kitties.contains_key(id) by {
                assert(old(self)@.owners.contains_key(id) <==> old(self)@.kitties.contains_key(id));
            }
        }
        Ok(())
    }

    /// Breeds a new kitty for `sender` from the kitties `kitty_id_1` and `kitty_id_2`.
    /// Each bit of its genome comes from one parent or the other, as a selector drawn
    /// from the randomness source says. The parents need not belong to `sender`, and no
    /// collateral is reserved.
    ///
    /// Fails with `InvalidKittyId` where a parent does not exist, otherwise with
    /// `RrquireDifferentParent` where both parents are the same kitty, and otherwise with
    /// `KittiesCountOverFlow` where no identifier is left.
    pub fn do_breed<T: Trait>(
        &mut self,
        rt: &T,
        sender: AccountId,
        kitty_id_1: KittyIndex,
        kitty_id_2: KittyIndex,
    ) -> (r: Result<KittyIndex, Error>)
        requires
            old(self).wf(),
            rt.wf(),
        ensures
            final(self).wf(),
            r == breed_outcome(old(self)@, kitty_id_1, kitty_id_2),
            match r {
                Ok(id) => {
                    &&& final(self)@.kitties.contains_key(id)
                    &&& final(self)@.kitties[id].0@ == spec_combine(
                        old(self)@.kitties[kitty_id_1].0@,
                        old(self)@.kitties[kitty_id_2].0@,
                        spec_random_value(rt.seed(), sender, rt.call_index()),
                    )
                    &&& final(self)@ == old(self)@.insert(id, sender, final(self)@.kitties[id])
                    &&& final(self).owned_by(sender) == old(self).owned_by(sender).insert(id)
                    &&& forall|who: AccountId|
                        who != sender ==> #[trigger] final(self).owned_by(who) == old(
                            self,
                        ).owned_by(who)
                },
                Err(_) => *final(self) == *old(self),
            },
    {
        let kitty1 = match self.kitties(kitty_id_1) {
            Some(kitty) => kitty,
            None => {
                return Err(Error::InvalidKittyId);
            },
        };
        let kitty2 = match self.kitties(kitty_id_2) {
            Some(kitty) => kitty,
            None => {
                return Err(Error::InvalidKittyId);
            },
        };
        if kitty_id_1 == kitty_id_2 {
            return Err(Error::RrquireDifferentParent);
        }
        let kitty_id = match self.next_kitty_id() {
            Ok(id) => id,
            Err(e) => {
                return Err(e);
            },
        };
        let selector = random_value(rt, sender);
        let new_dna = combine(&kitty1.0, &kitty2.0, &selector);
        self.insert_kitty(sender, kitty_id, Kitty(new_dna));
        Ok(kitty_id)
    }

    /// Breeds a new kitty as `do_breed` does, and announces it.
    pub fn breed<T: Trait>(
        &mut self,
        rt: &mut T,
        sender: AccountId,
        kitty_id_1: KittyIndex,
        kitty_id_2: KittyIndex,
    ) -> (r: Result<KittyIndex, Error>)
        requires
            old(self).wf(),
            old(rt).wf(),
        ensures
            final(self).wf(),
            final(rt).wf(),
            r == breed_outcome(old(self)@, kitty_id_1, kitty_id_2),
            same_ledger(old(rt), final(rt)),
            same_source(old(rt), final(rt)),
            match r {
                Ok(id) => {
                    &&& final(self)@.kitties.contains_key(id)
                    &&& final(self)@.kitties[id].0@ == spec_combine(
                        old(self)@.kitties[kitty_id_1].0@,
                        old(self)@.kitties[kitty_id_2].0@,
                        spec_random_value(old(rt).seed(), sender, old(rt).call_index()),
                    )
                    &&& final(self)@ == old(self)@.insert(id, sender, final(self)@.kitties[id])
                    &&& final(self).owned_by(sender) == old(self).owned_by(sender).insert(id)
                    &&& forall|who: AccountId|
                        who != sender ==> #[trigger] final(self).owned_by(who) == old(
                            self,
                        ).owned_by(who)
                    &&& final(rt).deposited() == old(rt).deposited().push(
                        Event::Created(sender, id),
                    )
                },
                Err(_) => {
                    &&& *final(self) == *old(self)
                    &&& *final(rt) == *old(rt)
                },
            },
    {
        let new_kitty_id = match self.do_breed(&*rt, sender, kitty_id_1, kitty_id_2) {
            Ok(id) => id,
            Err(e) => {
                return Err(e);
            },
        };
        rt.deposit_event(Event::Created(sender, new_kitty_id));
        Ok(new_kitty_id)
    }
}

/// Every kitty has exactly one owner, who lists it, and no other account lists it.
pub proof fn lemma_exactly_one_owner(module: &Module, id: KittyIndex, who: AccountId)
    requires
        module.wf(),
        module@.kitties.contains_key(id),
    ensures
        module@.owners.contains_key(id),
        module.owned_by(module@.owners[id]).contains(id),
        who != module@.owners[id] ==> !module.owned_by(who).contains(id),
{
    assert(module.owned_by(module@.owners[id]).contains(id) <==> module@.owns(
        module@.owners[id],
        id,
    ));
    assert(module.owned_by(who).contains(id) <==> module@.owns(who, id));
}

/// Every identifier in use lies below the next one to be handed out.
pub proof fn lemma_identifiers_below_count(module: &Module, id: KittyIndex)
    requires
        module.wf(),
        module@.kitties.contains_key(id),
    ensures
        id < module@.count,
{
}

/// A transfer asked for by anyone but the owner of the kitty is refused as such, whatever
/// the ledger would grant.
pub proof fn lemma_transfer_by_stranger(
    state: ModuleView,
    sender: AccountId,
    kitty_id: KittyIndex,
    can_reserve: bool,
)
    requires
        state.owners.contains_key(kitty_id),
        state.owners[kitty_id] != sender,
    ensures
        transfer_outcome(state, sender, kitty_id, can_reserve) == Err::<(), Error>(
            Error::NotKittyOwner,
        ),
{
}

/// A transfer by the owner succeeds exactly if the ledger grants the reservation for the
/// receiver, and is refused for want of money otherwise.
pub proof fn lemma_transfer_by_owner(
    state: ModuleView,
    sender: AccountId,
    kitty_id: KittyIndex,
    can_reserve: bool,
)
    requires
        state.owns(sender, kitty_id),
    ensures
        transfer_outcome(state, sender, kitty_id, can_reserve) == if can_reserve {
            Ok::<(), Error>(())
        } else {
            Err::<(), Error>(Error::MoneyNotEnough)
        },
{
}

/// Breeding an existing kitty with itself is refused.
pub proof fn lemma_breed_with_itself(state: ModuleView, kitty_id: KittyIndex)
    requires
        state.kitties.contains_key(kitty_id),
    ensures
        breed_outcome(state, kitty_id, kitty_id) == Err::<KittyIndex, Error>(
            Error::RrquireDifferentParent,
        ),
{
}

/// Breeding with a parent that does not exist is refused.
pub proof fn lemma_breed_missing_parent(
    state: ModuleView,
    kitty_id_1: KittyIndex,
    kitty_id_2: KittyIndex,
)
    requires
        !state.kitties.contains_key(kitty_id_1) || !state.kitties.contains_key(kitty_id_2),
    ensures
        breed_outcome(state, kitty_id_1, kitty_id_2) == Err::<KittyIndex, Error>(
            Error::InvalidKittyId,
        ),
{
}

/// Once the counter has reached its largest value, creation is refused whatever the
/// ledger would grant, and so is the breeding of two different existing kitties.
pub proof fn lemma_counter_exhausted(
    state: ModuleView,
    can_reserve: bool,
    kitty_id_1: KittyIndex,
    kitty_id_2: KittyIndex,
)
    requires
        state.count == KittyIndex::MAX,
    ensures
        create_outcome(state, can_reserve) == Err::<KittyIndex, Error>(
            Error::KittiesCountOverFlow,
        ),
        state.kitties.contains_key(kitty_id_1) && state.kitties.contains_key(kitty_id_2)
            && kitty_id_1 != kitty_id_2 ==> breed_outcome(state, kitty_id_1, kitty_id_2) == Err::<
            KittyIndex,
            Error,
        >(Error::KittiesCountOverFlow),
{
}

} // verus!
