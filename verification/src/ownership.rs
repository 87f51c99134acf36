//! The ownership index: who owns each kitty, and which kitties each account owns.
use crate::types::{AccountId, KittyIndex};
use std::collections::HashMap;
use vstd::prelude::*;

verus! {

broadcast use vstd::std_specs::hash::group_hash_axioms;

/// The position of `id` in `list`, if it occurs there.
pub fn position(list: &Vec<KittyIndex>, id: KittyIndex) -> (r: Option<usize>)
    ensures
        match r {
            Some(i) => i < list@.len() && list@[i as int] == id && !list@.take(i as int).contains(
                id,
            ),
            None => !list@.contains(id),
        },
{
    let mut i: usize = 0;
    while i < list.len()
        invariant
            i <= list@.len(),
            forall|k: int| 0 <= k < i ==> list@[k] != id,
        decreases list@.len() - i,
    {
        if list[i] == id {
            return Some(i);
        }
        i = i + 1;
    }
    None
}

/// Appending an element that a duplicate-free list lacks keeps it duplicate-free and
/// adds the element to the set of its members.
proof fn lemma_push_fresh(s: Seq<KittyIndex>, id: KittyIndex)
    requires
        s.no_duplicates(),
        !s.contains(id),
    ensures
        s.push(id).no_duplicates(),
        s.push(id).to_set() == s.to_set().insert(id),
{
    let t = s.push(id);
    assert forall|i: int, j: int| 0 <= i < t.len() && 0 <= j < t.len() && i != j implies t[i]
        != t[j] by {
        if i < s.len() {
            assert(s.contains(s[i]));
        }
        if j < s.len() {
            assert(s.contains(s[j]));
        }
    }
    assert forall|x: KittyIndex| t.to_set().contains(x) <==> s.to_set().insert(id).contains(
        x,
    ) by {
        if t.contains(x) {
            let i = choose|i: int| 0 <= i < t.len() && t[i] == x;
            if i < s.len() {
                assert(s[i] == x);
                assert(s.contains(x));
            }
        }
        if s.contains(x) {
            let i = choose|i: int| 0 <= i < s.len() && s[i] == x;
            assert(t[i] == x);
        }
        if x == id {
            assert(t[s.len() as int] == x);
        }
    }
    assert(t.to_set() =~= s.to_set().insert(id));
}

/// Taking one position out of a duplicate-free list keeps it duplicate-free and takes
/// the element at that position out of the set of its members.
proof fn lemma_remove_at(s: Seq<KittyIndex>, at: int)
    requires
        s.no_duplicates(),
        0 <= at < s.len(),
    ensures
        s.remove(at).no_duplicates(),
        s.remove(at).to_set() == s.to_set().remove(s[at]),
{
    let t = s.remove(at);
    assert forall|i: int, j: int| 0 <= i < t.len() && 0 <= j < t.len() && i != j implies t[i]
        != t[j] by {
        let si = if i < at { i } else { i + 1 };
        let sj = if j < at { j } else { j + 1 };
        assert(t[i] == s[si] && t[j] == s[sj]);
    }
    assert forall|x: KittyIndex| t.to_set().contains(x) <==> s.to_set().remove(s[at]).contains(
        x,
    ) by {
        if t.contains(x) {
            let i = choose|i: int| 0 <= i < t.len() && t[i] == x;
            let si = if i < at { i } else { i + 1 };
            assert(s[si] == x);
            assert(s.contains(x));
        }
        if s.contains(x) && x != s[at] {
            let i = choose|i: int| 0 <= i < s.len() && s[i] == x;
            let ti = if i < at { i } else { i - 1 };
            assert(t[ti] == x);
        }
    }
    assert(t.to_set() =~= s.to_set().remove(s[at]));
}

/// The owner of each kitty, and the kitties of each owner.
///
/// The two halves are kept apart on purpose: an operation on one does not touch the
/// other, and it is the registry's operations that keep them in step.
#[derive(Clone, Debug, PartialEq, Eq)]
pub struct Ownership {
    kitty_owners: HashMap<KittyIndex, AccountId>,
    owned_kitties: HashMap<AccountId, Vec<KittyIndex>>,
}

impl Ownership {
    /// The recorded owner of each kitty.
    pub closed spec fn owners(&self) -> Map<KittyIndex, AccountId> {
        self.kitty_owners@
    }

    /// The kitties listed under `who`, in the order in which they are kept.
    pub closed spec fn owned_list(&self, who: AccountId) -> Seq<KittyIndex> {
        if self.owned_kitties@.contains_key(who) {
            self.owned_kitties@[who]@
        } else {
            Seq::<KittyIndex>::empty()
        }
    }

    /// The kitties listed under `who`.
    pub open spec fn owned_by(&self, who: AccountId) -> Set<KittyIndex> {
        self.owned_list(who).to_set()
    }

    /// No account lists a kitty twice.
    pub open spec fn wf(&self) -> bool {
        forall|who: AccountId| #[trigger] self.owned_list(who).no_duplicates()
    }

    /// The two halves agree: an account lists a kitty exactly if it is the kitty's
    /// recorded owner.
    pub open spec fn consistent(&self) -> bool {
        forall|who: AccountId, id: KittyIndex| #[trigger]
            self.owned_by(who).contains(id) <==> (self.owners().contains_key(id)
                && self.owners()[id] == who)
    }

    /// An index without owners.
    pub fn new() -> (r: Ownership)
        ensures
            r.wf(),
            r.consistent(),
            r.owners() == Map::<KittyIndex, AccountId>::empty(),
            forall|who: AccountId| #[trigger] r.owned_by(who) == Set::<KittyIndex>::empty(),
    {
        let r = Ownership { kitty_owners: HashMap::new(), owned_kitties: HashMap::new() };
        proof {
            assert forall|who: AccountId| #[trigger] r.owned_by(who) == Set::<KittyIndex>::empty() by {
                assert(r.owned_list(who) =~= Seq::<KittyIndex>::empty());
                assert(r.owned_by(who) =~= Set::<KittyIndex>::empty());
            }
        }
        r
    }

    /// The recorded owner of `id`, if it has one.
    pub fn kitty_owner(&self, id: KittyIndex) -> (r: Option<AccountId>)
        ensures
            r == if self.owners().contains_key(id) {
                Some(self.owners()[id])
            } else {
                None
            },
    {
        match self.kitty_owners.get(&id) {
            Some(owner) => Some(*owner),
            None => None,
        }
    }

    /// The kitties listed under `who`, each once, in no particular order.
    pub fn owned_kitties(&self, who: AccountId) -> (r: Vec<KittyIndex>)
        requires
            self.wf(),
        ensures
            r@.no_duplicates(),
            r@.to_set() == self.owned_by(who),
    {
        assert(self.owned_list(who).no_duplicates());
        match self.owned_kitties.get(&who) {
            Some(list) => {
                let r = list.clone();
                assert(r@ =~= self.owned_list(who));
                r
            },
            None => {
                let r = Vec::new();
                assert(r@ =~= self.owned_list(who));
                r
            },
        }
    }

    /// Records `account` as the owner of `id`, whoever owned it before. The lists of
    /// owned kitties are left as they are.
    pub fn set_owner(&mut self, id: KittyIndex, account: AccountId)
        ensures
            final(self).owners() == old(self).owners().insert(id, account),
            forall|who: AccountId| #[trigger] final(self).owned_list(who) == old(self).owned_list(who),
    {
        self.kitty_owners.insert(id, account);
    }

    /// Lists `id` under `account`. Listing it a second time changes nothing.
    pub fn add_to_index(&mut self, account: AccountId, id: KittyIndex)
        requires
            old(self).wf(),
        ensures
            final(self).wf(),
            final(self).owners() == old(self).owners(),
            final(self).owned_by(account) == old(self).owned_by(account).insert(id),
            forall|who: AccountId|
                who != account ==> #[trigger] final(self).owned_list(who) == old(self).owned_list(
                    who,
                ),
    {
        let ghost before = old(self).owned_list(account);
        let mut list = match self.owned_kitties.remove(&account) {
            Some(list) => list,
            None => Vec::new(),
        };
        assert(list@ == before);
        if position(&list, id).is_none() {
            proof {
                lemma_push_fresh(list@, id);
            }
            list.push(id);
        } else {
            assert(before.contains(id));
            assert(before.to_set().insert(id) =~= before.to_set());
        }
        self.owned_kitties.insert(account, list);
        proof {
            assert(self.owned_list(account) == list@);
            assert forall|who: AccountId| #[trigger] self.owned_list(who).no_duplicates() by {
                if who != account {
                    assert(self.owned_list(who) == old(self).owned_list(who));
                }
            }
        }
    }

    /// Takes `id` off the list of `account`. Where it is not listed, nothing changes.
    pub fn remove_from_index(&mut self, account: AccountId, id: KittyIndex)
        requires
            old(self).wf(),
        ensures
            final(self).wf(),
            final(self).owners() == old(self).owners(),
            final(self).owned_by(account) == old(self).owned_by(account).remove(id),
            forall|who: AccountId|
                who != account ==> #[trigger] final(self).owned_list(who) == old(self).owned_list(
                    who,
                ),
    {
        let ghost before = old(self).owned_list(account);
        match self.owned_kitties.remove(&account) {
            Some(list) => {
                let mut list = list;
                assert(list@ == before);
                match position(&list, id) {
                    Some(at) => {
                        proof {
                            lemma_remove_at(list@, at as int);
                        }
                        list.remove(at);
                    },
                    None => {
                        assert(before.to_set().remove(id) =~= before.to_set());
                    },
                }
                self.owned_kitties.insert(account, list);
                proof {
                    assert(self.owned_list(account) == list@);
                    assert forall|who: AccountId| #[trigger]
                        self.owned_list(who).no_duplicates() by {
                        if who != account {
                            assert(self.owned_list(who) == old(self).owned_list(who));
                        }
                    }
                }
            },
            None => {
                proof {
                    assert(self.owned_kitties@ =~= old(self).owned_kitties@);
                    assert(before.to_set().remove(id) =~= before.to_set());
                    assert forall|who: AccountId| #[trigger]
                        self.owned_list(who) == old(self).owned_list(who) by {}
                }
            },
        }
    }

    /// Lists `kitty_index` under `owner` where `is_add` holds, and takes it off the list
    /// of `owner` where it does not.
    pub fn update_kitty_owner_count(&mut self, owner: AccountId, kitty_index: KittyIndex, is_add: bool)
        requires
            old(self).wf(),
        ensures
            final(self).wf(),
            final(self).owners() == old(self).owners(),
            final(self).owned_by(owner) == if is_add {
                old(self).owned_by(owner).insert(kitty_index)
            } else {
                old(self).owned_by(owner).remove(kitty_index)
            },
            forall|who: AccountId|
                who != owner ==> #[trigger] final(self).owned_list(who) == old(self).owned_list(
                    who,
                ),
    {
        if is_add {
            self.add_to_index(owner, kitty_index);
        } else {
            self.remove_from_index(owner, kitty_index);
        }
    }
}

} // verus!
