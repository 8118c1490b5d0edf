use vstd::prelude::*;

use crate::dna::{blake2_256_of, dna_eq, dna_payload, gen_dna_from};
use crate::types::{AccountId, Balance, BlockInfo, Error, Event, Kitty, MAX_OWNED};

verus! {

/// A payment that a purchase asks the fund-transfer capability to make.
#[derive(Clone, Copy, Debug, PartialEq, Eq)]
pub struct Payment {
    pub from: AccountId,
    pub to: AccountId,
    pub amount: Balance,
}

/// The fund-transfer capability that a purchase relies on, provided by the
/// runtime that hosts the ledger.
pub trait Config {
    /// Moves exactly `amount` from `from` to `to`, keeping the payer's
    /// minimum balance; on failure (the payer cannot afford it) it moves
    /// nothing and says why.
    fn transfer_balance(&mut self, from: AccountId, to: AccountId, amount: Balance) -> Result<
        (),
        Error,
    >;
}

/// The result that an operation returns for a given refusal reason.
pub open spec fn outcome(e: Option<Error>) -> Result<(), Error> {
    match e {
        Some(e) => Err(e),
        None => Ok(()),
    }
}

/// A copy of a list of fingerprints.
fn copy_dnas(v: &Vec<[u8; 32]>) -> (r: Vec<[u8; 32]>)
    ensures
        r@ == v@,
{
    let mut r: Vec<[u8; 32]> = Vec::new();
    let mut i: usize = 0;
    while i < v.len()
        invariant
            i <= v.len(),
            r@ =~= v@.subrange(0, i as int),
        decreases v.len() - i,
    {
        r.push(v[i]);
        i = i + 1;
    }
    assert(r@ =~= v@);
    r
}

/// The position of `id` in `v`.
fn position_of(v: &Vec<[u8; 32]>, id: &[u8; 32]) -> (r: Option<usize>)
    ensures
        r is None <==> !v@.contains(*id),
        r matches Some(k) ==> k < v.len() && v[k as int] == *id,
{
    let mut k: usize = 0;
    while k < v.len()
        invariant
            k <= v.len(),
            forall|j: int| 0 <= j < k ==> v[j] != *id,
        decreases v.len() - k,
    {
        if dna_eq(&v[k], id) {
            return Some(k);
        }
        k = k + 1;
    }
    None
}

/// Removing position `k` by moving the last element into it keeps every
/// other element and drops the one removed.
proof fn lemma_swap_remove(s: Seq<[u8; 32]>, k: int)
    requires
        s.no_duplicates(),
        0 <= k < s.len(),
    ensures
        ({
            let t = s.update(k, s.last()).drop_last();
            &&& t.len() + 1 == s.len()
            &&& t.no_duplicates()
            &&& forall|d: [u8; 32]| #[trigger] t.contains(d) <==> (s.contains(d) && d != s[k])
        }),
{
    let t = s.update(k, s.last()).drop_last();
    let n = s.len() - 1;
    assert forall|d: [u8; 32]| #[trigger] t.contains(d) <==> (s.contains(d) && d != s[k]) by {
        if t.contains(d) {
            let j = choose|j: int| 0 <= j < t.len() && t[j] == d;
            if j == k {
                assert(s[n] == d);
            } else {
                assert(s[j] == d);
            }
        }
        if s.contains(d) && d != s[k] {
            let j = choose|j: int| 0 <= j < s.len() && s[j] == d;
            if j == n {
                assert(t[k] == d);
            } else {
                assert(t[j] == d);
            }
        }
    }
}

/// Appending an element that is not there keeps a sequence free of
/// duplicates and adds exactly that element.
proof fn lemma_push(s: Seq<[u8; 32]>, x: [u8; 32])
    ensures
        forall|d: [u8; 32]| #[trigger] s.push(x).contains(d) <==> (s.contains(d) || d == x),
        s.no_duplicates() && !s.contains(x) ==> s.push(x).no_duplicates(),
{
    let t = s.push(x);
    assert forall|d: [u8; 32]| #[trigger] t.contains(d) <==> (s.contains(d) || d == x) by {
        if t.contains(d) {
            let j = choose|j: int| 0 <= j < t.len() && t[j] == d;
            if j < s.len() {
                assert(s[j] == d);
            }
        }
        if s.contains(d) {
            let j = choose|j: int| 0 <= j < s.len() && s[j] == d;
            assert(t[j] == d);
        }
        if d == x {
            assert(t[s.len() as int] == d);
        }
    }
    if s.no_duplicates() && !s.contains(x) {
        assert forall|i: int, j: int| 0 <= i < t.len() && 0 <= j < t.len() && i != j implies t[i]
            != t[j] by {
            if i == s.len() {
                assert(s[j] == t[j]);
            } else if j == s.len() {
                assert(s[i] == t[i]);
            }
        }
    }
}

/// One owner's entry of the ownership index.
struct OwnedList {
    owner: AccountId,
    dnas: Vec<[u8; 32]>,
}

/// The ledger state: the registry of kitties, their count, the per-owner
/// index and the notifications emitted so far.
pub struct Pallet {
    kitties: Vec<Kitty>,
    count: u32,
    owned: Vec<OwnedList>,
    events: Vec<Event>,
    registry: Ghost<Map<[u8; 32], Kitty>>,
    index: Ghost<Map<AccountId, Seq<[u8; 32]>>>,
}

impl Pallet {
    /// The registry: each fingerprint to its kitty.
    pub closed spec fn kitties_map(&self) -> Map<[u8; 32], Kitty> {
        self.registry@
    }

    /// The number of kitties ever minted.
    pub closed spec fn kitty_count(&self) -> u32 {
        self.count
    }

    /// The fingerprints that `who` owns (empty for an account never seen).
    pub closed spec fn owned_of(&self, who: AccountId) -> Seq<[u8; 32]> {
        if self.index@.contains_key(who) {
            self.index@[who]
        } else {
            Seq::empty()
        }
    }

    /// The notifications emitted so far, oldest first.
    pub closed spec fn event_log(&self) -> Seq<Event> {
        self.events@
    }

    /// The ledger's invariants, stated over the registry and the index.
    pub open spec fn consistent(&self) -> bool {
        &&& forall|d: [u8; 32]| #[trigger]
            self.kitties_map().contains_key(d) ==> self.kitties_map()[d].dna == d
        &&& self.kitties_map().dom().finite()
        &&& self.kitties_map().dom().len() == self.kitty_count()
        &&& forall|w: AccountId, d: [u8; 32]| #[trigger]
            self.owned_of(w).contains(d) <==> (self.kitties_map().contains_key(d)
                && self.kitties_map()[d].owner == w)
        &&& forall|w: AccountId| #[trigger] self.owned_of(w).no_duplicates()
        &&& forall|w: AccountId| #[trigger] self.owned_of(w).len() <= MAX_OWNED
    }

    /// The stored kitties agree with the registry, one per fingerprint.
    closed spec fn kitties_ok(&self) -> bool {
        &&& forall|i: int, j: int|
            0 <= i < j < self.kitties.len() ==> self.kitties[i].dna != self.kitties[j].dna
        &&& forall|i: int|
            0 <= i < self.kitties.len() ==> self.registry@.contains_key(#[trigger] self.kitties[i].dna)
                && self.registry@[self.kitties[i].dna] == self.kitties[i]
        &&& forall|d: [u8; 32]| #[trigger]
            self.registry@.contains_key(d) ==> exists|i: int|
                0 <= i < self.kitties.len() && self.kitties[i].dna == d
    }

    /// The stored entries agree with the index, one per owner.
    closed spec fn index_ok(&self) -> bool {
        &&& forall|p: int, q: int|
            0 <= p < q < self.owned.len() ==> self.owned[p].owner != self.owned[q].owner
        &&& forall|p: int|
            0 <= p < self.owned.len() ==> self.index@.contains_key(#[trigger] self.owned[p].owner)
                && self.index@[self.owned[p].owner] == self.owned[p].dnas@
        &&& forall|w: AccountId| #[trigger]
            self.index@.contains_key(w) ==> exists|p: int|
                0 <= p < self.owned.len() && self.owned[p].owner == w
    }

    /// The stored vectors agree with the registry and the index, and the
    /// ledger's invariants hold.
    pub closed spec fn wf(&self) -> bool {
        &&& self.kitties.len() == self.count
        &&& self.kitties_ok()
        &&& self.index_ok()
        &&& self.consistent()
    }

    /// Why minting `dna` for `owner` is refused, if it is.
    pub open spec fn mint_error(&self, owner: AccountId, dna: [u8; 32]) -> Option<Error> {
        if self.kitties_map().contains_key(dna) {
            Some(Error::DuplicateKitty)
        } else if self.kitty_count() == u32::MAX {
            Some(Error::TooManyKitties)
        } else if self.owned_of(owner).len() >= MAX_OWNED {
            Some(Error::TooManyOwned)
        } else {
            None
        }
    }

    /// `self` is `prev` with `dna` minted for `owner`, unlisted.
    pub open spec fn minted_from(&self, prev: Pallet, owner: AccountId, dna: [u8; 32]) -> bool {
        &&& self.kitties_map() == prev.kitties_map().insert(
            dna,
            Kitty { dna, owner, price: None },
        )
        &&& self.kitty_count() == prev.kitty_count() + 1
        &&& self.owned_of(owner) == prev.owned_of(owner).push(dna)
        &&& forall|w: AccountId| w != owner ==> #[trigger] self.owned_of(w) == prev.owned_of(w)
        &&& self.event_log() == prev.event_log().push(Event::Created { owner })
    }

    /// Why transferring `id` from `from` to `to` is refused, if it is.
    pub open spec fn transfer_error(&self, from: AccountId, to: AccountId, id: [u8; 32]) -> Option<
        Error,
    > {
        if from == to {
            Some(Error::TransferToSelf)
        } else if !self.kitties_map().contains_key(id) {
            Some(Error::NoKitty)
        } else if self.kitties_map()[id].owner != from {
            Some(Error::NotOwner)
        } else if self.owned_of(to).len() >= MAX_OWNED {
            Some(Error::TooManyOwned)
        } else {
            None
        }
    }

    /// `self` is `prev` with `id` moved from `from` to `to` and its price
    /// cleared; no notification is counted here.
    pub open spec fn moved_from(&self, prev: Pallet, from: AccountId, to: AccountId, id: [u8; 32]) -> bool {
        &&& self.kitties_map() == prev.kitties_map().insert(
            id,
            Kitty { dna: id, owner: to, price: None },
        )
        &&& self.kitty_count() == prev.kitty_count()
        &&& self.owned_of(to) == prev.owned_of(to).push(id)
        &&& self.owned_of(from).len() + 1 == prev.owned_of(from).len()
        &&& forall|d: [u8; 32]| #[trigger]
            self.owned_of(from).contains(d) <==> (prev.owned_of(from).contains(d) && d != id)
        &&& forall|w: AccountId| w != from && w != to ==> #[trigger] self.owned_of(w) == prev.owned_of(w)
    }

    /// Why setting the price of `id` by `caller` is refused, if it is.
    pub open spec fn set_price_error(&self, caller: AccountId, id: [u8; 32]) -> Option<Error> {
        if !self.kitties_map().contains_key(id) {
            Some(Error::NoKitty)
        } else if self.kitties_map()[id].owner != caller {
            Some(Error::NotOwner)
        } else {
            None
        }
    }

    /// Why `buyer` cannot buy `id` for at most `max_price`, if the ledger
    /// alone decides it; the payment may still fail.
    pub open spec fn buy_error(&self, buyer: AccountId, id: [u8; 32], max_price: Balance) -> Option<
        Error,
    > {
        if !self.kitties_map().contains_key(id) {
            Some(Error::NoKitty)
        } else if self.kitties_map()[id].price is None {
            Some(Error::NotForSale)
        } else if max_price < self.kitties_map()[id].price->0 {
            Some(Error::MaxPriceTooLow)
        } else {
            self.transfer_error(self.kitties_map()[id].owner, buyer, id)
        }
    }

    /// The payment a sale of `id` to `buyer` calls for: its asking price,
    /// from the buyer to its owner.
    pub open spec fn sale_payment(&self, buyer: AccountId, id: [u8; 32]) -> Payment {
        Payment {
            from: buyer,
            to: self.kitties_map()[id].owner,
            amount: self.kitties_map()[id].price->0,
        }
    }

    /// An empty ledger.
    pub fn new() -> (r: Pallet)
        ensures
            r.wf(),
            r.kitties_map() == Map::<[u8; 32], Kitty>::empty(),
            r.kitty_count() == 0,
            forall|w: AccountId| #[trigger] r.owned_of(w) == Seq::<[u8; 32]>::empty(),
            r.event_log() == Seq::<Event>::empty(),
    {
        let r = Pallet {
            kitties: Vec::new(),
            count: 0,
            owned: Vec::new(),
            events: Vec::new(),
            registry: Ghost(Map::empty()),
            index: Ghost(Map::empty()),
        };
        assert(r.kitties_map().dom() =~= Set::<[u8; 32]>::empty());
        r
    }

    /// The position of the kitty with fingerprint `id` in the registry.
    fn find_kitty(&self, id: &[u8; 32]) -> (r: Option<usize>)
        requires
            self.wf(),
        ensures
            r is None <==> !self.kitties_map().contains_key(*id),
            r matches Some(i) ==> i < self.kitties.len() && self.kitties[i as int].dna == *id,
    {
        let mut i: usize = 0;
        while i < self.kitties.len()
            invariant
                self.wf(),
                i <= self.kitties.len(),
                forall|j: int| 0 <= j < i ==> self.kitties[j].dna != *id,
            decreases self.kitties.len() - i,
        {
            if dna_eq(&self.kitties[i].dna, id) {
                return Some(i);
            }
            i = i + 1;
        }
        None
    }

    /// The position of `who`'s entry in the ownership index.
    fn find_owner(&self, who: AccountId) -> (r: Option<usize>)
        requires
            self.wf(),
        ensures
            r is None ==> !self.index@.contains_key(who) && self.owned_of(who).len() == 0,
            r matches Some(p) ==> p < self.owned.len() && self.owned[p as int].owner == who,
    {
        let mut p: usize = 0;
        while p < self.owned.len()
            invariant
                self.wf(),
                p <= self.owned.len(),
                forall|q: int| 0 <= q < p ==> self.owned[q].owner != who,
            decreases self.owned.len() - p,
        {
            if self.owned[p].owner == who {
                return Some(p);
            }
            p = p + 1;
        }
        None
    }

    /// How many kitties `who` owns.
    fn owned_len(&self, who: AccountId) -> (r: usize)
        requires
            self.wf(),
        ensures
            r == self.owned_of(who).len(),
    {
        match self.find_owner(who) {
            Some(p) => self.owned[p].dnas.len(),
            None => 0,
        }
    }

    /// Records a notification.
    fn deposit_event(&mut self, e: Event)
        ensures
            final(self).kitties == old(self).kitties,
            final(self).count == old(self).count,
            final(self).owned == old(self).owned,
            final(self).registry == old(self).registry,
            final(self).index == old(self).index,
            final(self).events@ == old(self).events@.push(e),
    {
        self.events.push(e);
    }

    /// Appends `dna` to `who`'s entry, found at `pos`, creating it if absent.
    fn append_owned(&mut self, pos: Option<usize>, who: AccountId, dna: [u8; 32])
        requires
            old(self).index_ok(),
            pos is None ==> !old(self).index@.contains_key(who),
            pos matches Some(p) ==> p < old(self).owned.len() && old(self).owned[p as int].owner == who,
        ensures
            final(self).index_ok(),
            final(self).index@ == old(self).index@.insert(who, old(self).owned_of(who).push(dna)),
            final(self).owned.len() >= old(self).owned.len(),
            forall|q: int|
                0 <= q < old(self).owned.len() && old(self).owned[q].owner != who ==> #[trigger]
                    final(self).owned[q] == old(self).owned[q],
            final(self).kitties == old(self).kitties,
            final(self).count == old(self).count,
            final(self).events == old(self).events,
            final(self).registry == old(self).registry,
    {
        let ghost old_self = *self;
        match pos {
            Some(p) => {
                let mut l = copy_dnas(&self.owned[p].dnas);
                l.push(dna);
                self.owned.set(p, OwnedList { owner: who, dnas: l });
            },
            None => {
                let mut l: Vec<[u8; 32]> = Vec::new();
                l.push(dna);
                self.owned.push(OwnedList { owner: who, dnas: l });
                assert(l@ =~= old_self.owned_of(who).push(dna));
            },
        }
        self.index = Ghost(self.index@.insert(who, old_self.owned_of(who).push(dna)));
        assert forall|w: AccountId| #[trigger] self.index@.contains_key(w) implies exists|p: int|
            0 <= p < self.owned.len() && self.owned[p].owner == w by {
            if w == who {
                match pos {
                    Some(p) => assert(self.owned[p as int].owner == w),
                    None => assert(self.owned[old_self.owned.len() as int].owner == w),
                }
            } else {
                let p = choose|p: int| 0 <= p < old_self.owned.len() && old_self.owned[p].owner == w;
                assert(self.owned[p].owner == w);
            }
        }
    }

    /// Removes position `k` from the entry at `p` by moving its last
    /// fingerprint into that place.
    fn remove_owned(&mut self, p: usize, k: usize)
        requires
            old(self).index_ok(),
            p < old(self).owned.len(),
            k < old(self).owned[p as int].dnas.len(),
        ensures
            final(self).index_ok(),
            final(self).index@ == old(self).index@.insert(
                old(self).owned[p as int].owner,
                old(self).owned[p as int].dnas@.update(
                    k as int,
                    old(self).owned[p as int].dnas@.last(),
                ).drop_last(),
            ),
            final(self).kitties == old(self).kitties,
            final(self).count == old(self).count,
            final(self).events == old(self).events,
            final(self).registry == old(self).registry,
    {
        let ghost old_self = *self;
        let who = self.owned[p].owner;
        let mut l = copy_dnas(&self.owned[p].dnas);
        l.swap_remove(k);
        self.owned.set(p, OwnedList { owner: who, dnas: l });
        self.index = Ghost(self.index@.insert(who, l@));
        assert forall|w: AccountId| #[trigger] self.index@.contains_key(w) implies exists|q: int|
            0 <= q < self.owned.len() && self.owned[q].owner == w by {
            if w == who {
                assert(self.owned[p as int].owner == w);
            } else {
                let q = choose|q: int| 0 <= q < old_self.owned.len() && old_self.owned[q].owner == w;
                assert(self.owned[q].owner == w);
            }
        }
    }

    /// Mints a kitty with fingerprint `dna` for `owner`, with no price.
    pub fn mint(&mut self, owner: AccountId, dna: [u8; 32]) -> (r: Result<(), Error>)
        requires
            old(self).wf(),
        ensures
            final(self).wf(),
            r == outcome(old(self).mint_error(owner, dna)),
            r is Err ==> *final(self) == *old(self),
            r is Ok ==> final(self).minted_from(*old(self), owner, dna),
    {
        if self.find_kitty(&dna).is_some() {
            return Err(Error::DuplicateKitty);
        }
        let new_count = match self.count.checked_add(1) {
            Some(c) => c,
            None => return Err(Error::TooManyKitties),
        };
        let pos = self.find_owner(owner);
        let len = match pos {
            Some(p) => self.owned[p].dnas.len(),
            None => 0,
        };
        if len >= MAX_OWNED {
            return Err(Error::TooManyOwned);
        }
        let ghost old_self = *self;
        proof {
            lemma_push(old_self.owned_of(owner), dna);
        }
        self.append_owned(pos, owner, dna);
        let kitty = Kitty { dna, owner, price: None };
        self.kitties.push(kitty);
        self.registry = Ghost(self.registry@.insert(dna, kitty));
        self.count = new_count;
        self.deposit_event(Event::Created { owner });
        proof {
            assert(self.kitties_map().dom() =~= old_self.kitties_map().dom().insert(dna));
            assert forall|d: [u8; 32]| #[trigger] self.registry@.contains_key(d) implies exists|i: int|
                0 <= i < self.kitties.len() && self.kitties[i].dna == d by {
                if d == dna {
                    assert(self.kitties[old_self.kitties.len() as int].dna == d);
                } else {
                    let i = choose|i: int|
                        0 <= i < old_self.kitties.len() && old_self.kitties[i].dna == d;
                    assert(self.kitties[i].dna == d);
                }
            }
            assert forall|i: int|
                0 <= i < self.kitties.len() implies self.registry@.contains_key(
                #[trigger] self.kitties[i].dna,
            ) && self.registry@[self.kitties[i].dna] == self.kitties[i] by {
                if i < old_self.kitties.len() {
                    assert(old_self.registry@.contains_key(old_self.kitties[i].dna));
                }
            }
            assert forall|w: AccountId, d: [u8; 32]| #[trigger]
                self.owned_of(w).contains(d) <==> (self.kitties_map().contains_key(d)
                    && self.kitties_map()[d].owner == w) by {
                if w != owner {
                    assert(self.owned_of(w) == old_self.owned_of(w));
                    if d == dna {
                        assert(!old_self.owned_of(w).contains(d));
                    }
                }
            }
            assert forall|w: AccountId| #[trigger] self.owned_of(w).no_duplicates() by {
                if w != owner {
                    assert(self.owned_of(w) == old_self.owned_of(w));
                }
            }
            assert forall|w: AccountId| #[trigger] self.owned_of(w).len() <= MAX_OWNED by {
                if w != owner {
                    assert(self.owned_of(w) == old_self.owned_of(w));
                }
            }
            assert(self.event_log() =~= old_self.event_log().push(Event::Created { owner }));
        }
        Ok(())
    }

    /// Moves kitty `kitty_id` from `from` to `to` and clears its price.
    pub fn do_transfer(&mut self, from: AccountId, to: AccountId, kitty_id: [u8; 32]) -> (r: Result<
        (),
        Error,
    >)
        requires
            old(self).wf(),
        ensures
            final(self).wf(),
            r == outcome(old(self).transfer_error(from, to, kitty_id)),
            r is Err ==> *final(self) == *old(self),
            r is Ok ==> final(self).moved_from(*old(self), from, to, kitty_id),
            r is Ok ==> final(self).event_log() == old(self).event_log().push(
                Event::Transferred { from, to, kitty_id },
            ),
    {
        if from == to {
            return Err(Error::TransferToSelf);
        }
        let i = match self.find_kitty(&kitty_id) {
            Some(i) => i,
            None => return Err(Error::NoKitty),
        };
        let kitty = self.kitties[i];
        proof {
            assert(self.registry@[self.kitties[i as int].dna] == self.kitties[i as int]);
        }
        if kitty.owner != from {
            return Err(Error::NotOwner);
        }
        let to_pos = self.find_owner(to);
        let to_len = match to_pos {
            Some(p) => self.owned[p].dnas.len(),
            None => 0,
        };
        if to_len >= MAX_OWNED {
            return Err(Error::TooManyOwned);
        }
        proof {
            assert(self.owned_of(from).contains(kitty_id));
        }
        let from_pos = match self.find_owner(from) {
            Some(p) => p,
            None => return Err(Error::NoKitty),
        };
        let k = match position_of(&self.owned[from_pos].dnas, &kitty_id) {
            Some(k) => k,
            None => return Err(Error::NoKitty),
        };
        let ghost old_self = *self;
        proof {
            lemma_push(old_self.owned_of(to), kitty_id);
            lemma_swap_remove(old_self.owned_of(from), k as int);
        }
        self.append_owned(to_pos, to, kitty_id);
        self.remove_owned(from_pos, k);
        let moved = Kitty { dna: kitty_id, owner: to, price: None };
        self.kitties.set(i, moved);
        self.registry = Ghost(self.registry@.insert(kitty_id, moved));
        self.deposit_event(Event::Transferred { from, to, kitty_id });
        proof {
            assert(self.kitties_map().dom() =~= old_self.kitties_map().dom());
            assert forall|d: [u8; 32]| #[trigger] self.registry@.contains_key(d) implies exists|j: int|
                0 <= j < self.kitties.len() && self.kitties[j].dna == d by {
                let j = choose|j: int| 0 <= j < old_self.kitties.len() && old_self.kitties[j].dna == d;
                assert(self.kitties[j].dna == d);
            }
            assert forall|j: int|
                0 <= j < self.kitties.len() implies self.registry@.contains_key(
                #[trigger] self.kitties[j].dna,
            ) && self.registry@[self.kitties[j].dna] == self.kitties[j] by {
                assert(old_self.registry@.contains_key(old_self.kitties[j].dna));
            }
            assert forall|w: AccountId, d: [u8; 32]| #[trigger]
                self.owned_of(w).contains(d) <==> (self.kitties_map().contains_key(d)
                    && self.kitties_map()[d].owner == w) by {
                if w != from && w != to {
                    assert(self.owned_of(w) == old_self.owned_of(w));
                    if d == kitty_id {
                        assert(!old_self.owned_of(w).contains(d));
                    }
                }
                if w == to && d == kitty_id {
                    assert(self.owned_of(w).contains(d));
                }
            }
            assert forall|w: AccountId| #[trigger] self.owned_of(w).no_duplicates() by {
                if w != from && w != to {
                    assert(self.owned_of(w) == old_self.owned_of(w));
                } else if w == to {
                    assert(!old_self.owned_of(to).contains(kitty_id));
                }
            }
            assert forall|w: AccountId| #[trigger] self.owned_of(w).len() <= MAX_OWNED by {
                if w != from && w != to {
                    assert(self.owned_of(w) == old_self.owned_of(w));
                }
            }
        }
        Ok(())
    }

    /// Sets or clears the price of kitty `kitty_id`, on behalf of its owner.
    pub fn do_set_price(&mut self, caller: AccountId, kitty_id: [u8; 32], new_price: Option<Balance>) -> (r:
        Result<(), Error>)
        requires
            old(self).wf(),
        ensures
            final(self).wf(),
            r == outcome(old(self).set_price_error(caller, kitty_id)),
            r is Err ==> *final(self) == *old(self),
            r is Ok ==> final(self).kitties_map() == old(self).kitties_map().insert(
                kitty_id,
                Kitty { dna: kitty_id, owner: caller, price: new_price },
            ),
            r is Ok ==> final(self).kitty_count() == old(self).kitty_count(),
            r is Ok ==> forall|w: AccountId| #[trigger]
                final(self).owned_of(w) == old(self).owned_of(w),
            r is Ok ==> final(self).event_log() == old(self).event_log().push(
                Event::PriceSet { owner: caller, kitty_id, new_price },
            ),
    {
        let i = match self.find_kitty(&kitty_id) {
            Some(i) => i,
            None => return Err(Error::NoKitty),
        };
        let kitty = self.kitties[i];
        proof {
            assert(self.registry@[self.kitties[i as int].dna] == self.kitties[i as int]);
        }
        if kitty.owner != caller {
            return Err(Error::NotOwner);
        }
        let ghost old_self = *self;
        let priced = Kitty { dna: kitty_id, owner: caller, price: new_price };
        self.kitties.set(i, priced);
        self.registry = Ghost(self.registry@.insert(kitty_id, priced));
        self.deposit_event(Event::PriceSet { owner: caller, kitty_id, new_price });
        proof {
            assert(self.kitties_map().dom() =~= old_self.kitties_map().dom());
            assert forall|d: [u8; 32]| #[trigger] self.registry@.contains_key(d) implies exists|j: int|
                0 <= j < self.kitties.len() && self.kitties[j].dna == d by {
                let j = choose|j: int| 0 <= j < old_self.kitties.len() && old_self.kitties[j].dna == d;
                assert(self.kitties[j].dna == d);
            }
            assert forall|j: int|
                0 <= j < self.kitties.len() implies self.registry@.contains_key(
                #[trigger] self.kitties[j].dna,
            ) && self.registry@[self.kitties[j].dna] == self.kitties[j] by {
                assert(old_self.registry@.contains_key(old_self.kitties[j].dna));
            }
            assert forall|w: AccountId, d: [u8; 32]| #[trigger]
                self.owned_of(w).contains(d) <==> (self.kitties_map().contains_key(d)
                    && self.kitties_map()[d].owner == w) by {
                assert(self.owned_of(w) == old_self.owned_of(w));
            }
            assert forall|w: AccountId| #[trigger] self.owned_of(w).no_duplicates() by {
                assert(self.owned_of(w) == old_self.owned_of(w));
            }
            assert forall|w: AccountId| #[trigger] self.owned_of(w).len() <= MAX_OWNED by {
                assert(self.owned_of(w) == old_self.owned_of(w));
            }
        }
        Ok(())
    }

    /// `buyer` buys kitty `kitty_id` for its asking price, if that is at most
    /// `max_price`: the price moves from `buyer` to the owner through
    /// `currency`, then the kitty moves to `buyer` with its price cleared.
    /// Every ownership check is made before the payment, so a payment is
    /// never made for a kitty that cannot move. The payment's result is then
    /// handed to `finish_buy`.
    pub fn do_buy_kitty<C: Config>(
        &mut self,
        currency: &mut C,
        buyer: AccountId,
        kitty_id: [u8; 32],
        max_price: Balance,
    ) -> (r: Result<(), Error>)
        requires
            old(self).wf(),
        ensures
            final(self).wf(),
            old(self).buy_error(buyer, kitty_id, max_price) matches Some(e) ==> r == Err::<(), Error>(e)
                && *final(currency) == *old(currency),
            r is Err ==> *final(self) == *old(self),
            r is Ok ==> old(self).buy_error(buyer, kitty_id, max_price) is None,
            r is Ok ==> ({
                let seller = old(self).kitties_map()[kitty_id].owner;
                let price = old(self).kitties_map()[kitty_id].price->0;
                &&& final(self).moved_from(*old(self), seller, buyer, kitty_id)
                &&& final(self).event_log() == old(self).event_log().push(
                    Event::Transferred { from: seller, to: buyer, kitty_id },
                ).push(Event::Sold { buyer: buyer, kitty_id, price })
            }),
    {
        let pay = match self.prepare_buy(buyer, kitty_id, max_price) {
            Ok(pay) => pay,
            Err(e) => return Err(e),
        };
        let paid = currency.transfer_balance(pay.from, pay.to, pay.amount);
        self.finish_buy(paid, buyer, kitty_id, pay)
    }

    /// Completes the sale of kitty `kitty_id` to `buyer` once the payment
    /// `pay` has been attempted, with `paid` its result: a failed payment's
    /// error is returned and the ledger is left as it was; after a successful
    /// one the kitty moves to `buyer`, unlisted, and the sale is announced.
    pub fn finish_buy(&mut self, paid: Result<(), Error>, buyer: AccountId, kitty_id: [u8; 32], pay: Payment) -> (r:
        Result<(), Error>)
        requires
            old(self).wf(),
            old(self).kitties_map().contains_key(kitty_id),
            old(self).kitties_map()[kitty_id].price == Some(pay.amount),
            old(self).transfer_error(old(self).kitties_map()[kitty_id].owner, buyer, kitty_id) is None,
            pay == old(self).sale_payment(buyer, kitty_id),
        ensures
            final(self).wf(),
            r == paid,
            paid is Err ==> *final(self) == *old(self),
            paid is Ok ==> final(self).moved_from(*old(self), pay.to, buyer, kitty_id),
            paid is Ok ==> final(self).event_log() == old(self).event_log().push(
                Event::Transferred { from: pay.to, to: buyer, kitty_id },
            ).push(Event::Sold { buyer, kitty_id, price: pay.amount }),
    {
        if let Err(e) = paid {
            return Err(e);
        }
        let moved = self.do_transfer(pay.to, buyer, kitty_id);
        if let Err(e) = moved {
            return Err(e);
        }
        let ghost mid = *self;
        self.deposit_event(Event::Sold { buyer, kitty_id, price: pay.amount });
        proof {
            assert(self.kitties_map() == mid.kitties_map());
            assert(self.kitty_count() == mid.kitty_count());
            assert forall|w: AccountId| #[trigger] self.owned_of(w) == mid.owned_of(w) by {}
            assert(self.wf());
        }
        paid
    }

    /// Checks that `buyer` may buy kitty `kitty_id` for at most `max_price`
    /// and returns the payment owed: the asking price, from the buyer to the
    /// owner. Every ownership check is made here, before any payment, so a
    /// payment is never made for a kitty that cannot move.
    pub fn prepare_buy(&self, buyer: AccountId, kitty_id: [u8; 32], max_price: Balance) -> (r: Result<
        Payment,
        Error,
    >)
        requires
            self.wf(),
        ensures
            r == (match self.buy_error(buyer, kitty_id, max_price) {
                Some(e) => Err(e),
                None => Ok(self.sale_payment(buyer, kitty_id)),
            }),
    {
        let i = match self.find_kitty(&kitty_id) {
            Some(i) => i,
            None => return Err(Error::NoKitty),
        };
        let kitty = self.kitties[i];
        proof {
            assert(self.registry@[self.kitties[i as int].dna] == self.kitties[i as int]);
        }
        let real_price = match kitty.price {
            Some(p) => p,
            None => return Err(Error::NotForSale),
        };
        if max_price < real_price {
            return Err(Error::MaxPriceTooLow);
        }
        if kitty.owner == buyer {
            return Err(Error::TransferToSelf);
        }
        if self.owned_len(buyer) >= MAX_OWNED {
            return Err(Error::TooManyOwned);
        }
        Ok(Payment { from: buyer, to: kitty.owner, amount: real_price })
    }

    /// The fingerprint that the next kitty minted in the block described by
    /// `info` receives.
    pub fn gen_dna(&self, info: &BlockInfo) -> (r: [u8; 32])
        ensures
            r == blake2_256_of(dna_payload(*info, self.kitty_count())),
    {
        gen_dna_from(info, self.count)
    }

    /// Creates a kitty for `who` with a fingerprint derived from `info`.
    pub fn create_kitty(&mut self, who: AccountId, info: &BlockInfo) -> (r: Result<(), Error>)
        requires
            old(self).wf(),
        ensures
            final(self).wf(),
            ({
                let dna = blake2_256_of(dna_payload(*info, old(self).kitty_count()));
                &&& r == outcome(old(self).mint_error(who, dna))
                &&& r is Err ==> *final(self) == *old(self)
                &&& r is Ok ==> final(self).minted_from(*old(self), who, dna)
            }),
    {
        let dna = self.gen_dna(info);
        self.mint(who, dna)
    }

    /// Transfers kitty `kitty_id` from the caller `who` to `to`.
    pub fn transfer(&mut self, who: AccountId, to: AccountId, kitty_id: [u8; 32]) -> (r: Result<
        (),
        Error,
    >)
        requires
            old(self).wf(),
        ensures
            final(self).wf(),
            r == outcome(old(self).transfer_error(who, to, kitty_id)),
            r is Err ==> *final(self) == *old(self),
            r is Ok ==> final(self).moved_from(*old(self), who, to, kitty_id),
            r is Ok ==> final(self).event_log() == old(self).event_log().push(
                Event::Transferred { from: who, to, kitty_id },
            ),
    {
        self.do_transfer(who, to, kitty_id)
    }

    /// Sets or clears, for the caller `who`, the price of kitty `kitty_id`.
    pub fn set_price(&mut self, who: AccountId, kitty_id: [u8; 32], new_price: Option<Balance>) -> (r:
        Result<(), Error>)
        requires
            old(self).wf(),
        ensures
            final(self).wf(),
            r == outcome(old(self).set_price_error(who, kitty_id)),
            r is Err ==> *final(self) == *old(self),
            r is Ok ==> final(self).kitties_map() == old(self).kitties_map().insert(
                kitty_id,
                Kitty { dna: kitty_id, owner: who, price: new_price },
            ),
            r is Ok ==> final(self).kitty_count() == old(self).kitty_count(),
            r is Ok ==> forall|w: AccountId| #[trigger]
                final(self).owned_of(w) == old(self).owned_of(w),
            r is Ok ==> final(self).event_log() == old(self).event_log().push(
                Event::PriceSet { owner: who, kitty_id, new_price },
            ),
    {
        self.do_set_price(who, kitty_id, new_price)
    }

    /// The caller `who` buys kitty `kitty_id`, paying its asking price if
    /// that is at most `max_price`.
    pub fn buy_kitty<C: Config>(
        &mut self,
        currency: &mut C,
        who: AccountId,
        kitty_id: [u8; 32],
        max_price: Balance,
    ) -> (r: Result<(), Error>)
        requires
            old(self).wf(),
        ensures
            final(self).wf(),
            old(self).buy_error(who, kitty_id, max_price) matches Some(e) ==> r == Err::<(), Error>(e)
                && *final(currency) == *old(currency),
            r is Err ==> *final(self) == *old(self),
            r is Ok ==> old(self).buy_error(who, kitty_id, max_price) is None,
            r is Ok ==> ({
                let seller = old(self).kitties_map()[kitty_id].owner;
                let price = old(self).kitties_map()[kitty_id].price->0;
                &&& final(self).moved_from(*old(self), seller, who, kitty_id)
                &&& final(self).event_log() == old(self).event_log().push(
                    Event::Transferred { from: seller, to: who, kitty_id },
                ).push(Event::Sold { buyer: who, kitty_id, price })
            }),
    {
        self.do_buy_kitty(currency, who, kitty_id, max_price)
    }

    /// The kitty with fingerprint `kitty_id`, if any.
    pub fn kitty(&self, kitty_id: &[u8; 32]) -> (r: Option<Kitty>)
        requires
            self.wf(),
        ensures
            r == (if self.kitties_map().contains_key(*kitty_id) {
                Some(self.kitties_map()[*kitty_id])
            } else {
                None
            }),
    {
        match self.find_kitty(kitty_id) {
            Some(i) => {
                proof {
                    assert(self.registry@[self.kitties[i as int].dna] == self.kitties[i as int]);
                }
                Some(self.kitties[i])
            },
            None => None,
        }
    }

    /// The number of kitties ever minted.
    pub fn count_for_kitties(&self) -> (r: u32)
        ensures
            r == self.kitty_count(),
    {
        self.count
    }

    /// The fingerprints that `who` owns, in no meaningful order.
    pub fn kitties_owned(&self, who: AccountId) -> (r: Vec<[u8; 32]>)
        requires
            self.wf(),
        ensures
            r@ == self.owned_of(who),
    {
        match self.find_owner(who) {
            Some(p) => copy_dnas(&self.owned[p].dnas),
            None => Vec::new(),
        }
    }

    /// The notifications emitted so far, oldest first.
    pub fn events(&self) -> (r: &Vec<Event>)
        ensures
            r@ == self.event_log(),
    {
        &self.events
    }
}

/// Every well-formed ledger meets its invariants: fingerprints are keys of
/// the registry and each kitty records its own; the count equals the number
/// of kitties; each kitty is listed, once, in its owner's entry and in no
/// other; no entry holds more than the maximum.
pub proof fn ledger_invariants(p: Pallet)
    requires
        p.wf(),
    ensures
        p.consistent(),
        forall|d: [u8; 32], w1: AccountId, w2: AccountId|
            #[trigger] p.owned_of(w1).contains(d) && #[trigger] p.owned_of(w2).contains(d) ==> w1
                == w2,
        forall|d: [u8; 32]| #[trigger]
            p.kitties_map().contains_key(d) ==> p.owned_of(p.kitties_map()[d].owner).contains(d),
{
}

} // verus!
