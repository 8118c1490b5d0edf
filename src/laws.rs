use vstd::prelude::*;

use crate::pallet::{ledger_invariants, Pallet, Payment};
use crate::types::{AccountId, Balance, Error, Kitty, MAX_OWNED};

verus! {

/// After `n` successful mints starting from an empty ledger, the count is
/// `n` and the `n` fingerprints are pairwise distinct and are exactly the
/// registry's keys.
pub proof fn mint_count(states: Seq<Pallet>, owners: Seq<AccountId>, dnas: Seq<[u8; 32]>)
    requires
        states.len() == dnas.len() + 1,
        owners.len() == dnas.len(),
        states[0].kitty_count() == 0,
        forall|i: int| 0 <= i < states.len() ==> #[trigger] states[i].wf(),
        forall|i: int|
            0 <= i < dnas.len() ==> #[trigger] states[i + 1].minted_from(states[i], owners[i], dnas[i]),
    ensures
        states.last().kitty_count() == dnas.len(),
        forall|i: int, j: int| 0 <= i < j < dnas.len() ==> dnas[i] != dnas[j],
        forall|d: [u8; 32]| states.last().kitties_map().contains_key(d) <==> #[trigger] dnas.contains(d),
    decreases dnas.len(),
{
    let n = dnas.len() as int;
    ledger_invariants(states[0]);
    if n > 0 {
        let s2 = states.drop_last();
        let o2 = owners.drop_last();
        let d2 = dnas.drop_last();
        assert forall|i: int| 0 <= i < s2.len() implies #[trigger] s2[i].wf() by {
            assert(states[i].wf());
        }
        assert forall|i: int| 0 <= i < d2.len() implies #[trigger] s2[i + 1].minted_from(
            s2[i],
            o2[i],
            d2[i],
        ) by {
            assert(states[i + 1].minted_from(states[i], owners[i], dnas[i]));
        }
        mint_count(s2, o2, d2);
        let before = states[n - 1];
        let after = states[n];
        assert(after.minted_from(before, owners[n - 1], dnas[n - 1]));
        ledger_invariants(before);
        ledger_invariants(after);
        assert(after.kitties_map().dom() =~= before.kitties_map().dom().insert(dnas[n - 1]));
        assert(!before.kitties_map().contains_key(dnas[n - 1]));
        assert forall|i: int, j: int| 0 <= i < j < dnas.len() implies dnas[i] != dnas[j] by {
            if j == n - 1 {
                assert(d2[i] == dnas[i]);
                assert(d2.contains(dnas[i]));
            } else {
                assert(d2[i] != d2[j]);
            }
        }
        assert forall|d: [u8; 32]|
            after.kitties_map().contains_key(d) <==> #[trigger] dnas.contains(d) by {
            if dnas.contains(d) && d != dnas[n - 1] {
                let k = choose|k: int| 0 <= k < dnas.len() && dnas[k] == d;
                assert(d2[k] == d);
            }
            if d2.contains(d) {
                let k = choose|k: int| 0 <= k < d2.len() && d2[k] == d;
                assert(dnas[k] == d);
            }
            if d == dnas[n - 1] {
                assert(dnas[n - 1] == d);
            }
        }
    } else {
        assert(states[0].kitties_map().dom() =~= Set::<[u8; 32]>::empty()) by {
            assert(states[0].kitties_map().dom().len() == 0);
        }
        assert forall|d: [u8; 32]|
            states.last().kitties_map().contains_key(d) <==> #[trigger] dnas.contains(d) by {
            if states[0].kitties_map().contains_key(d) {
                assert(states[0].kitties_map().dom().contains(d));
            }
        }
    }
}

/// Moving a kitty from `a` to `b` and back leaves it owned by `a`, unlisted,
/// with the registry otherwise unchanged and both owners holding what they held.
pub proof fn transfer_round_trip(s0: Pallet, s1: Pallet, s2: Pallet, a: AccountId, b: AccountId, x: [u8; 32])
    requires
        s0.wf(),
        s0.transfer_error(a, b, x) is None,
        s1.moved_from(s0, a, b, x),
        s2.moved_from(s1, b, a, x),
    ensures
        s2.kitties_map()[x] == (Kitty { dna: x, owner: a, price: None }),
        s2.kitties_map() == s0.kitties_map().insert(x, Kitty { dna: x, owner: a, price: None }),
        s2.kitty_count() == s0.kitty_count(),
        forall|d: [u8; 32]| #[trigger] s2.owned_of(a).contains(d) <==> s0.owned_of(a).contains(d),
        forall|d: [u8; 32]| #[trigger] s2.owned_of(b).contains(d) <==> s0.owned_of(b).contains(d),
        s2.owned_of(a).len() == s0.owned_of(a).len(),
        s2.owned_of(b).len() == s0.owned_of(b).len(),
{
    ledger_invariants(s0);
    assert(s2.kitties_map() =~= s0.kitties_map().insert(x, Kitty { dna: x, owner: a, price: None }));
    assert(s0.owned_of(a).contains(x));
    assert(!s0.owned_of(b).contains(x));
    assert forall|d: [u8; 32]| #[trigger] s2.owned_of(a).contains(d) <==> s0.owned_of(a).contains(d) by {
        assert(s2.owned_of(a) == s1.owned_of(a).push(x));
        if d != x {
            if s2.owned_of(a).contains(d) {
                let k = choose|k: int| 0 <= k < s2.owned_of(a).len() && s2.owned_of(a)[k] == d;
                assert(s1.owned_of(a)[k] == d);
            }
            if s1.owned_of(a).contains(d) {
                let k = choose|k: int| 0 <= k < s1.owned_of(a).len() && s1.owned_of(a)[k] == d;
                assert(s2.owned_of(a)[k] == d);
            }
        } else {
            assert(s2.owned_of(a)[s1.owned_of(a).len() as int] == x);
        }
    }
    assert forall|d: [u8; 32]| #[trigger] s2.owned_of(b).contains(d) <==> s0.owned_of(b).contains(d) by {
        assert(s1.owned_of(b) == s0.owned_of(b).push(x));
        if d != x {
            if s1.owned_of(b).contains(d) {
                let k = choose|k: int| 0 <= k < s1.owned_of(b).len() && s1.owned_of(b)[k] == d;
                assert(s0.owned_of(b)[k] == d);
            }
            if s0.owned_of(b).contains(d) {
                let k = choose|k: int| 0 <= k < s0.owned_of(b).len() && s0.owned_of(b)[k] == d;
                assert(s1.owned_of(b)[k] == d);
            }
        }
    }
}

/// A transfer to oneself is always refused, for that reason alone.
pub proof fn self_transfer_refused(p: Pallet, a: AccountId, x: [u8; 32])
    ensures
        p.transfer_error(a, a, x) == Some(Error::TransferToSelf),
{
}

/// Buying a kitty that has no price is refused as not for sale.
pub proof fn unlisted_not_for_sale(p: Pallet, buyer: AccountId, x: [u8; 32], max_price: Balance)
    requires
        p.kitties_map().contains_key(x),
        p.kitties_map()[x].price is None,
    ensures
        p.buy_error(buyer, x, max_price) == Some(Error::NotForSale),
{
}

/// A maximum below the asking price is refused; a maximum equal to it passes
/// the price check, so the purchase is then refused only for the reasons a
/// transfer from the seller to the buyer would be, and the payment it calls
/// for is exactly the asking price, from the buyer to the seller.
pub proof fn price_bound(p: Pallet, buyer: AccountId, x: [u8; 32], max_price: Balance)
    requires
        p.kitties_map().contains_key(x),
        p.kitties_map()[x].price is Some,
    ensures
        max_price < p.kitties_map()[x].price->0 ==> p.buy_error(buyer, x, max_price) == Some(
            Error::MaxPriceTooLow,
        ),
        p.buy_error(buyer, x, p.kitties_map()[x].price->0) == p.transfer_error(
            p.kitties_map()[x].owner,
            buyer,
            x,
        ),
        p.sale_payment(buyer, x) == (Payment {
            from: buyer,
            to: p.kitties_map()[x].owner,
            amount: p.kitties_map()[x].price->0,
        }),
{
}

/// An owner whose entry is full receives nothing more: a new mint for them
/// and a transfer to them are refused as too many owned.
pub proof fn full_owner_refused(p: Pallet, w: AccountId, from: AccountId, dna: [u8; 32], x: [u8; 32])
    requires
        p.wf(),
        p.owned_of(w).len() == MAX_OWNED,
    ensures
        !p.kitties_map().contains_key(dna) && p.kitty_count() < u32::MAX ==> p.mint_error(w, dna)
            == Some(Error::TooManyOwned),
        from != w && p.kitties_map().contains_key(x) && p.kitties_map()[x].owner == from
            ==> p.transfer_error(from, w, x) == Some(Error::TooManyOwned),
{
}

} // verus!
