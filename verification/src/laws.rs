//! Laws of the registry: properties that relate the operations to one
//! another, proved once and for all over the operation relations of
//! [`crate::registry`].

use vstd::prelude::*;
use crate::registry::Error;
use crate::registry::SpecEvent;
use crate::registry::State;
use crate::registry::breed_post;
use crate::registry::buy_post;
use crate::registry::create_post;
use crate::registry::lemma_push;
use crate::registry::lemma_update;
use crate::registry::sale_post;
use crate::registry::transfer_post;
use crate::registry::SpecEntry;

verus! {

/// A successful `create` returns exactly the counter value before the call
/// and advances the counter by exactly one.
pub proof fn law_create_allocates_in_order(
    pre: State,
    post: State,
    who: u64,
    seed: Seq<u8>,
    entropy: Seq<u8>,
    r: Result<u32, Error>,
)
    requires
        create_post(pre, post, who, seed, entropy, r),
        r is Ok,
    ensures
        r == Ok::<u32, Error>(pre.next_id),
        post.next_id == pre.next_id + 1,
{
}

/// `create` with the counter at the maximum representable identifier fails
/// with `IdentifierSpaceExhausted` and leaves the counter — and everything
/// else — unchanged.
pub proof fn law_create_exhaustion(
    pre: State,
    post: State,
    who: u64,
    seed: Seq<u8>,
    entropy: Seq<u8>,
    r: Result<u32, Error>,
)
    requires
        create_post(pre, post, who, seed, entropy, r),
        pre.next_id == u32::MAX,
    ensures
        r == Err::<u32, Error>(Error::IdentifierSpaceExhausted),
        post == pre,
{
}

/// Breeding an asset with itself always fails with `SameParent`, whether or
/// not the asset exists, and changes nothing.
pub proof fn law_breed_same_parent(
    pre: State,
    post: State,
    who: u64,
    parent: u32,
    seed: Seq<u8>,
    entropy: Seq<u8>,
    r: Result<u32, Error>,
)
    requires
        breed_post(pre, post, who, parent, parent, seed, entropy, r),
    ensures
        r == Err::<u32, Error>(Error::SameParent),
        post == pre,
{
}

/// Breeding from a missing parent fails with `UnknownAsset` and allocates no
/// identifier: the counter — and everything else — is unchanged.
pub proof fn law_breed_unknown_parent(
    pre: State,
    post: State,
    who: u64,
    parent_a: u32,
    parent_b: u32,
    seed: Seq<u8>,
    entropy: Seq<u8>,
    r: Result<u32, Error>,
)
    requires
        breed_post(pre, post, who, parent_a, parent_b, seed, entropy, r),
        parent_a != parent_b,
        !pre.has(parent_a) || !pre.has(parent_b),
    ensures
        r == Err::<u32, Error>(Error::UnknownAsset),
        post == pre,
        post.next_id == pre.next_id,
{
}

/// After a successful breeding the child's lineage is exactly the supplied
/// parent pair and its owner is the caller.
pub proof fn law_breed_lineage(
    pre: State,
    post: State,
    who: u64,
    parent_a: u32,
    parent_b: u32,
    seed: Seq<u8>,
    entropy: Seq<u8>,
    id: u32,
)
    requires
        pre.wf(),
        breed_post(pre, post, who, parent_a, parent_b, seed, entropy, Ok(id)),
    ensures
        post.has(id),
        post.parents_of(id) == Some((parent_a, parent_b)),
        post.owner_of(id) == who,
{
    let dna = crate::genetics::child_dna(
        pre.dna_of(parent_a),
        pre.dna_of(parent_b),
        crate::genetics::breed_selector(seed, entropy, who, parent_a, parent_b, id),
    );
    let e = SpecEntry { id, dna, owner: who, parents: Some((parent_a, parent_b)), price: None };
    lemma_push(pre, post, e);
}

/// `transfer` by anyone but the recorded owner fails with `NotOwner` and
/// leaves the ownership record — and everything else — unchanged.
pub proof fn law_transfer_not_owner(
    pre: State,
    post: State,
    who: u64,
    to: u64,
    id: u32,
    r: Result<(), Error>,
)
    requires
        transfer_post(pre, post, who, to, id, r),
        pre.has(id),
        pre.owner_of(id) != who,
    ensures
        r == Err::<(), Error>(Error::NotOwner),
        post == pre,
{
}

/// After any successful transfer the asset's sale listing is `None`,
/// whatever it was before.
pub proof fn law_transfer_clears_listing(
    pre: State,
    post: State,
    who: u64,
    to: u64,
    id: u32,
)
    requires
        pre.wf(),
        transfer_post(pre, post, who, to, id, Ok(())),
    ensures
        post.has(id),
        post.price_of(id) is None,
        post.owner_of(id) == to,
{
    let e = SpecEntry { owner: to, price: None, ..pre.entry(id) };
    lemma_update(pre, post, id, e);
}

/// Listing an asset and then buying it from a different caller with
/// sufficient funds succeeds, makes the buyer the owner and clears the
/// listing; the price the settlement moves — `mid.listed_price(id)`, the
/// amount of `buy`'s one ledger transfer — is exactly the listed one.
pub proof fn law_list_then_buy(
    pre: State,
    mid: State,
    post: State,
    who: u64,
    buyer: u64,
    id: u32,
    price: u128,
    buyer_balance: u128,
    owner_balance: u128,
    r1: Result<(), Error>,
    r2: Result<(), Error>,
)
    requires
        pre.wf(),
        pre.has(id),
        pre.owner_of(id) == who,
        buyer != who,
        buyer_balance >= price,
        owner_balance + price <= u128::MAX,
        sale_post(pre, mid, who, id, price, r1),
        buy_post(mid, post, buyer, id, buyer_balance, owner_balance, r2),
    ensures
        r1 == Ok::<(), Error>(()),
        r2 == Ok::<(), Error>(()),
        mid.price_of(id) == Some(price),
        mid.listed_price(id) == price,
        post.has(id),
        post.owner_of(id) == buyer,
        post.price_of(id) is None,
        mid.events == pre.events.push(SpecEvent::Listed { who, kitty_id: id, price }),
        post.events == mid.events.push(SpecEvent::Bought { who: buyer, kitty_id: id }),
{
    let listed = SpecEntry { price: Some(price), ..pre.entry(id) };
    lemma_update(pre, mid, id, listed);
    assert(mid.owner_of(id) == who);
    assert(mid.listed_price(id) == price);
    let bought = SpecEntry { owner: buyer, price: None, ..mid.entry(id) };
    lemma_update(mid, post, id, bought);
}

/// `buy` checks existence first, then ownership, then the listing: the
/// current owner is refused with `AlreadyOwned` even where no listing exists,
/// an unlisted asset with `NotOnSale`, a missing one with `UnknownAsset`; no
/// failing case changes anything.
pub proof fn law_buy_error_priority(
    pre: State,
    post: State,
    who: u64,
    id: u32,
    buyer_balance: u128,
    owner_balance: u128,
    r: Result<(), Error>,
)
    requires
        buy_post(pre, post, who, id, buyer_balance, owner_balance, r),
    ensures
        !pre.has(id) ==> r == Err::<(), Error>(Error::UnknownAsset) && post == pre,
        pre.has(id) && pre.owner_of(id) == who ==> r == Err::<(), Error>(Error::AlreadyOwned)
            && post == pre,
        pre.has(id) && pre.owner_of(id) != who && pre.price_of(id) is None ==> r == Err::<
            (),
            Error,
        >(Error::NotOnSale) && post == pre,
{
}

/// A failed settlement aborts the purchase entirely: the registry is exactly
/// as it was, so no asset ever changes hands without payment succeeding.
pub proof fn law_buy_atomic(
    pre: State,
    post: State,
    who: u64,
    id: u32,
    buyer_balance: u128,
    owner_balance: u128,
    r: Result<(), Error>,
)
    requires
        buy_post(pre, post, who, id, buyer_balance, owner_balance, r),
        r is Err,
    ensures
        post == pre,
{
}

} // verus!
