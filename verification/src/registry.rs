//! The asset registry and marketplace.
//!
//! One record per asset identifier holds the genetic payload, the owner, the
//! optional parent pair and the optional sale listing; a scalar counter is the
//! next identifier to allocate. Every operation either completes and emits
//! exactly one event, or fails with a typed error and leaves the whole state
//! exactly as it was.
//!
//! The abstract state is [`State`]; each operation's behaviour is a relation
//! (`create_post`, `breed_post`, ...) between the state before and after,
//! stated once and shared by the executable code and the laws in
//! [`crate::laws`].

use vstd::prelude::*;
use crate::genetics;
use crate::genetics::Kitty;
use crate::ledger::Ledger;
use crate::ledger::LedgerError;

verus! {

/// Why an operation was refused. Failed operations never change any state.
#[derive(Clone, Copy, PartialEq, Eq, Debug)]
pub enum Error {
    /// The identifier counter is at the maximum representable value.
    IdentifierSpaceExhausted,
    /// The referenced identifier has no registry entry.
    UnknownAsset,
    /// Breeding was requested with identical parent identifiers.
    SameParent,
    /// The caller is not the recorded owner.
    NotOwner,
    /// A purchase was attempted on an asset with no active listing.
    NotOnSale,
    /// A purchase was attempted by the current owner.
    AlreadyOwned,
    /// The currency ledger refused the settlement; its error is carried
    /// verbatim.
    Currency(LedgerError),
}

/// One event per successful operation, in order of occurrence.
#[derive(Clone, Copy, PartialEq, Eq, Debug)]
pub enum Event {
    KittyCreated { who: u64, kitty_id: u32, kitty: Kitty },
    KittyBred { who: u64, kitty_id: u32, kitty: Kitty },
    KittyTransferred { who: u64, to: u64, kitty_id: u32 },
    KittyListed { who: u64, kitty_id: u32, price: u128 },
    KittyBought { who: u64, kitty_id: u32 },
}

/// The mathematical image of an [`Event`]: the payload as a byte sequence.
pub enum SpecEvent {
    Created { who: u64, kitty_id: u32, dna: Seq<u8> },
    Bred { who: u64, kitty_id: u32, dna: Seq<u8> },
    Transferred { who: u64, to: u64, kitty_id: u32 },
    Listed { who: u64, kitty_id: u32, price: u128 },
    Bought { who: u64, kitty_id: u32 },
}

impl View for Event {
    type V = SpecEvent;

    open spec fn view(&self) -> SpecEvent {
        match *self {
            Event::KittyCreated { who, kitty_id, kitty } => SpecEvent::Created {
                who,
                kitty_id,
                dna: kitty@,
            },
            Event::KittyBred { who, kitty_id, kitty } => SpecEvent::Bred {
                who,
                kitty_id,
                dna: kitty@,
            },
            Event::KittyTransferred { who, to, kitty_id } => SpecEvent::Transferred {
                who,
                to,
                kitty_id,
            },
            Event::KittyListed { who, kitty_id, price } => SpecEvent::Listed {
                who,
                kitty_id,
                price,
            },
            Event::KittyBought { who, kitty_id } => SpecEvent::Bought { who, kitty_id },
        }
    }
}

/// The mathematical image of one asset's record.
pub struct SpecEntry {
    pub id: u32,
    pub dna: Seq<u8>,
    pub owner: u64,
    pub parents: Option<(u32, u32)>,
    pub price: Option<u128>,
}

/// One asset's record: its immutable payload, the mutable owner, the lineage
/// fixed at creation, and the sale listing.
#[derive(Clone, Copy)]
struct Entry {
    id: u32,
    kitty: Kitty,
    owner: u64,
    parents: Option<(u32, u32)>,
    price: Option<u128>,
}

impl View for Entry {
    type V = SpecEntry;

    closed spec fn view(&self) -> SpecEntry {
        SpecEntry {
            id: self.id,
            dna: self.kitty@,
            owner: self.owner,
            parents: self.parents,
            price: self.price,
        }
    }
}

/// The registry's abstract state: the identifier counter, the asset records
/// and the emitted events.
pub struct State {
    pub next_id: u32,
    pub entries: Seq<SpecEntry>,
    pub events: Seq<SpecEvent>,
}

impl State {
    /// No identifier is recorded twice.
    pub open spec fn ids_unique(self) -> bool {
        forall|i: int, j: int|
            0 <= i < j < self.entries.len() ==> self.entries[i].id != self.entries[j].id
    }

    /// Every global invariant of the registry: unique identifiers, the
    /// counter strictly bounding every issued identifier, recorded parents
    /// that differ and exist, and payloads of the fixed length.
    pub open spec fn wf(self) -> bool {
        &&& self.ids_unique()
        &&& forall|i: int|
            0 <= i < self.entries.len() ==> (#[trigger] self.entries[i]).id < self.next_id
        &&& forall|i: int|
            0 <= i < self.entries.len() ==> match (#[trigger] self.entries[i]).parents {
                Some((a, b)) => a != b && self.has(a) && self.has(b),
                None => true,
            }
        &&& forall|i: int|
            0 <= i < self.entries.len() ==> (#[trigger] self.entries[i]).dna.len() == 16
    }

    /// Whether an asset with this identifier exists.
    pub open spec fn has(self, id: u32) -> bool {
        exists|i: int| 0 <= i < self.entries.len() && (#[trigger] self.entries[i]).id == id
    }

    /// The position of an asset's record, meaningful only when it exists.
    pub open spec fn idx(self, id: u32) -> int {
        choose|i: int| 0 <= i < self.entries.len() && (#[trigger] self.entries[i]).id == id
    }

    /// The asset's record, meaningful only when it exists.
    pub open spec fn entry(self, id: u32) -> SpecEntry {
        self.entries[self.idx(id)]
    }

    /// The asset's genetic payload.
    pub open spec fn dna_of(self, id: u32) -> Seq<u8> {
        self.entry(id).dna
    }

    /// The asset's current owner.
    pub open spec fn owner_of(self, id: u32) -> u64 {
        self.entry(id).owner
    }

    /// The asset's recorded lineage.
    pub open spec fn parents_of(self, id: u32) -> Option<(u32, u32)> {
        self.entry(id).parents
    }

    /// The asset's sale listing.
    pub open spec fn price_of(self, id: u32) -> Option<u128> {
        self.entry(id).price
    }

    /// The listed price, meaningful only while a listing exists.
    pub open spec fn listed_price(self, id: u32) -> u128 {
        match self.entry(id).price {
            Some(p) => p,
            None => 0,
        }
    }
}

/// A record found at a position is the record of its identifier.
pub proof fn lemma_entry_at(s: State, id: u32, j: int)
    requires
        s.ids_unique(),
        0 <= j < s.entries.len(),
        s.entries[j].id == id,
    ensures
        s.has(id),
        s.idx(id) == j,
        s.entry(id) == s.entries[j],
{
    assert(s.has(id));
    let c = s.idx(id);
    assert(0 <= c < s.entries.len() && s.entries[c].id == id);
    if c != j {
        assert(false);
    }
}

/// Appending a record with the freshly allocated identifier preserves every
/// invariant, adds exactly that asset and leaves every other record as it
/// was.
pub proof fn lemma_push(pre: State, post: State, e: SpecEntry)
    requires
        pre.wf(),
        e.id == pre.next_id,
        pre.next_id < u32::MAX,
        e.dna.len() == 16,
        match e.parents {
            Some((a, b)) => a != b && pre.has(a) && pre.has(b),
            None => true,
        },
        post.next_id == pre.next_id + 1,
        post.entries == pre.entries.push(e),
    ensures
        post.wf(),
        forall|k: u32| post.has(k) <==> (pre.has(k) || k == e.id),
        !pre.has(e.id),
        post.entry(e.id) == e,
        forall|k: u32| pre.has(k) ==> post.entry(k) == pre.entry(k) && post.idx(k) == pre.idx(k),
{
    let n = pre.entries.len() as int;
    assert forall|k: u32| pre.has(k) implies post.has(k) && post.entry(k) == pre.entry(k)
        && post.idx(k) == pre.idx(k) by {
        let j = pre.idx(k);
        assert(pre.entries[j].id == k);
        assert(post.entries[j] == pre.entries[j]);
        lemma_entry_at(post, k, j);
    }
    if pre.has(e.id) {
        let j = pre.idx(e.id);
        assert(pre.entries[j].id == e.id);
        assert(false);
    }
    lemma_entry_at(post, e.id, n);
    assert forall|k: u32| post.has(k) implies (pre.has(k) || k == e.id) by {
        let j = post.idx(k);
        if j < n {
            assert(pre.entries[j].id == k);
            assert(pre.has(k));
        }
    }
    assert(post.wf());
}

/// Replacing an asset's record with one that keeps its identifier, payload
/// and lineage preserves every invariant and every other record.
pub proof fn lemma_update(pre: State, post: State, id: u32, e: SpecEntry)
    requires
        pre.wf(),
        pre.has(id),
        e.id == id,
        e.dna == pre.entry(id).dna,
        e.parents == pre.entry(id).parents,
        post.next_id == pre.next_id,
        post.entries == pre.entries.update(pre.idx(id), e),
    ensures
        post.wf(),
        forall|k: u32| post.has(k) <==> pre.has(k),
        post.entry(id) == e,
        post.idx(id) == pre.idx(id),
        forall|k: u32|
            k != id && pre.has(k) ==> post.entry(k) == pre.entry(k) && post.idx(k) == pre.idx(k),
{
    let i = pre.idx(id);
    assert(0 <= i < pre.entries.len() && pre.entries[i].id == id);
    assert(forall|j: int|
        0 <= j < post.entries.len() ==> (#[trigger] post.entries[j]).id == pre.entries[j].id);
    assert(post.ids_unique());
    lemma_entry_at(post, id, i);
    assert forall|k: u32| pre.has(k) implies post.has(k) by {
        let j = pre.idx(k);
        assert(post.entries[j].id == k);
        lemma_entry_at(post, k, j);
    }
    assert forall|k: u32| post.has(k) implies pre.has(k) by {
        let j = post.idx(k);
        assert(pre.entries[j].id == k);
        lemma_entry_at(pre, k, j);
    }
    assert forall|k: u32| k != id && pre.has(k) implies post.entry(k) == pre.entry(k)
        && post.idx(k) == pre.idx(k) by {
        let j = pre.idx(k);
        assert(pre.entries[j].id == k);
        assert(j != i);
        assert(post.entries[j] == pre.entries[j]);
        lemma_entry_at(post, k, j);
        lemma_entry_at(pre, k, j);
    }
    assert(post.wf());
}

/// What `create` does: fresh identifier, payload derived from seed, entropy,
/// caller and identifier, owner the caller, no lineage, no listing, one
/// event; or `IdentifierSpaceExhausted` and no change at all.
pub open spec fn create_post(
    pre: State,
    post: State,
    who: u64,
    seed: Seq<u8>,
    entropy: Seq<u8>,
    r: Result<u32, Error>,
) -> bool {
    if pre.next_id == u32::MAX {
        r == Err::<u32, Error>(Error::IdentifierSpaceExhausted) && post == pre
    } else {
        let id = pre.next_id;
        let dna = genetics::created_dna(seed, entropy, who, id);
        r == Ok::<u32, Error>(id) && post.next_id == pre.next_id + 1 && post.entries
            == pre.entries.push(
            SpecEntry { id, dna, owner: who, parents: None, price: None },
        ) && post.events == pre.events.push(SpecEvent::Created { who, kitty_id: id, dna })
    }
}

/// What `breed` does: identical parents are refused before anything else, a
/// missing parent next, identifier exhaustion last; otherwise the child's
/// payload recombines the parents' payloads under the call's selector, the
/// caller owns the child and the parent pair is recorded exactly.
pub open spec fn breed_post(
    pre: State,
    post: State,
    who: u64,
    parent_a: u32,
    parent_b: u32,
    seed: Seq<u8>,
    entropy: Seq<u8>,
    r: Result<u32, Error>,
) -> bool {
    if parent_a == parent_b {
        r == Err::<u32, Error>(Error::SameParent) && post == pre
    } else if !pre.has(parent_a) || !pre.has(parent_b) {
        r == Err::<u32, Error>(Error::UnknownAsset) && post == pre
    } else if pre.next_id == u32::MAX {
        r == Err::<u32, Error>(Error::IdentifierSpaceExhausted) && post == pre
    } else {
        let id = pre.next_id;
        let dna = genetics::child_dna(
            pre.dna_of(parent_a),
            pre.dna_of(parent_b),
            genetics::breed_selector(seed, entropy, who, parent_a, parent_b, id),
        );
        r == Ok::<u32, Error>(id) && post.next_id == pre.next_id + 1 && post.entries
            == pre.entries.push(
            SpecEntry { id, dna, owner: who, parents: Some((parent_a, parent_b)), price: None },
        ) && post.events == pre.events.push(SpecEvent::Bred { who, kitty_id: id, dna })
    }
}

/// What `transfer` does: only the recorded owner may pass an asset on; the
/// new owner is recorded and any sale listing is cleared, whatever it was.
pub open spec fn transfer_post(
    pre: State,
    post: State,
    who: u64,
    to: u64,
    id: u32,
    r: Result<(), Error>,
) -> bool {
    if !pre.has(id) {
        r == Err::<(), Error>(Error::UnknownAsset) && post == pre
    } else if pre.owner_of(id) != who {
        r == Err::<(), Error>(Error::NotOwner) && post == pre
    } else {
        r == Ok::<(), Error>(()) && post.next_id == pre.next_id && post.entries
            == pre.entries.update(
            pre.idx(id),
            SpecEntry { owner: to, price: None, ..pre.entry(id) },
        ) && post.events == pre.events.push(SpecEvent::Transferred { who, to, kitty_id: id })
    }
}

/// What `sale` does: only the recorded owner may list; the listing is set to
/// the given price, replacing any prior listing.
pub open spec fn sale_post(
    pre: State,
    post: State,
    who: u64,
    id: u32,
    price: u128,
    r: Result<(), Error>,
) -> bool {
    if !pre.has(id) {
        r == Err::<(), Error>(Error::UnknownAsset) && post == pre
    } else if pre.owner_of(id) != who {
        r == Err::<(), Error>(Error::NotOwner) && post == pre
    } else {
        r == Ok::<(), Error>(()) && post.next_id == pre.next_id && post.entries
            == pre.entries.update(
            pre.idx(id),
            SpecEntry { price: Some(price), ..pre.entry(id) },
        ) && post.events == pre.events.push(SpecEvent::Listed { who, kitty_id: id, price })
    }
}

/// What `buy` does to the registry, given the buyer's and the owner's
/// balances before the call: existence is checked first, then ownership, then
/// the listing, then the settlement; on success the buyer becomes the owner
/// and the listing is cleared.
pub open spec fn buy_post(
    pre: State,
    post: State,
    who: u64,
    id: u32,
    buyer_balance: u128,
    owner_balance: u128,
    r: Result<(), Error>,
) -> bool {
    if !pre.has(id) {
        r == Err::<(), Error>(Error::UnknownAsset) && post == pre
    } else if pre.owner_of(id) == who {
        r == Err::<(), Error>(Error::AlreadyOwned) && post == pre
    } else if pre.price_of(id) is None {
        r == Err::<(), Error>(Error::NotOnSale) && post == pre
    } else if buyer_balance < pre.listed_price(id) {
        r == Err::<(), Error>(Error::Currency(LedgerError::InsufficientFunds)) && post == pre
    } else if owner_balance + pre.listed_price(id) > u128::MAX {
        r == Err::<(), Error>(Error::Currency(LedgerError::ReceiverOverflow)) && post == pre
    } else {
        r == Ok::<(), Error>(()) && post.next_id == pre.next_id && post.entries
            == pre.entries.update(
            pre.idx(id),
            SpecEntry { owner: who, price: None, ..pre.entry(id) },
        ) && post.events == pre.events.push(SpecEvent::Bought { who, kitty_id: id })
    }
}

/// The asset registry: the records, the identifier counter and the event log,
/// mutated only through the operations below.
pub struct Registry {
    next_kitty_id: u32,
    entries: Vec<Entry>,
    events: Vec<Event>,
}

impl View for Registry {
    type V = State;

    closed spec fn view(&self) -> State {
        State {
            next_id: self.next_kitty_id,
            entries: self.entries@.map_values(|e: Entry| e@),
            events: self.events@.map_values(|e: Event| e@),
        }
    }
}

impl Registry {
    /// An empty registry: no assets, counter at zero, no events.
    pub fn new() -> (r: Registry)
        ensures
            r@.wf(),
            r@.next_id == 0,
            r@.entries == Seq::<SpecEntry>::empty(),
            r@.events == Seq::<SpecEvent>::empty(),
    {
        let r = Registry { next_kitty_id: 0, entries: Vec::new(), events: Vec::new() };
        proof {
            assert(r@.entries =~= Seq::<SpecEntry>::empty());
            assert(r@.events =~= Seq::<SpecEvent>::empty());
        }
        r
    }

    fn find(&self, kitty_id: u32) -> (r: Option<usize>)
        requires
            self@.wf(),
        ensures
            match r {
                Some(i) => i < self@.entries.len() && self@.has(kitty_id) && self@.idx(kitty_id)
                    == i && self@.entry(kitty_id) == self@.entries[i as int],
                None => !self@.has(kitty_id),
            },
    {
        let n = self.entries.len();
        let mut k: usize = 0;
        while k < n
            invariant
                n == self.entries@.len(),
                k <= n,
                self@.wf(),
                self@.entries.len() == n,
                forall|j: int| 0 <= j < k ==> (#[trigger] self@.entries[j]).id != kitty_id,
            decreases n - k,
        {
            if self.entries[k].id == kitty_id {
                proof {
                    lemma_entry_at(self@, kitty_id, k as int);
                }
                return Some(k);
            }
            k = k + 1;
        }
        proof {
            if self@.has(kitty_id) {
                let w = self@.idx(kitty_id);
                assert(self@.entries[w].id == kitty_id);
                assert(false);
            }
        }
        None
    }

    /// The next identifier to allocate: one more than the highest ever
    /// issued, or zero where none was.
    pub fn next_kitty_id(&self) -> (r: u32)
        ensures
            r == self@.next_id,
    {
        self.next_kitty_id
    }

    /// Move the identifier counter forward. The counter never moves back:
    /// issued identifiers stay strictly below it.
    pub fn set_next_kitty_id(&mut self, next: u32)
        requires
            old(self)@.wf(),
            old(self)@.next_id <= next,
        ensures
            final(self)@.wf(),
            final(self)@ == (State { next_id: next, ..old(self)@ }),
    {
        self.next_kitty_id = next;
    }

    /// The identifier allocator: issue the current counter value and advance
    /// the counter by one. Fails with `IdentifierSpaceExhausted` — the
    /// counter unchanged — where the counter is already at the maximum
    /// representable value, so that advancing would overflow.
    fn allocate(&mut self) -> (r: Result<u32, Error>)
        requires
            old(self)@.wf(),
        ensures
            final(self)@.wf(),
            old(self)@.next_id == u32::MAX ==> r == Err::<u32, Error>(
                Error::IdentifierSpaceExhausted,
            ) && *final(self) == *old(self),
            old(self)@.next_id < u32::MAX ==> r == Ok::<u32, Error>(old(self)@.next_id)
                && final(self)@ == (State {
                next_id: (old(self)@.next_id + 1) as u32,
                ..old(self)@
            }),
    {
        if self.next_kitty_id == u32::MAX {
            return Err(Error::IdentifierSpaceExhausted);
        }
        let id = self.next_kitty_id;
        self.next_kitty_id = id + 1;
        Ok(id)
    }

    /// Create a root asset for `who`: the returned identifier is the counter
    /// value before the call, the payload is derived from the seed, the
    /// entropy, the caller and that identifier, and the asset has no lineage
    /// and no listing.
    pub fn create(&mut self, who: u64, seed: [u8; 8], entropy: [u8; 16]) -> (r: Result<u32, Error>)
        requires
            old(self)@.wf(),
        ensures
            final(self)@.wf(),
            create_post(old(self)@, final(self)@, who, seed@, entropy@, r),
    {
        let ghost pre = self@;
        let id = match self.allocate() {
            Ok(id) => id,
            Err(e) => {
                return Err(e);
            },
        };
        let kitty = genetics::derive_created(&seed, &entropy, who, id);
        let entry = Entry { id, kitty, owner: who, parents: None, price: None };
        let event = Event::KittyCreated { who, kitty_id: id, kitty };
        self.entries.push(entry);
        self.events.push(event);
        proof {
            assert(self@.entries =~= pre.entries.push(entry@));
            assert(self@.events =~= pre.events.push(event@));
            lemma_push(pre, self@, entry@);
        }
        Ok(id)
    }

    /// Breed a child of two existing, distinct assets for `who`. Breeding is
    /// permissionless: the caller need not own either parent. The child's
    /// payload takes every byte from one of the two parents.
    pub fn breed(
        &mut self,
        who: u64,
        kitty_id_1: u32,
        kitty_id_2: u32,
        seed: [u8; 8],
        entropy: [u8; 16],
    ) -> (r: Result<u32, Error>)
        requires
            old(self)@.wf(),
        ensures
            final(self)@.wf(),
            breed_post(old(self)@, final(self)@, who, kitty_id_1, kitty_id_2, seed@, entropy@, r),
    {
        if kitty_id_1 == kitty_id_2 {
            return Err(Error::SameParent);
        }
        let ia = match self.find(kitty_id_1) {
            Some(i) => i,
            None => {
                return Err(Error::UnknownAsset);
            },
        };
        let ib = match self.find(kitty_id_2) {
            Some(i) => i,
            None => {
                return Err(Error::UnknownAsset);
            },
        };
        let ghost pre = self@;
        let id = match self.allocate() {
            Ok(id) => id,
            Err(e) => {
                return Err(e);
            },
        };
        let parent_a = self.entries[ia].kitty;
        let parent_b = self.entries[ib].kitty;
        let kitty = genetics::derive_bred(
            &parent_a,
            &parent_b,
            &seed,
            &entropy,
            who,
            kitty_id_1,
            kitty_id_2,
            id,
        );
        let entry = Entry {
            id,
            kitty,
            owner: who,
            parents: Some((kitty_id_1, kitty_id_2)),
            price: None,
        };
        let event = Event::KittyBred { who, kitty_id: id, kitty };
        self.entries.push(entry);
        self.events.push(event);
        proof {
            assert(self@.entries =~= pre.entries.push(entry@));
            assert(self@.events =~= pre.events.push(event@));
            lemma_push(pre, self@, entry@);
        }
        Ok(id)
    }

    /// Pass an asset from its owner `who` to `to`, clearing any sale listing.
    /// A self-transfer is permitted and re-emits the event.
    pub fn transfer(&mut self, who: u64, to: u64, kitty_id: u32) -> (r: Result<(), Error>)
        requires
            old(self)@.wf(),
        ensures
            final(self)@.wf(),
            transfer_post(old(self)@, final(self)@, who, to, kitty_id, r),
    {
        let i = match self.find(kitty_id) {
            Some(i) => i,
            None => {
                return Err(Error::UnknownAsset);
            },
        };
        let entry = self.entries[i];
        if entry.owner != who {
            return Err(Error::NotOwner);
        }
        let ghost pre = self@;
        let updated = Entry { owner: to, price: None, ..entry };
        self.entries[i] = updated;
        self.events.push(Event::KittyTransferred { who, to, kitty_id });
        proof {
            assert(self@.entries =~= pre.entries.update(i as int, updated@));
            assert(self@.events =~= pre.events.push(
                SpecEvent::Transferred { who, to, kitty_id },
            ));
            lemma_update(pre, self@, kitty_id, updated@);
        }
        Ok(())
    }

    /// List an asset for sale at `price` (zero permitted), replacing any
    /// prior listing. Only the recorded owner may list.
    pub fn sale(&mut self, who: u64, kitty_id: u32, price: u128) -> (r: Result<(), Error>)
        requires
            old(self)@.wf(),
        ensures
            final(self)@.wf(),
            sale_post(old(self)@, final(self)@, who, kitty_id, price, r),
    {
        let i = match self.find(kitty_id) {
            Some(i) => i,
            None => {
                return Err(Error::UnknownAsset);
            },
        };
        let entry = self.entries[i];
        if entry.owner != who {
            return Err(Error::NotOwner);
        }
        let ghost pre = self@;
        let updated = Entry { price: Some(price), ..entry };
        self.entries[i] = updated;
        self.events.push(Event::KittyListed { who, kitty_id, price });
        proof {
            assert(self@.entries =~= pre.entries.update(i as int, updated@));
            assert(self@.events =~= pre.events.push(SpecEvent::Listed { who, kitty_id, price }));
            lemma_update(pre, self@, kitty_id, updated@);
        }
        Ok(())
    }

    /// Buy a listed asset: the ledger moves the listed price from `who` to
    /// the current owner, and exactly when that settlement succeeds the asset
    /// changes hands and the listing is cleared — one all-or-nothing unit.
    pub fn buy(&mut self, who: u64, kitty_id: u32, ledger: &mut Ledger) -> (r: Result<(), Error>)
        requires
            old(self)@.wf(),
            old(ledger).wf(),
        ensures
            final(self)@.wf(),
            final(ledger).wf(),
            buy_post(
                old(self)@,
                final(self)@,
                who,
                kitty_id,
                old(ledger).bal(who),
                old(ledger).bal(old(self)@.owner_of(kitty_id)),
                r,
            ),
            r is Ok ==> final(ledger).bal(who) == old(ledger).bal(who) - old(
                self,
            )@.listed_price(kitty_id) && final(ledger).bal(old(self)@.owner_of(kitty_id)) == old(
                ledger,
            ).bal(old(self)@.owner_of(kitty_id)) + old(self)@.listed_price(kitty_id),
            r is Err ==> *final(ledger) == *old(ledger),
            forall|a: u64|
                a != who && a != old(self)@.owner_of(kitty_id) ==> final(ledger).bal(a) == old(
                    ledger,
                ).bal(a),
    {
        let i = match self.find(kitty_id) {
            Some(i) => i,
            None => {
                return Err(Error::UnknownAsset);
            },
        };
        let entry = self.entries[i];
        if entry.owner == who {
            return Err(Error::AlreadyOwned);
        }
        let price = match entry.price {
            Some(p) => p,
            None => {
                return Err(Error::NotOnSale);
            },
        };
        match ledger.transfer(who, entry.owner, price) {
            Ok(()) => {},
            Err(e) => {
                return Err(Error::Currency(e));
            },
        }
        let ghost pre = self@;
        let updated = Entry { owner: who, price: None, ..entry };
        self.entries[i] = updated;
        self.events.push(Event::KittyBought { who, kitty_id });
        proof {
            assert(self@.entries =~= pre.entries.update(i as int, updated@));
            assert(self@.events =~= pre.events.push(SpecEvent::Bought { who, kitty_id }));
            lemma_update(pre, self@, kitty_id, updated@);
        }
        Ok(())
    }

    /// The asset's genetic payload, where it exists.
    pub fn kitties(&self, kitty_id: u32) -> (r: Option<Kitty>)
        requires
            self@.wf(),
        ensures
            match r {
                Some(k) => self@.has(kitty_id) && k@ == self@.dna_of(kitty_id),
                None => !self@.has(kitty_id),
            },
    {
        match self.find(kitty_id) {
            Some(i) => Some(self.entries[i].kitty),
            None => None,
        }
    }

    /// The asset's recorded owner, where it exists.
    pub fn kitty_owner(&self, kitty_id: u32) -> (r: Option<u64>)
        requires
            self@.wf(),
        ensures
            match r {
                Some(o) => self@.has(kitty_id) && o == self@.owner_of(kitty_id),
                None => !self@.has(kitty_id),
            },
    {
        match self.find(kitty_id) {
            Some(i) => Some(self.entries[i].owner),
            None => None,
        }
    }

    /// The asset's recorded lineage: `None` for a root asset or where no
    /// asset exists.
    pub fn kitty_parents(&self, kitty_id: u32) -> (r: Option<(u32, u32)>)
        requires
            self@.wf(),
        ensures
            self@.has(kitty_id) ==> r == self@.parents_of(kitty_id),
            !self@.has(kitty_id) ==> r is None,
    {
        match self.find(kitty_id) {
            Some(i) => self.entries[i].parents,
            None => None,
        }
    }

    /// The asset's sale listing: `None` where unlisted or where no asset
    /// exists.
    pub fn kitty_on_sale(&self, kitty_id: u32) -> (r: Option<u128>)
        requires
            self@.wf(),
        ensures
            self@.has(kitty_id) ==> r == self@.price_of(kitty_id),
            !self@.has(kitty_id) ==> r is None,
    {
        match self.find(kitty_id) {
            Some(i) => self.entries[i].price,
            None => None,
        }
    }

    /// Every event emitted so far, oldest first.
    pub fn events(&self) -> (r: &Vec<Event>)
        ensures
            r@.map_values(|e: Event| e@) == self@.events,
    {
        &self.events
    }
}

} // verus!
