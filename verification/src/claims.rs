//! A proof-of-existence claims store: a byte string of bounded length can be
//! claimed once, revoked by its owner, or passed to another owner. Each claim
//! records its owner and the block number at which it was last written.

use vstd::prelude::*;

verus! {

/// Why a claim operation was refused.
#[derive(Clone, Copy, PartialEq, Eq, Debug)]
pub enum ClaimError {
    /// The byte string is already claimed.
    ProofAlreadyExist,
    /// The byte string is longer than the configured maximum.
    ClaimTooLong,
    /// The byte string is not claimed.
    ClaimNotExist,
    /// The caller does not own the claim.
    NotClaimOwner,
}

/// One event per successful claim operation. A transfer event carries the
/// previous owner and the caller, in that order.
#[derive(Clone, PartialEq, Eq, Debug)]
pub enum ClaimEvent {
    ClaimCreated(u64, Vec<u8>),
    ClaimRevoked(u64, Vec<u8>),
    ClaimTransfered(u64, u64, Vec<u8>),
}

/// The mathematical image of a [`ClaimEvent`].
pub enum SpecClaimEvent {
    Created { who: u64, claim: Seq<u8> },
    Revoked { who: u64, claim: Seq<u8> },
    Transfered { owner: u64, who: u64, claim: Seq<u8> },
}

impl View for ClaimEvent {
    type V = SpecClaimEvent;

    open spec fn view(&self) -> SpecClaimEvent {
        match self {
            ClaimEvent::ClaimCreated(who, claim) => SpecClaimEvent::Created {
                who: *who,
                claim: claim@,
            },
            ClaimEvent::ClaimRevoked(who, claim) => SpecClaimEvent::Revoked {
                who: *who,
                claim: claim@,
            },
            ClaimEvent::ClaimTransfered(owner, who, claim) => SpecClaimEvent::Transfered {
                owner: *owner,
                who: *who,
                claim: claim@,
            },
        }
    }
}

/// The mathematical image of one claim record.
pub struct SpecClaim {
    pub data: Seq<u8>,
    pub owner: u64,
    pub block: u64,
}

struct Claim {
    data: Vec<u8>,
    owner: u64,
    block: u64,
}

impl View for Claim {
    type V = SpecClaim;

    closed spec fn view(&self) -> SpecClaim {
        SpecClaim { data: self.data@, owner: self.owner, block: self.block }
    }
}

/// The abstract state of the claims store.
pub struct ClaimsState {
    pub max_len: usize,
    pub claims: Seq<SpecClaim>,
    pub events: Seq<SpecClaimEvent>,
}

impl ClaimsState {
    /// No byte string is claimed twice.
    pub open spec fn keys_unique(self) -> bool {
        forall|i: int, j: int|
            0 <= i < j < self.claims.len() ==> self.claims[i].data != self.claims[j].data
    }

    /// Unique keys, each within the configured length bound.
    pub open spec fn wf(self) -> bool {
        &&& self.keys_unique()
        &&& forall|i: int|
            0 <= i < self.claims.len() ==> (#[trigger] self.claims[i]).data.len() <= self.max_len
    }

    /// Whether this byte string is claimed.
    pub open spec fn has(self, key: Seq<u8>) -> bool {
        exists|i: int| 0 <= i < self.claims.len() && (#[trigger] self.claims[i]).data == key
    }

    /// The position of a claim's record, meaningful only when it exists.
    pub open spec fn idx(self, key: Seq<u8>) -> int {
        choose|i: int| 0 <= i < self.claims.len() && (#[trigger] self.claims[i]).data == key
    }

    /// The claim's record, meaningful only when it exists.
    pub open spec fn claim_of(self, key: Seq<u8>) -> SpecClaim {
        self.claims[self.idx(key)]
    }
}

/// A record found at a position is the record of its byte string.
proof fn lemma_claim_at(s: ClaimsState, key: Seq<u8>, j: int)
    requires
        s.keys_unique(),
        0 <= j < s.claims.len(),
        s.claims[j].data == key,
    ensures
        s.has(key),
        s.idx(key) == j,
        s.claim_of(key) == s.claims[j],
{
    assert(s.has(key));
    let c = s.idx(key);
    assert(0 <= c < s.claims.len() && s.claims[c].data == key);
    if c != j {
        assert(false);
    }
}

/// Appending a record under a fresh key preserves the invariants and every
/// other record.
proof fn lemma_push_claim(pre: ClaimsState, post: ClaimsState, c: SpecClaim)
    requires
        pre.wf(),
        !pre.has(c.data),
        c.data.len() <= pre.max_len,
        post.max_len == pre.max_len,
        post.claims == pre.claims.push(c),
    ensures
        post.wf(),
        forall|k: Seq<u8>| post.has(k) <==> (pre.has(k) || k == c.data),
        post.claim_of(c.data) == c,
        forall|k: Seq<u8>| k != c.data && pre.has(k) ==> post.claim_of(k) == pre.claim_of(k),
{
    let n = pre.claims.len() as int;
    assert forall|k: Seq<u8>| k != c.data && pre.has(k) implies post.has(k) && post.claim_of(k)
        == pre.claim_of(k) by {
        let j = pre.idx(k);
        assert(post.claims[j] == pre.claims[j]);
        lemma_claim_at(post, k, j);
    }
    assert forall|i: int, j: int| 0 <= i < j < post.claims.len() implies post.claims[i].data
        != post.claims[j].data by {
        if j < n {
            assert(pre.claims[i].data != pre.claims[j].data);
        } else {
            assert(post.claims[i] == pre.claims[i]);
            if post.claims[i].data == c.data {
                lemma_claim_at(pre, c.data, i);
            }
        }
    }
    lemma_claim_at(post, c.data, n);
    assert forall|k: Seq<u8>| post.has(k) implies (pre.has(k) || k == c.data) by {
        let j = post.idx(k);
        if j < n {
            assert(pre.claims[j].data == k);
        }
    }
    assert forall|k: Seq<u8>| pre.has(k) implies post.has(k) by {
        let j = pre.idx(k);
        assert(post.claims[j] == pre.claims[j]);
        lemma_claim_at(post, k, j);
    }
}

/// Replacing a record under the same key preserves the invariants and every
/// other record.
proof fn lemma_update_claim(pre: ClaimsState, post: ClaimsState, key: Seq<u8>, c: SpecClaim)
    requires
        pre.wf(),
        pre.has(key),
        c.data == key,
        post.max_len == pre.max_len,
        post.claims == pre.claims.update(pre.idx(key), c),
    ensures
        post.wf(),
        forall|k: Seq<u8>| post.has(k) <==> pre.has(k),
        post.claim_of(key) == c,
        forall|k: Seq<u8>| k != key && pre.has(k) ==> post.claim_of(k) == pre.claim_of(k),
{
    let i = pre.idx(key);
    assert(0 <= i < pre.claims.len() && pre.claims[i].data == key);
    assert(forall|j: int|
        0 <= j < post.claims.len() ==> (#[trigger] post.claims[j]).data == pre.claims[j].data);
    assert(post.keys_unique());
    lemma_claim_at(post, key, i);
    assert forall|k: Seq<u8>| pre.has(k) implies post.has(k) by {
        let j = pre.idx(k);
        assert(post.claims[j].data == k);
        lemma_claim_at(post, k, j);
    }
    assert forall|k: Seq<u8>| post.has(k) implies pre.has(k) by {
        let j = post.idx(k);
        assert(pre.claims[j].data == k);
        lemma_claim_at(pre, k, j);
    }
    assert forall|k: Seq<u8>| k != key && pre.has(k) implies post.claim_of(k) == pre.claim_of(
        k,
    ) by {
        let j = pre.idx(k);
        assert(pre.claims[j].data == k);
        assert(j != i);
        assert(post.claims[j] == pre.claims[j]);
        lemma_claim_at(post, k, j);
        lemma_claim_at(pre, k, j);
    }
}

/// Removing a record leaves its key unclaimed and every other record as it
/// was.
proof fn lemma_remove_claim(pre: ClaimsState, post: ClaimsState, i: int)
    requires
        pre.wf(),
        0 <= i < pre.claims.len(),
        post.max_len == pre.max_len,
        post.claims == pre.claims.remove(i),
    ensures
        post.wf(),
        !post.has(pre.claims[i].data),
        forall|k: Seq<u8>| k != pre.claims[i].data ==> (post.has(k) <==> pre.has(k)),
        forall|k: Seq<u8>|
            k != pre.claims[i].data && pre.has(k) ==> post.claim_of(k) == pre.claim_of(k),
{
    let key = pre.claims[i].data;
    assert forall|j: int| 0 <= j < post.claims.len() implies #[trigger] post.claims[j]
        == (if j < i {
        pre.claims[j]
    } else {
        pre.claims[j + 1]
    }) by {}
    assert(post.keys_unique());
    if post.has(key) {
        let j = post.idx(key);
        if j < i {
            assert(pre.claims[j].data == key);
            assert(false);
        } else {
            assert(pre.claims[j + 1].data == key);
            assert(false);
        }
    }
    assert forall|k: Seq<u8>| k != key && pre.has(k) implies post.has(k) && post.claim_of(k)
        == pre.claim_of(k) by {
        let j = pre.idx(k);
        assert(pre.claims[j].data == k);
        if j < i {
            assert(post.claims[j] == pre.claims[j]);
            lemma_claim_at(post, k, j);
        } else {
            assert(j > i);
            assert(post.claims[j - 1] == pre.claims[j]);
            lemma_claim_at(post, k, j - 1);
        }
    }
    assert forall|k: Seq<u8>| k != key && post.has(k) implies pre.has(k) by {
        let j = post.idx(k);
        if j < i {
            assert(pre.claims[j].data == k);
        } else {
            assert(pre.claims[j + 1].data == k);
        }
    }
}

fn bytes_eq(a: &Vec<u8>, b: &Vec<u8>) -> (r: bool)
    ensures
        r == (a@ == b@),
{
    if a.len() != b.len() {
        return false;
    }
    let n = a.len();
    let mut k: usize = 0;
    while k < n
        invariant
            n == a@.len(),
            n == b@.len(),
            k <= n,
            forall|j: int| 0 <= j < k ==> a@[j] == b@[j],
        decreases n - k,
    {
        if a[k] != b[k] {
            proof {
                assert(a@[k as int] != b@[k as int]);
            }
            return false;
        }
        k = k + 1;
    }
    proof {
        assert(a@ =~= b@);
    }
    true
}

/// The claims table with its configured maximum claim length and the events
/// emitted so far.
pub struct Claims {
    max_claim_length: usize,
    claims: Vec<Claim>,
    events: Vec<ClaimEvent>,
}

impl View for Claims {
    type V = ClaimsState;

    closed spec fn view(&self) -> ClaimsState {
        ClaimsState {
            max_len: self.max_claim_length,
            claims: self.claims@.map_values(|c: Claim| c@),
            events: self.events@.map_values(|e: ClaimEvent| e@),
        }
    }
}

impl Claims {
    /// An empty store accepting claims of at most `max_claim_length` bytes.
    pub fn new(max_claim_length: usize) -> (r: Claims)
        ensures
            r@.wf(),
            r@.max_len == max_claim_length,
            r@.claims == Seq::<SpecClaim>::empty(),
            r@.events == Seq::<SpecClaimEvent>::empty(),
    {
        let r = Claims { max_claim_length, claims: Vec::new(), events: Vec::new() };
        proof {
            assert(r@.claims =~= Seq::<SpecClaim>::empty());
            assert(r@.events =~= Seq::<SpecClaimEvent>::empty());
        }
        r
    }

    fn find(&self, claim: &Vec<u8>) -> (r: Option<usize>)
        requires
            self@.wf(),
        ensures
            match r {
                Some(i) => i < self@.claims.len() && self@.has(claim@) && self@.idx(claim@)
                    == i && self@.claim_of(claim@) == self@.claims[i as int],
                None => !self@.has(claim@),
            },
    {
        let n = self.claims.len();
        let mut k: usize = 0;
        while k < n
            invariant
                n == self.claims@.len(),
                k <= n,
                self@.wf(),
                self@.claims.len() == n,
                forall|j: int| 0 <= j < k ==> (#[trigger] self@.claims[j]).data != claim@,
            decreases n - k,
        {
            if bytes_eq(&self.claims[k].data, claim) {
                proof {
                    lemma_claim_at(self@, claim@, k as int);
                }
                return Some(k);
            }
            k = k + 1;
        }
        proof {
            if self@.has(claim@) {
                let w = self@.idx(claim@);
                assert(self@.claims[w].data == claim@);
                assert(false);
            }
        }
        None
    }

    /// The claim's owner and the block at which it was last written.
    pub fn proofs(&self, claim: &Vec<u8>) -> (r: Option<(u64, u64)>)
        requires
            self@.wf(),
        ensures
            match r {
                Some((owner, block)) => self@.has(claim@) && owner == self@.claim_of(claim@).owner
                    && block == self@.claim_of(claim@).block,
                None => !self@.has(claim@),
            },
    {
        match self.find(claim) {
            Some(i) => Some((self.claims[i].owner, self.claims[i].block)),
            None => None,
        }
    }

    /// Every event emitted so far, oldest first.
    pub fn events(&self) -> (r: &Vec<ClaimEvent>)
        ensures
            r@.map_values(|e: ClaimEvent| e@) == self@.events,
    {
        &self.events
    }

    /// Claim a byte string for `sender` at block `block`. Refused where the
    /// string is over the length bound, or already claimed by anyone.
    pub fn create_claim(&mut self, sender: u64, claim: Vec<u8>, block: u64) -> (r: Result<
        (),
        ClaimError,
    >)
        requires
            old(self)@.wf(),
        ensures
            final(self)@.wf(),
            final(self)@.max_len == old(self)@.max_len,
            r == Ok::<(), ClaimError>(()) <==> (claim@.len() <= old(self)@.max_len && !old(
                self,
            )@.has(claim@)),
            claim@.len() > old(self)@.max_len ==> r == Err::<(), ClaimError>(
                ClaimError::ClaimTooLong,
            ),
            (claim@.len() <= old(self)@.max_len && old(self)@.has(claim@)) ==> r == Err::<
                (),
                ClaimError,
            >(ClaimError::ProofAlreadyExist),
            r is Err ==> *final(self) == *old(self),
            r is Ok ==> final(self)@.has(claim@) && final(self)@.claim_of(claim@)
                == (SpecClaim { data: claim@, owner: sender, block }) && (forall|k: Seq<u8>|
                k != claim@ ==> (final(self)@.has(k) <==> old(self)@.has(k))) && (forall|k: Seq<u8>|
                k != claim@ && old(self)@.has(k) ==> final(self)@.claim_of(k) == old(
                    self,
                )@.claim_of(k)) && final(self)@.events == old(self)@.events.push(
                SpecClaimEvent::Created { who: sender, claim: claim@ },
            ),
    {
        if claim.len() > self.max_claim_length {
            return Err(ClaimError::ClaimTooLong);
        }
        if self.find(&claim).is_some() {
            return Err(ClaimError::ProofAlreadyExist);
        }
        let ghost pre = self@;
        let ghost key = claim@;
        let event_claim = claim.clone();
        proof {
            assert(event_claim@ =~= key);
        }
        let record = Claim { data: claim, owner: sender, block };
        self.claims.push(record);
        self.events.push(ClaimEvent::ClaimCreated(sender, event_claim));
        proof {
            let c = SpecClaim { data: key, owner: sender, block };
            assert(self@.claims =~= pre.claims.push(c));
            assert(self@.events =~= pre.events.push(
                SpecClaimEvent::Created { who: sender, claim: key },
            ));
            lemma_push_claim(pre, self@, c);
        }
        Ok(())
    }

    /// Revoke `sender`'s claim on a byte string, leaving it unclaimed.
    pub fn revoke_claim(&mut self, sender: u64, claim: &Vec<u8>) -> (r: Result<(), ClaimError>)
        requires
            old(self)@.wf(),
        ensures
            final(self)@.wf(),
            final(self)@.max_len == old(self)@.max_len,
            r == Ok::<(), ClaimError>(()) <==> (claim@.len() <= old(self)@.max_len && old(
                self,
            )@.has(claim@) && old(self)@.claim_of(claim@).owner == sender),
            claim@.len() > old(self)@.max_len ==> r == Err::<(), ClaimError>(
                ClaimError::ClaimTooLong,
            ),
            (claim@.len() <= old(self)@.max_len && !old(self)@.has(claim@)) ==> r == Err::<
                (),
                ClaimError,
            >(ClaimError::ClaimNotExist),
            (claim@.len() <= old(self)@.max_len && old(self)@.has(claim@) && old(self)@.claim_of(
                claim@,
            ).owner != sender) ==> r == Err::<(), ClaimError>(ClaimError::NotClaimOwner),
            r is Err ==> *final(self) == *old(self),
            r is Ok ==> !final(self)@.has(claim@) && (forall|k: Seq<u8>|
                k != claim@ ==> (final(self)@.has(k) <==> old(self)@.has(k))) && (forall|k: Seq<u8>|
                k != claim@ && old(self)@.has(k) ==> final(self)@.claim_of(k) == old(
                    self,
                )@.claim_of(k)) && final(self)@.events == old(self)@.events.push(
                SpecClaimEvent::Revoked { who: sender, claim: claim@ },
            ),
    {
        if claim.len() > self.max_claim_length {
            return Err(ClaimError::ClaimTooLong);
        }
        let i = match self.find(claim) {
            Some(i) => i,
            None => {
                return Err(ClaimError::ClaimNotExist);
            },
        };
        if self.claims[i].owner != sender {
            return Err(ClaimError::NotClaimOwner);
        }
        let ghost pre = self@;
        let _ = self.claims.remove(i);
        self.events.push(ClaimEvent::ClaimRevoked(sender, claim.clone()));
        proof {
            assert(self@.claims =~= pre.claims.remove(i as int));
            assert(self@.events =~= pre.events.push(
                SpecClaimEvent::Revoked { who: sender, claim: claim@ },
            ));
            lemma_remove_claim(pre, self@, i as int);
        }
        Ok(())
    }

    /// Pass `sender`'s claim on a byte string to `dest`, restamping it with
    /// the current block.
    pub fn transfer_claim(
        &mut self,
        sender: u64,
        claim: &Vec<u8>,
        dest: u64,
        block: u64,
    ) -> (r: Result<(), ClaimError>)
        requires
            old(self)@.wf(),
        ensures
            final(self)@.wf(),
            final(self)@.max_len == old(self)@.max_len,
            r == Ok::<(), ClaimError>(()) <==> (claim@.len() <= old(self)@.max_len && old(
                self,
            )@.has(claim@) && old(self)@.claim_of(claim@).owner == sender),
            claim@.len() > old(self)@.max_len ==> r == Err::<(), ClaimError>(
                ClaimError::ClaimTooLong,
            ),
            (claim@.len() <= old(self)@.max_len && !old(self)@.has(claim@)) ==> r == Err::<
                (),
                ClaimError,
            >(ClaimError::ClaimNotExist),
            (claim@.len() <= old(self)@.max_len && old(self)@.has(claim@) && old(self)@.claim_of(
                claim@,
            ).owner != sender) ==> r == Err::<(), ClaimError>(ClaimError::NotClaimOwner),
            r is Err ==> *final(self) == *old(self),
            r is Ok ==> final(self)@.has(claim@) && final(self)@.claim_of(claim@)
                == (SpecClaim { data: claim@, owner: dest, block }) && (forall|k: Seq<u8>|
                k != claim@ ==> (final(self)@.has(k) <==> old(self)@.has(k))) && (forall|k: Seq<u8>|
                k != claim@ && old(self)@.has(k) ==> final(self)@.claim_of(k) == old(
                    self,
                )@.claim_of(k)) && final(self)@.events == old(self)@.events.push(
                SpecClaimEvent::Transfered { owner: sender, who: sender, claim: claim@ },
            ),
    {
        if claim.len() > self.max_claim_length {
            return Err(ClaimError::ClaimTooLong);
        }
        let i = match self.find(claim) {
            Some(i) => i,
            None => {
                return Err(ClaimError::ClaimNotExist);
            },
        };
        let owner = self.claims[i].owner;
        if owner != sender {
            return Err(ClaimError::NotClaimOwner);
        }
        let ghost pre = self@;
        let data = claim.clone();
        proof {
            assert(data@ =~= claim@);
        }
        self.claims[i] = Claim { data, owner: dest, block };
        self.events.push(ClaimEvent::ClaimTransfered(owner, sender, claim.clone()));
        proof {
            let c = SpecClaim { data: claim@, owner: dest, block };
            assert(self@.claims =~= pre.claims.update(i as int, c));
            assert(self@.events =~= pre.events.push(
                SpecClaimEvent::Transfered { owner: sender, who: sender, claim: claim@ },
            ));
            lemma_update_claim(pre, self@, claim@, c);
        }
        Ok(())
    }
}

} // verus!
