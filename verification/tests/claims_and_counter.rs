use kitties::claims::ClaimError;
use kitties::claims::ClaimEvent;
use kitties::claims::Claims;
use kitties::counter::Counter;
use kitties::counter::CounterError;
use kitties::counter::CounterEvent;

#[test]
fn claim_create_and_lookup() {
    let mut claims = Claims::new(8);
    let data = vec![1u8, 2, 3];
    assert_eq!(claims.create_claim(1, data.clone(), 10), Ok(()));
    assert_eq!(claims.proofs(&data), Some((1, 10)));
    assert_eq!(claims.proofs(&vec![9u8]), None);
    assert!(claims
        .events()
        .contains(&ClaimEvent::ClaimCreated(1, data.clone())));
}

#[test]
fn claim_create_rejects_duplicates_and_long_claims() {
    let mut claims = Claims::new(4);
    let data = vec![1u8, 2, 3];
    assert_eq!(claims.create_claim(1, data.clone(), 10), Ok(()));
    assert_eq!(
        claims.create_claim(2, data.clone(), 11),
        Err(ClaimError::ProofAlreadyExist)
    );
    assert_eq!(claims.proofs(&data), Some((1, 10)));
    assert_eq!(
        claims.create_claim(1, vec![0u8; 5], 10),
        Err(ClaimError::ClaimTooLong)
    );
}

#[test]
fn claim_revoke_requires_the_owner() {
    let mut claims = Claims::new(8);
    let data = vec![7u8, 7];
    assert_eq!(claims.revoke_claim(1, &data), Err(ClaimError::ClaimNotExist));
    assert_eq!(claims.create_claim(1, data.clone(), 5), Ok(()));
    assert_eq!(claims.revoke_claim(2, &data), Err(ClaimError::NotClaimOwner));
    assert_eq!(claims.proofs(&data), Some((1, 5)));
    assert_eq!(claims.revoke_claim(1, &data), Ok(()));
    assert_eq!(claims.proofs(&data), None);
    // a revoked claim can be claimed again, by anyone
    assert_eq!(claims.create_claim(2, data.clone(), 6), Ok(()));
    assert_eq!(claims.proofs(&data), Some((2, 6)));
}

#[test]
fn claim_transfer_changes_owner_and_block() {
    let mut claims = Claims::new(8);
    let data = vec![4u8, 5, 6];
    assert_eq!(claims.create_claim(1, data.clone(), 5), Ok(()));
    assert_eq!(
        claims.transfer_claim(2, &data, 3, 6),
        Err(ClaimError::NotClaimOwner)
    );
    assert_eq!(claims.transfer_claim(1, &data, 3, 6), Ok(()));
    assert_eq!(claims.proofs(&data), Some((3, 6)));
    // the previous owner lost every right on the claim
    assert_eq!(claims.revoke_claim(1, &data), Err(ClaimError::NotClaimOwner));
    assert_eq!(claims.transfer_claim(3, &data, 1, 7), Ok(()));
    assert_eq!(claims.proofs(&data), Some((1, 7)));
}

#[test]
fn counter_stores_and_overwrites() {
    let mut counter = Counter::new();
    assert_eq!(counter.something(), None);
    assert_eq!(counter.do_something(1, 42), Ok(()));
    assert_eq!(counter.something(), Some(42));
    assert_eq!(counter.do_something(2, 7), Ok(()));
    assert_eq!(counter.something(), Some(7));
    assert_eq!(
        counter.events().as_slice(),
        &[
            CounterEvent::SomethingStored { something: 42, who: 1 },
            CounterEvent::SomethingStored { something: 7, who: 2 },
        ]
    );
}

#[test]
fn counter_increment_errors() {
    let mut counter = Counter::new();
    assert_eq!(counter.cause_error(1), Err(CounterError::NoneValue));
    assert_eq!(counter.do_something(1, u32::MAX), Ok(()));
    assert_eq!(counter.cause_error(1), Err(CounterError::StorageOverflow));
    assert_eq!(counter.something(), Some(u32::MAX));
    assert_eq!(counter.do_something(1, 5), Ok(()));
    assert_eq!(counter.cause_error(1), Ok(()));
    assert_eq!(counter.something(), Some(6));
}
