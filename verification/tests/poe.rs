use pallets::poe::{Error, Event, Pallet, Proof};
use pallets::runtime::{DispatchError, Origin};
use pallets::weights::{DbWeight, SubstrateWeight, WeightInfo};

const MAX_CLAIM_LENGTH: u32 = 10;
const BLOCK: u64 = 1;

fn new_poe() -> Pallet {
    Pallet::new(MAX_CLAIM_LENGTH)
}

#[test]
fn create_claim_works() {
    let mut p = new_poe();
    let claim = vec![0, 1];
    assert_eq!(p.create_claim(Origin::Signed(1), claim.clone(), BLOCK), Ok(()));
    assert_eq!(p.proofs(&claim), Some(Proof { owner: 1, block: BLOCK }));
}

#[test]
fn create_claim_failed_when_claim_already_exist() {
    let mut p = new_poe();
    let claim: Vec<u8> = vec![0, 1];
    let _ = p.create_claim(Origin::Signed(1), claim.clone(), BLOCK);
    let events_before = p.events().len();
    assert_eq!(
        p.create_claim(Origin::Signed(1), claim.clone(), BLOCK),
        Err(DispatchError::Module(Error::ProofAlreadyExist))
    );
    assert_eq!(p.proofs(&claim), Some(Proof { owner: 1, block: BLOCK }));
    assert_eq!(p.events().len(), events_before);
}

#[test]
fn revoke_claim_works() {
    let mut p = new_poe();
    let claim = vec![0, 1];
    let _ = p.create_claim(Origin::Signed(1), claim.clone(), BLOCK);
    assert_eq!(p.revoke_claim(Origin::Signed(1), claim.clone()), Ok(()));
}

#[test]
fn revoke_claim_failed_when_claim_is_not_exist() {
    let mut p = new_poe();
    let claim = vec![0, 1];
    assert_eq!(
        p.revoke_claim(Origin::Signed(1), claim.clone()),
        Err(DispatchError::Module(Error::ClaimNotExist))
    );
    assert_eq!(p.proofs(&claim), None);
    assert!(p.events().is_empty());
}

#[test]
fn revoke_claim_failed_when_claim_sender_is_not_owener() {
    let mut p = new_poe();
    let claim = vec![0, 1];
    let _ = p.create_claim(Origin::Signed(1), claim.clone(), BLOCK);
    assert_eq!(
        p.revoke_claim(Origin::Signed(2), claim.clone()),
        Err(DispatchError::Module(Error::NotClaimOwner))
    );
    assert_eq!(p.proofs(&claim), Some(Proof { owner: 1, block: BLOCK }));
    assert_eq!(p.events().len(), 1);
}

#[test]
fn transfer_claim_works() {
    let mut p = new_poe();
    let claim = vec![0, 1];
    let _ = p.create_claim(Origin::Signed(1), claim.clone(), BLOCK);
    assert_eq!(p.transfer_claim(Origin::Signed(1), 2, claim.clone(), BLOCK), Ok(()));
    assert_eq!(p.proofs(&claim), Some(Proof { owner: 2, block: BLOCK }));
}

#[test]
fn transfer_claim_failed_when_claim_is_not_exist() {
    let mut p = new_poe();
    let claim = vec![0, 1];
    assert_eq!(
        p.transfer_claim(Origin::Signed(1), 2, claim.clone(), BLOCK),
        Err(DispatchError::Module(Error::ClaimNotExist))
    );
    assert_eq!(p.proofs(&claim), None);
    assert!(p.events().is_empty());
}

#[test]
fn transfer_claim_failed_when_claim_sender_is_not_owener() {
    let mut p = new_poe();
    let claim = vec![0, 1];
    let _ = p.create_claim(Origin::Signed(1), claim.clone(), BLOCK);
    assert_eq!(
        p.transfer_claim(Origin::Signed(2), 3, claim.clone(), BLOCK),
        Err(DispatchError::Module(Error::NotClaimOwner))
    );
    assert_eq!(p.proofs(&claim), Some(Proof { owner: 1, block: BLOCK }));
    assert_eq!(p.events().len(), 1);
}

#[test]
fn poe_claim_too_large_is_refused() {
    let mut p = new_poe();
    let claim = vec![7u8; 11];
    assert_eq!(
        p.create_claim(Origin::Signed(1), claim.clone(), BLOCK),
        Err(DispatchError::Module(Error::ClaimTooLarge))
    );
    assert_eq!(p.proofs(&claim), None);
    // A claim exactly at the bound is accepted.
    let claim = vec![7u8; 10];
    assert_eq!(p.create_claim(Origin::Signed(1), claim.clone(), BLOCK), Ok(()));
}

#[test]
fn poe_existing_claim_is_reported_before_its_length() {
    let mut p = Pallet::new(10);
    let claim = vec![1u8; 10];
    assert_eq!(p.create_claim(Origin::Signed(1), claim.clone(), BLOCK), Ok(()));
    let mut q = Pallet::new(0);
    assert_eq!(
        q.create_claim(Origin::Signed(1), vec![], BLOCK),
        Ok(())
    );
    assert_eq!(
        q.create_claim(Origin::Signed(2), vec![], BLOCK),
        Err(DispatchError::Module(Error::ProofAlreadyExist))
    );
    assert_eq!(
        q.create_claim(Origin::Signed(2), vec![3], BLOCK),
        Err(DispatchError::Module(Error::ClaimTooLarge))
    );
}

#[test]
fn poe_events_and_bad_origin() {
    let mut p = new_poe();
    let claim = vec![4, 5, 6];
    assert_eq!(p.create_claim(Origin::Root, claim.clone(), BLOCK), Err(DispatchError::BadOrigin));
    assert_eq!(p.create_claim(Origin::Unsigned, claim.clone(), BLOCK), Err(DispatchError::BadOrigin));
    assert_eq!(p.create_claim(Origin::Signed(1), claim.clone(), 3), Ok(()));
    assert_eq!(p.transfer_claim(Origin::Signed(1), 2, claim.clone(), 4), Ok(()));
    assert_eq!(p.proofs(&claim), Some(Proof { owner: 2, block: 4 }));
    assert_eq!(p.revoke_claim(Origin::Signed(2), claim.clone()), Ok(()));
    assert_eq!(p.proofs(&claim), None);
    assert_eq!(
        p.events(),
        &vec![
            Event::ClaimCreated(1, claim.clone()),
            Event::ClaimTransfered(1, 2, claim.clone()),
            Event::ClaimRevoked(2, claim.clone()),
        ]
    );
    // Once revoked, the data can be claimed again, by anyone.
    assert_eq!(p.create_claim(Origin::Signed(3), claim.clone(), 5), Ok(()));
    assert_eq!(p.proofs(&claim), Some(Proof { owner: 3, block: 5 }));
}

#[test]
fn poe_claims_are_kept_apart() {
    let mut p = new_poe();
    assert_eq!(p.create_claim(Origin::Signed(1), vec![1], 1), Ok(()));
    assert_eq!(p.create_claim(Origin::Signed(2), vec![1, 2], 2), Ok(()));
    assert_eq!(p.create_claim(Origin::Signed(3), vec![2, 1], 3), Ok(()));
    assert_eq!(p.revoke_claim(Origin::Signed(2), vec![1, 2]), Ok(()));
    assert_eq!(p.proofs(&vec![1]), Some(Proof { owner: 1, block: 1 }));
    assert_eq!(p.proofs(&vec![1, 2]), None);
    assert_eq!(p.proofs(&vec![2, 1]), Some(Proof { owner: 3, block: 3 }));
    assert_eq!(p.max_claim_length(), MAX_CLAIM_LENGTH);
}

#[test]
fn poe_create_claim_weights() {
    // Against RocksDB: 54_000_000 + 25_000_000 + 100_000_000.
    assert_eq!(().create_claim_benchmark(vec![0, 1]), 179_000_000);
    let custom = SubstrateWeight { db_weight: DbWeight { read: 10, write: 20 } };
    assert_eq!(custom.create_claim_benchmark(vec![]), 54_000_030);
    let huge = SubstrateWeight { db_weight: DbWeight { read: u64::MAX, write: 1 } };
    assert_eq!(huge.create_claim_benchmark(vec![]), u64::MAX);
    assert_eq!(DbWeight { read: 3, write: 5 }.reads(4), 12);
    assert_eq!(DbWeight { read: 3, write: u64::MAX }.writes(2), u64::MAX);
}

#[test]
fn poe_create_then_revoke_restores_proofs() {
    let mut p = new_poe();
    assert_eq!(p.create_claim(Origin::Signed(1), vec![9], 1), Ok(()));
    assert_eq!(p.create_claim(Origin::Signed(2), vec![8, 8], 2), Ok(()));
    assert_eq!(p.revoke_claim(Origin::Signed(2), vec![8, 8]), Ok(()));
    assert_eq!(p.proofs(&vec![8, 8]), None);
    assert_eq!(p.proofs(&vec![9]), Some(Proof { owner: 1, block: 1 }));
}

#[test]
fn poe_second_transfer_overrides_first() {
    let mut p = new_poe();
    assert_eq!(p.create_claim(Origin::Signed(1), vec![9], 1), Ok(()));
    assert_eq!(p.transfer_claim(Origin::Signed(1), 2, vec![9], 2), Ok(()));
    assert_eq!(p.transfer_claim(Origin::Signed(2), 3, vec![9], 3), Ok(()));
    assert_eq!(p.proofs(&vec![9]), Some(Proof { owner: 3, block: 3 }));
    assert_eq!(
        p.revoke_claim(Origin::Signed(1), vec![9]),
        Err(DispatchError::Module(Error::NotClaimOwner))
    );
}
