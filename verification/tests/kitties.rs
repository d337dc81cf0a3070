use pallets::kitties::{Error, Event, GetDefaultValue, Pallet};
use pallets::kitty::{mix_dna, random_value, Kitty};
use pallets::runtime::{DispatchError, Origin};

const SEED: [u8; 32] = [3u8; 32];

#[test]
fn kitties_create_and_breed() {
    let mut p = Pallet::new();
    assert_eq!(GetDefaultValue(), 0);
    assert_eq!(p.create(Origin::Signed(1), &SEED, Some(0)), Ok(()));
    assert_eq!(p.create(Origin::Signed(2), &SEED, Some(1)), Ok(()));
    assert_eq!(p.next_kitty_id(), 2);
    let k0 = p.kitties(0).unwrap();
    let k1 = p.kitties(1).unwrap();
    assert_eq!(k0, Kitty(random_value(&SEED, 1, Some(0))));
    assert_eq!(k1, Kitty(random_value(&SEED, 2, Some(1))));
    assert_ne!(k0, k1);
    // Anyone may breed any two kitties; the child is theirs.
    assert_eq!(p.breed(Origin::Signed(3), 0, 1, &SEED, Some(2)), Ok(()));
    let child = p.kitties(2).unwrap();
    let selector = random_value(&SEED, 3, Some(2));
    assert_eq!(child, mix_dna(&k0, &k1, &selector));
    assert_eq!(p.kitty_owner(2), Some(3));
    assert_eq!(
        p.events(),
        &vec![
            Event::KittyCreated(1, 0, k0),
            Event::KittyCreated(2, 1, k1),
            Event::KittyBreed(3, 2, child),
            Event::KittyCreated(3, 2, child),
        ]
    );
}

#[test]
fn kitties_breed_and_transfer_errors() {
    let mut p = Pallet::new();
    assert_eq!(p.create(Origin::Signed(1), &SEED, None), Ok(()));
    assert_eq!(
        p.breed(Origin::Signed(1), 0, 0, &SEED, None),
        Err(DispatchError::Module(Error::SameKittyId))
    );
    assert_eq!(
        p.breed(Origin::Signed(1), 0, 5, &SEED, None),
        Err(DispatchError::Module(Error::InvalidKittyId))
    );
    assert_eq!(
        p.transfer(Origin::Signed(1), 5, 2),
        Err(DispatchError::Module(Error::InvalidKittyId))
    );
    assert_eq!(
        p.transfer(Origin::Signed(2), 0, 3),
        Err(DispatchError::Module(Error::NotOwner))
    );
    assert_eq!(p.transfer(Origin::Root, 0, 3), Err(DispatchError::BadOrigin));
    assert_eq!(p.next_kitty_id(), 1);
    assert_eq!(p.kitty_owner(0), Some(1));
    assert_eq!(p.events().len(), 1);
}

#[test]
fn kitties_transfer_there_and_back() {
    let mut p = Pallet::new();
    assert_eq!(p.create(Origin::Signed(1), &SEED, None), Ok(()));
    let k = p.kitties(0);
    assert_eq!(p.transfer(Origin::Signed(1), 0, 2), Ok(()));
    assert_eq!(p.kitty_owner(0), Some(2));
    assert_eq!(p.transfer(Origin::Signed(2), 0, 1), Ok(()));
    assert_eq!(p.kitty_owner(0), Some(1));
    assert_eq!(p.kitties(0), k);
    assert_eq!(p.events()[2], Event::KittyTransfered(2, 1, 0));
}
