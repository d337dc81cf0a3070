//! The kitties pallet: kitties are created with random DNA, bred from two
//! existing kitties and handed on by their owners.
use vstd::prelude::*;

use std::collections::HashMap;

use crate::kitty::{mix_dna, mixed_dna, random_dna, random_value, Kitty};
use crate::runtime::{ensure_signed, signer, AccountId, DispatchError, Origin};

verus! {

broadcast use vstd::std_specs::hash::group_hash_axioms;

/// Kitties are numbered by a `u32`.
pub type KittyIndex = u32;

/// The events this pallet deposits.
#[derive(Clone, Copy, PartialEq, Eq, Debug)]
pub enum Event {
    /// A kitty was created: its owner, id and DNA.
    KittyCreated(AccountId, KittyIndex, Kitty),
    /// A kitty was bred: its owner, id and DNA.
    KittyBreed(AccountId, KittyIndex, Kitty),
    /// A kitty changed hands: the old owner, the new owner and the id.
    KittyTransfered(AccountId, AccountId, KittyIndex),
}

/// Why this pallet refuses a call.
#[derive(Clone, Copy, PartialEq, Eq, Debug, Structural)]
pub enum Error {
    KittiesCountOverflow,
    NotOwner,
    SameKittyId,
    InvalidKittyId,
}

/// The id that `NextKittyId` holds before any kitty exists.
#[allow(non_snake_case)]
pub fn GetDefaultValue() -> (r: KittyIndex)
    ensures
        r == 0,
{
    0
}

/// The pallet's storage.
pub struct Pallet {
    next_kitty_id: KittyIndex,
    kitties: HashMap<KittyIndex, Kitty>,
    kitty_owner: HashMap<KittyIndex, AccountId>,
    events: Vec<Event>,
}

impl Pallet {
    /// `NextKittyId`: the id the next kitty gets.
    pub closed spec fn next_id(&self) -> KittyIndex {
        self.next_kitty_id
    }

    /// `Kitties`: each kitty's DNA by id.
    pub closed spec fn kitty_map(&self) -> Map<KittyIndex, Kitty> {
        self.kitties@
    }

    /// `KittyOwner`: each kitty's owner by id.
    pub closed spec fn owner_map(&self) -> Map<KittyIndex, AccountId> {
        self.kitty_owner@
    }

    /// The events deposited so far, oldest first.
    pub closed spec fn event_log(&self) -> Seq<Event> {
        self.events@
    }

    /// The owner of `id`, if the kitty exists.
    pub open spec fn owner_of(&self, id: KittyIndex) -> Option<AccountId> {
        if self.owner_map().contains_key(id) {
            Some(self.owner_map()[id])
        } else {
            None
        }
    }

    /// The storage is consistent: kitties are numbered `0 .. next_id()` and
    /// each has an owner.
    pub closed spec fn wf(&self) -> bool {
        &&& forall|k: KittyIndex| #[trigger]
            self.kitties@.contains_key(k) <==> k < self.next_kitty_id
        &&& forall|k: KittyIndex| #[trigger]
            self.kitty_owner@.contains_key(k) <==> self.kitties@.contains_key(k)
    }

    /// What the storage invariant says, for callers.
    pub proof fn lemma_wf_facts(&self)
        requires
            self.wf(),
        ensures
            forall|k: KittyIndex| #[trigger]
                self.kitty_map().contains_key(k) <==> k < self.next_id(),
            forall|k: KittyIndex| #[trigger]
                self.owner_map().contains_key(k) <==> self.kitty_map().contains_key(k),
    {
    }

    /// The storage and events after a kitty with DNA `dna` is stored for `who`
    /// under the next id, `events` being deposited first.
    pub open spec fn is_created_with_dna(
        self,
        post: Self,
        who: AccountId,
        dna: Seq<u8>,
        events: Seq<Event>,
    ) -> bool {
        let id = self.next_id();
        let kitty = post.kitty_map()[id];
        &&& kitty.0@ == dna
        &&& post.next_id() == id + 1
        &&& post.kitty_map() == self.kitty_map().insert(id, kitty)
        &&& post.owner_map() == self.owner_map().insert(id, who)
        &&& post.event_log() == self.event_log() + events + seq![
            Event::KittyCreated(who, id, kitty),
        ]
    }

    /// An empty pallet.
    pub fn new() -> (r: Self)
        ensures
            r.wf(),
            r.next_id() == 0,
            r.kitty_map() == Map::<KittyIndex, Kitty>::empty(),
            r.owner_map() == Map::<KittyIndex, AccountId>::empty(),
            r.event_log() == Seq::<Event>::empty(),
    {
        Pallet {
            next_kitty_id: GetDefaultValue(),
            kitties: HashMap::new(),
            kitty_owner: HashMap::new(),
            events: Vec::new(),
        }
    }

    /// `NextKittyId`.
    pub fn next_kitty_id(&self) -> (r: KittyIndex)
        ensures
            r == self.next_id(),
    {
        self.next_kitty_id
    }

    /// `Kitties`: the kitty with id `id`.
    pub fn kitties(&self, id: KittyIndex) -> (r: Option<Kitty>)
        ensures
            r == (if self.kitty_map().contains_key(id) {
                Some(self.kitty_map()[id])
            } else {
                None
            }),
    {
        match self.kitties.get(&id) {
            Some(k) => Some(*k),
            None => None,
        }
    }

    /// `KittyOwner`: the owner of kitty `id`.
    pub fn kitty_owner(&self, id: KittyIndex) -> (r: Option<AccountId>)
        ensures
            r == self.owner_of(id),
    {
        match self.kitty_owner.get(&id) {
            Some(a) => Some(*a),
            None => None,
        }
    }

    /// The events deposited so far, oldest first.
    pub fn events(&self) -> (r: &Vec<Event>)
        ensures
            r@ == self.event_log(),
    {
        &self.events
    }

    /// `get_next_id`: the id for a new kitty, or `KittiesCountOverflow` once
    /// `NextKittyId` has reached `u32::MAX`.
    fn get_next_id(&self) -> (r: Result<KittyIndex, Error>)
        ensures
            self.next_id() == u32::MAX ==> r == Err::<KittyIndex, Error>(
                Error::KittiesCountOverflow,
            ),
            self.next_id() != u32::MAX ==> r == Ok::<KittyIndex, Error>(self.next_id()),
    {
        let max_value_local = u32::MAX;
        let next_kitty_id = self.next_kitty_id;
        if next_kitty_id == max_value_local {
            return Err(Error::KittiesCountOverflow);
        }
        Ok(next_kitty_id)
    }

    /// `get_kitty`: the kitty with id `id`.
    fn get_kitty(&self, id: KittyIndex) -> (r: Result<Kitty, ()>)
        ensures
            self.kitty_map().contains_key(id) ==> r == Ok::<Kitty, ()>(self.kitty_map()[id]),
            !self.kitty_map().contains_key(id) ==> r is Err,
    {
        match self.kitties(id) {
            Some(kitty) => Ok(kitty),
            None => Err(()),
        }
    }

    /// `created`: stores kitty `id` for `who`, moves `NextKittyId` past it and
    /// deposits `KittyCreated`.
    fn created(&mut self, who: AccountId, id: KittyIndex, kitty: Kitty)
        requires
            old(self).wf(),
            id == old(self).next_id(),
            id < u32::MAX,
        ensures
            final(self).wf(),
            final(self).next_id() == id + 1,
            final(self).kitty_map() == old(self).kitty_map().insert(id, kitty),
            final(self).owner_map() == old(self).owner_map().insert(id, who),
            final(self).event_log() == old(self).event_log().push(
                Event::KittyCreated(who, id, kitty),
            ),
    {
        self.kitties.insert(id, kitty);
        self.kitty_owner.insert(id, who);
        self.next_kitty_id = id + 1;
        self.events.push(Event::KittyCreated(who, id, kitty));
    }

    /// Creates a kitty for the signer, with DNA drawn from `seed` (the
    /// runtime's random seed, encoded) and `extrinsic_index`.
    pub fn create(&mut self, origin: Origin, seed: &[u8], extrinsic_index: Option<u32>) -> (r:
        Result<(), DispatchError<Error>>)
        requires
            old(self).wf(),
        ensures
            final(self).wf(),
            r is Err ==> *final(self) == *old(self),
            match signer(origin) {
                None => r == Err::<(), DispatchError<Error>>(DispatchError::BadOrigin),
                Some(who) => if old(self).next_id() == u32::MAX {
                    r == Err::<(), DispatchError<Error>>(DispatchError::Module(Error::InvalidKittyId))
                } else {
                    &&& r == Ok::<(), DispatchError<Error>>(())
                    &&& old(self).is_created_with_dna(
                        *final(self),
                        who,
                        random_dna(seed@, who, extrinsic_index),
                        Seq::empty(),
                    )
                },
            },
    {
        let who = match ensure_signed(origin) {
            Ok(who) => who,
            Err(e) => return Err(e),
        };
        let kitty_id = match self.get_next_id() {
            Ok(id) => id,
            Err(_) => return Err(DispatchError::Module(Error::InvalidKittyId)),
        };
        let dna = random_value(seed, who, extrinsic_index);
        let kitty = Kitty(dna);
        self.created(who, kitty_id, kitty);
        proof {
            assert(self.event_log() =~= old(self).event_log() + Seq::<Event>::empty() + seq![
                Event::KittyCreated(who, kitty_id, kitty),
            ]);
        }
        Ok(())
    }

    /// Breeds kitties `kitty_id_1` and `kitty_id_2` (whoever owns them) into a
    /// new kitty for the signer, whose DNA mixes theirs under a selector drawn
    /// like a fresh DNA.
    pub fn breed(
        &mut self,
        origin: Origin,
        kitty_id_1: KittyIndex,
        kitty_id_2: KittyIndex,
        seed: &[u8],
        extrinsic_index: Option<u32>,
    ) -> (r: Result<(), DispatchError<Error>>)
        requires
            old(self).wf(),
        ensures
            final(self).wf(),
            r is Err ==> *final(self) == *old(self),
            match signer(origin) {
                None => r == Err::<(), DispatchError<Error>>(DispatchError::BadOrigin),
                Some(who) => if kitty_id_1 == kitty_id_2 {
                    r == Err::<(), DispatchError<Error>>(DispatchError::Module(Error::SameKittyId))
                } else if !old(self).kitty_map().contains_key(kitty_id_1)
                    || !old(self).kitty_map().contains_key(kitty_id_2) || old(self).next_id()
                    == u32::MAX {
                    r == Err::<(), DispatchError<Error>>(DispatchError::Module(Error::InvalidKittyId))
                } else {
                    let id = old(self).next_id();
                    let child = final(self).kitty_map()[id];
                    &&& r == Ok::<(), DispatchError<Error>>(())
                    &&& old(self).is_created_with_dna(
                        *final(self),
                        who,
                        mixed_dna(
                            old(self).kitty_map()[kitty_id_1].0@,
                            old(self).kitty_map()[kitty_id_2].0@,
                            random_dna(seed@, who, extrinsic_index),
                        ),
                        seq![Event::KittyBreed(who, id, child)],
                    )
                },
            },
    {
        let who = match ensure_signed(origin) {
            Ok(who) => who,
            Err(e) => return Err(e),
        };
        if kitty_id_1 == kitty_id_2 {
            return Err(DispatchError::Module(Error::SameKittyId));
        }
        let kitty_1 = match self.get_kitty(kitty_id_1) {
            Ok(k) => k,
            Err(_) => return Err(DispatchError::Module(Error::InvalidKittyId)),
        };
        let kitty_2 = match self.get_kitty(kitty_id_2) {
            Ok(k) => k,
            Err(_) => return Err(DispatchError::Module(Error::InvalidKittyId)),
        };
        let kitty_id = match self.get_next_id() {
            Ok(id) => id,
            Err(_) => return Err(DispatchError::Module(Error::InvalidKittyId)),
        };
        let selector = random_value(seed, who, extrinsic_index);
        let new_kitty = mix_dna(&kitty_1, &kitty_2, &selector);
        self.events.push(Event::KittyBreed(who, kitty_id, new_kitty));
        self.created(who, kitty_id, new_kitty);
        proof {
            assert(self.event_log() =~= old(self).event_log() + seq![
                Event::KittyBreed(who, kitty_id, new_kitty),
            ] + seq![Event::KittyCreated(who, kitty_id, new_kitty)]);
        }
        Ok(())
    }

    /// Hands the signer's kitty `kitty_id` to `new_owner`.
    pub fn transfer(&mut self, origin: Origin, kitty_id: KittyIndex, new_owner: AccountId) -> (r:
        Result<(), DispatchError<Error>>)
        requires
            old(self).wf(),
        ensures
            final(self).wf(),
            r is Err ==> *final(self) == *old(self),
            match signer(origin) {
                None => r == Err::<(), DispatchError<Error>>(DispatchError::BadOrigin),
                Some(who) => if !old(self).kitty_map().contains_key(kitty_id) {
                    r == Err::<(), DispatchError<Error>>(DispatchError::Module(Error::InvalidKittyId))
                } else if old(self).owner_of(kitty_id) != Some(who) {
                    r == Err::<(), DispatchError<Error>>(DispatchError::Module(Error::NotOwner))
                } else {
                    &&& r == Ok::<(), DispatchError<Error>>(())
                    &&& final(self).next_id() == old(self).next_id()
                    &&& final(self).kitty_map() == old(self).kitty_map()
                    &&& final(self).owner_map() == old(self).owner_map().insert(
                        kitty_id,
                        new_owner,
                    )
                    &&& final(self).event_log() == old(self).event_log().push(
                        Event::KittyTransfered(who, new_owner, kitty_id),
                    )
                },
            },
    {
        let who = match ensure_signed(origin) {
            Ok(who) => who,
            Err(e) => return Err(e),
        };
        if self.get_kitty(kitty_id).is_err() {
            return Err(DispatchError::Module(Error::InvalidKittyId));
        }
        if self.kitty_owner(kitty_id) != Some(who) {
            return Err(DispatchError::Module(Error::NotOwner));
        }
        self.kitty_owner.insert(kitty_id, new_owner);
        self.events.push(Event::KittyTransfered(who, new_owner, kitty_id));
        Ok(())
    }

    /// Handing a kitty on and straight back leaves every kitty with the owner
    /// it had, and the kitties themselves untouched.
    pub proof fn law_transfer_there_and_back(
        s0: Self,
        s1: Self,
        s2: Self,
        a: AccountId,
        b: AccountId,
        id: KittyIndex,
    )
        requires
            s0.owner_of(id) == Some(a),
            s1.kitty_map() == s0.kitty_map(),
            s1.owner_map() == s0.owner_map().insert(id, b),
            s2.kitty_map() == s1.kitty_map(),
            s2.owner_map() == s1.owner_map().insert(id, a),
        ensures
            s2.owner_map() == s0.owner_map(),
            s2.kitty_map() == s0.kitty_map(),
    {
        assert(s2.owner_map() =~= s0.owner_map());
    }
}

} // verus!
