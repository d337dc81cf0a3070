//! The kitty market pallet: kitties are created and bred against a deposit
//! reserved from their owner, handed on together with that deposit, put up
//! for sale and bought. Each account's kitties are also listed under it.
use vstd::prelude::*;

use std::collections::HashMap;

use frame_support::traits::ConstU32;
use frame_support::BoundedVec;

use crate::id_list::{lemma_distinct_below_len, lemma_push_distinct, lemma_remove_distinct};
use crate::kitty::{mix_dna, mixed_dna, random_dna, random_value, Kitty};
use crate::kitty_list::{
    kitty_list_get, kitty_list_items, kitty_list_len, kitty_list_new, kitty_list_remove,
    kitty_list_try_push, KITTY_LIST_BOUND,
};
use crate::runtime::{ensure_signed, signer, AccountId, DispatchError, Origin};

verus! {

broadcast use vstd::std_specs::hash::group_hash_axioms;

/// Kitties are numbered by a `u32`.
pub type KittyIndex = u32;

/// Amounts of the runtime's currency.
pub type Balance = u128;

/// The events this pallet deposits.
#[derive(Clone, Copy, PartialEq, Eq, Debug)]
pub enum Event {
    /// A kitty was created: its owner, id and DNA.
    KittyCreated(AccountId, KittyIndex, Kitty),
    /// A kitty was bred: its owner, id and DNA.
    KittyBread(AccountId, KittyIndex, Kitty),
    /// A kitty changed hands: the old owner, the new owner and the id.
    KittyTransfered(AccountId, AccountId, KittyIndex),
    /// A kitty was put up for sale (or taken off sale with `None`).
    OnSaleEvent(AccountId, KittyIndex, Option<Balance>),
    /// A kitty was sold: the seller, the buyer, the id and the price.
    SoldEvent(AccountId, AccountId, KittyIndex, Balance),
}

/// Why this pallet refuses a call.
#[derive(Clone, Copy, PartialEq, Eq, Debug, Structural)]
pub enum Error {
    KittiesCountOverflow,
    NotOwner,
    SameKittyId,
    InvalidKittyId,
    NoEnoughBalance,
    NotForSale,
}

/// A request this pallet makes of the runtime's currency.
#[derive(Clone, Copy, PartialEq, Eq, Debug, Structural)]
pub enum CurrencyCall {
    /// Reserve an amount of an account's free balance.
    Reserve(AccountId, Balance),
    /// Move up to an amount of reserved balance from the first account to the
    /// second's reserved balance.
    Repatriate(AccountId, AccountId, Balance),
    /// Pay an amount from the first account to the second, keeping the first
    /// alive.
    Transfer(AccountId, AccountId, Balance),
}

/// What a currency has been asked, oldest first, each request with whether
/// it went through.
pub type CurrencyHistory = Seq<(CurrencyCall, bool)>;

/// The runtime's currency, as this pallet uses it. The pallet decides nothing
/// about balances itself: an implementation reports whether each operation
/// went through. Each method adds to `history` exactly the request it received,
/// with its own answer; nothing else is said of its outcome. The runtime
/// implements this trait, so that record is the runtime's promise, not proved
/// here.
pub trait Currency {
    /// The requests received so far, with their answers.
    spec fn history(&self) -> CurrencyHistory;

    /// Moves `value` of `who`'s free balance to its reserved balance.
    fn reserve(&mut self, who: AccountId, value: Balance) -> (r: Result<(), ()>)
        ensures
            final(self).history() == old(self).history().push(
                (CurrencyCall::Reserve(who, value), r is Ok),
            ),
    ;

    /// Moves up to `value` of `slashed`'s reserved balance to `beneficiary`'s
    /// reserved balance; `Ok` carries the part that could not be moved.
    fn repatriate_reserved(
        &mut self,
        slashed: AccountId,
        beneficiary: AccountId,
        value: Balance,
    ) -> (r: Result<Balance, ()>)
        ensures
            final(self).history() == old(self).history().push(
                (CurrencyCall::Repatriate(slashed, beneficiary, value), r is Ok),
            ),
    ;

    /// Pays `value` from `source` to `dest`, keeping `source` alive.
    fn transfer(&mut self, source: AccountId, dest: AccountId, value: Balance) -> (r: Result<
        (),
        (),
    >)
        ensures
            final(self).history() == old(self).history().push(
                (CurrencyCall::Transfer(source, dest, value), r is Ok),
            ),
    ;
}

/// `post` is `pre` with one more request, `call`.
pub open spec fn asked(pre: CurrencyHistory, post: CurrencyHistory, call: CurrencyCall) -> bool {
    &&& post.len() == pre.len() + 1
    &&& post.drop_last() == pre
    &&& post.last().0 == call
}

/// Whether the latest request in `h` went through.
pub open spec fn last_granted(h: CurrencyHistory) -> bool {
    h.last().1
}

/// The id that `NextKittyId` holds before any kitty exists.
#[allow(non_snake_case)]
pub fn GetDefaultValue() -> (r: KittyIndex)
    ensures
        r == 0,
{
    0
}

/// The pallet's storage.
pub struct Pallet {
    next_kitty_id: KittyIndex,
    kitties: HashMap<KittyIndex, Kitty>,
    kitty_owner: HashMap<KittyIndex, AccountId>,
    on_sale: HashMap<KittyIndex, Option<Balance>>,
    all_kitties: HashMap<AccountId, BoundedVec<KittyIndex, ConstU32<4294967295>>>,
    money_for_create_kitty: Balance,
    events: Vec<Event>,
}

/// A list with an occurrence of `id` taken out: in a list without duplicates,
/// its only one.
pub open spec fn without(s: Seq<KittyIndex>, id: KittyIndex) -> Seq<KittyIndex> {
    s.remove(s.index_of(id))
}

/// The list kept under `who` in `lists`, empty where there is none.
pub open spec fn list_in(lists: Map<AccountId, Seq<KittyIndex>>, who: AccountId) -> Seq<KittyIndex> {
    if lists.contains_key(who) {
        lists[who]
    } else {
        Seq::empty()
    }
}

impl Pallet {
    /// `NextKittyId`: the id the next kitty gets.
    pub closed spec fn next_id(&self) -> KittyIndex {
        self.next_kitty_id
    }

    /// `Kitties`: each kitty's DNA by id.
    pub closed spec fn kitty_map(&self) -> Map<KittyIndex, Kitty> {
        self.kitties@
    }

    /// `KittyOwner`: each kitty's owner by id.
    pub closed spec fn owner_map(&self) -> Map<KittyIndex, AccountId> {
        self.kitty_owner@
    }

    /// `OnSale`: the entries written for kitties put up for sale.
    pub closed spec fn sale_map(&self) -> Map<KittyIndex, Option<Balance>> {
        self.on_sale@
    }

    /// `AllKitties`: the ids listed under each account.
    pub closed spec fn list_map(&self) -> Map<AccountId, Seq<KittyIndex>> {
        self.all_kitties@.map_values(
            |l: BoundedVec<KittyIndex, ConstU32<4294967295>>| kitty_list_items(l),
        )
    }

    /// The deposit reserved for each kitty.
    pub closed spec fn money(&self) -> Balance {
        self.money_for_create_kitty
    }

    /// The events deposited so far, oldest first.
    pub closed spec fn event_log(&self) -> Seq<Event> {
        self.events@
    }

    /// The ids listed under `who`.
    pub open spec fn list_of(&self, who: AccountId) -> Seq<KittyIndex> {
        list_in(self.list_map(), who)
    }

    /// The price `OnSale` reports for `id` (`None` where it holds nothing).
    pub open spec fn price_of(&self, id: KittyIndex) -> Option<Balance> {
        if self.sale_map().contains_key(id) {
            self.sale_map()[id]
        } else {
            None
        }
    }

    /// The owner of `id`, if the kitty exists.
    pub open spec fn owner_of(&self, id: KittyIndex) -> Option<AccountId> {
        if self.owner_map().contains_key(id) {
            Some(self.owner_map()[id])
        } else {
            None
        }
    }

    /// The storage is consistent: kitties are numbered `0 .. next_id()`, each
    /// has an owner, and each account's list holds, once each, exactly the
    /// kitties it owns.
    pub closed spec fn wf(&self) -> bool {
        &&& forall|k: KittyIndex| #[trigger]
            self.kitties@.contains_key(k) <==> k < self.next_kitty_id
        &&& forall|k: KittyIndex| #[trigger]
            self.kitty_owner@.contains_key(k) <==> self.kitties@.contains_key(k)
        &&& forall|a: AccountId| #[trigger]
            self.all_kitties@.contains_key(a) ==> kitty_list_items(
                self.all_kitties@[a],
            ).no_duplicates()
        &&& forall|a: AccountId, k: KittyIndex|
            #![trigger kitty_list_items(self.all_kitties@[a]).contains(k)]
            self.all_kitties@.contains_key(a) && kitty_list_items(self.all_kitties@[a]).contains(k)
                ==> self.kitty_owner@.contains_key(k) && self.kitty_owner@[k] == a
        &&& forall|k: KittyIndex| #[trigger]
            self.kitty_owner@.contains_key(k) ==> self.all_kitties@.contains_key(
                self.kitty_owner@[k],
            ) && kitty_list_items(self.all_kitties@[self.kitty_owner@[k]]).contains(k)
    }

    /// The storage after kitty `id` with DNA `kitty` is created for `who`
    /// (events aside).
    pub open spec fn is_created(self, post: Self, who: AccountId, id: KittyIndex, kitty: Kitty) -> bool {
        &&& post.next_id() == id + 1
        &&& post.kitty_map() == self.kitty_map().insert(id, kitty)
        &&& post.owner_map() == self.owner_map().insert(id, who)
        &&& post.sale_map() == self.sale_map()
        &&& post.list_map() == self.list_map().insert(who, self.list_of(who).push(id))
        &&& post.money() == self.money()
    }

    /// The storage after kitty `id` passes from `from` to `to` (events and
    /// `OnSale` aside).
    pub open spec fn is_transferred(self, post: Self, from: AccountId, to: AccountId, id: KittyIndex) -> bool {
        let mid = self.list_map().insert(from, without(self.list_of(from), id));
        &&& post.next_id() == self.next_id()
        &&& post.kitty_map() == self.kitty_map()
        &&& post.owner_map() == self.owner_map().insert(id, to)
        &&& post.list_map() == mid.insert(to, list_in(mid, to).push(id))
        &&& post.money() == self.money()
    }

    /// An empty market whose kitties each cost `money_for_create_kitty`.
    pub fn new(money_for_create_kitty: Balance) -> (r: Self)
        ensures
            r.wf(),
            r.next_id() == 0,
            r.kitty_map() == Map::<KittyIndex, Kitty>::empty(),
            r.owner_map() == Map::<KittyIndex, AccountId>::empty(),
            r.sale_map() == Map::<KittyIndex, Option<Balance>>::empty(),
            r.list_map() == Map::<AccountId, Seq<KittyIndex>>::empty(),
            r.money() == money_for_create_kitty,
            r.event_log() == Seq::<Event>::empty(),
    {
        let r = Pallet {
            next_kitty_id: GetDefaultValue(),
            kitties: HashMap::new(),
            kitty_owner: HashMap::new(),
            on_sale: HashMap::new(),
            all_kitties: HashMap::new(),
            money_for_create_kitty,
            events: Vec::new(),
        };
        assert(r.list_map() =~= Map::<AccountId, Seq<KittyIndex>>::empty());
        r
    }

    /// `NextKittyId`.
    pub fn next_kitty_id(&self) -> (r: KittyIndex)
        ensures
            r == self.next_id(),
    {
        self.next_kitty_id
    }

    /// The deposit each kitty costs.
    pub fn money_for_create_kitty(&self) -> (r: Balance)
        ensures
            r == self.money(),
    {
        self.money_for_create_kitty
    }

    /// `Kitties`: the kitty with id `id`.
    pub fn kitties(&self, id: KittyIndex) -> (r: Option<Kitty>)
        ensures
            r == (if self.kitty_map().contains_key(id) {
                Some(self.kitty_map()[id])
            } else {
                None
            }),
    {
        match self.kitties.get(&id) {
            Some(k) => Some(*k),
            None => None,
        }
    }

    /// `KittyOwner`: the owner of kitty `id`.
    pub fn kitty_owner(&self, id: KittyIndex) -> (r: Option<AccountId>)
        ensures
            r == self.owner_of(id),
    {
        match self.kitty_owner.get(&id) {
            Some(a) => Some(*a),
            None => None,
        }
    }

    /// `OnSale`: the price kitty `id` is offered at, if any.
    pub fn on_sale(&self, id: KittyIndex) -> (r: Option<Balance>)
        ensures
            r == self.price_of(id),
    {
        match self.on_sale.get(&id) {
            Some(p) => *p,
            None => None,
        }
    }

    /// `AllKitties`: the ids listed under `who`, if a list was ever kept.
    pub fn all_kitties(&self, who: AccountId) -> (r: Option<Vec<KittyIndex>>)
        ensures
            match r {
                Some(v) => self.list_map().contains_key(who) && v@ == self.list_map()[who],
                None => !self.list_map().contains_key(who),
            },
    {
        match self.all_kitties.get(&who) {
            Some(list) => {
                let n = kitty_list_len(list);
                let mut out: Vec<KittyIndex> = Vec::new();
                let mut i: usize = 0;
                while i < n
                    invariant
                        n == kitty_list_items(*list).len(),
                        i <= n,
                        out@ == kitty_list_items(*list).subrange(0, i as int),
                    decreases n - i,
                {
                    out.push(kitty_list_get(list, i));
                    i = i + 1;
                }
                assert(out@ =~= kitty_list_items(*list));
                Some(out)
            },
            None => None,
        }
    }

    /// The events deposited so far, oldest first.
    pub fn events(&self) -> (r: &Vec<Event>)
        ensures
            r@ == self.event_log(),
    {
        &self.events
    }

    /// The owners' lists hold exactly the kitties they own, once each.
    pub proof fn lemma_lists_match_owners(&self)
        requires
            self.wf(),
        ensures
            forall|a: AccountId, k: KittyIndex| #[trigger]
                self.list_of(a).contains(k) <==> self.owner_of(k) == Some(a),
            forall|a: AccountId| #[trigger] self.list_of(a).no_duplicates(),
            forall|k: KittyIndex| #[trigger]
                self.kitty_map().contains_key(k) <==> k < self.next_id(),
            forall|k: KittyIndex| #[trigger]
                self.owner_map().contains_key(k) <==> self.kitty_map().contains_key(k),
    {
        assert forall|a: AccountId, k: KittyIndex| #[trigger]
            self.list_of(a).contains(k) <==> self.owner_of(k) == Some(a) by {
            if self.list_of(a).contains(k) {
                assert(self.all_kitties@.contains_key(a));
                assert(kitty_list_items(self.all_kitties@[a]).contains(k));
            }
            if self.owner_of(k) == Some(a) {
                assert(self.kitty_owner@.contains_key(k));
            }
        }
        assert forall|a: AccountId| #[trigger] self.list_of(a).no_duplicates() by {
            if self.all_kitties@.contains_key(a) {
                assert(kitty_list_items(self.all_kitties@[a]).no_duplicates());
            }
        }
    }

    /// Every id listed under an account is below `next_id()`.
    proof fn lemma_list_below_next(&self, who: AccountId)
        requires
            self.wf(),
        ensures
            forall|i: int|
                0 <= i < self.list_of(who).len() ==> #[trigger] self.list_of(who)[i]
                    < self.next_id(),
            self.list_of(who).no_duplicates(),
    {
        self.lemma_lists_match_owners();
        assert forall|i: int| 0 <= i < self.list_of(who).len() implies #[trigger] self.list_of(
            who,
        )[i] < self.next_id() by {
            let k = self.list_of(who)[i];
            assert(self.list_of(who).contains(k));
        }
    }

    /// `get_next_id`: the id for a new kitty, unless `NextKittyId` has reached
    /// `u32::MAX`.
    fn get_next_id(&self) -> (r: Result<KittyIndex, ()>)
        ensures
            self.next_id() == u32::MAX ==> r == Err::<KittyIndex, ()>(()),
            self.next_id() != u32::MAX ==> r == Ok::<KittyIndex, ()>(self.next_id()),
    {
        let max_value_local = u32::MAX;
        let next_kitty_id = self.next_kitty_id;
        if next_kitty_id == max_value_local {
            return Err(());
        }
        Ok(next_kitty_id)
    }

    /// `is_owner`: whether `who` owns kitty `id`.
    fn is_owner(&self, who: AccountId, id: KittyIndex) -> (r: Result<(), ()>)
        ensures
            r is Ok <==> self.owner_of(id) == Some(who),
    {
        let owner = self.kitty_owner(id);
        match owner {
            Some(o) => {
                if o == who {
                    return Ok(());
                }
                Err(())
            },
            None => Err(()),
        }
    }

    /// `get_owner`: the owner of kitty `id`.
    fn get_owner(&self, id: KittyIndex) -> (r: Result<AccountId, ()>)
        ensures
            match self.owner_of(id) {
                Some(o) => r == Ok::<AccountId, ()>(o),
                None => r is Err,
            },
    {
        match self.kitty_owner(id) {
            Some(owner) => Ok(owner),
            None => Err(()),
        }
    }

    /// `get_kitty`: the kitty with id `id`.
    fn get_kitty(&self, id: KittyIndex) -> (r: Result<Kitty, ()>)
        ensures
            self.kitty_map().contains_key(id) ==> r == Ok::<Kitty, ()>(self.kitty_map()[id]),
            !self.kitty_map().contains_key(id) ==> r is Err,
    {
        match self.kitties(id) {
            Some(kitty) => Ok(kitty),
            None => Err(()),
        }
    }

    /// `get_price`: the price kitty `id` is offered at.
    fn get_price(&self, id: KittyIndex) -> (r: Result<Balance, ()>)
        ensures
            match self.price_of(id) {
                Some(p) => r == Ok::<Balance, ()>(p),
                None => r is Err,
            },
    {
        match self.on_sale(id) {
            Some(price) => Ok(price),
            None => Err(()),
        }
    }

    /// `created`: stores kitty `id` for `who`, sets `NextKittyId` to the id
    /// after it, appends it to `who`'s list and deposits `KittyCreated`. Any
    /// id below `u32::MAX` is accepted; appending to a list that already
    /// holds `u32::MAX` ids would fail, so that is left out.
    fn created(&mut self, who: AccountId, id: KittyIndex, kitty: Kitty)
        requires
            id < u32::MAX,
            old(self).list_of(who).len() < KITTY_LIST_BOUND,
        ensures
            old(self).is_created(*final(self), who, id, kitty),
            final(self).event_log() == old(self).event_log().push(
                Event::KittyCreated(who, id, kitty),
            ),
    {
        let ghost pre = *self;
        self.kitties.insert(id, kitty);
        self.kitty_owner.insert(id, who);
        self.next_kitty_id = id + 1;
        let taken = self.all_kitties.remove(&who);
        let mut list = match taken {
            Some(l) => l,
            None => kitty_list_new(),
        };
        assert(kitty_list_items(list) == pre.list_of(who));
        let pushed = kitty_list_try_push(&mut list, id);
        assert(pushed is Ok);
        self.all_kitties.insert(who, list);
        self.events.push(Event::KittyCreated(who, id, kitty));
        assert(self.list_map() =~= pre.list_map().insert(who, pre.list_of(who).push(id)));
    }

    /// There is room in any list for the next kitty, and no list holds it yet.
    proof fn lemma_room_for_next(&self, who: AccountId)
        requires
            self.wf(),
            self.next_id() < u32::MAX,
        ensures
            self.list_of(who).len() < KITTY_LIST_BOUND,
            !self.list_of(who).contains(self.next_id()),
    {
        self.lemma_list_below_next(who);
        self.lemma_lists_match_owners();
        lemma_distinct_below_len(self.list_of(who), self.next_id());
    }

    /// Creating the next kitty keeps the storage consistent.
    proof fn lemma_created_keeps_wf(pre: Self, post: Self, who: AccountId, id: KittyIndex, kitty: Kitty)
        requires
            pre.wf(),
            id == pre.next_id(),
            id < u32::MAX,
            pre.is_created(post, who, id, kitty),
        ensures
            post.wf(),
    {
        pre.lemma_room_for_next(who);
        pre.lemma_list_below_next(who);
        pre.lemma_lists_match_owners();
        lemma_push_distinct(pre.list_of(who), id);
        assert forall|a: AccountId| #[trigger] post.all_kitties@.contains_key(a) implies (
        kitty_list_items(post.all_kitties@[a]) == if a == who {
            pre.list_of(who).push(id)
        } else {
            pre.list_of(a)
        }) by {
            assert(post.list_map().contains_key(a));
            assert(post.list_map()[a] == kitty_list_items(post.all_kitties@[a]));
        }
        assert(post.all_kitties@.contains_key(who)) by {
            assert(post.list_map().contains_key(who));
        }
        assert forall|a: AccountId| a != who && #[trigger] pre.all_kitties@.contains_key(
            a,
        ) implies post.all_kitties@.contains_key(a) by {
            assert(pre.list_map().contains_key(a));
            assert(post.list_map().contains_key(a));
        }
        assert forall|a: AccountId, k: KittyIndex|
            #![trigger kitty_list_items(post.all_kitties@[a]).contains(k)]
            post.all_kitties@.contains_key(a) && kitty_list_items(
                post.all_kitties@[a],
            ).contains(k) implies post.kitty_owner@.contains_key(k) && post.kitty_owner@[k]
            == a by {
            if a == who {
                if k != id {
                    assert(pre.list_of(who).contains(k));
                }
            } else {
                assert(post.list_map().contains_key(a));
                assert(pre.list_map().contains_key(a));
                assert(pre.list_of(a).contains(k));
            }
        }
        assert forall|k: KittyIndex| #[trigger]
            post.kitty_owner@.contains_key(k) implies post.all_kitties@.contains_key(
            post.kitty_owner@[k],
        ) && kitty_list_items(post.all_kitties@[post.kitty_owner@[k]]).contains(k) by {
            if k != id {
                let o = pre.kitty_owner@[k];
                assert(pre.owner_of(k) == Some(o));
                assert(pre.list_of(o).contains(k));
                if o == who {
                    assert(pre.list_of(who).push(id).contains(k));
                }
            } else {
                assert(pre.list_of(who).push(id).contains(id));
            }
        }
        assert forall|a: AccountId| #[trigger]
            post.all_kitties@.contains_key(a) implies kitty_list_items(
            post.all_kitties@[a],
        ).no_duplicates() by {
            if a != who {
                assert(post.list_map().contains_key(a));
                assert(pre.list_map().contains_key(a));
                assert(pre.list_of(a).no_duplicates());
            }
        }
    }

    /// The storage and events after a kitty with DNA `dna` is created for
    /// `who` under the next id.
    pub open spec fn is_created_with_dna(self, post: Self, who: AccountId, dna: Seq<u8>) -> bool {
        let id = self.next_id();
        let kitty = post.kitty_map()[id];
        &&& kitty.0@ == dna
        &&& self.is_created(post, who, id, kitty)
        &&& post.event_log() == self.event_log().push(Event::KittyCreated(who, id, kitty))
    }

    /// The storage and events after a kitty with DNA `dna` is bred for `who`
    /// under the next id.
    pub open spec fn is_bred_with_dna(self, post: Self, who: AccountId, dna: Seq<u8>) -> bool {
        let id = self.next_id();
        let kitty = post.kitty_map()[id];
        &&& kitty.0@ == dna
        &&& self.is_created(post, who, id, kitty)
        &&& post.event_log() == self.event_log().push(Event::KittyBread(who, id, kitty)).push(
            Event::KittyCreated(who, id, kitty),
        )
    }

    /// Creates a kitty for the signer, with DNA drawn from `seed` (the
    /// runtime's random seed, encoded) and `extrinsic_index`, reserving
    /// `money_for_create_kitty` of the signer's balance through `currency`.
    /// The reservation is asked for only once the id is known; whether it goes
    /// through is the currency's to say.
    pub fn create<C: Currency>(
        &mut self,
        origin: Origin,
        seed: &[u8],
        extrinsic_index: Option<u32>,
        currency: &mut C,
    ) -> (r: Result<(), DispatchError<Error>>)
        requires
            old(self).wf(),
        ensures
            final(self).wf(),
            r is Err ==> *final(self) == *old(self),
            final(self).sale_map() == old(self).sale_map(),
            match signer(origin) {
                None => {
                    &&& r == Err::<(), DispatchError<Error>>(DispatchError::BadOrigin)
                    &&& final(currency).history() == old(currency).history()
                },
                Some(who) => if old(self).next_id() == u32::MAX {
                    &&& r == Err::<(), DispatchError<Error>>(
                        DispatchError::Module(Error::InvalidKittyId),
                    )
                    &&& final(currency).history() == old(currency).history()
                } else {
                    &&& asked(old(currency).history(), final(currency).history(), CurrencyCall::Reserve(who, old(self).money()))
                    &&& if last_granted(final(currency).history()) {
                        r == Ok::<(), DispatchError<Error>>(())
                            && old(self).is_created_with_dna(
                            *final(self),
                            who,
                            random_dna(seed@, who, extrinsic_index),
                        )
                    } else {
                        r == Err::<(), DispatchError<Error>>(DispatchError::Module(Error::NoEnoughBalance))
                    }
                },
            },
    {
        let who = match ensure_signed(origin) {
            Ok(who) => who,
            Err(e) => return Err(e),
        };
        let kitty_id = match self.get_next_id() {
            Ok(id) => id,
            Err(_) => return Err(DispatchError::Module(Error::InvalidKittyId)),
        };
        let dna = random_value(seed, who, extrinsic_index);
        let kitty = Kitty(dna);
        let reserved = currency.reserve(who, self.money_for_create_kitty);
        assert(currency.history().drop_last() =~= old(currency).history());
        self.finish_create(who, kitty, reserved)
    }

    /// What `create` does once the currency has answered the reservation:
    /// `NoEnoughBalance` if it was refused, else the kitty is stored.
    pub fn finish_create(&mut self, who: AccountId, kitty: Kitty, reserved: Result<(), ()>) -> (r:
        Result<(), DispatchError<Error>>)
        requires
            old(self).wf(),
            old(self).next_id() < u32::MAX,
        ensures
            final(self).wf(),
            reserved is Err ==> r == Err::<(), DispatchError<Error>>(
                DispatchError::Module(Error::NoEnoughBalance),
            ) && *final(self) == *old(self),
            reserved is Ok ==> r == Ok::<(), DispatchError<Error>>(()) && old(self).is_created(
                *final(self),
                who,
                old(self).next_id(),
                kitty,
            ) && final(self).event_log() == old(self).event_log().push(
                Event::KittyCreated(who, old(self).next_id(), kitty),
            ),
    {
        if reserved.is_err() {
            return Err(DispatchError::Module(Error::NoEnoughBalance));
        }
        let kitty_id = self.next_kitty_id;
        let ghost pre = *self;
        proof {
            pre.lemma_room_for_next(who);
        }
        self.created(who, kitty_id, kitty);
        proof {
            Self::lemma_created_keeps_wf(pre, *self, who, kitty_id, kitty);
        }
        Ok(())
    }

    /// Breeds the signer's kitties `kitty_id_1` and `kitty_id_2` into a new
    /// kitty whose DNA mixes theirs under a selector drawn like a fresh DNA,
    /// reserving `money_for_create_kitty` through `currency`.
    pub fn bread<C: Currency>(
        &mut self,
        origin: Origin,
        kitty_id_1: KittyIndex,
        kitty_id_2: KittyIndex,
        seed: &[u8],
        extrinsic_index: Option<u32>,
        currency: &mut C,
    ) -> (r: Result<(), DispatchError<Error>>)
        requires
            old(self).wf(),
        ensures
            final(self).wf(),
            r is Err ==> *final(self) == *old(self),
            final(self).sale_map() == old(self).sale_map(),
            r is Err && r != Err::<(), DispatchError<Error>>(
                DispatchError::Module(Error::NoEnoughBalance),
            ) ==> final(currency).history() == old(currency).history(),
            match signer(origin) {
                None => r == Err::<(), DispatchError<Error>>(DispatchError::BadOrigin),
                Some(who) => if kitty_id_1 == kitty_id_2 {
                    r == Err::<(), DispatchError<Error>>(DispatchError::Module(Error::SameKittyId))
                } else if !old(self).kitty_map().contains_key(kitty_id_1)
                    || !old(self).kitty_map().contains_key(kitty_id_2) {
                    r == Err::<(), DispatchError<Error>>(DispatchError::Module(Error::InvalidKittyId))
                } else if old(self).owner_of(kitty_id_1) != Some(who) || old(self).owner_of(
                    kitty_id_2,
                ) != Some(who) {
                    r == Err::<(), DispatchError<Error>>(DispatchError::Module(Error::NotOwner))
                } else if old(self).next_id() == u32::MAX {
                    r == Err::<(), DispatchError<Error>>(DispatchError::Module(Error::InvalidKittyId))
                } else {
                    &&& asked(old(currency).history(), final(currency).history(), CurrencyCall::Reserve(who, old(self).money()))
                    &&& if last_granted(final(currency).history()) {
                        r == Ok::<(), DispatchError<Error>>(())
                            && old(self).is_bred_with_dna(
                            *final(self),
                            who,
                            mixed_dna(
                                old(self).kitty_map()[kitty_id_1].0@,
                                old(self).kitty_map()[kitty_id_2].0@,
                                random_dna(seed@, who, extrinsic_index),
                            ),
                        )
                    } else {
                        r == Err::<(), DispatchError<Error>>(DispatchError::Module(Error::NoEnoughBalance))
                    }
                },
            },
    {
        let who = match ensure_signed(origin) {
            Ok(who) => who,
            Err(e) => return Err(e),
        };
        if kitty_id_1 == kitty_id_2 {
            return Err(DispatchError::Module(Error::SameKittyId));
        }
        let kitty_1 = match self.get_kitty(kitty_id_1) {
            Ok(k) => k,
            Err(_) => return Err(DispatchError::Module(Error::InvalidKittyId)),
        };
        let kitty_2 = match self.get_kitty(kitty_id_2) {
            Ok(k) => k,
            Err(_) => return Err(DispatchError::Module(Error::InvalidKittyId)),
        };
        if self.is_owner(who, kitty_id_1).is_err() {
            return Err(DispatchError::Module(Error::NotOwner));
        }
        if self.is_owner(who, kitty_id_2).is_err() {
            return Err(DispatchError::Module(Error::NotOwner));
        }
        let kitty_id = match self.get_next_id() {
            Ok(id) => id,
            Err(_) => return Err(DispatchError::Module(Error::InvalidKittyId)),
        };
        let selector = random_value(seed, who, extrinsic_index);
        let new_kitty = mix_dna(&kitty_1, &kitty_2, &selector);
        let reserved = currency.reserve(who, self.money_for_create_kitty);
        assert(currency.history().drop_last() =~= old(currency).history());
        self.finish_bread(who, new_kitty, reserved)
    }

    /// What `bread` does once the currency has answered the reservation:
    /// `NoEnoughBalance` if it was refused, else `KittyBread` is deposited and
    /// the child is stored.
    pub fn finish_bread(&mut self, who: AccountId, kitty: Kitty, reserved: Result<(), ()>) -> (r:
        Result<(), DispatchError<Error>>)
        requires
            old(self).wf(),
            old(self).next_id() < u32::MAX,
        ensures
            final(self).wf(),
            reserved is Err ==> r == Err::<(), DispatchError<Error>>(
                DispatchError::Module(Error::NoEnoughBalance),
            ) && *final(self) == *old(self),
            reserved is Ok ==> r == Ok::<(), DispatchError<Error>>(()) && old(self).is_created(
                *final(self),
                who,
                old(self).next_id(),
                kitty,
            ) && final(self).event_log() == old(self).event_log().push(
                Event::KittyBread(who, old(self).next_id(), kitty),
            ).push(Event::KittyCreated(who, old(self).next_id(), kitty)),
    {
        if reserved.is_err() {
            return Err(DispatchError::Module(Error::NoEnoughBalance));
        }
        let kitty_id = self.next_kitty_id;
        self.events.push(Event::KittyBread(who, kitty_id, kitty));
        let ghost pre = *self;
        proof {
            pre.lemma_room_for_next(who);
        }
        self.created(who, kitty_id, kitty);
        proof {
            Self::lemma_created_keeps_wf(pre, *self, who, kitty_id, kitty);
        }
        Ok(())
    }

    /// Hands the signer's kitty `kitty_id` to `new_owner`, moving the
    /// kitty's deposit to `new_owner`'s reserved balance through `currency`.
    pub fn transfer<C: Currency>(
        &mut self,
        origin: Origin,
        kitty_id: KittyIndex,
        new_owner: AccountId,
        currency: &mut C,
    ) -> (r: Result<(), DispatchError<Error>>)
        requires
            old(self).wf(),
        ensures
            final(self).wf(),
            r is Err ==> *final(self) == *old(self),
            final(self).sale_map() == old(self).sale_map(),
            r is Err && r != Err::<(), DispatchError<Error>>(
                DispatchError::Module(Error::NoEnoughBalance),
            ) ==> final(currency).history() == old(currency).history(),
            match signer(origin) {
                None => r == Err::<(), DispatchError<Error>>(DispatchError::BadOrigin),
                Some(who) => if !old(self).kitty_map().contains_key(kitty_id) {
                    r == Err::<(), DispatchError<Error>>(DispatchError::Module(Error::InvalidKittyId))
                } else if old(self).owner_of(kitty_id) != Some(who) {
                    r == Err::<(), DispatchError<Error>>(DispatchError::Module(Error::NotOwner))
                } else {
                    &&& asked(old(currency).history(), final(currency).history(), CurrencyCall::Repatriate(who, new_owner, old(self).money()))
                    &&& if last_granted(final(currency).history()) {
                        r == Ok::<(), DispatchError<Error>>(()) && old(self).is_transferred(
                            *final(self),
                            who,
                            new_owner,
                            kitty_id,
                        ) && final(self).sale_map() == old(self).sale_map()
                            && final(self).event_log() == old(self).event_log().push(
                            Event::KittyTransfered(who, new_owner, kitty_id),
                        )
                    } else {
                        r == Err::<(), DispatchError<Error>>(DispatchError::Module(Error::NoEnoughBalance))
                    }
                },
            },
    {
        let who = match ensure_signed(origin) {
            Ok(who) => who,
            Err(e) => return Err(e),
        };
        if self.get_kitty(kitty_id).is_err() {
            return Err(DispatchError::Module(Error::InvalidKittyId));
        }
        if self.is_owner(who, kitty_id).is_err() {
            return Err(DispatchError::Module(Error::NotOwner));
        }
        let repatriated = currency.repatriate_reserved(
            who,
            new_owner,
            self.money_for_create_kitty,
        );
        assert(currency.history().drop_last() =~= old(currency).history());
        self.finish_transfer(who, new_owner, kitty_id, repatriated)
    }

    /// What `transfer` does once the currency has answered: `NoEnoughBalance`
    /// if the deposit could not be moved, else the kitty changes hands.
    pub fn finish_transfer(
        &mut self,
        who: AccountId,
        new_owner: AccountId,
        kitty_id: KittyIndex,
        repatriated: Result<Balance, ()>,
    ) -> (r: Result<(), DispatchError<Error>>)
        requires
            old(self).wf(),
            old(self).owner_of(kitty_id) == Some(who),
        ensures
            final(self).wf(),
            repatriated is Err ==> r == Err::<(), DispatchError<Error>>(
                DispatchError::Module(Error::NoEnoughBalance),
            ) && *final(self) == *old(self),
            repatriated is Ok ==> r == Ok::<(), DispatchError<Error>>(()) && old(
                self,
            ).is_transferred(*final(self), who, new_owner, kitty_id) && final(self).sale_map()
                == old(self).sale_map() && final(self).event_log() == old(self).event_log().push(
                Event::KittyTransfered(who, new_owner, kitty_id),
            ),
    {
        if repatriated.is_err() {
            return Err(DispatchError::Module(Error::NoEnoughBalance));
        }
        self.transferred(who, new_owner, kitty_id);
        Ok(())
    }

    /// Puts the signer's kitty `kitty_id` up for sale at `price`, or takes it
    /// off sale with `None`.
    pub fn sell(&mut self, origin: Origin, kitty_id: KittyIndex, price: Option<Balance>) -> (r:
        Result<(), DispatchError<Error>>)
        requires
            old(self).wf(),
        ensures
            final(self).wf(),
            r is Err ==> *final(self) == *old(self),
            match signer(origin) {
                None => r == Err::<(), DispatchError<Error>>(DispatchError::BadOrigin),
                Some(who) => if old(self).owner_of(kitty_id) != Some(who) {
                    r == Err::<(), DispatchError<Error>>(DispatchError::Module(Error::NotOwner))
                } else {
                    &&& r == Ok::<(), DispatchError<Error>>(())
                    &&& old(self).is_offered(*final(self), who, kitty_id, price)
                },
            },
    {
        let who = match ensure_signed(origin) {
            Ok(who) => who,
            Err(e) => return Err(e),
        };
        if self.is_owner(who, kitty_id).is_err() {
            return Err(DispatchError::Module(Error::NotOwner));
        }
        self.on_sale.insert(kitty_id, price);
        self.events.push(Event::OnSaleEvent(who, kitty_id, price));
        Ok(())
    }

    /// The storage and events after `who` offers kitty `id` at `price`
    /// (`None` withdraws the offer).
    pub open spec fn is_offered(self, post: Self, who: AccountId, id: KittyIndex, price: Option<
        Balance,
    >) -> bool {
        &&& post.sale_map() == self.sale_map().insert(id, price)
        &&& post.next_id() == self.next_id()
        &&& post.kitty_map() == self.kitty_map()
        &&& post.owner_map() == self.owner_map()
        &&& post.list_map() == self.list_map()
        &&& post.money() == self.money()
        &&& post.event_log() == self.event_log().push(Event::OnSaleEvent(who, id, price))
    }

    /// Buys kitty `kitty_id` for the signer at the price it is offered at,
    /// paying its owner through `currency`.
    pub fn buy<C: Currency>(
        &mut self,
        origin: Origin,
        kitty_id: KittyIndex,
        currency: &mut C,
    ) -> (r: Result<(), DispatchError<Error>>)
        requires
            old(self).wf(),
        ensures
            final(self).wf(),
            r is Err ==> *final(self) == *old(self),
            r is Err && r != Err::<(), DispatchError<Error>>(
                DispatchError::Module(Error::NoEnoughBalance),
            ) ==> final(currency).history() == old(currency).history(),
            match signer(origin) {
                None => r == Err::<(), DispatchError<Error>>(DispatchError::BadOrigin),
                Some(who) => match old(self).owner_of(kitty_id) {
                    None => r == Err::<(), DispatchError<Error>>(
                        DispatchError::Module(Error::InvalidKittyId),
                    ),
                    Some(owner) => match old(self).price_of(kitty_id) {
                        None => r == Err::<(), DispatchError<Error>>(
                            DispatchError::Module(Error::NotForSale),
                        ),
                        Some(price) => {
                            &&& asked(old(currency).history(), final(currency).history(), CurrencyCall::Transfer(who, owner, price))
                            &&& if last_granted(final(currency).history()) {
                                r == Ok::<(), DispatchError<Error>>(())
                                    && old(self).is_bought(*final(self), owner, who, kitty_id, price)
                            } else {
                                r == Err::<(), DispatchError<Error>>(DispatchError::Module(Error::NoEnoughBalance))
                            }
                        },
                    },
                },
            },
    {
        let who = match ensure_signed(origin) {
            Ok(who) => who,
            Err(e) => return Err(e),
        };
        let owner = match self.get_owner(kitty_id) {
            Ok(o) => o,
            Err(_) => return Err(DispatchError::Module(Error::InvalidKittyId)),
        };
        let price = match self.get_price(kitty_id) {
            Ok(p) => p,
            Err(_) => return Err(DispatchError::Module(Error::NotForSale)),
        };
        let paid = currency.transfer(who, owner, price);
        assert(currency.history().drop_last() =~= old(currency).history());
        self.finish_buy(who, kitty_id, paid)
    }

    /// The storage and events after `buyer` buys kitty `id` from `seller` at
    /// `price`: the offer is withdrawn and the kitty changes hands.
    pub open spec fn is_bought(
        self,
        post: Self,
        seller: AccountId,
        buyer: AccountId,
        id: KittyIndex,
        price: Balance,
    ) -> bool {
        &&& self.is_transferred(post, seller, buyer, id)
        &&& post.sale_map() == self.sale_map().remove(id)
        &&& post.event_log() == self.event_log().push(
            Event::KittyTransfered(seller, buyer, id),
        ).push(Event::SoldEvent(seller, buyer, id, price))
    }

    /// What `buy` does once the currency has answered the payment:
    /// `NoEnoughBalance` if it was refused, else the offer is withdrawn, the
    /// kitty changes hands and `SoldEvent` is deposited.
    pub fn finish_buy(&mut self, who: AccountId, kitty_id: KittyIndex, paid: Result<(), ()>) -> (r:
        Result<(), DispatchError<Error>>)
        requires
            old(self).wf(),
            old(self).owner_of(kitty_id) is Some,
            old(self).price_of(kitty_id) is Some,
        ensures
            final(self).wf(),
            paid is Err ==> r == Err::<(), DispatchError<Error>>(
                DispatchError::Module(Error::NoEnoughBalance),
            ) && *final(self) == *old(self),
            paid is Ok ==> r == Ok::<(), DispatchError<Error>>(()) && old(self).is_bought(
                *final(self),
                old(self).owner_of(kitty_id).unwrap(),
                who,
                kitty_id,
                old(self).price_of(kitty_id).unwrap(),
            ),
    {
        if paid.is_err() {
            return Err(DispatchError::Module(Error::NoEnoughBalance));
        }
        let owner = match self.get_owner(kitty_id) {
            Ok(o) => o,
            Err(_) => return Err(DispatchError::Module(Error::InvalidKittyId)),
        };
        let price = match self.get_price(kitty_id) {
            Ok(p) => p,
            Err(_) => return Err(DispatchError::Module(Error::NotForSale)),
        };
        self.on_sale.remove(&kitty_id);
        self.transferred(owner, who, kitty_id);
        self.events.push(Event::SoldEvent(owner, who, kitty_id, price));
        Ok(())
    }

    /// `transferred`: hands kitty `id` from `from` to `to`, deposits
    /// `KittyTransfered`, and moves the id from `from`'s list to the end of
    /// `to`'s.
    fn transferred(&mut self, from: AccountId, to: AccountId, id: KittyIndex)
        requires
            old(self).wf(),
            old(self).owner_of(id) == Some(from),
        ensures
            final(self).wf(),
            old(self).is_transferred(*final(self), from, to, id),
            final(self).sale_map() == old(self).sale_map(),
            final(self).event_log() == old(self).event_log().push(
                Event::KittyTransfered(from, to, id),
            ),
    {
        let ghost pre = *self;
        proof {
            pre.lemma_lists_match_owners();
            pre.lemma_list_below_next(from);
        }
        self.kitty_owner.insert(id, to);
        self.events.push(Event::KittyTransfered(from, to, id));

        let taken = self.all_kitties.remove(&from);
        assert(taken is Some);
        let mut old_list = match taken {
            Some(l) => l,
            None => kitty_list_new(),
        };
        let ghost items = pre.list_of(from);
        assert(kitty_list_items(old_list) == items);
        assert(items.contains(id));
        let n = kitty_list_len(&old_list);
        let mut index: usize = 0;
        let mut found = false;
        let mut i: usize = 0;
        while i < n && !found
            invariant
                n == items.len(),
                items == kitty_list_items(old_list),
                i <= n,
                found ==> index < n && items[index as int] == id,
                !found ==> forall|j: int| 0 <= j < i ==> items[j] != id,
            decreases n - i,
        {
            if kitty_list_get(&old_list, i) == id {
                index = i;
                found = true;
            }
            i = i + 1;
        }
        assert(found);
        proof {
            assert(items.no_duplicates());
            assert(items[items.index_of(id)] == id);
            assert(index as int == items.index_of(id));
            lemma_remove_distinct(items, index as int);
        }
        let _removed = kitty_list_remove(&mut old_list, index);
        self.all_kitties.insert(from, old_list);

        let ghost mid = pre.list_map().insert(from, without(items, id));
        assert(self.list_map() =~= mid);
        let taken_new = self.all_kitties.remove(&to);
        let mut new_list = match taken_new {
            Some(l) => l,
            None => kitty_list_new(),
        };
        let ghost to_items = list_in(mid, to);
        assert(kitty_list_items(new_list) == to_items);
        proof {
            // `to`'s list, before `id` joins it, holds distinct kitties other than `id`.
            pre.lemma_list_below_next(to);
            assert(to_items.no_duplicates());
            assert(!to_items.contains(id)) by {
                if to != from {
                    if pre.list_of(to).contains(id) {
                        assert(pre.owner_of(id) == Some(to));
                    }
                }
            }
            assert forall|j: int| 0 <= j < to_items.len() implies #[trigger] to_items[j]
                < pre.next_id() by {
                if to == from {
                    assert(without(items, id).contains(to_items[j]));
                    assert(items.contains(to_items[j]));
                    let q = choose|q: int| 0 <= q < items.len() && items[q] == to_items[j];
                    assert(items[q] < pre.next_id());
                } else {
                    assert(pre.list_of(to)[j] < pre.next_id());
                }
            }
            lemma_push_distinct(to_items, id);
            let pushed_seq = to_items.push(id);
            assert forall|j: int| 0 <= j < pushed_seq.len() implies #[trigger] pushed_seq[j]
                < pre.next_id() by {
                if j < to_items.len() {
                    assert(pushed_seq[j] == to_items[j]);
                } else {
                    assert(pre.kitty_owner@.contains_key(id));
                }
            }
            lemma_distinct_below_len(pushed_seq, pre.next_id());
        }
        let pushed = kitty_list_try_push(&mut new_list, id);
        assert(pushed is Ok);
        self.all_kitties.insert(to, new_list);
        proof {
            assert(self.list_map() =~= mid.insert(to, to_items.push(id)));
            assert forall|a: AccountId, k: KittyIndex|
                #![trigger kitty_list_items(self.all_kitties@[a]).contains(k)]
                self.all_kitties@.contains_key(a) && kitty_list_items(
                    self.all_kitties@[a],
                ).contains(k) implies self.kitty_owner@.contains_key(k) && self.kitty_owner@[k]
                == a by {
                assert(self.list_of(a).contains(k));
                if a == to {
                    if k != id {
                        assert(to_items.contains(k));
                        if to == from {
                            assert(items.contains(k));
                        } else {
                            assert(pre.list_of(to).contains(k));
                        }
                    }
                } else if a == from {
                    assert(without(items, id).contains(k));
                } else {
                    assert(pre.list_of(a).contains(k));
                }
            }
            assert forall|k: KittyIndex| #[trigger]
                self.kitty_owner@.contains_key(k) implies self.all_kitties@.contains_key(
                self.kitty_owner@[k],
            ) && kitty_list_items(self.all_kitties@[self.kitty_owner@[k]]).contains(k) by {
                if k == id {
                    assert(to_items.push(id).contains(id));
                } else {
                    let o = pre.kitty_owner@[k];
                    assert(pre.owner_of(k) == Some(o));
                    assert(pre.list_of(o).contains(k));
                    if o == from {
                        assert(without(items, id).contains(k));
                    }
                    if o == to {
                        assert(list_in(mid, to).contains(k));
                        assert(to_items.push(id).contains(k));
                    }
                    assert(self.list_of(o).contains(k));
                }
            }
            assert forall|a: AccountId| #[trigger]
                self.all_kitties@.contains_key(a) implies kitty_list_items(
                self.all_kitties@[a],
            ).no_duplicates() by {
                assert(pre.list_of(a).no_duplicates());
                assert(self.list_of(a).no_duplicates());
            }
        }
    }

    /// A kitty offered by its owner at `price` and then bought by another
    /// account belongs to the buyer, is no longer on sale, is listed under the
    /// buyer and no longer under the seller, keeps its DNA, and the sale is
    /// recorded at the offered price.
    pub proof fn law_sell_then_buy(
        s0: Self,
        s1: Self,
        s2: Self,
        seller: AccountId,
        buyer: AccountId,
        id: KittyIndex,
        price: Balance,
    )
        requires
            s0.wf(),
            s0.owner_of(id) == Some(seller),
            seller != buyer,
            s0.is_offered(s1, seller, id, Some(price)),
            s1.is_bought(s2, seller, buyer, id, price),
        ensures
            s2.owner_of(id) == Some(buyer),
            s2.price_of(id) is None,
            s2.list_of(buyer).contains(id),
            !s2.list_of(seller).contains(id),
            s2.kitty_map() == s0.kitty_map(),
            s2.event_log().last() == Event::SoldEvent(seller, buyer, id, price),
    {
        s0.lemma_lists_match_owners();
        let items = s1.list_of(seller);
        assert(items == s0.list_of(seller));
        assert(items.contains(id));
        let idx = items.index_of(id);
        lemma_remove_distinct(items, idx);
        let mid = s1.list_map().insert(seller, without(items, id));
        assert(list_in(mid, buyer).push(id).contains(id)) by {
            assert(list_in(mid, buyer).push(id)[list_in(mid, buyer).len() as int] == id);
        }
        assert(s2.list_of(seller) == without(items, id));
    }

    /// Handing a kitty on and straight back leaves every kitty with the owner
    /// it had, and the kitties themselves untouched.
    pub proof fn law_transfer_there_and_back(
        s0: Self,
        s1: Self,
        s2: Self,
        a: AccountId,
        b: AccountId,
        id: KittyIndex,
    )
        requires
            s0.wf(),
            s0.owner_of(id) == Some(a),
            s0.is_transferred(s1, a, b, id),
            s1.is_transferred(s2, b, a, id),
        ensures
            s2.owner_map() == s0.owner_map(),
            s2.kitty_map() == s0.kitty_map(),
            s2.next_id() == s0.next_id(),
    {
        assert(s2.owner_map() =~= s0.owner_map());
    }

    /// How one step may touch `OnSale` without putting kitty `id` back on
    /// sale: it leaves `OnSale` as it was, writes an entry for another kitty
    /// or a withdrawal, or takes an entry out. Every call but an offer of `id`
    /// at a price is such a step, by its contract: `create`, `bread` and
    /// `transfer` keep `OnSale`, `sell` writes its kitty's entry, `buy` takes
    /// its kitty's entry out, and refused calls change nothing.
    pub open spec fn keeps_off_sale(self, post: Self, id: KittyIndex) -> bool {
        ||| post.sale_map() == self.sale_map()
        ||| exists|k: KittyIndex, p: Option<Balance>|
            (k != id || p is None) && #[trigger] self.sale_map().insert(k, p) == post.sale_map()
        ||| exists|k: KittyIndex| #[trigger] self.sale_map().remove(k) == post.sale_map()
    }

    /// Once an offer on kitty `id` is withdrawn (`sell` with `None`) or the
    /// kitty is sold, it stays off sale through any steps that do not offer
    /// it again at a price; so `buy` on it answers `NotForSale` while it has
    /// an owner.
    pub proof fn law_withdrawn_offer_stays_withdrawn(
        pre: Self,
        states: Seq<Self>,
        id: KittyIndex,
        who: AccountId,
        seller: AccountId,
        buyer: AccountId,
        price: Balance,
    )
        requires
            states.len() > 0,
            pre.is_offered(states[0], who, id, None) || pre.is_bought(
                states[0],
                seller,
                buyer,
                id,
                price,
            ),
            forall|i: int|
                0 <= i < states.len() - 1 ==> #[trigger] states[i].keeps_off_sale(
                    states[i + 1],
                    id,
                ),
        ensures
            forall|i: int| 0 <= i < states.len() ==> #[trigger] states[i].price_of(id) is None,
        decreases states.len(),
    {
        if states.len() == 1 {
            if pre.is_offered(states[0], who, id, None) {
                assert(states[0].sale_map().contains_key(id));
            }
        } else {
            let front = states.drop_last();
            assert forall|i: int| 0 <= i < front.len() - 1 implies #[trigger] front[i].keeps_off_sale(
                front[i + 1],
                id,
            ) by {
                assert(front[i] == states[i] && front[i + 1] == states[i + 1]);
                assert(states[i].keeps_off_sale(states[i + 1], id));
            }
            Self::law_withdrawn_offer_stays_withdrawn(pre, front, id, who, seller, buyer, price);
            let n = states.len() - 1;
            let a = states[n - 1];
            let b = states[n];
            assert(front[n - 1] == a);
            assert(a.price_of(id) is None);
            assert(states[n - 1].keeps_off_sale(states[(n - 1) + 1], id));
            assert(a.keeps_off_sale(b, id));
            if b.sale_map() == a.sale_map() {
            } else if exists|k: KittyIndex, p: Option<Balance>|
                (k != id || p is None) && #[trigger] a.sale_map().insert(k, p) == b.sale_map() {
                let (k, p) = choose|k: KittyIndex, p: Option<Balance>|
                    (k != id || p is None) && #[trigger] a.sale_map().insert(k, p)
                        == b.sale_map();
                if k != id {
                    assert(b.sale_map().contains_key(id) == a.sale_map().contains_key(id));
                    if a.sale_map().contains_key(id) {
                        assert(b.sale_map()[id] == a.sale_map()[id]);
                    }
                } else {
                    assert(b.sale_map()[id] == p);
                }
            } else {
                let k = choose|k: KittyIndex| #[trigger] a.sale_map().remove(k) == b.sale_map();
                if k != id {
                    assert(b.sale_map().contains_key(id) == a.sale_map().contains_key(id));
                    if a.sale_map().contains_key(id) {
                        assert(b.sale_map()[id] == a.sale_map()[id]);
                    }
                }
            }
            assert forall|i: int| 0 <= i < states.len() implies #[trigger] states[i].price_of(
                id,
            ) is None by {
                if i < n {
                    assert(front[i] == states[i]);
                }
            }
        }
    }
}

} // verus!
