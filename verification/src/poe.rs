//! The proof-of-existence pallet: an account claims a piece of data (a byte
//! string) and becomes its owner, recorded with the block in which it
//! claimed; the owner may revoke the claim or hand it to another account.
use vstd::prelude::*;

use crate::runtime::{ensure_signed, signer, AccountId, BlockNumber, DispatchError, Origin};

verus! {

/// Who holds a claim, and since which block.
#[derive(Clone, Copy, PartialEq, Eq, Debug, Structural)]
pub struct Proof {
    pub owner: AccountId,
    pub block: BlockNumber,
}

/// The events this pallet deposits.
#[derive(PartialEq, Eq, Debug)]
pub enum Event {
    /// An account claimed some data.
    ClaimCreated(AccountId, Vec<u8>),
    /// The owner revoked its claim.
    ClaimRevoked(AccountId, Vec<u8>),
    /// The owner handed its claim to another account: owner, receiver, data.
    ClaimTransfered(AccountId, AccountId, Vec<u8>),
}

/// Why this pallet refuses a call.
#[derive(Clone, Copy, PartialEq, Eq, Debug, Structural)]
pub enum Error {
    ProofAlreadyExist,
    ClaimNotExist,
    NotClaimOwner,
    ClaimTooLarge,
}

/// One entry of `Proofs`.
struct ProofEntry {
    claim: Vec<u8>,
    proof: Proof,
}

/// The map that a list of entries stands for; a later entry wins over an
/// earlier one with the same claim.
spec fn entries_map(s: Seq<ProofEntry>) -> Map<Seq<u8>, Proof>
    decreases s.len(),
{
    if s.len() == 0 {
        Map::empty()
    } else {
        entries_map(s.drop_last()).insert(s.last().claim@, s.last().proof)
    }
}

/// No two entries hold the same claim.
spec fn claims_distinct(s: Seq<ProofEntry>) -> bool {
    forall|i: int, j: int|
        0 <= i < s.len() && 0 <= j < s.len() && i != j ==> #[trigger] s[i].claim@ != #[trigger] s[j].claim@
}

/// A claim is in the map exactly when some entry holds it, and with distinct
/// claims the map gives that entry's proof.
proof fn lemma_entries_lookup(s: Seq<ProofEntry>, i: int)
    requires
        claims_distinct(s),
        0 <= i < s.len(),
    ensures
        entries_map(s).contains_key(s[i].claim@),
        entries_map(s)[s[i].claim@] == s[i].proof,
    decreases s.len(),
{
    if i < s.len() - 1 {
        let d = s.drop_last();
        assert(d[i] == s[i]);
        lemma_drop_last_distinct(s);
        lemma_entries_lookup(d, i);
        assert(s[i].claim@ != s[s.len() - 1].claim@);
    }
}

/// A claim that no entry holds is not in the map.
proof fn lemma_entries_absent(s: Seq<ProofEntry>, k: Seq<u8>)
    requires
        forall|i: int| 0 <= i < s.len() ==> #[trigger] s[i].claim@ != k,
    ensures
        !entries_map(s).contains_key(k),
    decreases s.len(),
{
    if s.len() > 0 {
        let d = s.drop_last();
        assert forall|i: int| 0 <= i < d.len() implies #[trigger] d[i].claim@ != k by {
            assert(d[i] == s[i]);
        }
        lemma_entries_absent(d, k);
        assert(s[s.len() - 1].claim@ != k);
    }
}

/// Dropping the last entry keeps claims distinct.
proof fn lemma_drop_last_distinct(s: Seq<ProofEntry>)
    requires
        claims_distinct(s),
        s.len() > 0,
    ensures
        claims_distinct(s.drop_last()),
{
    let d = s.drop_last();
    assert forall|a: int, b: int|
        0 <= a < d.len() && 0 <= b < d.len() && a != b implies #[trigger] d[a].claim@
        != #[trigger] d[b].claim@ by {
        assert(d[a] == s[a] && d[b] == s[b]);
    }
}

/// Replacing the entry at `i` by one with the same claim updates that claim.
proof fn lemma_entries_update(s: Seq<ProofEntry>, i: int, e: ProofEntry)
    requires
        claims_distinct(s),
        0 <= i < s.len(),
        e.claim@ == s[i].claim@,
    ensures
        entries_map(s.update(i, e)) == entries_map(s).insert(e.claim@, e.proof),
    decreases s.len(),
{
    let t = s.update(i, e);
    let d = s.drop_last();
    if i == s.len() - 1 {
        assert(t.drop_last() =~= d);
        assert(entries_map(t) =~= entries_map(s).insert(e.claim@, e.proof));
    } else {
        lemma_drop_last_distinct(s);
        assert(t.drop_last() =~= d.update(i, e));
        lemma_entries_update(d, i, e);
        assert(s.last().claim@ != e.claim@);
        assert(entries_map(t) =~= entries_map(s).insert(e.claim@, e.proof));
    }
}

/// Taking out the entry at `i` takes its claim out of the map.
proof fn lemma_entries_remove(s: Seq<ProofEntry>, i: int)
    requires
        claims_distinct(s),
        0 <= i < s.len(),
    ensures
        entries_map(s.remove(i)) == entries_map(s).remove(s[i].claim@),
        claims_distinct(s.remove(i)),
    decreases s.len(),
{
    let k = s[i].claim@;
    let t = s.remove(i);
    let d = s.drop_last();
    s.remove_ensures(i);
    assert(claims_distinct(t)) by {
        assert forall|a: int, b: int|
            0 <= a < t.len() && 0 <= b < t.len() && a != b implies #[trigger] t[a].claim@
            != #[trigger] t[b].claim@ by {
            let sa = if a < i {
                a
            } else {
                a + 1
            };
            let sb = if b < i {
                b
            } else {
                b + 1
            };
            assert(t[a] == s[sa] && t[b] == s[sb]);
        }
    }
    lemma_drop_last_distinct(s);
    if i == s.len() - 1 {
        assert(t =~= d);
        assert forall|j: int| 0 <= j < d.len() implies #[trigger] d[j].claim@ != k by {
            assert(d[j] == s[j]);
        }
        lemma_entries_absent(d, k);
        assert(entries_map(t) =~= entries_map(s).remove(k));
    } else {
        assert(t.drop_last() =~= d.remove(i));
        assert(t.last() == s.last());
        lemma_entries_remove(d, i);
        assert(d[i] == s[i]);
        assert(s.last().claim@ != k);
        assert(entries_map(t) =~= entries_map(s).remove(k));
    }
}

/// The pallet's storage, with the bound on claims that the runtime sets.
pub struct Pallet {
    proofs: Vec<ProofEntry>,
    max_claim_length: u32,
    events: Vec<Event>,
}

impl Pallet {
    /// `Proofs`: each claimed byte string with its proof.
    pub closed spec fn proof_map(&self) -> Map<Seq<u8>, Proof> {
        entries_map(self.proofs@)
    }

    /// `MaxClaimLength`.
    pub closed spec fn max_len(&self) -> u32 {
        self.max_claim_length
    }

    /// The events deposited so far, oldest first.
    pub closed spec fn event_log(&self) -> Seq<Event> {
        self.events@
    }

    /// The storage is consistent: no claim is stored twice.
    pub closed spec fn wf(&self) -> bool {
        claims_distinct(self.proofs@)
    }

    /// No claims yet; claims longer than `max_claim_length` bytes are refused.
    pub fn new(max_claim_length: u32) -> (r: Self)
        ensures
            r.wf(),
            r.proof_map() == Map::<Seq<u8>, Proof>::empty(),
            r.max_len() == max_claim_length,
            r.event_log() == Seq::<Event>::empty(),
    {
        Pallet { proofs: Vec::new(), max_claim_length, events: Vec::new() }
    }

    /// `MaxClaimLength`.
    pub fn max_claim_length(&self) -> (r: u32)
        ensures
            r == self.max_len(),
    {
        self.max_claim_length
    }

    /// The events deposited so far, oldest first.
    pub fn events(&self) -> (r: &Vec<Event>)
        ensures
            r@ == self.event_log(),
    {
        &self.events
    }

    /// Where `claim` is stored, if it is.
    fn find(&self, claim: &Vec<u8>) -> (r: Option<usize>)
        requires
            self.wf(),
        ensures
            match r {
                Some(i) => i < self.proofs@.len() && self.proofs@[i as int].claim@ == claim@,
                None => forall|i: int|
                    0 <= i < self.proofs@.len() ==> #[trigger] self.proofs@[i].claim@ != claim@,
            },
    {
        let n = self.proofs.len();
        let mut i: usize = 0;
        while i < n
            invariant
                n == self.proofs@.len(),
                i <= n,
                forall|j: int| 0 <= j < i ==> #[trigger] self.proofs@[j].claim@ != claim@,
            decreases n - i,
        {
            if bytes_eq(&self.proofs[i].claim, claim) {
                return Some(i);
            }
            i = i + 1;
        }
        None
    }

    /// `Proofs`: the proof stored for `claim`.
    pub fn proofs(&self, claim: &Vec<u8>) -> (r: Option<Proof>)
        requires
            self.wf(),
        ensures
            r == (if self.proof_map().contains_key(claim@) {
                Some(self.proof_map()[claim@])
            } else {
                None
            }),
    {
        match self.find(claim) {
            Some(i) => {
                proof {
                    lemma_entries_lookup(self.proofs@, i as int);
                }
                Some(self.proofs[i].proof)
            },
            None => {
                proof {
                    lemma_entries_absent(self.proofs@, claim@);
                }
                None
            },
        }
    }

    /// Claims `claim` for the signer, recorded at block `now`. Refused when
    /// the claim is already stored, or when it is longer than
    /// `MaxClaimLength` (its length taken as a `u32`).
    pub fn create_claim(&mut self, origin: Origin, claim: Vec<u8>, now: BlockNumber) -> (r: Result<
        (),
        DispatchError<Error>,
    >)
        requires
            old(self).wf(),
        ensures
            final(self).wf(),
            final(self).max_len() == old(self).max_len(),
            r is Err ==> *final(self) == *old(self),
            match signer(origin) {
                None => r == Err::<(), DispatchError<Error>>(DispatchError::BadOrigin),
                Some(who) => if old(self).proof_map().contains_key(claim@) {
                    r == Err::<(), DispatchError<Error>>(
                        DispatchError::Module(Error::ProofAlreadyExist),
                    )
                } else if old(self).max_len() < (claim@.len() as u32) {
                    r == Err::<(), DispatchError<Error>>(DispatchError::Module(Error::ClaimTooLarge))
                } else {
                    &&& r == Ok::<(), DispatchError<Error>>(())
                    &&& final(self).proof_map() == old(self).proof_map().insert(
                        claim@,
                        Proof { owner: who, block: now },
                    )
                    &&& final(self).event_log().len() == old(self).event_log().len() + 1
                    &&& final(self).event_log().drop_last() == old(self).event_log()
                    &&& final(self).event_log().last() matches Event::ClaimCreated(w, c)
                    &&& w == who && c@ == claim@
                },
            },
    {
        let sender = match ensure_signed(origin) {
            Ok(who) => who,
            Err(e) => return Err(e),
        };
        let found = self.find(&claim);
        if found.is_some() {
            proof {
                lemma_entries_lookup(self.proofs@, found.unwrap() as int);
            }
            return Err(DispatchError::Module(Error::ProofAlreadyExist));
        }
        proof {
            lemma_entries_absent(self.proofs@, claim@);
        }
        if !(self.max_claim_length >= claim.len() as u32) {
            return Err(DispatchError::Module(Error::ClaimTooLarge));
        }
        let ghost pre = self.proofs@;
        let event_claim = copy_bytes(&claim);
        self.proofs.push(ProofEntry { claim, proof: Proof { owner: sender, block: now } });
        proof {
            let s = self.proofs@;
            assert(s.drop_last() =~= pre);
            assert forall|a: int, b: int|
                0 <= a < s.len() && 0 <= b < s.len() && a != b implies #[trigger] s[a].claim@
                != #[trigger] s[b].claim@ by {
                if a < pre.len() && b < pre.len() {
                    assert(s[a] == pre[a] && s[b] == pre[b]);
                } else if a < pre.len() {
                    assert(s[a] == pre[a]);
                } else {
                    assert(s[b] == pre[b]);
                }
            }
        }
        self.events.push(Event::ClaimCreated(sender, event_claim));
        Ok(())
    }

    /// Revokes the signer's claim on `claim`.
    pub fn revoke_claim(&mut self, origin: Origin, claim: Vec<u8>) -> (r: Result<
        (),
        DispatchError<Error>,
    >)
        requires
            old(self).wf(),
        ensures
            final(self).wf(),
            final(self).max_len() == old(self).max_len(),
            r is Err ==> *final(self) == *old(self),
            match signer(origin) {
                None => r == Err::<(), DispatchError<Error>>(DispatchError::BadOrigin),
                Some(who) => if !old(self).proof_map().contains_key(claim@) {
                    r == Err::<(), DispatchError<Error>>(DispatchError::Module(Error::ClaimNotExist))
                } else if old(self).proof_map()[claim@].owner != who {
                    r == Err::<(), DispatchError<Error>>(DispatchError::Module(Error::NotClaimOwner))
                } else {
                    &&& r == Ok::<(), DispatchError<Error>>(())
                    &&& final(self).proof_map() == old(self).proof_map().remove(claim@)
                    &&& final(self).event_log().len() == old(self).event_log().len() + 1
                    &&& final(self).event_log().drop_last() == old(self).event_log()
                    &&& final(self).event_log().last() matches Event::ClaimRevoked(w, c)
                    &&& w == who && c@ == claim@
                },
            },
    {
        let sender = match ensure_signed(origin) {
            Ok(who) => who,
            Err(e) => return Err(e),
        };
        let index = match self.find(&claim) {
            Some(i) => i,
            None => {
                proof {
                    lemma_entries_absent(self.proofs@, claim@);
                }
                return Err(DispatchError::Module(Error::ClaimNotExist));
            },
        };
        proof {
            lemma_entries_lookup(self.proofs@, index as int);
        }
        let owner = self.proofs[index].proof.owner;
        if owner != sender {
            return Err(DispatchError::Module(Error::NotClaimOwner));
        }
        proof {
            lemma_entries_remove(self.proofs@, index as int);
        }
        self.proofs.remove(index);
        self.events.push(Event::ClaimRevoked(sender, claim));
        Ok(())
    }

    /// Hands the signer's claim on `claim` to `receiver`, recorded at block
    /// `now`.
    pub fn transfer_claim(
        &mut self,
        origin: Origin,
        receiver: AccountId,
        claim: Vec<u8>,
        now: BlockNumber,
    ) -> (r: Result<(), DispatchError<Error>>)
        requires
            old(self).wf(),
        ensures
            final(self).wf(),
            final(self).max_len() == old(self).max_len(),
            r is Err ==> *final(self) == *old(self),
            match signer(origin) {
                None => r == Err::<(), DispatchError<Error>>(DispatchError::BadOrigin),
                Some(who) => if !old(self).proof_map().contains_key(claim@) {
                    r == Err::<(), DispatchError<Error>>(DispatchError::Module(Error::ClaimNotExist))
                } else if old(self).proof_map()[claim@].owner != who {
                    r == Err::<(), DispatchError<Error>>(DispatchError::Module(Error::NotClaimOwner))
                } else {
                    &&& r == Ok::<(), DispatchError<Error>>(())
                    &&& final(self).proof_map() == old(self).proof_map().insert(
                        claim@,
                        Proof { owner: receiver, block: now },
                    )
                    &&& final(self).event_log().len() == old(self).event_log().len() + 1
                    &&& final(self).event_log().drop_last() == old(self).event_log()
                    &&& final(self).event_log().last() matches Event::ClaimTransfered(w, to, c)
                    &&& w == who && to == receiver && c@ == claim@
                },
            },
    {
        let sender = match ensure_signed(origin) {
            Ok(who) => who,
            Err(e) => return Err(e),
        };
        let index = match self.find(&claim) {
            Some(i) => i,
            None => {
                proof {
                    lemma_entries_absent(self.proofs@, claim@);
                }
                return Err(DispatchError::Module(Error::ClaimNotExist));
            },
        };
        proof {
            lemma_entries_lookup(self.proofs@, index as int);
        }
        let owner = self.proofs[index].proof.owner;
        if owner != sender {
            return Err(DispatchError::Module(Error::NotClaimOwner));
        }
        let ghost pre = self.proofs@;
        let stored_claim = copy_bytes(&claim);
        let entry = ProofEntry { claim: stored_claim, proof: Proof { owner: receiver, block: now } };
        proof {
            lemma_entries_update(pre, index as int, entry);
        }
        self.proofs[index] = entry;
        proof {
            let s = self.proofs@;
            assert(s =~= pre.update(index as int, entry));
            assert forall|a: int, b: int|
                0 <= a < s.len() && 0 <= b < s.len() && a != b implies #[trigger] s[a].claim@
                != #[trigger] s[b].claim@ by {
                assert(s[a].claim@ == pre[a].claim@);
                assert(s[b].claim@ == pre[b].claim@);
            }
        }
        self.events.push(Event::ClaimTransfered(sender, receiver, claim));
        Ok(())
    }

    /// Revoking a claim right after it was made gives `Proofs` back as it was
    /// before the claim.
    pub proof fn law_create_then_revoke(s0: Self, s1: Self, s2: Self, claim: Seq<u8>, p: Proof)
        requires
            !s0.proof_map().contains_key(claim),
            s1.proof_map() == s0.proof_map().insert(claim, p),
            s2.proof_map() == s1.proof_map().remove(claim),
        ensures
            s2.proof_map() == s0.proof_map(),
    {
        assert(s2.proof_map() =~= s0.proof_map());
    }

    /// Handing a claim on changes the record of that claim only, and a
    /// second hand-over overrides the first.
    pub proof fn law_transfer_twice(
        s0: Self,
        s1: Self,
        s2: Self,
        claim: Seq<u8>,
        p1: Proof,
        p2: Proof,
    )
        requires
            s0.proof_map().contains_key(claim),
            s1.proof_map() == s0.proof_map().insert(claim, p1),
            s2.proof_map() == s1.proof_map().insert(claim, p2),
        ensures
            s2.proof_map() == s0.proof_map().insert(claim, p2),
            s2.proof_map().dom() == s0.proof_map().dom(),
    {
        assert(s2.proof_map() =~= s0.proof_map().insert(claim, p2));
        assert(s2.proof_map().dom() =~= s0.proof_map().dom());
    }
}

/// Whether two byte strings are equal.
fn bytes_eq(a: &Vec<u8>, b: &Vec<u8>) -> (r: bool)
    ensures
        r == (a@ == b@),
{
    if a.len() != b.len() {
        return false;
    }
    let n = a.len();
    let mut i: usize = 0;
    while i < n
        invariant
            n == a@.len(),
            n == b@.len(),
            i <= n,
            forall|j: int| 0 <= j < i ==> a@[j] == b@[j],
        decreases n - i,
    {
        if a[i] != b[i] {
            return false;
        }
        i = i + 1;
    }
    assert(a@ =~= b@);
    true
}

/// A copy of a byte string.
fn copy_bytes(v: &Vec<u8>) -> (r: Vec<u8>)
    ensures
        r@ == v@,
{
    let mut out: Vec<u8> = Vec::new();
    let n = v.len();
    let mut i: usize = 0;
    while i < n
        invariant
            n == v@.len(),
            i <= n,
            out@ == v@.subrange(0, i as int),
        decreases n - i,
    {
        out.push(v[i]);
        i = i + 1;
    }
    assert(out@ =~= v@);
    out
}

} // verus!
