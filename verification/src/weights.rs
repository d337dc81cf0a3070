//! The weight charged for creating a claim in the proof-of-existence pallet:
//! a fixed base cost plus one database read and one database write.
use vstd::prelude::*;

use frame_support::traits::Get;
use frame_support::weights::constants::RocksDbWeight;
use frame_support::weights::RuntimeDbWeight;

verus! {

/// Execution time, in weight units.
pub type Weight = u64;

/// The base cost of creating a claim, in weight units.
pub const CREATE_CLAIM_BASE_WEIGHT: Weight = 54_000_000;

/// The cost of one database read and one database write, as a runtime
/// configures it.
#[derive(Clone, Copy, PartialEq, Eq, Debug, Structural)]
pub struct DbWeight {
    pub read: Weight,
    pub write: Weight,
}

/// `a * b`, or `u64::MAX` where that overflows.
pub open spec fn saturating_mul(a: u64, b: u64) -> u64 {
    if a * b > u64::MAX {
        u64::MAX
    } else {
        (a * b) as u64
    }
}

/// `a + b`, or `u64::MAX` where that overflows.
pub open spec fn saturating_add(a: u64, b: u64) -> u64 {
    if a + b > u64::MAX {
        u64::MAX
    } else {
        (a + b) as u64
    }
}

/// The weight of creating a claim under `db`.
pub open spec fn claim_weight(db: DbWeight) -> Weight {
    saturating_add(
        saturating_add(CREATE_CLAIM_BASE_WEIGHT, saturating_mul(db.read, 1)),
        saturating_mul(db.write, 1),
    )
}

impl DbWeight {
    /// The weight of `r` reads.
    pub fn reads(self, r: u64) -> (w: Weight)
        ensures
            w == saturating_mul(self.read, r),
    {
        match self.read.checked_mul(r) {
            Some(v) => v,
            None => u64::MAX,
        }
    }

    /// The weight of `w` writes.
    pub fn writes(self, w: u64) -> (r: Weight)
        ensures
            r == saturating_mul(self.write, w),
    {
        match self.write.checked_mul(w) {
            Some(v) => v,
            None => u64::MAX,
        }
    }
}

/// The database weights of RocksDB, read through
/// `frame_support::weights::constants::RocksDbWeight::get()`. Claimed: a read
/// costs 25_000_000 and a write 100_000_000, the constants the crate defines.
#[verifier::external_body]
fn rocks_db_weight() -> (r: DbWeight)
    ensures
        r.read == 25_000_000,
        r.write == 100_000_000,
{
    let w: RuntimeDbWeight = RocksDbWeight::get();
    DbWeight { read: w.read, write: w.write }
}

/// The weights of this pallet's calls.
pub trait WeightInfo {
    /// The weight of `create_claim` with claim `s`.
    fn create_claim_benchmark(&self, s: Vec<u8>) -> Weight;
}

/// Weights computed against the runtime's own database weights.
#[derive(Clone, Copy, PartialEq, Eq, Debug, Structural)]
pub struct SubstrateWeight {
    pub db_weight: DbWeight,
}

impl WeightInfo for SubstrateWeight {
    fn create_claim_benchmark(&self, _s: Vec<u8>) -> (w: Weight)
        ensures
            w == claim_weight(self.db_weight),
    {
        CREATE_CLAIM_BASE_WEIGHT.saturating_add(self.db_weight.reads(1)).saturating_add(
            self.db_weight.writes(1),
        )
    }
}

/// Weights computed against RocksDB's database weights.
impl WeightInfo for () {
    fn create_claim_benchmark(&self, _s: Vec<u8>) -> (w: Weight)
        ensures
            w == claim_weight(DbWeight { read: 25_000_000, write: 100_000_000 }),
    {
        let db = rocks_db_weight();
        CREATE_CLAIM_BASE_WEIGHT.saturating_add(db.reads(1)).saturating_add(db.writes(1))
    }
}

/// With RocksDB's weights, creating a claim weighs 179_000_000.
pub proof fn lemma_rocks_db_claim_weight()
    ensures
        claim_weight(DbWeight { read: 25_000_000, write: 100_000_000 }) == 179_000_000,
{
}

} // verus!
