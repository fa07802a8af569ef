use vstd::prelude::*;

verus! {

/// The cost of executing a call: computation time and proof size.
#[derive(Clone, Copy, Debug, PartialEq, Eq, Structural)]
pub struct Weight {
    pub ref_time: u64,
    pub proof_size: u64,
}

/// `a + b`, held at `u64::MAX`.
pub open spec fn sat_add(a: u64, b: u64) -> u64 {
    if a + b > u64::MAX {
        u64::MAX
    } else {
        (a + b) as u64
    }
}

/// `a * b`, held at `u64::MAX`.
pub open spec fn sat_mul(a: u64, b: u64) -> u64 {
    if a * b > u64::MAX {
        u64::MAX
    } else {
        (a * b) as u64
    }
}

/// `a * b`, held at `u64::MAX`.
pub fn saturating_mul_u64(a: u64, b: u64) -> (r: u64)
    ensures
        r == sat_mul(a, b),
{
    match a.checked_mul(b) {
        Some(v) => v,
        None => u64::MAX,
    }
}

/// Two weights added part by part, each part held at `u64::MAX`.
pub open spec fn add_weights(a: Weight, b: Weight) -> Weight {
    Weight {
        ref_time: sat_add(a.ref_time, b.ref_time),
        proof_size: sat_add(a.proof_size, b.proof_size),
    }
}

/// The weight of `r` reads and `n` writes of the database.
pub open spec fn db_reads_writes(db: RuntimeDbWeight, r: u64, n: u64) -> Weight {
    Weight { ref_time: sat_add(sat_mul(db.read, r), sat_mul(db.write, n)), proof_size: 0 }
}

impl Weight {
    /// The weight of the given computation time and proof size.
    pub fn from_parts(ref_time: u64, proof_size: u64) -> (w: Weight)
        ensures
            w == (Weight { ref_time, proof_size }),
    {
        Weight { ref_time, proof_size }
    }

    /// The weight of nothing.
    pub fn zero() -> (w: Weight)
        ensures
            w == (Weight { ref_time: 0, proof_size: 0 }),
    {
        Weight { ref_time: 0, proof_size: 0 }
    }

    /// Adds two weights part by part, each part held at `u64::MAX`.
    pub fn saturating_add(self, other: Weight) -> (w: Weight)
        ensures
            w == add_weights(self, other),
    {
        Weight {
            ref_time: self.ref_time.saturating_add(other.ref_time),
            proof_size: self.proof_size.saturating_add(other.proof_size),
        }
    }
}

/// The computation time of one read and of one write of the database.
#[derive(Clone, Copy, Debug, PartialEq, Eq, Structural)]
pub struct RuntimeDbWeight {
    pub read: u64,
    pub write: u64,
}

impl RuntimeDbWeight {
    /// The weight of `r` reads.
    pub fn reads(self, r: u64) -> (w: Weight)
        ensures
            w == (Weight { ref_time: sat_mul(self.read, r), proof_size: 0 }),
    {
        Weight { ref_time: saturating_mul_u64(self.read, r), proof_size: 0 }
    }

    /// The weight of `w` writes.
    pub fn writes(self, n: u64) -> (w: Weight)
        ensures
            w == (Weight { ref_time: sat_mul(self.write, n), proof_size: 0 }),
    {
        Weight { ref_time: saturating_mul_u64(self.write, n), proof_size: 0 }
    }

    /// The weight of `r` reads and `n` writes.
    pub fn reads_writes(self, r: u64, n: u64) -> (w: Weight)
        ensures
            w == db_reads_writes(self, r, n),
    {
        let rd = saturating_mul_u64(self.read, r);
        let wr = saturating_mul_u64(self.write, n);
        Weight { ref_time: rd.saturating_add(wr), proof_size: 0 }
    }
}

/// The weight of a call of the property management, measured in
/// benchmarks: a base time and proof size, plus the database reads and
/// writes it makes.
pub open spec fn benchmarked(db: RuntimeDbWeight, base: u64, proof: u64, reads: u64, writes: u64) -> Weight {
    Weight {
        ref_time: sat_add(sat_add(base, sat_mul(db.read, reads)), sat_mul(db.write, writes)),
        proof_size: proof,
    }
}

/// The weights of the calls of the property management.
pub trait WeightInfo {
    fn add_letting_agent(&self) -> Weight;

    fn letting_agent_deposit(&self) -> Weight;

    fn set_letting_agent(&self) -> Weight;

    fn distribute_income(&self) -> Weight;

    fn withdraw_funds(&self) -> Weight;
}

/// The benchmarked weights of the property management on a runtime with
/// the given database weights.
#[derive(Clone, Copy, Debug, PartialEq, Eq, Structural)]
pub struct SubstrateWeight {
    pub db: RuntimeDbWeight,
}

impl SubstrateWeight {
    fn measured(&self, base: u64, proof: u64, reads: u64, writes: u64) -> (w: Weight)
        ensures
            w == benchmarked(self.db, base, proof, reads, writes),
    {
        Weight::from_parts(base, 0).saturating_add(Weight::from_parts(0, proof)).saturating_add(
            self.db.reads(reads),
        ).saturating_add(self.db.writes(writes))
    }
}

impl WeightInfo for SubstrateWeight {
    /// One read of the regions, one write of the letting agents.
    fn add_letting_agent(&self) -> (w: Weight)
        ensures
            w == benchmarked(self.db, 14_495_000, 3489, 1, 1),
    {
        self.measured(14_495_000, 3489, 1, 1)
    }

    /// Reads and writes the letting agent and the agents of its location.
    fn letting_agent_deposit(&self) -> (w: Weight)
        ensures
            w == benchmarked(self.db, 32_924_000, 6687, 2, 2),
    {
        self.measured(32_924_000, 6687, 2, 2)
    }

    /// Reads the NFT, the property's agent, the location and the agent;
    /// writes the property's agent and the agent.
    fn set_letting_agent(&self) -> (w: Weight)
        ensures
            w == benchmarked(self.db, 34_567_000, 6687, 4, 2),
    {
        self.measured(34_567_000, 6687, 4, 2)
    }

    /// Reads the payer's account, the owners, their tokens and stored funds;
    /// writes the account and the stored funds.
    fn distribute_income(&self) -> (w: Weight)
        ensures
            w == benchmarked(self.db, 68_840_000, 6687, 4, 2),
    {
        self.measured(68_840_000, 6687, 4, 2)
    }

    /// Reads and writes the stored funds and the owner's account.
    fn withdraw_funds(&self) -> (w: Weight)
        ensures
            w == benchmarked(self.db, 54_633_000, 3593, 2, 2),
    {
        self.measured(54_633_000, 3593, 2, 2)
    }
}

} // verus!
