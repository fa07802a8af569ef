use xcavate::weights::{saturating_mul_u64, RuntimeDbWeight, SubstrateWeight, Weight, WeightInfo};

fn db() -> RuntimeDbWeight {
    RuntimeDbWeight { read: 25_000_000, write: 100_000_000 }
}

#[test]
fn benchmarked_weights_of_property_management() {
    let w = SubstrateWeight { db: db() };
    assert_eq!(w.add_letting_agent(), Weight { ref_time: 14_495_000 + 25_000_000 + 100_000_000, proof_size: 3489 });
    assert_eq!(w.letting_agent_deposit(), Weight { ref_time: 32_924_000 + 50_000_000 + 200_000_000, proof_size: 6687 });
    assert_eq!(w.set_letting_agent(), Weight { ref_time: 34_567_000 + 100_000_000 + 200_000_000, proof_size: 6687 });
    assert_eq!(w.distribute_income(), Weight { ref_time: 68_840_000 + 100_000_000 + 200_000_000, proof_size: 6687 });
    assert_eq!(w.withdraw_funds(), Weight { ref_time: 54_633_000 + 50_000_000 + 200_000_000, proof_size: 3593 });
}

#[test]
fn weight_arithmetic_saturates() {
    let a = Weight::from_parts(u64::MAX - 1, 5);
    assert_eq!(a.saturating_add(Weight::from_parts(10, 7)), Weight { ref_time: u64::MAX, proof_size: 12 });
    assert_eq!(Weight::zero(), Weight { ref_time: 0, proof_size: 0 });
    assert_eq!(saturating_mul_u64(u64::MAX, 2), u64::MAX);
    assert_eq!(saturating_mul_u64(7, 6), 42);
    assert_eq!(db().reads_writes(2, 3), Weight { ref_time: 350_000_000, proof_size: 0 });
    assert_eq!(db().reads(4), Weight { ref_time: 100_000_000, proof_size: 0 });
    assert_eq!(db().writes(1), Weight { ref_time: 100_000_000, proof_size: 0 });
}
