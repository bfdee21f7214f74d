use power_consistent_hash::PowerConsistentHasher;
use power_consistent_hash::PowerConsistentHasherError;

#[test]
fn test_try_new_fails_iff_less_than_two_buckets() {
    assert!(matches!(
        PowerConsistentHasher::try_new(0),
        Err(PowerConsistentHasherError::NotEnoughBuckets)
    ));
    assert!(matches!(
        PowerConsistentHasher::try_new(1),
        Err(PowerConsistentHasherError::NotEnoughBuckets)
    ));
    assert!(PowerConsistentHasher::try_new(2).is_ok());
    assert!(PowerConsistentHasher::try_new(96).is_ok());
}

#[test]
fn test_try_new_idempotent() {
    let h1 = PowerConsistentHasher::try_new(96).unwrap();
    let h2 = PowerConsistentHasher::try_new(96).unwrap();
    for k in 0_u64..1000 {
        assert_eq!(h1.hash_u64(k), h2.hash_u64(k));
    }
    for k in [u64::MAX, u64::MAX - 1, 1 << 63, 0xDEAD_BEEF_DEAD_BEEF] {
        assert_eq!(h1.hash_u64(k), h2.hash_u64(k));
    }
}

#[test]
fn test_smallest_bucket_count() {
    let h = PowerConsistentHasher::try_new(2).unwrap();
    for k in 0_u64..1000 {
        assert!(h.hash_u64(k) < 2);
    }
    assert!(h.hash_u64(u64::MAX) < 2);
}

#[test]
fn test_largest_bucket_count() {
    let h = PowerConsistentHasher::try_new(0x8000_0000).unwrap();
    for k in [0_u64, 1, 2, 96, 999, u64::MAX, 1 << 63, 0xDEAD_BEEF] {
        assert!(h.hash_u64(k) < 0x8000_0000);
        assert_eq!(h.hash_u64(k), h.hash_u64(k));
    }
}

#[test]
fn test_power_of_two_bucket_count() {
    // m == n here, so the uniform draw always lands below n directly
    let h = PowerConsistentHasher::try_new(64).unwrap();
    for k in 0_u64..1000 {
        assert!(h.hash_u64(k) < 64);
        assert_eq!(h.hash_u64(k), h.hash_u64(k));
    }
}

#[test]
fn test_bucket_always_below_count() {
    for n in [2_u32, 3, 5, 6, 7, 17, 96, 100, 255, 256, 257] {
        let h = PowerConsistentHasher::try_new(n).unwrap();
        for k in 0_u64..200 {
            assert!(h.hash_u64(k.wrapping_mul(0x9E37_79B9_7F4A_7C15)) < n);
        }
    }
}
