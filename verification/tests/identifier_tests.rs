use mqtt5::identifier::PacketIdentifier;

#[test]
fn test_packet_identifier() {
    let mut sequence: PacketIdentifier = Default::default();
    for i in 1..u16::MAX {
        let i1 = sequence.next().unwrap();
        assert_eq!(i, i1, "{} == {}", i, i1);
        sequence.release(i1);
    }
    assert_eq!(65535, sequence.next().unwrap());
    // the counter wraps past 65535; identifier 0 is reserved and skipped
    assert_eq!(1, sequence.next().unwrap());
    assert_eq!(2, sequence.next().unwrap());
    sequence.release(65535);
    sequence.release(1);
    sequence.release(2);
}

#[test]
fn fresh_allocator_counts_up_in_order() {
    let mut pool: PacketIdentifier = Default::default();
    for i in 1..=65534u16 {
        assert_eq!(i, pool.next().unwrap());
    }
}

#[test]
fn exhausted_pool_refuses_and_skips_zero() {
    let mut pool: PacketIdentifier = Default::default();
    for _ in 1..=65535u16 {
        assert!(pool.next().is_some());
    }
    // all 65,535 usable identifiers are held; 0 is never offered
    assert!(pool.next().is_none());
    assert!(pool.next().is_none());
}

#[test]
fn released_identifier_is_allocated_again() {
    let mut pool: PacketIdentifier = Default::default();
    assert_eq!(1, pool.next().unwrap());
    assert_eq!(2, pool.next().unwrap());
    pool.release(3);
    assert_eq!(3, pool.next().unwrap());
    pool.release(2);
    // the counter has moved past 2; the next allocation tries 4
    assert_eq!(4, pool.next().unwrap());
}
