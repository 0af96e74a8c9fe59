use horizon_sync::crypto::BlindingFactor;
use horizon_sync::crypto::Commitment;
use horizon_sync::crypto::CommitmentFactory;
use horizon_sync::proof_of_work::get_median_timestamp;
use horizon_sync::proof_of_work::sort_timestamps;

/// The little-endian encoding of the group order.
fn group_order_bytes() -> [u8; 32] {
    [
        0xed, 0xd3, 0xf5, 0x5c, 0x1a, 0x63, 0x12, 0x58, 0xd6, 0x9c, 0xf7, 0xa2, 0xde, 0xf9, 0xde, 0x14, 0x00, 0x00,
        0x00, 0x00, 0x00, 0x00, 0x00, 0x00, 0x00, 0x00, 0x00, 0x00, 0x00, 0x00, 0x00, 0x10,
    ]
}

#[test]
fn scalar_from_u64_is_little_endian() {
    let k = BlindingFactor::from_u64(0x0102_0304_0506_0708);
    let mut expected = [0u8; 32];
    expected[..8].copy_from_slice(&[8, 7, 6, 5, 4, 3, 2, 1]);
    assert_eq!(k.as_bytes(), expected);
}

#[test]
fn default_scalar_is_zero() {
    assert_eq!(BlindingFactor::default().as_bytes(), [0u8; 32]);
    assert_eq!(BlindingFactor::default().as_bytes(), BlindingFactor::from_u64(0).as_bytes());
}

#[test]
fn scalar_from_bytes_accepts_canonical_encodings_only() {
    let order = group_order_bytes();
    assert!(BlindingFactor::from_bytes(order).is_none());
    let mut below = order;
    below[0] -= 1;
    let largest = BlindingFactor::from_bytes(below).expect("the order less one is canonical");
    assert_eq!(largest.as_bytes(), below);
    assert!(BlindingFactor::from_bytes([0xff; 32]).is_none());
    assert!(BlindingFactor::from_bytes([0u8; 32]).is_some());
}

#[test]
fn scalar_addition_is_modulo_the_group_order() {
    let sum = BlindingFactor::from_u64(3).add(&BlindingFactor::from_u64(5));
    assert_eq!(sum.as_bytes(), BlindingFactor::from_u64(8).as_bytes());

    let mut below = group_order_bytes();
    below[0] -= 1;
    let largest = BlindingFactor::from_bytes(below).unwrap();
    let wrapped = largest.add(&BlindingFactor::from_u64(1));
    assert_eq!(wrapped.as_bytes(), [0u8; 32]);
    let wrapped = largest.add(&BlindingFactor::from_u64(3));
    assert_eq!(wrapped.as_bytes(), BlindingFactor::from_u64(2).as_bytes());
}

#[test]
fn commitment_depends_on_both_scalars() {
    let factory = CommitmentFactory::default();
    let k = BlindingFactor::from_u64(7);
    let v = BlindingFactor::from_u64(11);
    let c = factory.commit(&k, &v);
    assert_ne!(c.as_bytes(), k.as_bytes());
    assert_ne!(c.as_bytes(), v.as_bytes());
    assert!(c.equals(&factory.commit(&k, &v)));
    assert!(!c.equals(&factory.commit(&v, &k)));
    assert!(!c.equals(&factory.commit(&k, &BlindingFactor::from_u64(12))));
}

#[test]
fn commit_value_commits_to_the_scalar_of_the_value() {
    let factory = CommitmentFactory::default();
    let k = BlindingFactor::from_u64(9);
    let by_value = factory.commit_value(&k, 1000);
    let by_scalar = factory.commit(&k, &BlindingFactor::from_u64(1000));
    assert!(by_value.equals(&by_scalar));
    assert!(!by_value.equals(&factory.commit_value(&k, 1001)));
}

#[test]
fn commitments_are_homomorphic() {
    let factory = CommitmentFactory::default();
    let c1 = factory.commit(&BlindingFactor::from_u64(3), &BlindingFactor::from_u64(400));
    let c2 = factory.commit(&BlindingFactor::from_u64(5), &BlindingFactor::from_u64(600));
    let both = factory.commit(&BlindingFactor::from_u64(8), &BlindingFactor::from_u64(1000));
    assert!(c1.add(&c2).equals(&both));
    assert!(!c1.add(&c2).equals(&c1));
    assert!(!c1.add(&c2).equals(&c2));
}

#[test]
fn sum_of_commitments_adds_them_all() {
    let factory = CommitmentFactory::default();
    let c1 = factory.commit(&BlindingFactor::from_u64(1), &BlindingFactor::from_u64(10));
    let c2 = factory.commit(&BlindingFactor::from_u64(2), &BlindingFactor::from_u64(20));
    let c3 = factory.commit(&BlindingFactor::from_u64(3), &BlindingFactor::from_u64(30));
    let total = Commitment::sum(&vec![c1, c2, c3]);
    assert!(total.equals(&c1.add(&c2).add(&c3)));
    assert!(total.equals(&factory.commit(&BlindingFactor::from_u64(6), &BlindingFactor::from_u64(60))));
    assert!(Commitment::sum(&vec![c1]).equals(&c1));
}

#[test]
fn sum_of_no_commitments_is_the_identity() {
    let factory = CommitmentFactory::default();
    let none = Commitment::sum(&Vec::new());
    assert_eq!(none.as_bytes(), [0u8; 32]);
    let zero = factory.commit(&BlindingFactor::default(), &BlindingFactor::default());
    assert!(none.equals(&zero));
    let c = factory.commit(&BlindingFactor::from_u64(4), &BlindingFactor::from_u64(2));
    assert!(c.add(&none).equals(&c));
}

#[test]
fn commitment_from_bytes_accepts_group_elements_only() {
    let factory = CommitmentFactory::default();
    let c = factory.commit(&BlindingFactor::from_u64(4), &BlindingFactor::from_u64(2));
    let decoded = Commitment::from_bytes(c.as_bytes()).expect("an encoding of a commitment decodes");
    assert!(decoded.equals(&c));
    assert!(Commitment::from_bytes([0u8; 32]).is_some());
    assert!(Commitment::from_bytes([0xff; 32]).is_none());
    let mut odd = [0u8; 32];
    odd[0] = 1;
    assert!(Commitment::from_bytes(odd).is_none());
}

#[test]
fn median_of_an_odd_count_is_the_middle() {
    assert_eq!(get_median_timestamp(vec![50, 10, 40, 20, 30]), Some(30));
    assert_eq!(get_median_timestamp(vec![7]), Some(7));
    assert_eq!(get_median_timestamp(vec![3, 3, 1]), Some(3));
}

#[test]
fn median_of_an_even_count_is_the_lower_middle() {
    assert_eq!(get_median_timestamp(vec![40, 10, 30, 20]), Some(20));
    assert_eq!(get_median_timestamp(vec![5, 9]), Some(5));
    assert_eq!(get_median_timestamp(vec![u64::MAX, u64::MAX]), Some(u64::MAX));
}

#[test]
fn median_of_nothing_is_none() {
    assert_eq!(get_median_timestamp(Vec::new()), None);
}

#[test]
fn timestamps_sort_ascending() {
    assert_eq!(sort_timestamps(&vec![3, 1, 2, 1, 0, u64::MAX]), vec![0, 1, 1, 2, 3, u64::MAX]);
    assert_eq!(sort_timestamps(&Vec::new()), Vec::<u64>::new());
}
