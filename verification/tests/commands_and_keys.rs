use zk_6358_runner::mock_keys::{limbs_to_le_bytes, public_key_coordinate_bytes, reversed};
use zk_6358_runner::object_store::{
    parse_bucket_type, parse_store_operation, BucketType, StoreOperation,
};

#[test]
fn bucket_types_are_parsed_exactly() {
    assert_eq!(parse_bucket_type("local"), Some(BucketType::Local));
    assert_eq!(parse_bucket_type("remote"), Some(BucketType::Remote));
    assert_eq!(parse_bucket_type("Local"), None);
    assert_eq!(parse_bucket_type("local "), None);
    assert_eq!(parse_bucket_type(""), None);
}

#[test]
fn store_operations_are_parsed_exactly() {
    assert_eq!(parse_store_operation("reset"), Some(StoreOperation::Reset));
    assert_eq!(parse_store_operation("resets"), None);
    assert_eq!(parse_store_operation("delete"), None);
}

#[test]
fn limbs_are_encoded_little_endian() {
    let limbs = [0x0807060504030201u64, 0x100f0e0d0c0b0a09u64];
    assert_eq!(limbs_to_le_bytes(&limbs), (1u8..=16).collect::<Vec<u8>>());
    assert_eq!(limbs_to_le_bytes(&[]), Vec::<u8>::new());
    assert_eq!(limbs_to_le_bytes(&[u64::MAX]), vec![0xff; 8]);
}

#[test]
fn limb_encoding_agrees_with_to_le_bytes() {
    let limbs = [0xdead_beef_0123_4567u64, 42, 0, u64::MAX - 7];
    let mut expected = Vec::new();
    for l in limbs.iter() {
        expected.extend_from_slice(&l.to_le_bytes());
    }
    assert_eq!(limbs_to_le_bytes(&limbs), expected);
}

#[test]
fn public_key_x_is_big_endian_and_y_little_endian() {
    let x = [1u64, 2, 3, 0x0a0b0c0d0e0f1011];
    let y = [0xffu64, 0, 0, 1];
    let (xb, yb) = public_key_coordinate_bytes(&x, &y);
    let mut x_le = Vec::new();
    for l in x.iter() {
        x_le.extend_from_slice(&l.to_le_bytes());
    }
    x_le.reverse();
    assert_eq!(xb, x_le);
    assert_eq!(xb[0], 0x0a);
    assert_eq!(xb[31], 1);
    assert_eq!(yb[0], 0xff);
    assert_eq!(yb[24], 1);
    assert_eq!(yb.len(), 32);
    let arr: [u8; 32] = xb.try_into().unwrap();
    assert_eq!(arr[7], 0x11);
}

#[test]
fn reversing_twice_gives_the_bytes_back() {
    let v = vec![1u8, 2, 3, 4, 5];
    assert_eq!(reversed(&v), vec![5, 4, 3, 2, 1]);
    assert_eq!(reversed(&reversed(&v)), v);
    assert_eq!(reversed(&Vec::new()), Vec::<u8>::new());
}
