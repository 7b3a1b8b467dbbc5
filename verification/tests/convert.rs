use marsbot::utils::convert::{FromVecU8, IntoVecU8};

#[test]
fn test_i32_to_vec_u8() {
    let num: i32 = 12_345_678;
    let expected: Vec<u8> = vec![78, 97, 188, 0];
    let result: Vec<u8> = num.into_vec_u8();
    assert_eq!(result, expected);
}

#[test]
fn test_vec_u8_to_i32() {
    let vec = [78, 97, 188, 0];
    let expected: i32 = 12_345_678;
    let result: i32 = i32::from_vec_u8(&vec);
    assert_eq!(result, expected);
}

#[test]
fn codec_round_trip_values() {
    for v in [0i32, 1, -1, 123_456, -123_456, i32::MAX, i32::MIN] {
        let bytes = v.into_vec_u8();
        assert_eq!(bytes.len(), 4);
        assert_eq!(i32::from_vec_u8(&bytes), v);
    }
}

#[test]
fn codec_is_little_endian() {
    assert_eq!(1i32.into_vec_u8(), vec![1, 0, 0, 0]);
    assert_eq!((-1i32).into_vec_u8(), vec![255, 255, 255, 255]);
    assert_eq!(i32::from_vec_u8(&[0, 0, 0, 128]), i32::MIN);
}
