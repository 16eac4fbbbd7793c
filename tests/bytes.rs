use snowflake::number_bit::{
    bin_big_to_u32, bin_big_to_u64, u32_big_fill_buf, u32_big_to_bin, u64_big_fill_buf,
    u64_big_to_bin,
};
use snowflake::signature::Signature;

#[test]
fn u32_bytes_big_endian() {
    assert_eq!(u32_big_to_bin(0x0102_0304), [1, 2, 3, 4]);
    assert_eq!(u32_big_to_bin(0), [0, 0, 0, 0]);
    assert_eq!(u32_big_to_bin(u32::MAX), [255, 255, 255, 255]);
    let mut buf = [9u8; 4];
    u32_big_fill_buf(0xdead_beef, &mut buf);
    assert_eq!(buf, [0xde, 0xad, 0xbe, 0xef]);
    assert_eq!(bin_big_to_u32(&[0xde, 0xad, 0xbe, 0xef]), 0xdead_beef);
    assert_eq!(bin_big_to_u32(&u32_big_to_bin(123_456_789)), 123_456_789);
}

#[test]
fn u64_bytes_big_endian() {
    assert_eq!(u64_big_to_bin(0x0102_0304_0506_0708), [1, 2, 3, 4, 5, 6, 7, 8]);
    assert_eq!(u64_big_to_bin(u64::MAX), [255; 8]);
    let mut buf = [0u8; 8];
    u64_big_fill_buf(0x8000_0000_0000_00ff, &mut buf);
    assert_eq!(buf, [0x80, 0, 0, 0, 0, 0, 0, 0xff]);
    assert_eq!(bin_big_to_u64(&buf), 0x8000_0000_0000_00ff);
    assert_eq!(bin_big_to_u64(&u64_big_to_bin(987_654_321_012)), 987_654_321_012);
}

#[test]
fn electrum_signature_round_trip() {
    let mut data = [0u8; 65];
    for (i, b) in data.iter_mut().enumerate() {
        *b = i as u8;
    }
    data[64] = 28;
    let sig = Signature::from_electrum(&data);
    assert_eq!(sig.v(), 1);
    assert_eq!(sig.r(), &data[0..32]);
    assert_eq!(sig.s(), &data[32..64]);
    let back = sig.into_electrum();
    assert_eq!(back, data);
}

#[test]
fn invalid_electrum_data_gives_empty_signature() {
    let short = [30u8; 64];
    let sig = Signature::from_electrum(&short);
    assert_eq!(sig.v(), 0);
    assert!(sig.r().iter().all(|b| *b == 0));
    let mut low_v = [1u8; 65];
    low_v[64] = 26;
    let sig = Signature::from_electrum(&low_v);
    assert_eq!(sig.into_electrum(), {
        let mut e = [0u8; 65];
        e[64] = 27;
        e
    });
}
