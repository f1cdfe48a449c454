use rtun::text::decimal_text;
use rtun::wire::{
    read_be128, read_be16, read_be32, read_le16, read_le32, write_be128, write_be32,
};

#[test]
fn big_endian_numbers() {
    assert_eq!(read_be16(0x12, 0x34), 0x1234);
    assert_eq!(read_be32(0xc0, 0x12, 0x00, 0x01), 0xc012_0001);
    assert_eq!(write_be32(0xc012_0001), [0xc0, 0x12, 0x00, 0x01]);
}

#[test]
fn little_endian_numbers() {
    assert_eq!(read_le16(0x34, 0x12), 0x1234);
    assert_eq!(read_le32(0x78, 0x56, 0x34, 0x12), 0x1234_5678);
    assert_eq!(read_le32(0xff, 0xff, 0xff, 0xff), u32::MAX);
}

#[test]
fn sixteen_bytes_read_back() {
    let numbers = [0u128, 1, 256, 0x0102_0304_0506_0708_090a_0b0c_0d0e_0f10, u128::MAX];
    for x in numbers {
        let bytes = write_be128(x);
        assert_eq!(bytes, x.to_be_bytes().to_vec());
        assert_eq!(read_be128(&bytes), x);
    }
}

#[test]
fn decimal_numbers() {
    for n in [0u64, 7, 10, 99, 255, 1086, u64::MAX] {
        assert_eq!(decimal_text(n), format!("{}", n));
    }
}
