use fastcan::codec::{extract_bits, mask_for, place_bits, read_word, write_word};
use fastcan::mapper::{decode_message, encode_signal, parse_array};
use fastcan::dbc::DbcError;

const MSG: [u8; 8] = [0x11, 0x22, 0x33, 0x44, 0x55, 0x66, 0x77, 0x88];
const MSG_BE: [u8; 8] = [0x88, 0x77, 0x66, 0x55, 0x44, 0x33, 0x22, 0x11];

#[test]
fn words_of_bytes() {
    assert_eq!(read_word(&MSG, true), 0x8877665544332211);
    assert_eq!(read_word(&MSG, false), 0x1122334455667788);
    assert_eq!(write_word(0x8877665544332211, true), MSG);
    assert_eq!(write_word(0x8877665544332211, false), MSG_BE);
    let long = [1u8, 2, 3, 4, 5, 6, 7, 8, 9, 10];
    assert_eq!(read_word(&long, true), 0x0807060504030201);
    assert_eq!(read_word(&long, false), 0x0102030405060708);
}

#[test]
fn masks_and_fields() {
    assert_eq!(mask_for(0), 0);
    assert_eq!(mask_for(1), 1);
    assert_eq!(mask_for(16), 0xffff);
    assert_eq!(mask_for(63), 0x7fff_ffff_ffff_ffff);
    assert_eq!(mask_for(64), u64::MAX);
    assert_eq!(mask_for(200), u64::MAX);
    assert_eq!(extract_bits(0x8877665544332211, 24, 16), 0x5544);
    assert_eq!(extract_bits(0x8877665544332211, 0, 64), 0x8877665544332211);
    assert_eq!(extract_bits(0x8877665544332211, 60, 16), 0x8);
    assert_eq!(extract_bits(0x8877665544332211, 64, 16), 0);
    assert_eq!(extract_bits(0x8877665544332211, 24, 0), 0);
    assert_eq!(place_bits(0x5544, 24), 0x5544000000);
    assert_eq!(place_bits(0xffff, 56), 0xff00_0000_0000_0000);
    assert_eq!(place_bits(1, 64), 0);
}

#[test]
fn raw_value_of_a_full_message() {
    assert_eq!(parse_array(16, 24, true, &MSG), Some(21828));
    assert_eq!(parse_array(16, 24, false, &MSG_BE), Some(21828));
    assert_eq!(decode_message(16, 24, true, &MSG), Some(21828));
    assert_eq!(decode_message(16, 24, false, &MSG_BE), Some(21828));
}

#[test]
fn raw_value_of_a_short_message() {
    assert_eq!(decode_message(16, 24, true, &MSG[..7]), Some(21828));
    assert_eq!(decode_message(16, 24, false, &MSG_BE[..7]), Some(21828));
    assert_eq!(decode_message(16, 24, true, &MSG[..5]), Some(21828));
    assert_eq!(decode_message(16, 24, true, &MSG[..4]), Some(0x44));
    assert_eq!(decode_message(16, 24, true, &MSG[..1]), Some(0));
    assert_eq!(decode_message(8, 56, false, &MSG[..1]), Some(0x11));
    assert_eq!(decode_message(16, 24, true, &MSG[..0]), None);
    assert_eq!(decode_message(16, 24, false, &MSG_BE[..0]), None);
}

#[test]
fn raw_value_of_a_long_message() {
    let long = [0x11u8, 0x22, 0x33, 0x44, 0x55, 0x66, 0x77, 0x88, 0x99, 0xaa];
    assert_eq!(decode_message(16, 24, true, &long), Some(21828));
    assert_eq!(decode_message(64, 0, false, &long), Some(0x1122334455667788));
}

#[test]
fn byte_order_symmetry() {
    for start in 0..64usize {
        for len in 0..=(64 - start) {
            assert_eq!(
                decode_message(len, start, true, &MSG),
                decode_message(len, start, false, &MSG_BE)
            );
        }
    }
}

#[test]
fn encode_then_decode_is_identity() {
    for start in 0..64usize {
        for len in 1..=(64 - start) {
            let mask = mask_for(len);
            for raw in [0u64, 1, mask / 3, mask >> 1, mask] {
                for le in [true, false] {
                    let bytes = encode_signal(len, start, le, raw).unwrap();
                    assert_eq!(decode_message(len, start, le, &bytes), Some(raw));
                    assert_eq!(parse_array(len, start, le, &bytes), Some(raw));
                }
            }
        }
    }
}

#[test]
fn encoded_bytes() {
    assert_eq!(
        encode_signal(16, 24, true, 21828).unwrap(),
        [0x00, 0x00, 0x00, 0x44, 0x55, 0x00, 0x00, 0x00]
    );
    assert_eq!(
        encode_signal(16, 24, false, 21828).unwrap(),
        [0x00, 0x00, 0x00, 0x55, 0x44, 0x00, 0x00, 0x00]
    );
    assert_eq!(
        encode_signal(16, 41, false, 21748).unwrap(),
        [0x00, 0xa9, 0xe8, 0x00, 0x00, 0x00, 0x00, 0x00]
    );
}

#[test]
fn values_beyond_the_bound_are_refused() {
    assert_eq!(encode_signal(16, 24, true, 65537), Err(DbcError::Overflow(65537)));
    assert_eq!(encode_signal(1, 0, true, 3), Err(DbcError::Overflow(3)));
    assert_eq!(encode_signal(0, 0, true, 2), Err(DbcError::Overflow(2)));
    assert!(encode_signal(16, 24, true, 65535).is_ok());
    // two to the power of the bit count is the last value that passes
    assert_eq!(
        encode_signal(16, 24, true, 65536).unwrap(),
        [0x00, 0x00, 0x00, 0x00, 0x00, 0x01, 0x00, 0x00]
    );
    assert!(encode_signal(64, 0, true, u64::MAX).is_ok());
    assert!(encode_signal(63, 0, false, 1u64 << 63).is_ok());
    assert_eq!(encode_signal(63, 0, false, (1u64 << 63) + 1), Err(DbcError::Overflow((1u64 << 63) +
        1)));
}
