use rgmii_delay::delay::{convert_from_bits, convert_to_bits, reversed_valid_values, valid_values};
use rgmii_delay::error::Error;
use rgmii_delay::register::{delay_in_word, get_field, set_field, word_with_delay};

/// A delay in nanoseconds, in picoseconds.
fn ps(ns: f32) -> u32 {
    (ns * 1000.0).round() as u32
}

#[test]
fn test_convert_bits() {
    assert_eq!(convert_to_bits(ps(0.0)).unwrap(), 0);
    assert_eq!(convert_to_bits(ps(0.3)).unwrap(), 1);
    assert_eq!(convert_to_bits(ps(0.5)).unwrap(), 2);
    assert_eq!(convert_to_bits(ps(0.75)).unwrap(), 3);
    assert_eq!(convert_to_bits(ps(1.0)).unwrap(), 4);
    assert_eq!(convert_to_bits(ps(1.25)).unwrap(), 5);
    assert_eq!(convert_to_bits(ps(1.5)).unwrap(), 6);
    assert_eq!(convert_to_bits(ps(1.75)).unwrap(), 7);
    assert_eq!(convert_to_bits(ps(2.0)).unwrap(), 8);
    assert_eq!(convert_to_bits(ps(2.25)).unwrap(), 9);
    assert_eq!(convert_to_bits(ps(2.5)).unwrap(), 10);
    assert_eq!(convert_to_bits(ps(2.75)).unwrap(), 11);
    assert_eq!(convert_to_bits(ps(3.0)).unwrap(), 12);
    assert_eq!(convert_to_bits(ps(3.25)).unwrap(), 13);
    assert!(convert_to_bits(ps(1.2)).is_err());
    assert!(convert_to_bits(ps(0.25)).is_err());
}

#[test]
fn encode_rejects_out_of_domain() {
    for bad in [250, 3500, 3251, 100, 301, 299, 1200, u32::MAX] {
        assert_eq!(convert_to_bits(bad), Err(Error::InvalidDelay));
    }
}

#[test]
fn decode_values() {
    assert_eq!(convert_from_bits(0), Ok(0));
    assert_eq!(convert_from_bits(1), Ok(300));
    assert_eq!(convert_from_bits(2), Ok(500));
    assert_eq!(convert_from_bits(12), Ok(3000));
    for bits in 13..=16 {
        assert_eq!(convert_from_bits(bits), Ok(3250));
    }
    assert_eq!(convert_from_bits(17), Err(Error::InvalidDelay));
}

#[test]
fn round_trip() {
    for bits in 0..=13 {
        assert_eq!(convert_to_bits(convert_from_bits(bits).unwrap()), Ok(bits));
    }
    for bits in 14..=16 {
        assert_eq!(convert_to_bits(convert_from_bits(bits).unwrap()), Ok(13));
    }
    for value in valid_values() {
        assert_eq!(convert_from_bits(convert_to_bits(value).unwrap()), Ok(value));
    }
}

#[test]
fn domain_order() {
    let values = valid_values();
    assert_eq!(values, vec![0, 300, 500, 750, 1000, 1250, 1500, 1750, 2000, 2250, 2500, 2750, 3000, 3250]);
    let mut reversed = values.clone();
    reversed.reverse();
    assert_eq!(reversed_valid_values(), reversed);
}

#[test]
fn register_field() {
    let word = 0xDEAD_BEEF;
    assert_eq!(get_field(word, 0), 0xF);
    assert_eq!(get_field(word, 8), 0xE);
    assert_eq!(get_field(word, 28), 0xD);
    assert_eq!(set_field(word, 8, 0x3), 0xDEAD_B3EF);
    assert_eq!(set_field(word, 28, 0x0), 0x0EAD_BEEF);
    assert_eq!(word_with_delay(word, 4, 1250), Ok(0xDEAD_BE5F));
    assert_eq!(word_with_delay(word, 4, 250), Err(Error::InvalidDelay));
    assert_eq!(delay_in_word(0x0000_0D00, 8), Ok(3250));
    assert_eq!(delay_in_word(0x0000_0100, 8), Ok(300));
    assert_eq!(delay_in_word(0x0000_0F00, 8), Ok(3250));
}
