use sendprop::stream::{ReadError, Stream};

#[test]
fn bits_come_least_significant_first() {
    let bytes = [0b0000_0101u8];
    let mut stream = Stream::new(&bytes);
    assert_eq!(stream.read_bool(), Ok(true));
    assert_eq!(stream.read_bool(), Ok(false));
    assert_eq!(stream.read_bool(), Ok(true));
    assert_eq!(stream.bits_left(), 5);
}

#[test]
fn read_bool_at_the_end() {
    let bytes: [u8; 0] = [];
    let mut stream = Stream::new(&bytes);
    assert_eq!(stream.read_bool(), Err(ReadError::NotEnoughData { requested: 1, bits_left: 0 }));
}

#[test]
fn read_int_crosses_bytes() {
    let bytes = [0b1011_0101u8, 0b0110_1010];
    let mut stream = Stream::new(&bytes);
    assert_eq!(stream.read_int(3), Ok(0b101));
    assert_eq!(stream.read_int(3), Ok(0b110));
    assert_eq!(stream.read_int(10), Ok(0b01_1010_1010));
    assert_eq!(stream.bits_left(), 0);
}

#[test]
fn read_int_of_no_bits_is_zero() {
    let bytes = [0xffu8];
    let mut stream = Stream::new(&bytes);
    assert_eq!(stream.read_int(0), Ok(0));
    assert_eq!(stream.read_signed_int(0), Ok(0));
    assert_eq!(stream.read_size(0), Ok(0));
    assert_eq!(stream.bits_left(), 8);
}

#[test]
fn read_int_whole_word() {
    let bytes = [0x78u8, 0x56, 0x34, 0x12, 0xff];
    let mut stream = Stream::new(&bytes);
    assert_eq!(stream.read_int(32), Ok(0x1234_5678));
    assert_eq!(stream.bits_left(), 8);
}

#[test]
fn read_int_refuses_more_than_its_width() {
    let bytes = [0u8; 16];
    let mut stream = Stream::new(&bytes);
    assert_eq!(stream.read_int(33), Err(ReadError::TooManyBits { requested: 33, max: 32 }));
    assert_eq!(stream.read_signed_int(40), Err(ReadError::TooManyBits { requested: 40, max: 32 }));
    assert_eq!(
        stream.read_size(200),
        Err(ReadError::TooManyBits { requested: 200, max: usize::BITS as usize })
    );
    assert_eq!(stream.bits_left(), 128);
}

#[test]
fn read_int_width_is_checked_before_the_stream() {
    let bytes = [0u8];
    let mut stream = Stream::new(&bytes);
    assert_eq!(stream.read_int(33), Err(ReadError::TooManyBits { requested: 33, max: 32 }));
}

#[test]
fn read_int_short_stream_leaves_the_cursor() {
    let bytes = [0xffu8];
    let mut stream = Stream::new(&bytes);
    assert_eq!(stream.read_int(3), Ok(7));
    assert_eq!(stream.read_int(6), Err(ReadError::NotEnoughData { requested: 6, bits_left: 5 }));
    assert_eq!(stream.bits_left(), 5);
    assert_eq!(stream.read_int(5), Ok(31));
}

#[test]
fn read_signed_int_extends_the_sign() {
    let bytes = [0b0011_1111u8, 0xff, 0xff, 0xff, 0xff];
    let mut stream = Stream::new(&bytes);
    assert_eq!(stream.read_signed_int(3), Ok(-1));
    assert_eq!(stream.read_signed_int(4), Ok(7));
    assert_eq!(stream.read_signed_int(1), Ok(0));
    assert_eq!(stream.read_signed_int(1), Ok(-1));
    assert_eq!(stream.read_signed_int(31), Ok(-1));
}

#[test]
fn read_signed_int_whole_word() {
    let bytes = [0x00u8, 0x00, 0x00, 0x80];
    let mut stream = Stream::new(&bytes);
    assert_eq!(stream.read_signed_int(32), Ok(i32::MIN));
}

#[test]
fn read_signed_int_ranges() {
    for width in 1..=16usize {
        for pattern in [0u16, 1, 0x5555, 0xaaaa, 0xffff, 0x8000, 0x7fff] {
            let bytes = pattern.to_le_bytes();
            let mut stream = Stream::new(&bytes);
            let number = stream.read_signed_int(width).unwrap() as i64;
            let half = 1i64 << (width - 1);
            assert!(-half <= number && number < half);
            let mut stream = Stream::new(&bytes);
            let unsigned = stream.read_int(width).unwrap() as i64;
            assert!(unsigned < 2 * half);
            assert_eq!((unsigned - number) % (2 * half), 0);
        }
    }
}

#[test]
fn read_string_up_to_the_zero_byte() {
    let bytes = b"health\0rest";
    let mut stream = Stream::new(bytes);
    assert_eq!(stream.read_string(), Ok("health".to_string()));
    assert_eq!(stream.bits_left(), 4 * 8);
}

#[test]
fn read_string_unaligned() {
    let mut bytes = vec![0u8; 5];
    // three bits, then "ab\0"
    let text = [b'a', b'b', 0u8];
    for (index, byte) in text.iter().enumerate() {
        let shifted = (*byte as u16) << 3;
        bytes[index] |= shifted as u8;
        bytes[index + 1] |= (shifted >> 8) as u8;
    }
    let mut stream = Stream::new(&bytes);
    assert_eq!(stream.read_int(3), Ok(0));
    assert_eq!(stream.read_string(), Ok("ab".to_string()));
    assert_eq!(stream.bits_left(), 40 - 3 - 24);
}

#[test]
fn read_string_empty() {
    let bytes = [0u8, b'x'];
    let mut stream = Stream::new(&bytes);
    assert_eq!(stream.read_string(), Ok(String::new()));
    assert_eq!(stream.bits_left(), 8);
}

#[test]
fn read_string_without_zero_byte_is_cut_short() {
    let bytes = b"abc";
    let mut stream = Stream::new(bytes);
    assert_eq!(
        stream.read_string(),
        Err(ReadError::NotEnoughData { requested: 8, bits_left: 0 })
    );
    assert_eq!(stream.bits_left(), 0);
}

#[test]
fn read_string_without_zero_byte_unaligned() {
    let bytes = [0xffu8, 0xff, 0xff];
    let mut stream = Stream::new(&bytes);
    assert_eq!(stream.read_int(5), Ok(31));
    // 19 bits are left: two whole bytes of 0xff, which are no text
    assert_eq!(
        stream.read_string(),
        Err(ReadError::NotEnoughData { requested: 8, bits_left: 3 })
    );
    assert_eq!(stream.bits_left(), 3);
}

#[test]
fn read_string_without_zero_byte_cuts_a_character() {
    // "é" is two bytes; the stream holds it and the first byte of another
    let bytes = [0xc3u8, 0xa9, 0xc3];
    let mut stream = Stream::new(&bytes);
    assert_eq!(
        stream.read_string(),
        Err(ReadError::NotEnoughData { requested: 8, bits_left: 0 })
    );
    assert_eq!(stream.bits_left(), 0);
}

#[test]
fn read_string_not_utf8() {
    let bytes = [0xffu8, 0xfe, 0x00, 0x41];
    let mut stream = Stream::new(&bytes);
    assert_eq!(stream.read_string(), Err(ReadError::Utf8Error { len: 2 }));
    assert_eq!(stream.bits_left(), 8);
}

#[test]
fn read_sized_string_drops_trailing_nuls() {
    let bytes = b"abc\0\0def";
    let mut stream = Stream::new(bytes);
    assert_eq!(stream.read_sized_string(5), Ok("abc".to_string()));
    assert_eq!(stream.bits_left(), 24);
}

#[test]
fn read_sized_string_keeps_inner_nuls() {
    let bytes = b"a\0b\0";
    let mut stream = Stream::new(bytes);
    assert_eq!(stream.read_sized_string(4), Ok("a\0b".to_string()));
}

#[test]
fn read_sized_string_of_no_bytes() {
    let bytes = b"abc";
    let mut stream = Stream::new(bytes);
    assert_eq!(stream.read_sized_string(0), Ok(String::new()));
    assert_eq!(stream.bits_left(), 24);
}

#[test]
fn read_sized_string_short_stream() {
    let bytes = b"abc";
    let mut stream = Stream::new(bytes);
    assert_eq!(
        stream.read_sized_string(4),
        Err(ReadError::NotEnoughData { requested: 32, bits_left: 24 })
    );
    assert_eq!(stream.bits_left(), 24);
}

#[test]
fn read_sized_string_not_utf8_is_skipped() {
    let bytes = [0xffu8, 0xfe, 0x41];
    let mut stream = Stream::new(&bytes);
    assert_eq!(stream.read_sized_string(2), Err(ReadError::Utf8Error { len: 2 }));
    assert_eq!(stream.bits_left(), 8);
}

#[test]
fn skip_bits_moves_the_cursor() {
    let bytes = [0u8, 0xff];
    let mut stream = Stream::new(&bytes);
    assert_eq!(stream.skip_bits(8), Ok(()));
    assert_eq!(stream.read_int(8), Ok(255));
    assert_eq!(stream.skip_bits(1), Err(ReadError::NotEnoughData { requested: 1, bits_left: 0 }));
}

#[test]
fn read_signed_int_of_31_bits() {
    let bytes = 0x7fff_fffeu32.to_le_bytes();
    let mut stream = Stream::new(&bytes);
    assert_eq!(stream.read_signed_int(31), Ok(-2));
    assert_eq!(stream.bits_left(), 1);
    let bytes = 0x4000_0000u32.to_le_bytes();
    let mut stream = Stream::new(&bytes);
    assert_eq!(stream.read_signed_int(31), Ok(-(1 << 30)));
    let bytes = 0xbfff_ffffu32.to_le_bytes();
    let mut stream = Stream::new(&bytes);
    assert_eq!(stream.read_signed_int(31), Ok((1 << 30) - 1));
    let bytes = [0xffu8; 3];
    let mut stream = Stream::new(&bytes);
    assert_eq!(
        stream.read_signed_int(31),
        Err(ReadError::NotEnoughData { requested: 31, bits_left: 24 })
    );
}

#[test]
fn stream_of_fewer_bits_than_its_bytes() {
    let bytes = [0xffu8, 0xff];
    let mut stream = Stream::with_bit_len(&bytes, 11);
    assert_eq!(stream.bits_left(), 11);
    assert_eq!(stream.read_int(8), Ok(255));
    assert_eq!(stream.read_int(4), Err(ReadError::NotEnoughData { requested: 4, bits_left: 3 }));
    assert_eq!(stream.read_int(3), Ok(7));
    assert_eq!(stream.read_bool(), Err(ReadError::NotEnoughData { requested: 1, bits_left: 0 }));
    let empty = Stream::with_bit_len(&bytes, 0);
    assert_eq!(empty.bits_left(), 0);
}

#[test]
fn read_string_stops_at_the_end_of_a_shortened_stream() {
    // the zero byte lies behind the end of the stream
    let bytes = b"ab\0";
    let mut stream = Stream::with_bit_len(bytes, 16);
    assert_eq!(
        stream.read_string(),
        Err(ReadError::NotEnoughData { requested: 8, bits_left: 0 })
    );
    assert_eq!(stream.bits_left(), 0);
    let mut stream = Stream::with_bit_len(bytes, 20);
    assert_eq!(
        stream.read_string(),
        Err(ReadError::NotEnoughData { requested: 8, bits_left: 4 })
    );
    assert_eq!(stream.bits_left(), 4);
    let mut stream = Stream::with_bit_len(bytes, 24);
    assert_eq!(stream.read_string(), Ok("ab".to_string()));
}

#[test]
fn read_sized_string_in_a_shortened_stream() {
    let bytes = b"abcd";
    let mut stream = Stream::with_bit_len(bytes, 30);
    assert_eq!(
        stream.read_sized_string(4),
        Err(ReadError::NotEnoughData { requested: 32, bits_left: 30 })
    );
    assert_eq!(stream.read_sized_string(3), Ok("abc".to_string()));
    assert_eq!(stream.bits_left(), 6);
}

#[test]
fn read_size_reads_a_number() {
    let bytes = [0x34u8, 0x12, 0xff];
    let mut stream = Stream::new(&bytes);
    assert_eq!(stream.read_size(16), Ok(0x1234));
    assert_eq!(stream.read_size(9), Err(ReadError::NotEnoughData { requested: 9, bits_left: 8 }));
    assert_eq!(stream.bits_left(), 8);
}

/// The bit at `index` of `bytes`, each byte from its least significant bit up.
fn bit_of(bytes: &[u8], index: usize) -> u64 {
    u64::from((bytes[index / 8] >> (index % 8)) & 1)
}

/// The number that `count` bits from `from` on spell, first bit least
/// significant.
fn field_of(bytes: &[u8], from: usize, count: usize) -> u64 {
    (0..count).map(|place| bit_of(bytes, from + place) << place).sum()
}

#[test]
fn reads_agree_with_the_bits_of_the_bytes() {
    let mut bytes = Vec::new();
    let mut state = 0x2545_f491_4f6c_dd1du64;
    for _ in 0..64 {
        state ^= state << 13;
        state ^= state >> 7;
        state ^= state << 17;
        bytes.push((state >> 24) as u8);
    }
    for first in 0..=32usize {
        let mut stream = Stream::new(&bytes);
        let mut position = 0;
        let mut count = first;
        while position + count <= bytes.len() * 8 {
            let expected = field_of(&bytes, position, count);
            match (position / 3 + count) % 4 {
                0 => assert_eq!(stream.read_int(count), Ok(expected as u32)),
                1 => {
                    let signed = if count > 0 && expected >> (count - 1) == 1 {
                        expected as i64 - (1i64 << count)
                    } else {
                        expected as i64
                    };
                    assert_eq!(stream.read_signed_int(count), Ok(signed as i32));
                }
                2 => assert_eq!(stream.read_size(count), Ok(expected as usize)),
                _ => {
                    for place in 0..count {
                        assert_eq!(stream.read_bool(), Ok(bit_of(&bytes, position + place) == 1));
                    }
                }
            }
            position += count;
            assert_eq!(stream.bits_left(), bytes.len() * 8 - position);
            count = (count * 7 + 3) % 33;
        }
    }
}

#[test]
fn reads_at_the_end_of_the_stream() {
    let bytes = [0xa5u8];
    let mut stream = Stream::new(&bytes);
    assert_eq!(stream.read_int(8), Ok(0xa5));
    assert_eq!(stream.read_int(0), Ok(0));
    assert_eq!(stream.read_signed_int(0), Ok(0));
    assert_eq!(stream.read_size(0), Ok(0));
    assert_eq!(stream.skip_bits(0), Ok(()));
    assert_eq!(stream.read_sized_string(0), Ok(String::new()));
    assert_eq!(stream.read_int(1), Err(ReadError::NotEnoughData { requested: 1, bits_left: 0 }));
    assert_eq!(
        stream.read_string(),
        Err(ReadError::NotEnoughData { requested: 8, bits_left: 0 })
    );
    assert_eq!(stream.bits_left(), 0);
}

#[test]
fn read_string_without_zero_byte_and_not_utf8() {
    let bytes = [0xffu8, 0xfe];
    let mut stream = Stream::new(&bytes);
    assert_eq!(
        stream.read_string(),
        Err(ReadError::NotEnoughData { requested: 8, bits_left: 0 })
    );
    assert_eq!(stream.bits_left(), 0);
}

#[test]
fn sized_strings_agree_with_the_bits_of_the_bytes() {
    let text = "zig-zag \u{e9}\u{4e16}\u{1f600} end";
    for shift in 0..8usize {
        let mut bytes = vec![0u8; text.len() + 2];
        for (index, byte) in text.bytes().enumerate() {
            let shifted = u16::from(byte) << shift;
            bytes[index] |= shifted as u8;
            bytes[index + 1] |= (shifted >> 8) as u8;
        }
        let mut stream = Stream::new(&bytes);
        assert_eq!(stream.skip_bits(shift), Ok(()));
        assert_eq!(stream.read_sized_string(text.len()), Ok(text.to_string()));
        assert_eq!(stream.bits_left(), bytes.len() * 8 - shift - text.len() * 8);
        let mut stream = Stream::new(&bytes);
        assert_eq!(stream.skip_bits(shift), Ok(()));
        assert_eq!(stream.read_string(), Ok(text.to_string()));
        assert_eq!(stream.bits_left(), bytes.len() * 8 - shift - (text.len() + 1) * 8);
    }
}
