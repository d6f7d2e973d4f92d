use inky::eeprom::{
    Color, DecodeError, DisplayVariant, PascalString, PcbVariant, ProbeStep, StringError,
    TimestampError, WriteTime, EEPROM, INKY_BUS, QUERY, RECORD_LEN, RETRY_DELAY_MILLIS,
    WRITE_TIME_FORMAT,
};

/// The record of a black wHat, as it was read from a device.
fn sample() -> Vec<u8> {
    let mut bytes: Vec<u8> = vec![144, 1, 44, 1, 1, 12, 3, 21];
    bytes.extend_from_slice(b"2020-10-01 15:51:43.3");
    bytes.extend_from_slice(&[255, 255, 255]);
    bytes
}

fn decoded(bytes: &[u8]) -> EEPROM {
    match EEPROM::try_from(bytes) {
        Ok(eeprom) => eeprom,
        Err(error) => panic!("the bytes are no record: {:?}", error),
    }
}

/// A record with a byte of the sample replaced.
fn sample_with(offset: usize, value: u8) -> Vec<u8> {
    let mut bytes = sample();
    bytes[offset] = value;
    bytes
}

#[test]
fn init_eeprom() {
    let mut probe = EEPROM::try_new();
    assert_eq!(probe.start(), ProbeStep::Query);
    let eeprom = match probe.answer(&sample()) {
        ProbeStep::Done(eeprom) => Some(eeprom),
        _ => None,
    };
    _ = eeprom.expect("Failed to initialize eeprom");
}

#[test]
fn sample_record_is_decoded() {
    let eeprom = decoded(&sample());
    assert_eq!(eeprom.width(), 400);
    assert_eq!(eeprom.height(), 300);
    assert_eq!(eeprom.color(), Color::Black);
    assert_eq!(eeprom.pcb_variant(), PcbVariant::V1);
    assert_eq!(eeprom.display_variant(), DisplayVariant::What);
    assert_eq!(eeprom.write_time_string().capacity(), 21);
    assert_eq!(eeprom.write_time_string().data(), b"2020-10-01 15:51:43.".to_vec());
    assert_eq!(eeprom.eeprom_write_time(), Err(TimestampError));
}

#[test]
fn record_with_room_for_its_write_time_is_decoded() {
    let eeprom = decoded(&sample_with(7, 22));
    assert_eq!(eeprom.width(), 400);
    assert_eq!(eeprom.height(), 300);
    assert_eq!(eeprom.write_time_string().capacity(), 22);
    assert_eq!(eeprom.write_time_string().data(), b"2020-10-01 15:51:43.3".to_vec());
    assert_eq!(
        eeprom.eeprom_write_time(),
        Ok(WriteTime {
            year: 2020,
            month: 10,
            day: 1,
            hour: 15,
            minute: 51,
            second: 43,
            nanosecond: 300_000_000,
        })
    );
    let roomy = decoded(&sample_with(7, 200));
    assert_eq!(roomy.write_time_string().capacity(), 200);
    assert_eq!(roomy.write_time_string().data(), b"2020-10-01 15:51:43.3".to_vec());
    assert_eq!(roomy.eeprom_write_time(), eeprom.eeprom_write_time());
}

#[test]
fn record_without_padding_is_decoded() {
    let bytes = sample();
    let eeprom = decoded(&bytes[..RECORD_LEN]);
    assert_eq!(eeprom, decoded(&bytes));
    assert_eq!(eeprom.write_time_string().data().len(), 20);
}

#[test]
fn padding_is_taken_out_wherever_it_stands() {
    let mut bytes: Vec<u8> = vec![144, 1, 44, 1, 2, 12, 17, 255, 4, 255, b'a', b'b', 255, b'c'];
    bytes.resize(40, 255);
    let eeprom = decoded(&bytes);
    assert_eq!(eeprom.color(), Color::Red);
    assert_eq!(eeprom.display_variant(), DisplayVariant::WhatSsd1683);
    assert_eq!(eeprom.write_time_string().capacity(), 4);
    assert_eq!(eeprom.write_time_string().data(), b"abc".to_vec());
}

#[test]
fn width_and_height_are_little_endian() {
    let mut bytes = sample();
    bytes[0] = 0x34;
    bytes[1] = 0x12;
    bytes[2] = 0xff;
    bytes[3] = 0xff;
    let eeprom = decoded(&bytes);
    assert_eq!(eeprom.width(), 0x1234);
    assert_eq!(eeprom.height(), 0xffff);
    let encoded = eeprom.to_bytes();
    assert_eq!(&encoded[..4], &[0x34, 0x12, 0xff, 0xff]);
}

#[test]
fn encoded_record_is_decoded_again() {
    let eeprom = decoded(&sample());
    let encoded = eeprom.to_bytes();
    let mut expected: Vec<u8> = vec![144, 1, 44, 1, 1, 12, 2, 21];
    expected.extend_from_slice(b"2020-10-01 15:51:43.");
    expected.push(255);
    assert_eq!(encoded, expected);
    assert_eq!(EEPROM::try_from(&encoded), Ok(eeprom));
    let eeprom = decoded(&sample_with(7, 22));
    let encoded = eeprom.to_bytes();
    let mut expected: Vec<u8> = vec![144, 1, 44, 1, 1, 12, 2, 22];
    expected.extend_from_slice(b"2020-10-01 15:51:43.3");
    assert_eq!(encoded, expected);
    assert_eq!(EEPROM::try_from(&encoded), Ok(eeprom));
}

#[test]
fn short_record_is_padded_when_encoded() {
    let mut bytes: Vec<u8> = vec![212, 0, 104, 0, 3, 12, 5, 3, b'h', b'i'];
    bytes.resize(RECORD_LEN, 255);
    let eeprom = decoded(&bytes);
    assert_eq!(eeprom.display_variant(), DisplayVariant::Phat);
    let encoded = eeprom.to_bytes();
    assert_eq!(encoded.len(), RECORD_LEN);
    let mut expected: Vec<u8> = vec![212, 0, 104, 0, 3, 12, 1, 3, b'h', b'i'];
    expected.resize(RECORD_LEN, 255);
    assert_eq!(encoded, expected);
    assert_eq!(EEPROM::try_from(&encoded), Ok(eeprom));
}

#[test]
fn every_display_code_round_trips_through_its_family() {
    for code in 0..=255u8 {
        if let Ok(eeprom) = EEPROM::try_from(&sample_with(6, code)) {
            let again = decoded(&eeprom.to_bytes());
            assert_eq!(again, eeprom);
            assert_eq!(again.display_variant(), eeprom.display_variant());
        }
    }
}

#[test]
fn unknown_color_is_rejected() {
    for code in 0..=255u8 {
        let result = EEPROM::try_from(&sample_with(4, code));
        if code == 1 || code == 2 || code == 3 || code == 5 {
            assert!(result.is_ok());
        } else {
            assert_eq!(result, Err(DecodeError::InvalidColor(code)));
        }
    }
}

#[test]
fn unknown_pcb_variant_is_rejected() {
    for code in 0..=255u8 {
        let result = EEPROM::try_from(&sample_with(5, code));
        if code == 12 {
            assert!(result.is_ok());
        } else {
            assert_eq!(result, Err(DecodeError::InvalidPcbVariant(code)));
        }
    }
}

#[test]
fn unknown_display_variant_is_rejected() {
    assert_eq!(
        EEPROM::try_from(&sample_with(6, 0)),
        Err(DecodeError::InvalidDisplayVariant(0))
    );
    assert_eq!(
        EEPROM::try_from(&sample_with(6, 9)),
        Err(DecodeError::InvalidDisplayVariant(9))
    );
    assert_eq!(
        EEPROM::try_from(&sample_with(6, 13)),
        Err(DecodeError::InvalidDisplayVariant(13))
    );
    assert_eq!(
        EEPROM::try_from(&sample_with(6, 21)),
        Err(DecodeError::InvalidDisplayVariant(21))
    );
}

#[test]
fn first_fault_decides() {
    let mut bytes = sample();
    bytes[4] = 0;
    bytes[5] = 0;
    bytes[6] = 0;
    assert_eq!(EEPROM::try_from(&bytes), Err(DecodeError::InvalidColor(0)));
    bytes[4] = 1;
    assert_eq!(EEPROM::try_from(&bytes), Err(DecodeError::InvalidPcbVariant(0)));
    assert_eq!(EEPROM::try_from(&bytes[..28]), Err(DecodeError::TooShort(28)));
}

#[test]
fn short_buffer_is_rejected() {
    assert_eq!(EEPROM::try_from(&[]), Err(DecodeError::TooShort(0)));
    assert_eq!(EEPROM::try_from(&sample()[..7]), Err(DecodeError::TooShort(7)));
    assert_eq!(EEPROM::try_from(&sample()[..28]), Err(DecodeError::TooShort(28)));
    assert!(EEPROM::try_from(&sample()[..29]).is_ok());
}

#[test]
fn record_of_nothing_but_padding_has_a_blank_write_time() {
    let mut bytes: Vec<u8> = vec![144, 1, 44, 1, 1, 12, 3];
    bytes.resize(RECORD_LEN, 255);
    let eeprom = decoded(&bytes);
    assert_eq!(eeprom.width(), 400);
    assert_eq!(eeprom.height(), 300);
    assert_eq!(eeprom.display_variant(), DisplayVariant::What);
    assert_eq!(eeprom.write_time_string().capacity(), 0);
    assert_eq!(eeprom.write_time_string().data(), Vec::<u8>::new());
    assert_eq!(eeprom.eeprom_write_time(), Err(TimestampError));
    let encoded = eeprom.to_bytes();
    let mut expected: Vec<u8> = vec![144, 1, 44, 1, 1, 12, 2, 0];
    expected.resize(RECORD_LEN, 255);
    assert_eq!(encoded, expected);
    assert_eq!(EEPROM::try_from(&encoded), Ok(eeprom));
}

#[test]
fn record_without_capacity_is_decoded_without_write_time() {
    let mut bytes: Vec<u8> = vec![144, 1, 44, 1, 1, 12, 3, 0];
    bytes.resize(RECORD_LEN, 255);
    let eeprom = decoded(&bytes);
    assert_eq!(eeprom.width(), 400);
    assert_eq!(eeprom.height(), 300);
    assert_eq!(eeprom.color(), Color::Black);
    assert_eq!(eeprom.write_time_string().capacity(), 0);
    assert_eq!(eeprom.write_time_string().data(), Vec::<u8>::new());
    assert_eq!(eeprom.eeprom_write_time(), Err(TimestampError));
    assert_eq!(EEPROM::try_from(&eeprom.to_bytes()), Ok(eeprom));
    let mut bytes: Vec<u8> = vec![144, 1, 44, 1, 1, 12, 3, 0];
    bytes.extend_from_slice(b"2020-10-01 15:51:43.3");
    let eeprom = decoded(&bytes);
    assert_eq!(eeprom.write_time_string().capacity(), 0);
    assert_eq!(eeprom.write_time_string().data(), Vec::<u8>::new());
    assert_eq!(eeprom.eeprom_write_time(), Err(TimestampError));
    bytes[7] = 255;
    let eeprom = decoded(&bytes);
    assert_eq!(eeprom.write_time_string().capacity(), b'2');
    assert_eq!(eeprom.write_time_string().data(), b"020-10-01 15:51:43.3".to_vec());
}

#[test]
fn write_time_bytes_never_make_a_record_invalid() {
    for first in 0..=255u8 {
        for second in [0u8, 1, 45, 200, 255] {
            let mut bytes = sample_with(7, first);
            bytes[8] = second;
            bytes[0] = first;
            bytes[1] = second;
            bytes[2] = second;
            bytes[3] = first;
            let eeprom = decoded(&bytes);
            assert_eq!(eeprom.width(), u16::from(first) | (u16::from(second) << 8));
            assert_eq!(eeprom.height(), u16::from(second) | (u16::from(first) << 8));
            let string = eeprom.write_time_string();
            assert!(string.data().len() <= usize::from(string.capacity().saturating_sub(1)));
            assert_eq!(EEPROM::try_from(&eeprom.to_bytes()), Ok(eeprom));
        }
    }
}

#[test]
fn record_is_valid_exactly_when_its_three_codes_are() {
    let displays = [1u8, 2, 3, 4, 5, 6, 7, 8, 10, 11, 12, 14, 15, 16, 17, 18, 19, 20];
    for tail in [0u8, 21, 255] {
        for color in 0..=255u8 {
            for pcb in [0u8, 11, 12, 13, 255] {
                for display in 0..=21u8 {
                    let mut bytes = sample_with(7, tail);
                    bytes[4] = color;
                    bytes[5] = pcb;
                    bytes[6] = display;
                    let valid =
                        [1, 2, 3, 5].contains(&color) && pcb == 12 && displays.contains(&display);
                    assert_eq!(EEPROM::try_from(&bytes).is_ok(), valid);
                }
            }
        }
    }
}

#[test]
fn overlong_write_time_is_cut_to_its_capacity() {
    let mut bytes: Vec<u8> = vec![144, 1, 44, 1, 1, 12, 3, 5];
    bytes.resize(7 + 300, b'x');
    let eeprom = decoded(&bytes);
    assert_eq!(eeprom.write_time_string().capacity(), 5);
    assert_eq!(eeprom.write_time_string().data(), b"xxxx".to_vec());
    bytes[7] = 254;
    let eeprom = decoded(&bytes);
    assert_eq!(eeprom.write_time_string().capacity(), 254);
    assert_eq!(eeprom.write_time_string().data(), vec![b'x'; 253]);
    let encoded = eeprom.to_bytes();
    assert_eq!(encoded.len(), 7 + 254);
    assert_eq!(EEPROM::try_from(&encoded), Ok(eeprom));
}

#[test]
fn enum_bytes_round_trip() {
    for code in [1u8, 2, 3, 5] {
        assert_eq!(Color::try_from(code).map(|color| color.to_u8()), Ok(code));
    }
    assert_eq!(Color::try_from(1), Ok(Color::Black));
    assert_eq!(Color::try_from(2), Ok(Color::Red));
    assert_eq!(Color::try_from(3), Ok(Color::Yellow));
    assert_eq!(Color::try_from(5), Ok(Color::SevenColor));
    assert_eq!(Color::try_from(4), Err(DecodeError::InvalidColor(4)));
    assert_eq!(PcbVariant::try_from(12), Ok(PcbVariant::V1));
    assert_eq!(PcbVariant::V1.to_u8(), 12);
    assert_eq!(PcbVariant::try_from(11), Err(DecodeError::InvalidPcbVariant(11)));
}

#[test]
fn display_codes_map_to_families() {
    let families = [
        (DisplayVariant::Phat, vec![1u8, 4, 5], 1u8),
        (DisplayVariant::PhatSsd1608, vec![10, 11, 12], 10),
        (DisplayVariant::What, vec![2, 3, 6, 7, 8], 2),
        (DisplayVariant::Uc8159_600x448, vec![14], 14),
        (DisplayVariant::Uc8159_640x400, vec![15, 16], 15),
        (DisplayVariant::WhatSsd1683, vec![17, 18, 19], 17),
        (DisplayVariant::Ac073Tc1A, vec![20], 20),
    ];
    let mut known = 0;
    for (family, codes, written) in families {
        for code in codes {
            assert_eq!(DisplayVariant::try_from(code), Ok(family));
            known += 1;
        }
        assert_eq!(family.to_u8(), written);
        assert_eq!(DisplayVariant::try_from(family.to_u8()), Ok(family));
    }
    let accepted = (0..=255u8).filter(|code| DisplayVariant::try_from(*code).is_ok()).count();
    assert_eq!(accepted, known);
    assert_eq!(accepted, 18);
}

#[test]
fn string_data_is_truncated_to_its_capacity() {
    let mut string = PascalString::with_capacity(5);
    assert_eq!(string.capacity(), 5);
    assert_eq!(string.data(), Vec::<u8>::new());
    string.set_data(&[1, 2, 3, 4, 5, 6, 7, 8, 9, 10]);
    assert_eq!(string.data(), vec![1, 2, 3, 4]);
    assert_eq!(string.data().len(), 4);
    assert_eq!(string.capacity(), 5);
    string.set_data(&[7, 8]);
    assert_eq!(string.data(), vec![7, 8]);
}

#[test]
fn string_capacity_counts_the_length_byte() {
    let mut string = PascalString::with_capacity(1);
    string.set_data(&[1, 2, 3]);
    assert_eq!(string.data(), Vec::<u8>::new());
    string.set_capacity(3);
    assert_eq!(string.capacity(), 4);
    string.set_data(&[1, 2, 3, 4, 5]);
    assert_eq!(string.data(), vec![1, 2, 3]);
    string.set_capacity(2);
    assert_eq!(string.capacity(), 3);
    assert_eq!(string.data(), vec![1, 2]);
    string.set_capacity(254);
    assert_eq!(string.capacity(), 255);
    assert_eq!(string.data(), vec![1, 2]);
    assert_eq!(string.to_bytes(), vec![255, 1, 2]);
}

#[test]
fn string_without_capacity_holds_nothing() {
    let mut string = PascalString::with_capacity(0);
    assert_eq!(string.capacity(), 0);
    string.set_data(&[1, 2, 3]);
    assert_eq!(string.data(), Vec::<u8>::new());
    assert_eq!(string.to_bytes(), vec![0]);
    string.set_capacity(0);
    assert_eq!(string.capacity(), 1);
    string.set_data(&[1, 2, 3]);
    assert_eq!(string.data(), Vec::<u8>::new());
}

#[test]
fn string_is_read_from_bytes() {
    assert_eq!(PascalString::try_from(&[]), Err(StringError::Empty));
    let none = PascalString::try_from(&[0]);
    assert_eq!(none.as_ref().map(|string| string.capacity()), Ok(0));
    assert_eq!(none.map(|string| string.data()), Ok(vec![]));
    let none = PascalString::try_from(&[0, 1, 2]);
    assert_eq!(none.as_ref().map(|string| string.capacity()), Ok(0));
    assert_eq!(none.as_ref().map(|string| string.data()), Ok(vec![]));
    assert_eq!(none.map(|string| string.to_bytes()), Ok(vec![0]));
    let one = PascalString::try_from(&[1, 8, 7]);
    assert_eq!(one.as_ref().map(|string| string.capacity()), Ok(1));
    assert_eq!(one.map(|string| string.data()), Ok(vec![]));
    let three = PascalString::try_from(&[3, 8, 7]);
    assert_eq!(three.as_ref().map(|string| string.capacity()), Ok(3));
    assert_eq!(three.as_ref().map(|string| string.data()), Ok(vec![8, 7]));
    assert_eq!(three.map(|string| string.to_bytes()), Ok(vec![3, 8, 7]));
    let roomy = PascalString::try_from(&[9, 8, 7]);
    assert_eq!(roomy.as_ref().map(|string| string.capacity()), Ok(9));
    assert_eq!(roomy.as_ref().map(|string| string.data()), Ok(vec![8, 7]));
    assert_eq!(roomy.map(|string| string.to_bytes()), Ok(vec![9, 8, 7]));
    let alone = PascalString::try_from(&[200]);
    assert_eq!(alone.as_ref().map(|string| string.capacity()), Ok(200));
    assert_eq!(alone.map(|string| string.data()), Ok(vec![]));
}

#[test]
fn string_from_bytes_is_cut_to_its_capacity() {
    let bytes: [u8; 10] = [5, 97, 98, 99, 100, 101, 102, 103, 104, 105];
    let string = PascalString::try_from(&bytes);
    assert_eq!(string.as_ref().map(|string| string.capacity()), Ok(5));
    assert_eq!(string.as_ref().map(|string| string.data()), Ok(vec![97, 98, 99, 100]));
    assert_eq!(string.as_ref().map(|string| string.data().len()), Ok(4));
    assert_eq!(string.map(|string| string.to_bytes()), Ok(vec![5, 97, 98, 99, 100]));
}

#[test]
fn string_from_bytes_is_never_too_long() {
    let mut bytes: Vec<u8> = (0..300).map(|place| (place % 200) as u8).collect();
    bytes[0] = 5;
    let string = PascalString::try_from(&bytes);
    assert_eq!(string.as_ref().map(|string| string.capacity()), Ok(5));
    assert_eq!(string.map(|string| string.data()), Ok(bytes[1..5].to_vec()));
    bytes[0] = 255;
    let string = PascalString::try_from(&bytes);
    assert_eq!(string.as_ref().map(|string| string.capacity()), Ok(255));
    assert_eq!(string.map(|string| string.data()), Ok(bytes[1..255].to_vec()));
}

/// A record whose time of writing is a text.
fn record_written(text: &[u8]) -> EEPROM {
    let mut bytes: Vec<u8> = vec![144, 1, 44, 1, 1, 12, 3, text.len() as u8 + 1];
    bytes.extend_from_slice(text);
    if bytes.len() < RECORD_LEN {
        bytes.resize(RECORD_LEN, 255);
    }
    decoded(&bytes)
}

#[test]
fn write_time_is_read_with_its_fraction() {
    assert_eq!(
        record_written(b"1999-12-31 23:59:59.9").eeprom_write_time(),
        Ok(WriteTime {
            year: 1999,
            month: 12,
            day: 31,
            hour: 23,
            minute: 59,
            second: 59,
            nanosecond: 900_000_000,
        })
    );
    assert_eq!(
        record_written(b"2021-02-03 04:05:06.0").eeprom_write_time(),
        Ok(WriteTime {
            year: 2021,
            month: 2,
            day: 3,
            hour: 4,
            minute: 5,
            second: 6,
            nanosecond: 0,
        })
    );
}

#[test]
fn unreadable_write_time_leaves_the_record_valid() {
    let eeprom = record_written(b"not a date and a time");
    assert_eq!(eeprom.width(), 400);
    assert_eq!(eeprom.eeprom_write_time(), Err(TimestampError));
    assert_eq!(record_written(b"2020-13-01 15:51:43.3").eeprom_write_time(), Err(TimestampError));
    assert_eq!(record_written(b"2020-10-01 25:51:43.3").eeprom_write_time(), Err(TimestampError));
    assert_eq!(record_written(b"2020-10-01").eeprom_write_time(), Err(TimestampError));
    assert_eq!(record_written(b"").eeprom_write_time(), Err(TimestampError));
}

#[test]
fn write_time_that_is_no_text_is_unreadable() {
    let eeprom = record_written(&[0xc3, 0x28, b'2', b'0', b'2', b'0']);
    assert_eq!(eeprom.eeprom_write_time(), Err(TimestampError));
    let eeprom = record_written(b"2020-10-01 15:51:43.3\x80");
    assert_eq!(eeprom.eeprom_write_time(), Err(TimestampError));
}

#[test]
fn parsed_time_becomes_result() {
    let time = WriteTime {
        year: 2020,
        month: 10,
        day: 1,
        hour: 15,
        minute: 51,
        second: 43,
        nanosecond: 300_000_000,
    };
    assert_eq!(WriteTime::from_parsed(Some(time)), Ok(time));
    assert_eq!(WriteTime::from_parsed(None), Err(TimestampError));
}

#[test]
fn probe_asks_again_after_garbage() {
    let mut probe = EEPROM::try_new_tries(3);
    assert_eq!(probe.max_tries(), 3);
    assert_eq!(probe.tries(), 0);
    assert_eq!(probe.start(), ProbeStep::Query);
    assert_eq!(
        probe.answer(&sample()[..10]),
        ProbeStep::Retry(DecodeError::TooShort(10))
    );
    assert_eq!(probe.tries(), 1);
    assert_eq!(
        probe.answer(&sample_with(4, 0)),
        ProbeStep::Retry(DecodeError::InvalidColor(0))
    );
    assert_eq!(probe.tries(), 2);
    assert_eq!(probe.answer(&sample()), ProbeStep::Done(decoded(&sample())));
    assert_eq!(probe.tries(), 3);
}

#[test]
fn probe_gives_up_when_tries_are_used_up() {
    let mut probe = EEPROM::try_new_tries(2);
    assert_eq!(
        probe.answer(&sample_with(5, 1)),
        ProbeStep::Retry(DecodeError::InvalidPcbVariant(1))
    );
    assert_eq!(
        probe.answer(&[]),
        ProbeStep::GiveUp(2, Some(DecodeError::TooShort(0)))
    );
    assert_eq!(probe.start(), ProbeStep::GiveUp(2, None));
    assert_eq!(probe.answer(&sample()), ProbeStep::GiveUp(2, None));
    assert_eq!(probe.tries(), 2);
}

#[test]
fn probe_without_tries_gives_up_at_once() {
    let mut probe = EEPROM::try_new_tries(0);
    assert_eq!(probe.start(), ProbeStep::GiveUp(0, None));
    assert_eq!(probe.answer(&sample()), ProbeStep::GiveUp(0, None));
}

#[test]
fn default_probe_tries_ten_times() {
    let mut probe = EEPROM::try_new();
    assert_eq!(probe.max_tries(), 10);
    assert_eq!(EEPROM::DEFAULT_TRIES, 10);
    for round in 1..10 {
        assert_eq!(probe.answer(&[]), ProbeStep::Retry(DecodeError::TooShort(0)));
        assert_eq!(probe.tries(), round);
    }
    assert_eq!(
        probe.answer(&[]),
        ProbeStep::GiveUp(10, Some(DecodeError::TooShort(0)))
    );
}

#[test]
fn write_time_format_has_date_time_and_fraction() {
    assert_eq!(WRITE_TIME_FORMAT, "%Y-%m-%d %H:%M:%S%.f");
    assert_eq!(
        record_written(b"2020-10-01 15:51:43.25").eeprom_write_time().map(|time| time.nanosecond),
        Ok(250_000_000)
    );
    assert_eq!(record_written(b"01.10.2020 15:51:43").eeprom_write_time(), Err(TimestampError));
    assert_eq!(record_written(b"%Y-%m-%d %H:%M:%S%.f").eeprom_write_time(), Err(TimestampError));
}

#[test]
fn bus_constants() {
    assert_eq!(EEPROM::ADDRESS, 0x50);
    assert_eq!(INKY_BUS, 1);
    assert_eq!(QUERY, [0x00, 0x00]);
    assert_eq!(RECORD_LEN, 29);
    assert_eq!(RETRY_DELAY_MILLIS, 100);
}
