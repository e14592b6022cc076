use flightlog::d_record::{DRecord, GpsQualifier};
use flightlog::extension::Extension;
use flightlog::k_record::KRecord;
use flightlog::util::{ParseError, Time};

#[test]
fn drecord_parse() {
    let example_line = "D1ABCD";
    let parsed = DRecord::parse(example_line).unwrap();
    let expected = DRecord {
        qualifier: GpsQualifier::Gps,
        station_id: "ABCD",
    };

    assert_eq!(parsed, expected);
}

#[test]
fn drecord_format() {
    let expected_string = "D1ABCD";
    let record = DRecord {
        qualifier: GpsQualifier::Gps,
        station_id: "ABCD",
    };

    assert_eq!(record.format(), expected_string);
}

#[test]
fn krecord_parse() {
    let sample_string = "K095214FooTheBar";
    let parsed = KRecord::parse(sample_string).unwrap();
    let expected = KRecord {
        time: Time::from_hms(9, 52, 14),
        extension_string: "FooTheBar",
    };

    assert_eq!(parsed, expected);
}

#[test]
fn parse_with_invalid_char_boundary() {
    assert!(KRecord::parse("Kኲበ᧞").is_err());
}

#[test]
fn krecord_format() {
    let expected_string = "K095214FooTheBar";
    let record = KRecord {
        time: Time::from_hms(9, 52, 14),
        extension_string: "FooTheBar",
    };

    assert_eq!(record.format(), expected_string);
}

#[test]
fn krecord_extensions() {
    let record = KRecord {
        time: Time::from_hms(9, 52, 14),
        extension_string: "FooTheBar",
    };
    let ext1 = Extension {
        start_byte: 8,
        end_byte: 10,
        mnemonic: "One",
    };
    let ext2 = Extension {
        start_byte: 11,
        end_byte: 13,
        mnemonic: "Two",
    };
    let ext3 = Extension {
        start_byte: 14,
        end_byte: 16,
        mnemonic: "Th3",
    };

    assert_eq!(record.get_extension(&ext1).unwrap(), "Foo");
    assert_eq!(record.get_extension(&ext2).unwrap(), "The");
    assert_eq!(record.get_extension(&ext3).unwrap(), "Bar");
}

#[test]
fn drecord_parse_dgps() {
    let parsed = DRecord::parse("D2WXYZ").unwrap();
    assert_eq!(parsed.qualifier, GpsQualifier::DGps);
    assert_eq!(parsed.station_id, "WXYZ");
}

#[test]
fn drecord_parse_invalid_qualifier() {
    assert_eq!(DRecord::parse("D9ABCD").unwrap_err(), ParseError::SyntaxError);
}

#[test]
fn drecord_parse_wrong_length() {
    assert_eq!(DRecord::parse("D1ABC").unwrap_err(), ParseError::SyntaxError);
    assert_eq!(DRecord::parse("D1ABCDE").unwrap_err(), ParseError::SyntaxError);
}

#[test]
fn drecord_round_trip() {
    let record = DRecord {
        qualifier: GpsQualifier::DGps,
        station_id: "WXYZ",
    };
    let line = record.format();
    assert_eq!(DRecord::parse(&line).unwrap(), record);
}

#[test]
fn time_parse() {
    let time = Time::parse("095214").unwrap();
    assert_eq!(time, Time::from_hms(9, 52, 14));
}

#[test]
fn time_parse_wrong_length() {
    assert_eq!(Time::parse("09521").unwrap_err(), ParseError::SyntaxError);
    assert_eq!(Time::parse("0952140").unwrap_err(), ParseError::SyntaxError);
    assert_eq!(Time::parse("").unwrap_err(), ParseError::SyntaxError);
}

#[test]
fn time_parse_non_digit() {
    assert_eq!(Time::parse("09x214").unwrap_err(), ParseError::SyntaxError);
    assert_eq!(Time::parse("09521 ").unwrap_err(), ParseError::SyntaxError);
}

#[test]
fn time_parse_out_of_range() {
    assert_eq!(Time::parse("240000").unwrap_err(), ParseError::OutOfRange);
    assert_eq!(Time::parse("236000").unwrap_err(), ParseError::OutOfRange);
    assert_eq!(Time::parse("235960").unwrap_err(), ParseError::OutOfRange);
}

#[test]
fn time_format_zero_padded() {
    assert_eq!(Time::from_hms(0, 0, 0).format(), "000000");
    assert_eq!(Time::from_hms(1, 2, 3).format(), "010203");
    assert_eq!(Time::from_hms(23, 59, 59).format(), "235959");
}

#[test]
fn time_round_trip() {
    let time = Time::from_hms(23, 59, 59);
    assert_eq!(Time::parse(&time.format()).unwrap(), time);
    let time = Time::from_hms(0, 0, 0);
    assert_eq!(Time::parse(&time.format()).unwrap(), time);
}

#[test]
fn krecord_parse_too_short() {
    assert_eq!(KRecord::parse("K095214").unwrap_err(), ParseError::SyntaxError);
    assert_eq!(KRecord::parse("K").unwrap_err(), ParseError::SyntaxError);
}

#[test]
fn krecord_parse_non_ascii() {
    assert_eq!(
        KRecord::parse("Kኲበ᧞FooBar").unwrap_err(),
        ParseError::NonASCIICharacters
    );
    // 10 bytes but only 4 characters: the byte-length gate passes, so the
    // ASCII check reports the multi-byte characters.
    assert_eq!(KRecord::parse("Kኲበ᧞").unwrap_err(), ParseError::NonASCIICharacters);
}

#[test]
fn krecord_parse_bad_time() {
    assert_eq!(KRecord::parse("K09x214Foo").unwrap_err(), ParseError::SyntaxError);
    assert_eq!(KRecord::parse("K245214Foo").unwrap_err(), ParseError::OutOfRange);
}

#[test]
fn krecord_round_trip() {
    let line = "K095214FooTheBar";
    let record = KRecord::parse(line).unwrap();
    assert_eq!(record.format(), line);
}

#[test]
fn krecord_extension_out_of_range() {
    let record = KRecord {
        time: Time::from_hms(9, 52, 14),
        extension_string: "FooTheBar",
    };
    let past_end = Extension {
        start_byte: 14,
        end_byte: 17,
        mnemonic: "Bad",
    };
    assert_eq!(record.get_extension(&past_end).unwrap_err(), ParseError::OutOfRange);
    let into_mandatory = Extension {
        start_byte: 7,
        end_byte: 10,
        mnemonic: "Bad",
    };
    assert_eq!(
        record.get_extension(&into_mandatory).unwrap_err(),
        ParseError::OutOfRange
    );
    let inverted = Extension {
        start_byte: 12,
        end_byte: 9,
        mnemonic: "Bad",
    };
    assert_eq!(record.get_extension(&inverted).unwrap_err(), ParseError::OutOfRange);
}

#[test]
fn drecord_parse_garbage() {
    assert_eq!(DRecord::parse("D").unwrap_err(), ParseError::SyntaxError);
    assert_eq!(DRecord::parse("D\u{0}\u{1}\u{2}\u{3}\u{4}").unwrap_err(), ParseError::SyntaxError);
    let odd = DRecord::parse("D1!@#$").unwrap();
    assert_eq!(odd.station_id, "!@#$");
    assert_eq!(DRecord::parse("D2ABCDEFGHIJKLMNOP").unwrap_err(), ParseError::SyntaxError);
}

#[test]
fn drecord_parse_byte_lengths() {
    // Six bytes in four characters: accepted, the station id is an opaque
    // span and may hold multi-byte characters.
    let parsed = DRecord::parse("D1♞A").unwrap();
    assert_eq!(parsed.station_id, "♞A");
    // Six characters but more than six bytes: wrong length.
    assert_eq!(DRecord::parse("D1AB♞Z").unwrap_err(), ParseError::SyntaxError);
}

#[test]
fn krecord_parse_garbage() {
    assert_eq!(
        KRecord::parse("K\u{0}\u{0}\u{0}\u{0}\u{0}\u{0}\u{0}\u{0}").unwrap_err(),
        ParseError::SyntaxError
    );
    let odd = KRecord::parse("K000000\u{7f}").unwrap();
    assert_eq!(odd.extension_string, "\u{7f}");
    assert_eq!(KRecord::parse("K09521図4Foo").unwrap_err(), ParseError::NonASCIICharacters);
}

#[test]
fn krecord_extension_whole_string() {
    let record = KRecord {
        time: Time::from_hms(9, 52, 14),
        extension_string: "FooTheBar",
    };
    let whole = Extension {
        start_byte: 8,
        end_byte: 16,
        mnemonic: "All",
    };
    assert_eq!(record.get_extension(&whole).unwrap(), "FooTheBar");
}
