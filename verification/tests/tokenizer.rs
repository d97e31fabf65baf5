use fastcan::dbc::parser::{
    parse_dbc, parse_message_attribute, parse_message_definition, parse_message_description,
    parse_signal_attribute, parse_signal_definition, parse_signal_description,
};
use fastcan::dbc::{
    DbcFrameDefinition, DbcMessageAttribute, DbcMessageDescription, DbcSignalAttribute,
    DbcSignalDefinition, DbcSignalDescription, Decimal, Entry, EntryType,
};
use fastcan::text::{decimal_text, parse_u32, parse_usize, split_lines};
use std::str::FromStr;

fn decimal(text: &str) -> Decimal {
    Decimal::parse(text).unwrap()
}

fn to_float(d: &Decimal) -> f32 {
    d.as_str().parse::<f32>().unwrap()
}

#[test]
fn test_signal_definition() {
    let sig: DbcSignalDefinition = DbcSignalDefinition {
        name: "Engine_Speed".to_string(),
        start_bit: 24,
        bit_len: 16,
        little_endian: true,
        signed: false,
        scale: decimal("0.125"),
        offset: decimal("0"),
        min_value: decimal("0"),
        max_value: decimal("8031.88"),
        units: "rpm".to_string(),
        receiving_node: "Vector__XXX".to_string(),
    };

    let parsed = parse_signal_definition(
        r#" SG_ Engine_Speed : 24|16@1+ (0.125,0) [0|8031.88] "rpm" Vector__XXX"#,
    )
    .unwrap();
    assert_eq!(parsed, sig);
    assert_eq!(to_float(&parsed.scale), 0.125f32);
    assert_eq!(to_float(&parsed.offset), 0.0f32);
    assert_eq!(to_float(&parsed.min_value), 0.0f32);
    assert_eq!(to_float(&parsed.max_value), 8031.88f32);
}

#[test]
fn test_message_definition() {
    let frame: DbcFrameDefinition = DbcFrameDefinition {
        id: 2364539904,
        name: "EEC1".to_string(),
        message_len: 8,
        sending_node: "Vector__XXX".to_string(),
    };

    assert_eq!(
        parse_message_definition(r#"BO_ 2364539904 EEC1 : 8 Vector__XXX"#).unwrap(),
        frame
    );
}

#[test]
fn test_message_description() {
    let description = DbcMessageDescription {
        id: 2364539904,
        description: "Engine Controller".to_string(),
    };

    assert_eq!(
        parse_message_description(r#"CM_ BO_ 2364539904 "Engine Controller";\n"#).unwrap(),
        description
    );
}

#[test]
fn test_message_attribute() {
    let attribute = DbcMessageAttribute {
        name: "SingleFrame".to_string(),
        id: 2364539904,
        value: "0".to_string(),
    };

    assert_eq!(
        parse_message_attribute(r#"BA_ "SingleFrame" BO_ 2364539904 0;"#).unwrap(),
        attribute
    );
}

#[test]
fn test_signal_description() {
    let description = DbcSignalDescription {
        id: 2364539904,
        signal_name: "Engine_Speed".to_string(),
        description: "A description for Engine speed.".to_string(),
    };

    assert_eq!(
        parse_signal_description(
            r#"CM_ SG_ 2364539904 Engine_Speed "A description for Engine speed.";"#
        )
        .unwrap(),
        description
    );
}

#[test]
fn test_signal_attribute() {
    let attribute = DbcSignalAttribute {
        name: "SPN".to_string(),
        id: 2364539904,
        signal_name: "Engine_Speed".to_string(),
        value: "190".to_string(),
    };

    assert_eq!(
        parse_signal_attribute(r#"BA_ "SPN" SG_ 2364539904 Engine_Speed 190;"#).unwrap(),
        attribute
    );
}

#[test]
fn signal_definition_big_endian_signed() {
    let parsed = parse_signal_definition(
        r#" SG_ Torque m3 : 7|12@0- (-0.5,1e-3) [-100.25|2.5e2] "Nm" ECU1,ECU2"#,
    )
    .unwrap();
    assert_eq!(parsed.name, "Torque");
    assert_eq!(parsed.start_bit, 7);
    assert_eq!(parsed.bit_len, 12);
    assert!(!parsed.little_endian);
    assert!(parsed.signed);
    assert_eq!(parsed.scale, decimal("-0.5"));
    assert_eq!(parsed.offset, decimal("1e-3"));
    assert_eq!(parsed.min_value, decimal("-100.25"));
    assert_eq!(parsed.max_value, decimal("2.5e2"));
    assert_eq!(parsed.units, "Nm");
    assert_eq!(parsed.receiving_node, "ECU1,ECU2");
    assert_eq!(to_float(&parsed.scale), -0.5f32);
    assert_eq!(to_float(&parsed.max_value), 250.0f32);
}

#[test]
fn lines_that_spell_no_entry() {
    assert!(parse_dbc("VERSION \"1.0\"").is_none());
    assert!(parse_dbc("BS_:").is_none());
    assert!(parse_dbc("").is_none());
    assert!(parse_message_definition("BO_ x EEC1 : 8 Vector__XXX").is_none());
    assert!(parse_signal_attribute(r#"BA_ "SPN" BO_ 2364539904 0;"#).is_none());
}

#[test]
fn numbers_beyond_their_type_spell_no_entry() {
    assert!(parse_message_definition("BO_ 4294967296 EEC1 : 8 Vector__XXX").is_none());
    assert_eq!(
        parse_message_definition("BO_ 4294967295 EEC1 : 8 Vector__XXX").unwrap().id,
        4294967295
    );
    assert!(parse_message_description(r#"CM_ BO_ 99999999999 "x";"#).is_none());
}

#[test]
fn dispatch_picks_the_kind_of_line() {
    let entry = parse_dbc(r#"BO_ 2364539904 EEC1 : 8 Vector__XXX"#).unwrap();
    assert_eq!(entry.get_type(), EntryType::MessageDefinition);
    let entry = parse_dbc(r#"CM_ BO_ 2364539904 "Engine Controller";"#).unwrap();
    assert_eq!(entry.get_type(), EntryType::MessageDescription);
    let entry = parse_dbc(r#"BA_ "SingleFrame" BO_ 2364539904 0;"#).unwrap();
    assert_eq!(entry.get_type(), EntryType::MessageAttribute);
    let entry =
        parse_dbc(r#" SG_ Engine_Speed : 24|16@1+ (0.125,0) [0|8031.88] "rpm" Vector__XXX"#)
            .unwrap();
    assert_eq!(entry.get_type(), EntryType::SignalDefinition);
    let entry = parse_dbc(r#"CM_ SG_ 2364539904 Engine_Speed "A description.";"#).unwrap();
    assert_eq!(entry.get_type(), EntryType::SignalDescription);
    let entry = parse_dbc(r#"BA_ "SPN" SG_ 2364539904 Engine_Speed 190;"#).unwrap();
    assert_eq!(entry.get_type(), EntryType::SignalAttribute);
    assert_eq!(entry.to_string(), "SignalAttribute");
}

#[test]
fn entry_from_str() {
    let entry = Entry::from_str(r#"BA_ "SPN" SG_ 2364539904 Engine_Speed 190;"#).unwrap();
    assert_eq!(
        entry,
        Entry::SignalAttribute(DbcSignalAttribute {
            name: "SPN".to_string(),
            id: 2364539904,
            signal_name: "Engine_Speed".to_string(),
            value: "190".to_string(),
        })
    );
    let error = Entry::from_str("NS_ :").unwrap_err();
    assert_eq!(error.__description(), "could not find a regex match for input");
    assert_eq!(error.to_string(), "could not find a regex match for input");
    assert!(error.__cause().is_none());
}

#[test]
fn entry_type_numbers() {
    assert_eq!(EntryType::from_i32(0), Some(EntryType::Version));
    assert_eq!(EntryType::from_i32(5), Some(EntryType::SignalDefinition));
    assert_eq!(EntryType::from_i32(9), Some(EntryType::Unknown));
    assert_eq!(EntryType::from_i32(10), None);
    assert_eq!(EntryType::from_i32(-1), None);
    assert_eq!(EntryType::from_number(8), Ok(EntryType::SignalLongName));
    let error = EntryType::from_number(42).unwrap_err();
    assert_eq!(error.__description(), "integer could not be converted into valid EntryType");
    assert!(error.__cause().is_none());
    assert_eq!(EntryType::SignalLongName.name(), "SignalLongName");
    assert_eq!(EntryType::BusConfiguration.to_string(), "BusConfiguration");
}

#[test]
fn decimal_numbers() {
    for text in [
        "0",
        "-0",
        "0.125",
        "8031.88",
        "-12.50e-4",
        "3e7",
        "007",
        "18446744073709551615",
        "18446744073709551616",
        "0.00000000000000000000000000000000000001",
        "123456789012345678901234567890.123456789012345678901234567890",
        "1e2147483648",
        "1e-99999999999999999999",
    ] {
        let number = Decimal::parse(text).unwrap();
        assert_eq!(number.as_str(), text);
        assert_eq!(number.clone(), number);
    }
    for text in [
        "", "-", ".5", "5.", "1e", "1e-", "1.2.3", "+1", "1x", "--1", "1e+5", "1E5", "1e5e6",
        "1.e5", "e5", "-.5", "1 ", " 1", "\u{0661}",
    ] {
        assert_eq!(Decimal::parse(text), None);
    }
    assert_eq!(Decimal::zero().as_str(), "0");
    assert_eq!(Decimal::zero(), decimal("0"));
    assert_ne!(decimal("0.125"), decimal("0.1250"));
    assert_eq!(to_float(&decimal("0.125")), 0.125f32);
    assert_eq!(to_float(&decimal("-12.50e-4")), -0.00125f32);
    assert_eq!(to_float(&decimal("18446744073709551616")), 18446744073709551616f32);
    assert_eq!(to_float(&decimal("1e2147483648")), f32::INFINITY);
}

#[test]
fn long_numbers_are_kept() {
    let parsed = parse_signal_definition(
        r#" SG_ Ratio : 0|8@1+ (0.100000000000000005551115123125,0) [0|25.5] "" Vector__XXX"#,
    )
    .unwrap();
    assert_eq!(parsed.scale.as_str(), "0.100000000000000005551115123125");
    assert_eq!(to_float(&parsed.scale), 0.1f32);
}

#[test]
fn whole_numbers() {
    assert_eq!(parse_u32("0"), Some(0));
    assert_eq!(parse_u32("007"), Some(7));
    assert_eq!(parse_u32("2364539904"), Some(2364539904));
    assert_eq!(parse_u32("4294967295"), Some(u32::MAX));
    assert_eq!(parse_u32("4294967296"), None);
    assert_eq!(parse_u32(""), None);
    assert_eq!(parse_u32("12a"), None);
    assert_eq!(parse_u32("-1"), None);
    assert_eq!(parse_u32("\u{0661}"), None);
}

#[test]
fn lines_of_a_text() {
    assert_eq!(split_lines(""), Vec::<String>::new());
    assert_eq!(split_lines("abc"), vec!["abc".to_string()]);
    assert_eq!(split_lines("abc\n"), vec!["abc".to_string()]);
    assert_eq!(split_lines("abc\r\ndef"), vec!["abc".to_string(), "def".to_string()]);
    assert_eq!(split_lines("abc\n\ndef\n"), vec!["abc".to_string(), "".to_string(), "def".to_string()]);
    assert_eq!(split_lines("\n"), vec!["".to_string()]);
    assert_eq!(split_lines("abc\r"), vec!["abc\r".to_string()]);
    assert_eq!(split_lines("a\rb\r\r\n"), vec!["a\rb\r".to_string()]);
    let text = "x\u{e9}y\r\nz\n\r\nlast\r";
    let expected: Vec<String> = text.lines().map(|l| l.to_string()).collect();
    assert_eq!(split_lines(text), expected);
}

#[test]
fn numbers_in_base_ten() {
    assert_eq!(decimal_text(0), "0");
    assert_eq!(decimal_text(7), "7");
    assert_eq!(decimal_text(10), "10");
    assert_eq!(decimal_text(2364539904), "2364539904");
    assert_eq!(decimal_text(u64::MAX), "18446744073709551615");
    for n in [0u64, 9, 10, 99, 100, 4294967295, 1234567890123] {
        assert_eq!(parse_usize(&decimal_text(n)), Some(n as usize));
    }
}
