use fastcan::dbc::library::FromDbc;
use fastcan::dbc::{
    DbcError, DbcFrameDefinition, DbcMessageAttribute, DbcMessageDescription,
    DbcSignalAttribute, DbcSignalDefinition, DbcSignalDescription, DbcVersion, Decimal, Entry,
    EntryType,
};
use fastcan::mapper::{DecodeMessage, EncodeMessage};
use fastcan::name_map::NameMap;
use fastcan::parser::{DbcLibrary, FrameDefinition, SignalDefinition};
use std::collections::HashMap;
use std::str::FromStr;

const SAMPLE: &str = "VERSION \"A version string\"\n\
\n\
BS_:\n\
\n\
BU_: Vector__XXX\n\
\n\
BO_ 2364539904 EEC1 : 8 Vector__XXX\n \
SG_ Engine_Speed : 24|16@1+ (0.125,0) [0|8031.88] \"rpm\" Vector__XXX\n\
\n\
CM_ BO_ 2364539904 \"Engine Controller\";\n\
CM_ SG_ 2364539904 Engine_Speed \"A description for Engine speed.\";\n\
BA_ \"SingleFrame\" BO_ 2364539904 0;\n\
BA_ \"SigType\" SG_ 2364539904 Engine_Speed 1;\n\
BA_ \"SPN\" SG_ 2364539904 Engine_Speed 190;\n";

fn decimal(text: &str) -> Decimal {
    Decimal::parse(text).unwrap()
}

fn to_float(d: &Decimal) -> f32 {
    d.as_str().parse::<f32>().unwrap()
}

fn physical(signal: &SignalDefinition, raw: u64) -> f32 {
    let d = signal.get_definition();
    (raw as f32) * to_float(&d.scale) + to_float(&d.offset)
}

fn raw_of(signal: &SignalDefinition, value: f64) -> u64 {
    let d = signal.get_definition();
    ((value - to_float(&d.offset) as f64) / to_float(&d.scale) as f64) as u64
}

fn relative_eq(a: f32, b: f32) -> bool {
    a == b || (a - b).abs() <= f32::EPSILON * a.abs().max(b.abs())
}

fn signal_with(start_bit: usize, little_endian: bool, offset: Decimal) -> SignalDefinition {
    SignalDefinition::new(
        "Engine_Speed".to_string(),
        190,
        2364539904,
        "A description for Engine speed.".to_string(),
        start_bit,
        16,
        little_endian,
        false,
        decimal("0.125"),
        offset,
        decimal("0"),
        decimal("8031.88"),
        "rpm".to_string(),
    )
}

fn signal_def() -> SignalDefinition {
    signal_with(24, true, decimal("0"))
}

fn signal_def_be() -> SignalDefinition {
    signal_with(24, false, decimal("0"))
}

fn signal_def_alt() -> SignalDefinition {
    signal_with(41, false, decimal("10"))
}

fn frame_def() -> FrameDefinition {
    let mut signal_map: NameMap<SignalDefinition> = NameMap::new();
    signal_map.insert("Engine_Speed".to_string(), signal_def());
    signal_map.insert("Engine_Speed2".to_string(), signal_def_alt());
    FrameDefinition::new(2364539904, "test".to_string(), "test".to_string(), 6, signal_map)
}

fn msg() -> Vec<u8> {
    [0x11, 0x22, 0x33, 0x44, 0x55, 0x66, 0x77, 0x88].to_vec()
}

fn msg_be() -> Vec<u8> {
    [0x88, 0x77, 0x66, 0x55, 0x44, 0x33, 0x22, 0x11].to_vec()
}

fn dbc_signal_definition() -> DbcSignalDefinition {
    DbcSignalDefinition {
        name: "Engine_Speed".to_string(),
        start_bit: 24,
        bit_len: 16,
        little_endian: true,
        signed: false,
        scale: decimal("0.125"),
        offset: decimal("0"),
        min_value: decimal("0"),
        max_value: decimal("8031.88"),
        units: "rpm".to_string(),
        receiving_node: "Vector__XXX".to_string(),
    }
}

#[test]
fn default_pgnlibrary() {
    let empty = DbcLibrary::default();
    assert_eq!(empty.get_frame_ids().len(), 0);
    assert!(empty.get_frame(0).is_none());
}

#[test]
fn parser_get_signal_definition() {
    let one = DbcLibrary::from_text(SAMPLE);
    assert_eq!(
        *one.get_frame(2364539904)
            .expect("failed to get PgnDefinition from PgnLibrary")
            .get_signal("Engine_Speed")
            .expect("failed to get SpnDefinition from PgnDefinition"),
        signal_def()
    );
}

#[test]
fn parser_unsupported_entry() {
    let mut pgnlib: DbcLibrary = DbcLibrary::default();
    let unsupported = Entry::Version(DbcVersion("Don't care about version entry".to_string()));
    let res = pgnlib.add_entry(unsupported);

    assert!(res.is_err(), "Unsupported entry: Version");
    assert_eq!(res, Err(DbcError::UnsupportedEntry(EntryType::Version)));
}

#[test]
fn parser_test_parse_array() {
    let raw = signal_def().decode_message(msg()).unwrap();
    assert!(relative_eq(physical(&signal_def(), raw), 2728.5f32));
    let raw = signal_def_be().decode_message(msg_be()).unwrap();
    assert!(relative_eq(physical(&signal_def_be(), raw), 2728.5));
    let full: [u8; 8] = [0x11, 0x22, 0x33, 0x44, 0x55, 0x66, 0x77, 0x88];
    assert_eq!(signal_def().decode_message(&full), Some(21828));
}

#[test]
fn parser_test_parse_message() {
    let raw = signal_def().decode_message(msg()[..7].to_vec()).unwrap();
    assert!(relative_eq(physical(&signal_def(), raw), 2728.5));
    let raw = signal_def_be().decode_message(msg_be()[..7].to_vec()).unwrap();
    assert!(relative_eq(physical(&signal_def_be(), raw), 2728.5));
    assert!(signal_def().decode_message(msg()[..0].to_vec()).is_none());
    assert!(signal_def_be().decode_message(msg_be()[..0].to_vec()).is_none());
}

#[test]
fn parser_test_encode_message() {
    let mut signal_map: NameMap<u64> = NameMap::new();
    signal_map.insert("Engine_Speed".to_string(), raw_of(&signal_def(), 2728.5));
    signal_map.insert("Engine_Speed2".to_string(), raw_of(&signal_def_alt(), 2728.5));

    let ret: Result<Vec<u8>, DbcError> = frame_def().encode_message(&signal_map);

    assert!(ret.is_ok());

    let ret: Vec<u8> = ret.unwrap();

    assert!(ret[3] == 0x44 && ret[4] == 0x55);

    let sig = signal_def().decode_message(ret.clone());

    assert!(sig.is_some());

    assert_eq!(physical(&signal_def(), sig.unwrap()), 2728.5);

    let sig = signal_def_alt().decode_message(ret);

    assert!(sig.is_some());

    assert_eq!(physical(&signal_def_alt(), sig.unwrap()), 2728.5);
}

#[test]
fn definitions_encode_into_an_array() {
    let mut signal_map: NameMap<u64> = NameMap::new();
    signal_map.insert("Engine_Speed".to_string(), 21828);
    let ret: Result<[u8; 8], DbcError> = frame_def().encode_message(&signal_map);
    assert_eq!(ret, Err(DbcError::MissingSignalData("Engine_Speed2".to_string())));
    signal_map.insert("Engine_Speed2".to_string(), 21748);
    let ret: Result<[u8; 8], DbcError> = frame_def().encode_message(&signal_map);
    assert_eq!(ret, Ok([0x00, 0xa9, 0xe8, 0x44, 0x55, 0x00, 0x00, 0x00]));
    signal_map.insert("Engine_Speed".to_string(), 1 << 20);
    let ret: Result<[u8; 8], DbcError> = frame_def().encode_message(&signal_map);
    assert_eq!(ret, Err(DbcError::Overflow(1 << 20)));
}

#[test]
fn whole_sample_of_definitions() {
    let lib = DbcLibrary::from_text(SAMPLE);
    assert_eq!(lib.get_frame_ids(), vec![2364539904]);
    let frame = lib.get_frame(2364539904).unwrap();
    assert_eq!(frame.get_id(), 2364539904);
    assert_eq!(frame.get_name(), "EEC1");
    assert_eq!(frame.get_description(), "Engine Controller");
    assert_eq!(frame.get_length(), 8);
    assert_eq!(frame.get_signals(), vec![signal_def()]);
    let signal = lib.get_signal("Engine_Speed").unwrap();
    assert_eq!(signal.get_name(), "Engine_Speed");
    assert_eq!(signal.get_id(), 2364539904);
    assert_eq!(signal.get_number(), 190);
    assert_eq!(signal.get_description(), "A description for Engine speed.");
    assert!(lib.get_signal("Engine_Torque").is_none());
}

#[test]
fn signal_definition_needs_a_frame() {
    let mut lib = DbcLibrary::default();
    assert_eq!(
        lib.add_entry(Entry::SignalDefinition(dbc_signal_definition())),
        Err(DbcError::MissingContext)
    );
    assert!(lib.get_frame_ids().is_empty());
    lib.add_entry(Entry::MessageAttribute(DbcMessageAttribute {
        name: "A".to_string(),
        id: 4,
        value: "1".to_string(),
    }))
    .unwrap();
    lib.add_entry(Entry::SignalDefinition(dbc_signal_definition())).unwrap();
    let frame = lib.get_frame(4).unwrap();
    assert_eq!(frame.get_id(), 4);
    assert_eq!(frame.get_name(), "");
    let signal = frame.get_signal("Engine_Speed").unwrap();
    assert_eq!(signal.get_number(), 0);
    assert_eq!(signal.get_id(), 0);
    assert_eq!(signal.get_definition().max_value, decimal("8031.88"));
}

#[test]
fn signal_entries_make_their_frame() {
    let mut lib = DbcLibrary::default();
    lib.add_entry(Entry::SignalDescription(DbcSignalDescription {
        id: 4,
        signal_name: "S".to_string(),
        description: "d".to_string(),
    }))
    .unwrap();
    let frame = lib.get_frame(4).unwrap();
    assert_eq!(frame.get_id(), 4);
    assert_eq!(frame.get_name(), "");
    assert_eq!(frame.get_length(), 0);
    assert_eq!(frame.get_signal("S").unwrap().get_description(), "d");
    lib.add_entry(Entry::SignalAttribute(DbcSignalAttribute {
        name: "SPN".to_string(),
        id: 5,
        signal_name: "T".to_string(),
        value: "7".to_string(),
    }))
    .unwrap();
    assert_eq!(lib.get_frame(5).unwrap().get_signal("T").unwrap().get_number(), 7);
    // the frame touched last takes the definition
    lib.add_entry(Entry::SignalDefinition(dbc_signal_definition())).unwrap();
    assert!(lib.get_frame(5).unwrap().get_signal("Engine_Speed").is_some());
    assert!(lib.get_frame(4).unwrap().get_signal("Engine_Speed").is_none());
    // an attribute that spells no number makes no frame
    assert_eq!(
        lib.add_entry(Entry::SignalAttribute(DbcSignalAttribute {
            name: "SPN".to_string(),
            id: 6,
            signal_name: "U".to_string(),
            value: "abc".to_string(),
        })),
        Err(DbcError::UnsupportedEntry(EntryType::SignalAttribute))
    );
    assert!(lib.get_frame(6).is_none());
    let mut ids = lib.get_frame_ids();
    ids.sort();
    assert_eq!(ids, vec![4, 5]);
}

#[test]
fn frame_zero_takes_signal_definitions() {
    let mut lib = DbcLibrary::default();
    lib.add_entry(Entry::MessageDefinition(DbcFrameDefinition {
        id: 0,
        name: "Zero".to_string(),
        message_len: 8,
        sending_node: "N".to_string(),
    }))
    .unwrap();
    lib.add_entry(Entry::SignalDefinition(dbc_signal_definition())).unwrap();
    assert!(lib.get_frame(0).unwrap().get_signal("Engine_Speed").is_some());
}

#[test]
fn frame_merge_keeps_the_id() {
    let mut frame =
        FrameDefinition::new(1, "F".to_string(), "".to_string(), 8, NameMap::new());
    let entry = Entry::MessageDescription(DbcMessageDescription {
        id: 2,
        description: "d".to_string(),
    });
    assert!(frame.merge_entry(entry).is_ok());
    assert_eq!(frame.get_description(), "d");
    assert_eq!(frame.get_id(), 1);
    assert_eq!(frame.get_name(), "F");
    assert_eq!(frame.get_length(), 8);
    let entry = Entry::MessageAttribute(DbcMessageAttribute {
        name: "A".to_string(),
        id: 3,
        value: "1".to_string(),
    });
    assert!(frame.merge_entry(entry).is_ok());
    assert_eq!(frame.get_id(), 1);
}

#[test]
fn signal_merge_takes_every_field() {
    let zero = decimal("0");
    let mut signal = SignalDefinition::new(
        "Engine_Speed".to_string(),
        0,
        1,
        "d".to_string(),
        0,
        0,
        true,
        false,
        zero.clone(),
        zero.clone(),
        zero.clone(),
        zero,
        "".to_string(),
    );
    assert!(signal.merge_entry(Entry::SignalDefinition(dbc_signal_definition())).is_ok());
    assert_eq!(
        signal,
        SignalDefinition::new(
            "Engine_Speed".to_string(),
            0,
            1,
            "d".to_string(),
            24,
            16,
            true,
            false,
            decimal("0.125"),
            decimal("0"),
            decimal("0"),
            decimal("8031.88"),
            "rpm".to_string(),
        )
    );
}

#[test]
fn only_the_number_attribute_counts() {
    let mut lib = DbcLibrary::default();
    lib.add_entry(Entry::MessageDefinition(DbcFrameDefinition {
        id: 4,
        name: "F".to_string(),
        message_len: 8,
        sending_node: "N".to_string(),
    }))
    .unwrap();
    lib.add_entry(Entry::SignalAttribute(DbcSignalAttribute {
        name: "SigType".to_string(),
        id: 4,
        signal_name: "S".to_string(),
        value: "abc".to_string(),
    }))
    .unwrap();
    assert_eq!(lib.get_frame(4).unwrap().signal_count(), 0);
    assert_eq!(
        lib.add_entry(Entry::SignalAttribute(DbcSignalAttribute {
            name: "SPN".to_string(),
            id: 4,
            signal_name: "S".to_string(),
            value: "abc".to_string(),
        })),
        Err(DbcError::UnsupportedEntry(EntryType::SignalAttribute))
    );
    assert_eq!(lib.get_frame(4).unwrap().signal_count(), 0);
    lib.add_entry(Entry::SignalAttribute(DbcSignalAttribute {
        name: "SPN".to_string(),
        id: 4,
        signal_name: "S".to_string(),
        value: "12".to_string(),
    }))
    .unwrap();
    let signal = lib.get_frame(4).unwrap().get_signal("S").unwrap();
    assert_eq!(signal.get_number(), 12);
    assert_eq!(signal.get_id(), 4);
    // a later definition of the frame overwrites the name and the length
    lib.add_entry(Entry::MessageDefinition(DbcFrameDefinition {
        id: 4,
        name: "Renamed".to_string(),
        message_len: 5,
        sending_node: "N".to_string(),
    }))
    .unwrap();
    assert_eq!(lib.get_frame(4).unwrap().get_name(), "Renamed");
    assert_eq!(lib.get_frame(4).unwrap().get_length(), 5);
}

#[test]
fn definitions_from_lines() {
    let frame = FrameDefinition::from_str("BO_ 2364539904 EEC1 : 8 Vector__XXX").unwrap();
    assert_eq!(frame.get_id(), 2364539904);
    assert_eq!(frame.get_name(), "EEC1");
    assert_eq!(frame.get_length(), 8);
    let error = FrameDefinition::from_str("VERSION").unwrap_err();
    assert_eq!(error.__description(), "internal Entry parsing error");
    assert_eq!(
        error.__cause().unwrap().__description(),
        "could not find a regex match for input"
    );
    let error = FrameDefinition::from_str(
        r#" SG_ Engine_Speed : 24|16@1+ (0.125,0) [0|8031.88] "rpm" Vector__XXX"#,
    )
    .unwrap_err();
    assert_eq!(error.to_string(), "Entry type not applicable in constructing Definition");
    assert!(error.__cause().is_none());
    let made =
        FrameDefinition::from_str(r#"BA_ "SPN" SG_ 2364539904 Engine_Speed 190;"#).unwrap();
    assert_eq!(made.get_id(), 2364539904);
    assert_eq!(made.get_signal("Engine_Speed").unwrap().get_number(), 190);

    let signal =
        SignalDefinition::from_str(r#"BA_ "SPN" SG_ 2364539904 Engine_Speed 190;"#).unwrap();
    assert_eq!(signal.get_number(), 190);
    assert_eq!(signal.get_name(), "Engine_Speed");
    assert!(SignalDefinition::from_str("BO_ 2364539904 EEC1 : 8 Vector__XXX").is_err());
    assert!(SignalDefinition::from_entry(Entry::Unknown("x".to_string())).is_err());
    let mut table = HashMap::new();
    table.insert(1u32, frame);
    let lib = DbcLibrary::new(table);
    assert_eq!(lib.get_frame_ids(), vec![1]);
}
