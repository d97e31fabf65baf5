use fastcan::dbc::library::FromDbc;
use fastcan::dbc::{
    BusConfiguration, DbcError, DbcFrame, DbcFrameDefinition, DbcLibrary, DbcMessageAttribute,
    DbcMessageDescription, DbcSignal, DbcSignalAttribute, DbcSignalDefinition,
    DbcSignalDescription, DbcVersion, Decimal, Entry, EntryType,
};
use fastcan::mapper::DecodeMessage;
use fastcan::name_map::NameMap;
use std::collections::HashMap;

const SAMPLE: &str = "VERSION \"A version string\"\n\
\n\
BS_:\n\
\n\
BU_: Vector__XXX\n\
\n\
BO_ 2364539904 EEC1 : 8 Vector__XXX\n \
SG_ Engine_Speed : 24|16@1+ (0.125,0) [0|8031.88] \"rpm\" Vector__XXX\n\
\n\
CM_ BO_ 2364539904 \"Engine Controller\";\n\
CM_ SG_ 2364539904 Engine_Speed \"A description for Engine speed.\";\n\
BA_ \"SingleFrame\" BO_ 2364539904 0;\n\
BA_ \"SPN\" SG_ 2364539904 Engine_Speed 190;\n";

const LONG_NAMES: &str = "BO_ 1297 FSG_EXTRA_FRAME: 8 FSG_Logger\r\n \
SG_ FSG_DV_EBS_Brake_pressure_s_0000 : 8|8@1+ (1,0) [0|255] \"bar\" Vector__XXX\r\n\
BA_ \"SystemSignalLongSymbol\" SG_ 1297 FSG_DV_EBS_Brake_pressure_s_0000 \"FSG_DV_EBS_Brake_pressure_sensor_rear\";\r\n";

fn decimal(text: &str) -> Decimal {
    Decimal::parse(text).unwrap()
}

fn to_float(d: &Decimal) -> f32 {
    d.as_str().parse::<f32>().unwrap()
}

fn physical(signal: &DbcSignal, raw: u64) -> f32 {
    let d = signal.get_definition();
    (raw as f32) * to_float(&d.scale) + to_float(&d.offset)
}

fn signal_def() -> DbcSignalDefinition {
    DbcSignalDefinition {
        name: "Engine_Speed".to_string(),
        start_bit: 24,
        bit_len: 16,
        little_endian: true,
        signed: false,
        scale: decimal("0.125"),
        offset: decimal("0"),
        min_value: decimal("0"),
        max_value: decimal("8031.88"),
        units: "rpm".to_string(),
        receiving_node: "Vector__XXX".to_string(),
    }
}

fn frame_def(id: u32) -> DbcFrameDefinition {
    DbcFrameDefinition {
        id,
        name: "EEC1".to_string(),
        message_len: 8,
        sending_node: "Vector__XXX".to_string(),
    }
}

#[test]
fn default_dbclibrary() {
    let empty = DbcLibrary::default();
    assert_eq!(empty.len(), 0);
    assert!(empty.is_empty());
}

#[test]
fn library_of_an_empty_table() {
    let empty = DbcLibrary::new(HashMap::new());
    assert_eq!(empty.len(), 0);
    assert!(empty.get_frame(0).is_none());
    assert!(empty.get_signal("Engine_Speed").is_none());
}

#[test]
fn tests_get_signal_definition() {
    let one = DbcLibrary::from_text(SAMPLE);
    assert_eq!(
        *one.get_frame(2364539904)
            .expect("failed to get PgnDefinition from PgnLibrary")
            .get_signal("Engine_Speed")
            .expect("failed to get SpnDefinition from PgnDefinition")
            .get_definition(),
        signal_def()
    );
}

#[test]
fn tests_unsupported_entry() {
    let mut pgnlib: DbcLibrary = DbcLibrary::default();
    let unsupported = Entry::Version(DbcVersion("Don't care about version entry".to_string()));
    let res = pgnlib.add_entry(unsupported);

    assert!(res.is_err(), "Unsupported entry: Version");
    assert_eq!(res, Err(DbcError::UnsupportedEntry(EntryType::Version)));
    assert!(pgnlib.is_empty());
}

#[test]
fn unsupported_kinds() {
    let mut lib = DbcLibrary::default();
    assert_eq!(
        lib.add_entry(Entry::BusConfiguration(BusConfiguration(decimal("500")))),
        Err(DbcError::UnsupportedEntry(EntryType::BusConfiguration))
    );
    assert_eq!(
        lib.add_entry(Entry::Unknown("NS_ :".to_string())),
        Err(DbcError::UnsupportedEntry(EntryType::Unknown))
    );
    assert_eq!(lib.len(), 0);
}

#[test]
fn test_long_names() {
    let ff = DbcLibrary::from_text(LONG_NAMES);
    let signal = ff
        .get_frame(1297)
        .expect("Did not find FSG_EXTRA_FRAME")
        .get_signal("FSG_DV_EBS_Brake_pressure_s_0000")
        .expect("Did not find signal");
    let name = signal
        .get_attribute("SystemSignalLongSymbol")
        .expect("Did not find LongName Attribute");

    assert_eq!(name, "FSG_DV_EBS_Brake_pressure_sensor_rear");
    assert_eq!(signal.long_name(), "FSG_DV_EBS_Brake_pressure_sensor_rear");
    assert_eq!(ff.get_frame(1297).unwrap().get_name(), "FSG_EXTRA_FRAME");
    assert_eq!(ff.get_frame(1297).unwrap().get_sending_node(), "FSG_Logger");
}

#[test]
fn long_name_falls_back_to_the_definition() {
    let signal = DbcSignal::new(Some(signal_def()), None, NameMap::new(), None);
    assert_eq!(signal.long_name(), "Engine_Speed");
}

#[test]
fn canlib_build_parse() {
    let lib = DbcLibrary::from_text(SAMPLE);

    // Pull signal definition for engine speed
    let enginespeed_def: &DbcSignal = lib.get_signal("Engine_Speed").unwrap();

    // Parse frame containing engine speed
    let msg: [u8; 8] = [0x11, 0x22, 0x33, 0x44, 0x55, 0x66, 0x77, 0x88];
    let raw = enginespeed_def.decode_message(&msg).unwrap();
    let engine_speed: f32 = physical(enginespeed_def, raw);

    assert!(engine_speed - 2728.5 < f32::EPSILON);
    assert_eq!(engine_speed, 2728.5);
}

#[test]
fn loading_bytes() {
    let lib = DbcLibrary::from_latin1(SAMPLE.as_bytes());
    assert_eq!(lib.len(), 1);
    let mut bytes = b"BO_ 7 Caf".to_vec();
    bytes.push(0xe9);
    bytes.extend_from_slice(b" : 8 N\xf8de\n");
    let lib = DbcLibrary::from_latin1(&bytes);
    let frame = lib.get_frame(7).unwrap();
    assert_eq!(frame.get_name(), "Caf\u{e9}");
    assert_eq!(frame.get_sending_node(), "N\u{f8}de");
}

#[test]
fn whole_sample() {
    let lib = DbcLibrary::from_text(SAMPLE);
    assert_eq!(lib.len(), 1);
    assert!(!lib.is_empty());
    let frame = lib.get_frame(2364539904).unwrap();
    assert_eq!(frame.get_id(), 2364539904);
    assert_eq!(frame.get_name(), "EEC1");
    assert_eq!(frame.get_length(), 8);
    assert_eq!(frame.get_sending_node(), "Vector__XXX");
    assert_eq!(frame.get_description().unwrap(), "Engine Controller");
    assert!(frame.has_attribute("SingleFrame"));
    assert!(!frame.has_attribute("SPN"));
    assert_eq!(frame.get_attribute("SingleFrame"), "0");
    assert_eq!(frame.signal_count(), 1);
    assert_eq!(frame.get_signals().len(), 1);
    let signal = frame.get_signal("Engine_Speed").unwrap();
    assert_eq!(signal.get_description().unwrap(), "A description for Engine speed.");
    assert_eq!(signal.get_attribute("SPN").unwrap(), "190");
    assert!(signal.get_attribute("SingleFrame").is_none());
    assert!(frame.get_signal("Engine_Torque").is_none());
    assert!(lib.get_frame(1).is_none());
    assert!(lib.get_signal("Engine_Torque").is_none());
}

#[test]
fn merge_ordering() {
    let mut lib = DbcLibrary::default();
    assert!(lib.add_entry(Entry::MessageDefinition(frame_def(42))).is_ok());
    assert!(lib.add_entry(Entry::SignalDefinition(signal_def())).is_ok());
    let frame = lib.get_frame(42).unwrap();
    assert_eq!(frame.get_id(), 42);
    assert_eq!(*frame.get_signal("Engine_Speed").unwrap().get_definition(), signal_def());
    assert_eq!(lib.len(), 1);
}

#[test]
fn signal_definition_without_frame() {
    let mut lib = DbcLibrary::default();
    assert_eq!(
        lib.add_entry(Entry::SignalDefinition(signal_def())),
        Err(DbcError::MissingContext)
    );
    assert!(lib.is_empty());
    let mut lib = DbcLibrary::new(HashMap::new());
    assert_eq!(
        lib.add_entry(Entry::SignalDefinition(signal_def())),
        Err(DbcError::MissingContext)
    );
}

#[test]
fn signal_definition_goes_to_the_frame_touched_last() {
    let mut lib = DbcLibrary::default();
    lib.add_entry(Entry::MessageDefinition(frame_def(1))).unwrap();
    lib.add_entry(Entry::MessageDefinition(frame_def(2))).unwrap();
    lib.add_entry(Entry::SignalAttribute(DbcSignalAttribute {
        name: "SPN".to_string(),
        id: 1,
        signal_name: "Other".to_string(),
        value: "5".to_string(),
    }))
    .unwrap();
    lib.add_entry(Entry::SignalDefinition(signal_def())).unwrap();
    assert!(lib.get_frame(1).unwrap().get_signal("Engine_Speed").is_some());
    assert!(lib.get_frame(2).unwrap().get_signal("Engine_Speed").is_none());
    assert_eq!(lib.get_frame(1).unwrap().signal_count(), 2);
    assert_eq!(lib.len(), 2);
}

#[test]
fn entries_before_the_definition() {
    let mut lib = DbcLibrary::default();
    lib.add_entry(Entry::SignalDescription(DbcSignalDescription {
        id: 9,
        signal_name: "Engine_Speed".to_string(),
        description: "early".to_string(),
    }))
    .unwrap();
    let frame = lib.get_frame(9).unwrap();
    assert_eq!(frame.get_id(), 9);
    assert_eq!(frame.get_name(), "");
    assert_eq!(frame.get_length(), 0);
    let signal = frame.get_signal("Engine_Speed").unwrap();
    assert!(!signal.has_definition());
    assert_eq!(signal.get_description().unwrap(), "early");
    let msg: [u8; 8] = [0x11, 0x22, 0x33, 0x44, 0x55, 0x66, 0x77, 0x88];
    assert_eq!(signal.decode_message(&msg), None);
    assert_eq!(signal.decode_message(msg.to_vec()), None);

    lib.add_entry(Entry::SignalDefinition(signal_def())).unwrap();
    lib.add_entry(Entry::MessageDefinition(frame_def(9))).unwrap();
    let frame = lib.get_frame(9).unwrap();
    assert_eq!(frame.get_name(), "EEC1");
    assert_eq!(frame.signal_count(), 1);
    let signal = frame.get_signal("Engine_Speed").unwrap();
    assert!(signal.has_definition());
    assert_eq!(signal.get_description().unwrap(), "early");
    assert_eq!(signal.decode_message(&msg), Some(21828));
}

#[test]
fn later_entries_overwrite() {
    let mut lib = DbcLibrary::default();
    lib.add_entry(Entry::MessageDefinition(frame_def(3))).unwrap();
    lib.add_entry(Entry::MessageAttribute(DbcMessageAttribute {
        name: "Cycle".to_string(),
        id: 3,
        value: "10".to_string(),
    }))
    .unwrap();
    lib.add_entry(Entry::MessageAttribute(DbcMessageAttribute {
        name: "Cycle".to_string(),
        id: 3,
        value: "20".to_string(),
    }))
    .unwrap();
    lib.add_entry(Entry::MessageDescription(DbcMessageDescription {
        id: 3,
        description: "first".to_string(),
    }))
    .unwrap();
    lib.add_entry(Entry::MessageDescription(DbcMessageDescription {
        id: 3,
        description: "second".to_string(),
    }))
    .unwrap();
    lib.add_entry(Entry::MessageDefinition(DbcFrameDefinition {
        id: 3,
        name: "Renamed".to_string(),
        message_len: 4,
        sending_node: "Node".to_string(),
    }))
    .unwrap();
    let frame = lib.get_frame(3).unwrap();
    assert_eq!(frame.get_attribute("Cycle"), "20");
    assert_eq!(frame.get_description().unwrap(), "second");
    assert_eq!(frame.get_name(), "Renamed");
    assert_eq!(frame.get_length(), 4);
    assert_eq!(frame.get_sending_node(), "Node");
    assert_eq!(frame.get_id(), 3);
}

#[test]
fn records_from_single_entries() {
    let frame = DbcFrame::from_entry(Entry::MessageDefinition(frame_def(5))).unwrap();
    assert_eq!(frame.get_id(), 5);
    assert_eq!(frame.get_name(), "EEC1");
    assert!(frame.get_description().is_none());
    let frame = DbcFrame::from_entry(Entry::SignalAttribute(DbcSignalAttribute {
        name: "SPN".to_string(),
        id: 6,
        signal_name: "S".to_string(),
        value: "1".to_string(),
    }))
    .unwrap();
    assert_eq!(frame.get_id(), 6);
    assert_eq!(frame.get_signal("S").unwrap().get_attribute("SPN").unwrap(), "1");
    assert!(DbcFrame::from_entry(Entry::SignalDefinition(signal_def())).is_err());
    assert!(DbcFrame::from_entry(Entry::Unknown("x".to_string())).is_err());

    let signal = DbcSignal::from_entry(Entry::SignalDefinition(signal_def())).unwrap();
    assert_eq!(*signal.get_definition(), signal_def());
    assert!(signal.get_description().is_none());
    assert!(DbcSignal::from_entry(Entry::MessageDefinition(frame_def(5))).is_err());

    let mut frame = DbcFrame::default();
    assert_eq!(frame.get_id(), 0);
    assert!(frame.merge_entry(Entry::Version(DbcVersion("1".to_string()))).is_err());
    assert!(frame.merge_entry(Entry::SignalDefinition(signal_def())).is_ok());
    assert_eq!(frame.signal_count(), 1);
    let mut signal = DbcSignal::default();
    assert!(signal.merge_entry(Entry::MessageDefinition(frame_def(5))).is_err());
    assert!(!signal.has_definition());
}

#[test]
fn library_from_a_table() {
    let mut signals: NameMap<DbcSignal> = NameMap::new();
    signals.insert(
        "Engine_Speed".to_string(),
        DbcSignal::new(Some(signal_def()), None, NameMap::new(), None),
    );
    let frame = DbcFrame::new(
        "test".to_string(),
        77,
        6,
        "Vector_XXX".to_string(),
        NameMap::new(),
        None,
        signals,
    );
    let mut table = HashMap::new();
    table.insert(77u32, frame);
    let lib = DbcLibrary::new(table);
    assert_eq!(lib.len(), 1);
    assert_eq!(lib.get_frame(77).unwrap().get_name(), "test");
    assert!(lib.get_signal("Engine_Speed").is_some());
}

#[test]
fn names_keep_their_order() {
    let mut map: NameMap<u64> = NameMap::new();
    assert!(map.is_empty());
    assert_eq!(map.insert("b".to_string(), 1), None);
    assert_eq!(map.insert("a".to_string(), 2), None);
    assert_eq!(map.insert("b".to_string(), 3), Some(1));
    assert_eq!(map.len(), 2);
    assert_eq!(map.key_at(0), "b");
    assert_eq!(*map.value_at(0), 3);
    assert_eq!(map.key_at(1), "a");
    assert_eq!(map.get("a"), Some(&2));
    assert_eq!(map.get("c"), None);
    assert_eq!(map.position("a"), Some(1));
    assert!(map.contains_key("b"));
    *map.value_at_mut(1) = 9;
    assert_eq!(map.get("a"), Some(&9));
}

#[test]
fn errors_in_words() {
    assert_eq!(
        DbcError::MissingContext.to_string(),
        "Tried to add SignalDefinition without last ID."
    );
    assert_eq!(
        DbcError::UnsupportedEntry(EntryType::Version).to_string(),
        "Unsupported entry: Version."
    );
    assert_eq!(
        DbcError::MissingSignalData("Engine_Speed".to_string()).to_string(),
        "Missing signal data: Engine_Speed"
    );
    assert_eq!(
        DbcError::MissingDefinition("Bare".to_string()).to_string(),
        "Missing signal definition: Bare"
    );
    assert_eq!(
        DbcError::Overflow(65537).to_string(),
        "Error encoding signal: Signal does not fit into 65537"
    );
}

#[test]
fn many_lines() {
    let mut text = String::new();
    for id in 1..=200u32 {
        text.push_str(&format!("BO_ {} Frame{} : 8 Node\r\n", id, id));
        for s in 0..4 {
            text.push_str(&format!(
                " SG_ Signal{}_{} : {}|16@1+ (0.5,0) [0|100] \"unit\" Vector__XXX\r\n",
                id,
                s,
                16 * s
            ));
        }
        text.push_str("\r\n");
    }
    let lib = DbcLibrary::from_text(&text);
    assert_eq!(lib.len(), 200);
    for id in 1..=200u32 {
        let frame = lib.get_frame(id).unwrap();
        assert_eq!(frame.get_id(), id);
        assert_eq!(frame.signal_count(), 4);
        assert_eq!(frame.get_name(), &format!("Frame{}", id));
    }
    assert!(lib.get_signal("Signal77_3").is_some());
}
