use fastcan::dbc::{DbcError, DbcFrame, DbcSignal, DbcSignalDefinition, Decimal};
use fastcan::mapper::{encode_frame, DecodeMessage, EncodeMessage};
use fastcan::name_map::NameMap;

fn decimal(text: &str) -> Decimal {
    Decimal::parse(text).unwrap()
}

fn to_float(d: &Decimal) -> f32 {
    d.as_str().parse::<f32>().unwrap()
}

fn physical(signal: &DbcSignal, raw: u64) -> f32 {
    let d = signal.get_definition();
    (raw as f32) * to_float(&d.scale) + to_float(&d.offset)
}

fn relative_eq(a: f32, b: f32) -> bool {
    a == b || (a - b).abs() <= f32::EPSILON * a.abs().max(b.abs())
}

fn raw_of(signal: &DbcSignal, value: f64) -> u64 {
    let d = signal.get_definition();
    ((value - to_float(&d.offset) as f64) / to_float(&d.scale) as f64) as u64
}

fn signal_def() -> DbcSignalDefinition {
    DbcSignalDefinition {
        name: "Engine_Speed".to_string(),
        start_bit: 24,
        bit_len: 16,
        little_endian: true,
        signed: false,
        scale: decimal("0.125"),
        offset: decimal("0"),
        min_value: decimal("0"),
        max_value: decimal("8031.88"),
        units: "rpm".to_string(),
        receiving_node: "Vector__XXX".to_string(),
    }
}

fn signal_def_be() -> DbcSignalDefinition {
    let mut spndef = signal_def();
    spndef.little_endian = false;
    spndef
}

fn signal_def_alt() -> DbcSignalDefinition {
    let mut sig_alt_def = signal_def();
    sig_alt_def.offset = decimal("10");
    sig_alt_def.little_endian = false;
    sig_alt_def.start_bit = 41;
    sig_alt_def
}

fn frame_def() -> DbcFrame {
    let mut signal_map: NameMap<DbcSignal> = NameMap::new();

    let dbc_signal = DbcSignal::new(Some(signal_def()), None, NameMap::new(), None);
    let dbc_signal_alt = DbcSignal::new(Some(signal_def_alt()), None, NameMap::new(), None);

    signal_map.insert("Engine_Speed".to_string(), dbc_signal);
    signal_map.insert("Engine_Speed2".to_string(), dbc_signal_alt);

    DbcFrame::new(
        "test".to_string(),
        2364539904,
        6,
        "Vector_XXX".to_string(),
        NameMap::new(),
        None,
        signal_map,
    )
}

fn msg() -> Vec<u8> {
    [0x11, 0x22, 0x33, 0x44, 0x55, 0x66, 0x77, 0x88].to_vec()
}

fn msg_be() -> Vec<u8> {
    [0x88, 0x77, 0x66, 0x55, 0x44, 0x33, 0x22, 0x11].to_vec()
}

#[test]
fn tests_test_parse_array() {
    let dbc_signal = DbcSignal::new(Some(signal_def()), None, NameMap::new(), None);
    let dbc_signal_be = DbcSignal::new(Some(signal_def_be()), None, NameMap::new(), None);

    let raw = dbc_signal.decode_message(msg()).unwrap();
    assert_eq!(raw, 21828);
    assert!(relative_eq(physical(&dbc_signal, raw), 2728.5f32));
    let raw = dbc_signal_be.decode_message(msg_be()).unwrap();
    assert!(relative_eq(physical(&dbc_signal_be, raw), 2728.5));
}

#[test]
fn decode_full_array() {
    let dbc_signal = DbcSignal::new(Some(signal_def()), None, NameMap::new(), None);
    let dbc_signal_be = DbcSignal::new(Some(signal_def_be()), None, NameMap::new(), None);
    let full: [u8; 8] = [0x11, 0x22, 0x33, 0x44, 0x55, 0x66, 0x77, 0x88];
    let full_be: [u8; 8] = [0x88, 0x77, 0x66, 0x55, 0x44, 0x33, 0x22, 0x11];
    let raw = dbc_signal.decode_message(&full).unwrap();
    assert_eq!(physical(&dbc_signal, raw), 2728.5);
    let raw = dbc_signal_be.decode_message(&full_be).unwrap();
    assert_eq!(physical(&dbc_signal_be, raw), 2728.5);
}

#[test]
fn tests_test_parse_message() {
    let dbc_signal = DbcSignal::new(Some(signal_def()), None, NameMap::new(), None);
    let dbc_signal_be = DbcSignal::new(Some(signal_def_be()), None, NameMap::new(), None);

    let raw = dbc_signal.decode_message(msg()[..7].to_vec()).unwrap();
    assert!(relative_eq(physical(&dbc_signal, raw), 2728.5));
    let raw = dbc_signal_be.decode_message(msg_be()[..7].to_vec()).unwrap();
    assert!(relative_eq(physical(&dbc_signal_be, raw), 2728.5));
    assert!(dbc_signal.decode_message(msg()[..0].to_vec()).is_none());
    assert!(dbc_signal_be.decode_message(msg_be()[..0].to_vec()).is_none());
}

#[test]
fn tests_test_encode_message() {
    let dbc_signal = DbcSignal::new(Some(signal_def()), None, NameMap::new(), None);
    let dbc_signal_alt = DbcSignal::new(Some(signal_def_alt()), None, NameMap::new(), None);

    let mut signal_map: NameMap<u64> = NameMap::new();
    signal_map.insert("Engine_Speed".to_string(), raw_of(&dbc_signal, 2728.5));
    signal_map.insert("Engine_Speed2".to_string(), raw_of(&dbc_signal_alt, 2728.5));

    let ret: Result<Vec<u8>, DbcError> = frame_def().encode_message(&signal_map);

    assert!(ret.is_ok());

    let ret: Vec<u8> = ret.unwrap();

    assert!(ret[3] == 0x44 && ret[4] == 0x55);
    assert_eq!(ret, vec![0x00, 0xa9, 0xe8, 0x44, 0x55, 0x00, 0x00, 0x00]);

    let sig = dbc_signal.decode_message(ret.clone());

    assert!(sig.is_some());

    assert_eq!(physical(&dbc_signal, sig.unwrap()), 2728.5);

    let sig = dbc_signal_alt.decode_message(ret);

    assert!(sig.is_some());

    assert_eq!(physical(&dbc_signal_alt, sig.unwrap()), 2728.5);
}

#[test]
fn encode_into_an_array() {
    let mut signal_map: NameMap<u64> = NameMap::new();
    signal_map.insert("Engine_Speed".to_string(), 21828);
    signal_map.insert("Engine_Speed2".to_string(), 21748);
    let ret: Result<[u8; 8], DbcError> = frame_def().encode_message(&signal_map);
    assert_eq!(ret, Ok([0x00, 0xa9, 0xe8, 0x44, 0x55, 0x00, 0x00, 0x00]));
    assert_eq!(encode_frame(&frame_def(), &signal_map), ret);
}

#[test]
fn encode_requires_all_signals() {
    let mut signal_map: NameMap<u64> = NameMap::new();
    signal_map.insert("Engine_Speed".to_string(), 21828);
    let ret: Result<Vec<u8>, DbcError> = frame_def().encode_message(&signal_map);
    assert_eq!(ret, Err(DbcError::MissingSignalData("Engine_Speed2".to_string())));

    let mut signal_map: NameMap<u64> = NameMap::new();
    signal_map.insert("Engine_Speed2".to_string(), 21748);
    let ret: Result<[u8; 8], DbcError> = frame_def().encode_message(&signal_map);
    assert_eq!(ret, Err(DbcError::MissingSignalData("Engine_Speed".to_string())));
}

#[test]
fn encode_refuses_large_values() {
    let mut signal_map: NameMap<u64> = NameMap::new();
    signal_map.insert("Engine_Speed".to_string(), 21828);
    signal_map.insert("Engine_Speed2".to_string(), 70000);
    let ret: Result<[u8; 8], DbcError> = frame_def().encode_message(&signal_map);
    assert_eq!(ret, Err(DbcError::Overflow(70000)));
}

#[test]
fn encode_needs_definitions() {
    let mut signals: NameMap<DbcSignal> = NameMap::new();
    signals.insert(
        "Known".to_string(),
        DbcSignal::new(Some(signal_def()), None, NameMap::new(), None),
    );
    signals.insert("Bare".to_string(), DbcSignal::new(None, None, NameMap::new(), None));
    let frame =
        DbcFrame::new("f".to_string(), 1, 8, "n".to_string(), NameMap::new(), None, signals);
    let mut signal_map: NameMap<u64> = NameMap::new();
    signal_map.insert("Known".to_string(), 1);
    signal_map.insert("Bare".to_string(), 1);
    let ret: Result<[u8; 8], DbcError> = frame.encode_message(&signal_map);
    assert_eq!(ret, Err(DbcError::MissingDefinition("Bare".to_string())));
}

#[test]
fn encode_reaches_the_last_byte() {
    let mut def = signal_def();
    def.start_bit = 56;
    def.bit_len = 8;
    let mut signals: NameMap<DbcSignal> = NameMap::new();
    signals.insert("Top".to_string(), DbcSignal::new(Some(def), None, NameMap::new(), None));
    let frame =
        DbcFrame::new("f".to_string(), 1, 8, "n".to_string(), NameMap::new(), None, signals);
    let mut signal_map: NameMap<u64> = NameMap::new();
    signal_map.insert("Top".to_string(), 0xab);
    let ret: Vec<u8> = frame.encode_message(&signal_map).unwrap();
    assert_eq!(ret, vec![0, 0, 0, 0, 0, 0, 0, 0xab]);
    let signal = frame.get_signal("Top").unwrap();
    assert_eq!(signal.decode_message(ret), Some(0xab));
}

#[test]
fn empty_frame_encodes_to_zeros() {
    let frame = DbcFrame::default();
    let ret: [u8; 8] = frame.encode_message(&NameMap::new()).unwrap();
    assert_eq!(ret, [0u8; 8]);
}
