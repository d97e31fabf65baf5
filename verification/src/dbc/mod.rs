//! The entries of a CAN database: one fact for each line of its text.

use std::str::FromStr;
use vstd::prelude::*;

pub mod library;
pub mod parser;

pub use self::library::{DbcFrame, DbcLibrary, DbcSignal};

verus! {

/// A decimal number as it is written in a database. The number is kept
/// digit for digit, so that no precision is lost before a caller gives it a
/// value in the arithmetic of its choice.
#[derive(Debug, PartialEq, Eq)]
pub struct Decimal {
    text: String,
}

impl View for Decimal {
    type V = Seq<char>;

    closed spec fn view(&self) -> Seq<char> {
        self.text@
    }
}

impl Clone for Decimal {
    fn clone(&self) -> (copy: Self)
        ensures
            copy@ == self@,
    {
        Decimal { text: self.text.clone() }
    }
}

impl Decimal {
    /// Reads a decimal number: an optional minus sign, digits, optionally
    /// a point and more digits, optionally the letter `e` and a power of
    /// ten with an optional minus sign.
    pub fn parse(text: &str) -> (r: Option<Decimal>)
        ensures
            match r {
                Some(number) => crate::text::decimal_of(text@) == Some(number@),
                None => crate::text::decimal_of(text@).is_none(),
            },
    {
        if crate::text::is_decimal_text(text) {
            Some(Decimal { text: text.to_owned() })
        } else {
            None
        }
    }

    /// The number zero, written with one digit.
    pub fn zero() -> (number: Decimal)
        ensures
            number@ == "0"@,
    {
        Decimal { text: "0".to_owned() }
    }

    /// The number as it is written.
    pub fn as_str(&self) -> (text: &str)
        ensures
            text@ == self@,
    {
        self.text.as_str()
    }
}

/// `VERSION` entry.
#[derive(Debug, Clone, Eq, PartialEq)]
pub struct DbcVersion(pub String);

/// `BS_` entry: the speed of the bus.
#[derive(Debug, Clone, Eq, PartialEq)]
pub struct BusConfiguration(pub Decimal);

/// Container for CAN frame definition from DBC
#[derive(Debug, Clone, Eq, PartialEq)]
pub struct DbcFrameDefinition {
    /// Arbitration ID
    pub id: u32,
    /// CAN frame name
    pub name: String,
    /// Length of frame in bytes
    pub message_len: u32,
    /// Node that sends the frame
    pub sending_node: String,
}

/// Free text that describes a frame.
#[derive(Debug, Clone, Eq, PartialEq)]
pub struct DbcMessageDescription {
    /// Arbitration ID of the frame
    pub id: u32,
    /// The text
    pub description: String,
}

/// One attribute of a frame.
#[derive(Debug, Clone, Eq, PartialEq)]
pub struct DbcMessageAttribute {
    /// Name of the attribute
    pub name: String,
    /// Arbitration ID of the frame
    pub id: u32,
    /// Value of the attribute
    pub value: String,
}

/// Container for CAN signal definition from DBC
#[derive(Debug, Clone, Eq, PartialEq)]
pub struct DbcSignalDefinition {
    /// Signal name
    pub name: String,
    /// Bit position in frame where the signal starts
    pub start_bit: usize,
    /// Length of the signal in bits
    pub bit_len: usize,
    /// Flag for if the signal is little endian
    pub little_endian: bool,
    /// Flag for if the signal is signed
    pub signed: bool,
    /// Factor that has to be applied to retrieve the physical value of the signal
    pub scale: Decimal,
    /// Offset that has to be applied to retrieve the physical value of the signal
    pub offset: Decimal,
    /// Minimum value of the signal
    pub min_value: Decimal,
    /// Maximum value of the signal
    pub max_value: Decimal,
    /// Unit of the physical value of the signal
    pub units: String,
    /// Nodes that receive the signal, seperated by commas
    pub receiving_node: String,
}

/// Free text that describes a signal.
#[derive(Debug, Clone, Eq, PartialEq)]
pub struct DbcSignalDescription {
    /// Arbitration ID of the frame that carries the signal
    pub id: u32,
    /// Name of the signal
    pub signal_name: String,
    /// The text
    pub description: String,
}

/// One attribute of a signal.
#[derive(Debug, Clone, Eq, PartialEq)]
pub struct DbcSignalAttribute {
    /// Name of the attribute
    pub name: String,
    /// Arbitration ID of the frame that carries the signal
    pub id: u32,
    /// Name of the signal
    pub signal_name: String,
    /// Value of the attribute
    pub value: String,
}

/// Composed DBC entry.
#[derive(Debug, Clone, Eq, PartialEq)]
pub enum Entry {
    /// `VERSION`
    Version(DbcVersion),
    /// `BS_: <Speed>`
    BusConfiguration(BusConfiguration),
    /// `BO_ [can id] [message name]: [message length] [sending node]`
    MessageDefinition(DbcFrameDefinition),
    /// `CM_ BO_ [can id] [signal name] "[description]"`
    MessageDescription(DbcMessageDescription),
    /// `BA_ "[attribute name]" BO_ [node|can id] [signal name] [attribute value];`
    MessageAttribute(DbcMessageAttribute),
    /// `SG_ [signal name] [...] : [start bit]|[length]@[endian][sign] [[min]|[max]] "[unit]" [receiving nodes]`
    SignalDefinition(DbcSignalDefinition),
    /// `CM_ SG_ [can id] [signal name] "[description]"`
    SignalDescription(DbcSignalDescription),
    /// `BA_ "[attribute name]" SG_ [node|can id] [signal name] [attribute value];`
    SignalAttribute(DbcSignalAttribute),
    /// A line of some other kind, kept as text.
    Unknown(String),
}

/// The kind of an `Entry`.
#[derive(Debug, Clone, Copy, Eq, PartialEq, Structural)]
pub enum EntryType {
    Version,
    BusConfiguration,
    MessageDefinition,
    MessageDescription,
    MessageAttribute,
    SignalDefinition,
    SignalDescription,
    SignalAttribute,
    SignalLongName,
    Unknown,
}

/// A `DbcFrameDefinition` with each string as its sequence of characters.
pub struct DbcFrameDefinitionView {
    pub id: u32,
    pub name: Seq<char>,
    pub message_len: u32,
    pub sending_node: Seq<char>,
}

impl View for DbcFrameDefinition {
    type V = DbcFrameDefinitionView;

    open spec fn view(&self) -> DbcFrameDefinitionView {
        DbcFrameDefinitionView {
            id: self.id,
            name: self.name@,
            message_len: self.message_len,
            sending_node: self.sending_node@,
        }
    }
}

/// A `DbcMessageDescription` with each string as its sequence of characters.
pub struct DbcMessageDescriptionView {
    pub id: u32,
    pub description: Seq<char>,
}

impl View for DbcMessageDescription {
    type V = DbcMessageDescriptionView;

    open spec fn view(&self) -> DbcMessageDescriptionView {
        DbcMessageDescriptionView { id: self.id, description: self.description@ }
    }
}

/// A `DbcMessageAttribute` with each string as its sequence of characters.
pub struct DbcMessageAttributeView {
    pub name: Seq<char>,
    pub id: u32,
    pub value: Seq<char>,
}

impl View for DbcMessageAttribute {
    type V = DbcMessageAttributeView;

    open spec fn view(&self) -> DbcMessageAttributeView {
        DbcMessageAttributeView { name: self.name@, id: self.id, value: self.value@ }
    }
}

/// A `DbcSignalDefinition` with each string as its sequence of characters.
pub struct DbcSignalDefinitionView {
    pub name: Seq<char>,
    pub start_bit: usize,
    pub bit_len: usize,
    pub little_endian: bool,
    pub signed: bool,
    pub scale: Seq<char>,
    pub offset: Seq<char>,
    pub min_value: Seq<char>,
    pub max_value: Seq<char>,
    pub units: Seq<char>,
    pub receiving_node: Seq<char>,
}

impl View for DbcSignalDefinition {
    type V = DbcSignalDefinitionView;

    open spec fn view(&self) -> DbcSignalDefinitionView {
        DbcSignalDefinitionView {
            name: self.name@,
            start_bit: self.start_bit,
            bit_len: self.bit_len,
            little_endian: self.little_endian,
            signed: self.signed,
            scale: self.scale@,
            offset: self.offset@,
            min_value: self.min_value@,
            max_value: self.max_value@,
            units: self.units@,
            receiving_node: self.receiving_node@,
        }
    }
}

/// A `DbcSignalDescription` with each string as its sequence of characters.
pub struct DbcSignalDescriptionView {
    pub id: u32,
    pub signal_name: Seq<char>,
    pub description: Seq<char>,
}

impl View for DbcSignalDescription {
    type V = DbcSignalDescriptionView;

    open spec fn view(&self) -> DbcSignalDescriptionView {
        DbcSignalDescriptionView {
            id: self.id,
            signal_name: self.signal_name@,
            description: self.description@,
        }
    }
}

/// A `DbcSignalAttribute` with each string as its sequence of characters.
pub struct DbcSignalAttributeView {
    pub name: Seq<char>,
    pub id: u32,
    pub signal_name: Seq<char>,
    pub value: Seq<char>,
}

impl View for DbcSignalAttribute {
    type V = DbcSignalAttributeView;

    open spec fn view(&self) -> DbcSignalAttributeView {
        DbcSignalAttributeView {
            name: self.name@,
            id: self.id,
            signal_name: self.signal_name@,
            value: self.value@,
        }
    }
}

/// An `Entry` with each string as its sequence of characters.
pub enum EntryView {
    Version(Seq<char>),
    BusConfiguration(Seq<char>),
    MessageDefinition(DbcFrameDefinitionView),
    MessageDescription(DbcMessageDescriptionView),
    MessageAttribute(DbcMessageAttributeView),
    SignalDefinition(DbcSignalDefinitionView),
    SignalDescription(DbcSignalDescriptionView),
    SignalAttribute(DbcSignalAttributeView),
    Unknown(Seq<char>),
}

impl View for Entry {
    type V = EntryView;

    open spec fn view(&self) -> EntryView {
        match self {
            Entry::Version(v) => EntryView::Version(v.0@),
            Entry::BusConfiguration(b) => EntryView::BusConfiguration(b.0@),
            Entry::MessageDefinition(d) => EntryView::MessageDefinition(d@),
            Entry::MessageDescription(d) => EntryView::MessageDescription(d@),
            Entry::MessageAttribute(a) => EntryView::MessageAttribute(a@),
            Entry::SignalDefinition(d) => EntryView::SignalDefinition(d@),
            Entry::SignalDescription(d) => EntryView::SignalDescription(d@),
            Entry::SignalAttribute(a) => EntryView::SignalAttribute(a@),
            Entry::Unknown(text) => EntryView::Unknown(text@),
        }
    }
}

impl EntryView {
    /// The kind of this entry.
    pub open spec fn kind(self) -> EntryType {
        match self {
            EntryView::Version(_) => EntryType::Version,
            EntryView::BusConfiguration(_) => EntryType::BusConfiguration,
            EntryView::MessageDefinition(_) => EntryType::MessageDefinition,
            EntryView::MessageDescription(_) => EntryType::MessageDescription,
            EntryView::MessageAttribute(_) => EntryType::MessageAttribute,
            EntryView::SignalDefinition(_) => EntryType::SignalDefinition,
            EntryView::SignalDescription(_) => EntryType::SignalDescription,
            EntryView::SignalAttribute(_) => EntryType::SignalAttribute,
            EntryView::Unknown(_) => EntryType::Unknown,
        }
    }
}

impl Entry {
    /// Returns the `EntryType` of an `Entry`.
    pub fn get_type(&self) -> (t: EntryType)
        ensures
            t == self@.kind(),
    {
        match self {
            Entry::Version(_) => EntryType::Version,
            Entry::BusConfiguration(_) => EntryType::BusConfiguration,
            Entry::MessageDefinition(_) => EntryType::MessageDefinition,
            Entry::MessageDescription(_) => EntryType::MessageDescription,
            Entry::MessageAttribute(_) => EntryType::MessageAttribute,
            Entry::SignalDefinition(_) => EntryType::SignalDefinition,
            Entry::SignalDescription(_) => EntryType::SignalDescription,
            Entry::SignalAttribute(_) => EntryType::SignalAttribute,
            Entry::Unknown(_) => EntryType::Unknown,
        }
    }

    /// The name of the kind of this entry.
    pub fn to_string(&self) -> (s: String)
        ensures
            s@ == self@.kind().name_chars(),
    {
        self.get_type().to_string()
    }
}

impl EntryType {
    /// The name of the kind, as a sequence of characters.
    pub open spec fn name_chars(&self) -> Seq<char> {
        match self {
            EntryType::Version => "Version"@,
            EntryType::BusConfiguration => "BusConfiguration"@,
            EntryType::MessageDefinition => "MessageDefinition"@,
            EntryType::MessageDescription => "MessageDescription"@,
            EntryType::MessageAttribute => "MessageAttribute"@,
            EntryType::SignalDefinition => "SignalDefinition"@,
            EntryType::SignalDescription => "SignalDescription"@,
            EntryType::SignalAttribute => "SignalAttribute"@,
            EntryType::SignalLongName => "SignalLongName"@,
            EntryType::Unknown => "Unknown"@,
        }
    }

    /// The name of the kind.
    pub fn name(&self) -> (s: &'static str)
        ensures
            s@ == self.name_chars(),
    {
        match self {
            EntryType::Version => "Version",
            EntryType::BusConfiguration => "BusConfiguration",
            EntryType::MessageDefinition => "MessageDefinition",
            EntryType::MessageDescription => "MessageDescription",
            EntryType::MessageAttribute => "MessageAttribute",
            EntryType::SignalDefinition => "SignalDefinition",
            EntryType::SignalDescription => "SignalDescription",
            EntryType::SignalAttribute => "SignalAttribute",
            EntryType::SignalLongName => "SignalLongName",
            EntryType::Unknown => "Unknown",
        }
    }

    /// The name of the kind, as an owned string.
    pub fn to_string(&self) -> (s: String)
        ensures
            s@ == self.name_chars(),
    {
        self.name().to_owned()
    }
}

/// What can go wrong when an entry is added to a library or a frame is
/// encoded.
#[derive(Debug, Clone, Eq, PartialEq)]
pub enum DbcError {
    /// A signal definition came before any frame.
    MissingContext,
    /// The entry is of a kind that a library does not hold.
    UnsupportedEntry(EntryType),
    /// The signal of this name has no definition, so no bits to fill.
    MissingDefinition(String),
    /// No value was given for the signal of this name.
    MissingSignalData(String),
    /// The value is too large for the bits of its signal.
    Overflow(u64),
}

/// A `DbcError` with each name as its sequence of characters.
pub enum Failure {
    /// A signal definition came before any frame.
    MissingContext,
    /// The entry is of a kind that a library does not hold.
    UnsupportedEntry(EntryType),
    /// The signal of this name has no definition, so no bits to fill.
    MissingDefinition(Seq<char>),
    /// No value was given for the signal of this name.
    MissingSignalData(Seq<char>),
    /// The value is too large for the bits of its signal.
    Overflow(u64),
}

impl View for DbcError {
    type V = Failure;

    open spec fn view(&self) -> Failure {
        match self {
            DbcError::MissingContext => Failure::MissingContext,
            DbcError::UnsupportedEntry(kind) => Failure::UnsupportedEntry(*kind),
            DbcError::MissingDefinition(name) => Failure::MissingDefinition(name@),
            DbcError::MissingSignalData(name) => Failure::MissingSignalData(name@),
            DbcError::Overflow(raw) => Failure::Overflow(*raw),
        }
    }
}

impl EntryType {
    /// The number of the kind: the kinds are counted from zero in the order
    /// in which they are declared.
    pub open spec fn number(self) -> int {
        match self {
            EntryType::Version => 0,
            EntryType::BusConfiguration => 1,
            EntryType::MessageDefinition => 2,
            EntryType::MessageDescription => 3,
            EntryType::MessageAttribute => 4,
            EntryType::SignalDefinition => 5,
            EntryType::SignalDescription => 6,
            EntryType::SignalAttribute => 7,
            EntryType::SignalLongName => 8,
            EntryType::Unknown => 9,
        }
    }

    /// The kind of the given number, if there is one.
    pub fn from_i32(n: i32) -> (r: Option<EntryType>)
        ensures
            match r {
                Some(kind) => kind.number() == n,
                None => n < 0 || n > 9,
            },
    {
        match n {
            0 => Some(EntryType::Version),
            1 => Some(EntryType::BusConfiguration),
            2 => Some(EntryType::MessageDefinition),
            3 => Some(EntryType::MessageDescription),
            4 => Some(EntryType::MessageAttribute),
            5 => Some(EntryType::SignalDefinition),
            6 => Some(EntryType::SignalDescription),
            7 => Some(EntryType::SignalAttribute),
            8 => Some(EntryType::SignalLongName),
            9 => Some(EntryType::Unknown),
            _ => None,
        }
    }
}

impl EntryType {
    /// The kind of the given number, or the error that tells the number
    /// where there is no such kind.
    pub fn from_number(n: i32) -> (r: Result<EntryType, ParseEntryError>)
        ensures
            match r {
                Ok(kind) => kind.number() == n,
                Err(e) => (n < 0 || n > 9) && e.reason() == EntryErrorKind::UnknownEntryType(n),
            },
    {
        match EntryType::from_i32(n) {
            Some(kind) => Ok(kind),
            None => Err(ParseEntryError { kind: EntryErrorKind::UnknownEntryType(n) }),
        }
    }
}

/// Error returned on failure to parse DBC `Entry`.
#[derive(Debug, Clone, Eq, PartialEq)]
pub struct ParseEntryError {
    kind: EntryErrorKind,
}

impl ParseEntryError {
    /// The reason of the error.
    pub closed spec fn reason(&self) -> EntryErrorKind {
        self.kind
    }

    /// What went wrong, in words.
    pub fn __description(&self) -> (text: &str)
        ensures
            text@ == self.reason().description_chars(),
    {
        self.kind.__description()
    }

    /// The error that caused this one: there is none.
    pub fn __cause(&self) -> (cause: Option<&ParseEntryError>)
        ensures
            cause.is_none(),
    {
        self.kind.__cause()
    }

    /// What went wrong, in words, as an owned string.
    pub fn to_string(&self) -> (text: String)
        ensures
            text@ == self.reason().description_chars(),
    {
        self.__description().to_owned()
    }
}

/// Internal type DBC `Entry` parsing error.
#[derive(Debug, Clone, Copy, Eq, PartialEq, Structural)]
pub enum EntryErrorKind {
    /// Could not find a regex match for input
    RegexNoMatch,
    /// Integer could not be converted into valid `EntryType`
    UnknownEntryType(i32),
}

impl EntryErrorKind {
    /// What went wrong, in words, as a sequence of characters.
    pub open spec fn description_chars(&self) -> Seq<char> {
        match self {
            EntryErrorKind::RegexNoMatch => "could not find a regex match for input"@,
            EntryErrorKind::UnknownEntryType(_) => "integer could not be converted into valid EntryType"@,
        }
    }

    /// What went wrong, in words.
    pub fn __description(&self) -> (text: &str)
        ensures
            text@ == self.description_chars(),
    {
        match *self {
            EntryErrorKind::RegexNoMatch => "could not find a regex match for input",
            EntryErrorKind::UnknownEntryType(_) => {
                "integer could not be converted into valid EntryType"
            },
        }
    }

    /// The error that caused this one: there is none.
    pub fn __cause(&self) -> (cause: Option<&ParseEntryError>)
        ensures
            cause.is_none(),
    {
        match *self {
            EntryErrorKind::RegexNoMatch => None,
            EntryErrorKind::UnknownEntryType(_) => None,
        }
    }

    /// What went wrong, in words, as an owned string.
    pub fn to_string(&self) -> (text: String)
        ensures
            text@ == self.description_chars(),
    {
        self.__description().to_owned()
    }
}

impl From<EntryErrorKind> for ParseEntryError {
    fn from(kind: EntryErrorKind) -> (error: Self)
        ensures
            error.reason() == kind,
    {
        ParseEntryError { kind }
    }
}

impl vstd::std_specs::convert::FromSpecImpl<EntryErrorKind> for ParseEntryError {
    open spec fn obeys_from_spec() -> bool {
        true
    }

    closed spec fn from_spec(kind: EntryErrorKind) -> ParseEntryError {
        ParseEntryError { kind }
    }
}

impl Entry {
    /// Reads one line of a database. A line that spells no entry gives the
    /// error `RegexNoMatch`.
    pub fn parse(line: &str) -> (r: Result<Entry, ParseEntryError>)
        ensures
            match r {
                Ok(entry) => parser::entry_in(line@) == Some(entry@),
                Err(e) => parser::entry_in(line@).is_none() && e.reason()
                    == EntryErrorKind::RegexNoMatch,
            },
    {
        match parser::parse_dbc(line) {
            Some(entry) => Ok(entry),
            None => Err(ParseEntryError { kind: EntryErrorKind::RegexNoMatch }),
        }
    }
}

impl FromStr for Entry {
    type Err = ParseEntryError;

    fn from_str(line: &str) -> (r: Result<Self, Self::Err>)
        ensures
            match r {
                Ok(entry) => parser::entry_in(line@) == Some(entry@),
                Err(e) => parser::entry_in(line@).is_none() && e.reason()
                    == EntryErrorKind::RegexNoMatch,
            },
    {
        Entry::parse(line)
    }
}

impl Failure {
    /// What went wrong, in words, as a sequence of characters.
    pub open spec fn message(self) -> Seq<char> {
        match self {
            Failure::MissingContext => "Tried to add SignalDefinition without last ID."@,
            Failure::UnsupportedEntry(kind) => "Unsupported entry: "@ + kind.name_chars() + "."@,
            Failure::MissingDefinition(name) => "Missing signal definition: "@ + name,
            Failure::MissingSignalData(name) => "Missing signal data: "@ + name,
            Failure::Overflow(raw) => "Error encoding signal: Signal does not fit into "@
                + crate::text::digits_of(raw as nat),
        }
    }
}

impl DbcError {
    /// What went wrong, in words.
    pub fn to_string(&self) -> (text: String)
        ensures
            text@ == self@.message(),
    {
        match self {
            DbcError::MissingContext => "Tried to add SignalDefinition without last ID.".to_owned(),
            DbcError::UnsupportedEntry(kind) => {
                let mut text = "Unsupported entry: ".to_owned();
                text.append(kind.name());
                text.append(".");
                text
            },
            DbcError::MissingDefinition(name) => {
                let mut text = "Missing signal definition: ".to_owned();
                text.append(name.as_str());
                text
            },
            DbcError::MissingSignalData(name) => {
                let mut text = "Missing signal data: ".to_owned();
                text.append(name.as_str());
                text
            },
            DbcError::Overflow(raw) => {
                let mut text = "Error encoding signal: Signal does not fit into ".to_owned();
                text.append(crate::text::decimal_text(*raw).as_str());
                text
            },
        }
    }
}

/// Table of the labels of a signal whose values are enumerated.
#[derive(Clone, Debug, Eq, PartialEq)]
pub struct ValueDefinition {
    values: Vec<String>,
}

impl Default for ValueDefinition {
    fn default() -> (r: Self)
        ensures
            r.labels() == Seq::<Seq<char>>::empty(),
    {
        let r = ValueDefinition { values: Vec::new() };
        assert(r.labels() =~= Seq::<Seq<char>>::empty());
        r
    }
}

impl ValueDefinition {
    /// The labels in the order of their values.
    pub closed spec fn labels(&self) -> Seq<Seq<char>> {
        self.values@.map_values(|s: String| s@)
    }
}

/// Types an attribute can be
#[derive(Clone, Debug, Eq, PartialEq)]
pub enum AttributeType {
    /// Integer type with min/max values
    Int { min: i32, max: i32 },
    /// Decimal type with min/max values
    Float { min: Decimal, max: Decimal },
    /// String type
    String,
    /// Enum type, represented as a vector of `String`s
    Enum(Vec<String>),
}

} // verus!
