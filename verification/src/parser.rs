//! Signal processing using PGN/SPN definitions.
//!
//! The frames of this module keep, of each signal, its definition, its
//! description and the suspect parameter number that the attribute `SPN`
//! gives it, and nothing of the other attributes.

use crate::dbc::library::{FromDbc, SignalModel};
use crate::dbc::parser::{entry_in, entry_view, tokenize, usize_of};
use crate::dbc::{
    DbcError, DbcSignalAttribute, DbcSignalDefinition, DbcSignalDefinitionView,
    DbcSignalDescription, Decimal, Entry, EntryType, EntryView, Failure, ParseEntryError,
};
use crate::mapper::{
    decode_message, encode_signal, frame_bytes, is_outcome, is_outcome_vec, lemma_failure_stays,
    or_into, parse_array, signal_bytes, signal_decoded, to_vec, zero_bytes, DecodeMessage,
    EncodeMessage,
};
use crate::name_map::{has_key, with_values, NameMap};
use crate::text::{lines_of, parse_usize, split_lines, texts};
use std::collections::hash_map::Entry as MapEntry;
use std::collections::HashMap;
use std::str::FromStr;
use vstd::prelude::*;
use vstd::std_specs::iter::IteratorSpec;

verus! {

broadcast use vstd::std_specs::hash::group_hash_axioms;

/// Error returned on failure to parse `*Definition` type.
#[derive(Debug, Clone, PartialEq, Eq)]
pub struct ParseDefinitionError {
    kind: DefinitionErrorKind,
}

/// Internal type for `*Definition` parsing errors.
#[derive(Debug, Clone, PartialEq, Eq)]
pub enum DefinitionErrorKind {
    /// Internal `Entry` parsing error
    Entry(ParseEntryError),
    /// `Entry` type not applicable in constructing Definition
    UnusedEntry(EntryType),
}

impl ParseDefinitionError {
    /// The reason of the error.
    pub closed spec fn reason(&self) -> DefinitionErrorKind {
        self.kind
    }

    /// The error for an entry of a kind that a definition cannot use.
    pub fn unused(kind: EntryType) -> (error: Self)
        ensures
            error.reason() == DefinitionErrorKind::UnusedEntry(kind),
    {
        ParseDefinitionError { kind: DefinitionErrorKind::UnusedEntry(kind) }
    }

    /// What went wrong, in words.
    pub fn __description(&self) -> (text: &str)
        ensures
            text@ == self.reason().description_chars(),
    {
        self.kind.__description()
    }

    /// The error that caused this one, if one did.
    pub fn __cause(&self) -> (cause: Option<&ParseEntryError>)
        ensures
            cause == self.reason().cause(),
    {
        self.kind.__cause()
    }

    /// What went wrong, in words, as an owned string.
    pub fn to_string(&self) -> (text: String)
        ensures
            text@ == self.reason().description_chars(),
    {
        self.__description().to_owned()
    }
}

impl DefinitionErrorKind {
    /// What went wrong, in words, as a sequence of characters.
    pub open spec fn description_chars(&self) -> Seq<char> {
        match self {
            DefinitionErrorKind::Entry(_) => "internal Entry parsing error"@,
            DefinitionErrorKind::UnusedEntry(_) => "Entry type not applicable in constructing Definition"@,
        }
    }

    /// The error that caused this one, if one did.
    pub open spec fn cause(&self) -> Option<&ParseEntryError> {
        match self {
            DefinitionErrorKind::Entry(e) => Some(e),
            DefinitionErrorKind::UnusedEntry(_) => None,
        }
    }

    /// What went wrong, in words.
    pub fn __description(&self) -> (text: &str)
        ensures
            text@ == self.description_chars(),
    {
        match self {
            DefinitionErrorKind::Entry(_) => "internal Entry parsing error",
            DefinitionErrorKind::UnusedEntry(_) => {
                "Entry type not applicable in constructing Definition"
            },
        }
    }

    /// The error that caused this one, if one did.
    pub fn __cause(&self) -> (cause: Option<&ParseEntryError>)
        ensures
            cause == self.cause(),
    {
        match self {
            DefinitionErrorKind::Entry(e) => Some(e),
            DefinitionErrorKind::UnusedEntry(_e) => None,
        }
    }

    /// What went wrong, in words, as an owned string.
    pub fn to_string(&self) -> (text: String)
        ensures
            text@ == self.description_chars(),
    {
        self.__description().to_owned()
    }
}

impl From<DefinitionErrorKind> for ParseDefinitionError {
    fn from(kind: DefinitionErrorKind) -> (error: Self)
        ensures
            error.reason() == kind,
    {
        ParseDefinitionError { kind }
    }
}

impl vstd::std_specs::convert::FromSpecImpl<DefinitionErrorKind> for ParseDefinitionError {
    open spec fn obeys_from_spec() -> bool {
        true
    }

    closed spec fn from_spec(kind: DefinitionErrorKind) -> ParseDefinitionError {
        ParseDefinitionError { kind }
    }
}

/// A `SignalDefinition` with each string as its sequence of characters.
pub struct SignalDefinitionView {
    pub name: Seq<char>,
    pub number: usize,
    pub id: u32,
    pub description: Seq<char>,
    pub start_bit: usize,
    pub bit_len: usize,
    pub little_endian: bool,
    pub signed: bool,
    pub scale: Seq<char>,
    pub offset: Seq<char>,
    pub min_value: Seq<char>,
    pub max_value: Seq<char>,
    pub units: Seq<char>,
}

/// The decimal number zero, written with one digit.
pub open spec fn zero() -> Seq<char> {
    "0"@
}

impl SignalDefinitionView {
    /// The signal of the given name of which nothing else is known: it
    /// starts at bit 0, has no bits, and is little-endian and unsigned.
    pub open spec fn named(name: Seq<char>) -> SignalDefinitionView {
        SignalDefinitionView {
            name,
            number: 0,
            id: 0,
            description: Seq::empty(),
            start_bit: 0,
            bit_len: 0,
            little_endian: true,
            signed: false,
            scale: zero(),
            offset: zero(),
            min_value: zero(),
            max_value: zero(),
            units: Seq::empty(),
        }
    }

    /// Whether a signal can take in an entry: the entry is about a signal,
    /// and where it is an attribute, its value spells a number.
    pub open spec fn accepts(entry: EntryView) -> bool {
        match entry {
            EntryView::SignalDefinition(_) => true,
            EntryView::SignalDescription(_) => true,
            EntryView::SignalAttribute(a) => usize_of(a.value).is_some(),
            _ => false,
        }
    }

    /// The signal after it has taken in an entry. A definition overwrites
    /// the name, the bit layout, the scale, the offset, the least and the
    /// greatest value and the unit; a description the name, the frame and
    /// the text; an attribute the name, the frame and the number.
    pub open spec fn merge(self, entry: EntryView) -> SignalDefinitionView {
        match entry {
            EntryView::SignalDefinition(d) => SignalDefinitionView {
                name: d.name,
                start_bit: d.start_bit,
                bit_len: d.bit_len,
                little_endian: d.little_endian,
                signed: d.signed,
                scale: d.scale,
                offset: d.offset,
                min_value: d.min_value,
                max_value: d.max_value,
                units: d.units,
                ..self
            },
            EntryView::SignalDescription(d) => SignalDefinitionView {
                name: d.signal_name,
                id: d.id,
                description: d.description,
                ..self
            },
            EntryView::SignalAttribute(a) => match usize_of(a.value) {
                Some(number) => SignalDefinitionView {
                    name: a.signal_name,
                    id: a.id,
                    number,
                    ..self
                },
                None => self,
            },
            _ => self,
        }
    }

    /// The signal that an entry makes on its own: a signal of which
    /// nothing is known, with the entry taken in.
    pub open spec fn from_entry(entry: EntryView) -> SignalDefinitionView {
        SignalDefinitionView::named(Seq::empty()).merge(entry)
    }

    /// The bit layout and the scale of the signal as a definition.
    pub open spec fn definition(self) -> DbcSignalDefinitionView {
        DbcSignalDefinitionView {
            name: self.name,
            start_bit: self.start_bit,
            bit_len: self.bit_len,
            little_endian: self.little_endian,
            signed: self.signed,
            scale: self.scale,
            offset: self.offset,
            min_value: self.min_value,
            max_value: self.max_value,
            units: self.units,
            receiving_node: Seq::empty(),
        }
    }

    /// The signal as a record that has this definition and nothing else.
    pub open spec fn record(self) -> SignalModel {
        SignalModel { definition: Some(self.definition()), ..SignalModel::empty() }
    }
}

/// Suspect Parameter Number definition
#[derive(Debug, PartialEq, Eq, Clone)]
pub struct SignalDefinition {
    name: String,
    number: usize,
    id: u32,
    description: String,
    start_bit: usize,
    bit_len: usize,
    little_endian: bool,
    signed: bool,
    scale: Decimal,
    offset: Decimal,
    min_value: Decimal,
    max_value: Decimal,
    units: String,
}

impl View for SignalDefinition {
    type V = SignalDefinitionView;

    closed spec fn view(&self) -> SignalDefinitionView {
        SignalDefinitionView {
            name: self.name@,
            number: self.number,
            id: self.id,
            description: self.description@,
            start_bit: self.start_bit,
            bit_len: self.bit_len,
            little_endian: self.little_endian,
            signed: self.signed,
            scale: self.scale@,
            offset: self.offset@,
            min_value: self.min_value@,
            max_value: self.max_value@,
            units: self.units@,
        }
    }
}

impl SignalDefinition {
    /// Return new `SignalDefinition` given the definition parameters.
    pub fn new(
        name: String,
        number: usize,
        id: u32,
        description: String,
        start_bit: usize,
        bit_len: usize,
        little_endian: bool,
        signed: bool,
        scale: Decimal,
        offset: Decimal,
        min_value: Decimal,
        max_value: Decimal,
        units: String,
    ) -> (signal: Self)
        ensures
            signal@ == (SignalDefinitionView {
                name: name@,
                number,
                id,
                description: description@,
                start_bit,
                bit_len,
                little_endian,
                signed,
                scale: scale@,
                offset: offset@,
                min_value: min_value@,
                max_value: max_value@,
                units: units@,
            }),
    {
        SignalDefinition {
            name,
            number,
            id,
            description,
            start_bit,
            bit_len,
            little_endian,
            signed,
            scale,
            offset,
            min_value,
            max_value,
            units,
        }
    }

    /// The signal of the given name of which nothing else is known.
    fn named(name: String) -> (signal: Self)
        ensures
            signal@ == SignalDefinitionView::named(name@),
    {
        SignalDefinition::new(
            name,
            0,
            0,
            String::new(),
            0,
            0,
            true,
            false,
            Decimal::zero(),
            Decimal::zero(),
            Decimal::zero(),
            Decimal::zero(),
            String::new(),
        )
    }

    /// Returns the name of the signal
    pub fn get_name(&self) -> (name: &str)
        ensures
            name@ == self@.name,
    {
        self.name.as_str()
    }

    /// Returns the arbitration ID of the frame that the signal was described for
    pub fn get_id(&self) -> (id: u32)
        ensures
            id == self@.id,
    {
        self.id
    }

    /// Returns the free text that describes the signal
    pub fn get_description(&self) -> (description: &str)
        ensures
            description@ == self@.description,
    {
        self.description.as_str()
    }

    /// Returns the suspect parameter number of the signal
    pub fn get_number(&self) -> (number: usize)
        ensures
            number == self@.number,
    {
        self.number
    }

    /// Returns the bit layout and the scale of the signal as a definition,
    /// with no receiving node.
    pub fn get_definition(&self) -> (definition: DbcSignalDefinition)
        ensures
            definition@ == self@.definition(),
    {
        DbcSignalDefinition {
            name: self.name.clone(),
            start_bit: self.start_bit,
            bit_len: self.bit_len,
            little_endian: self.little_endian,
            signed: self.signed,
            scale: self.scale.clone(),
            offset: self.offset.clone(),
            min_value: self.min_value.clone(),
            max_value: self.max_value.clone(),
            units: self.units.clone(),
            receiving_node: String::new(),
        }
    }
}

impl FromDbc for SignalDefinition {
    type Err = ParseDefinitionError;

    fn from_entry(entry: Entry) -> (r: Result<Self, ParseDefinitionError>)
        ensures
            match r {
                Ok(signal) => SignalDefinitionView::accepts(entry@) && signal@
                    == SignalDefinitionView::from_entry(entry@),
                Err(e) => !SignalDefinitionView::accepts(entry@) && e.reason()
                    == DefinitionErrorKind::UnusedEntry(entry@.kind()),
            },
    {
        let mut signal = SignalDefinition::named(String::new());
        match signal.merge_entry(entry) {
            Ok(()) => Ok(signal),
            Err(e) => Err(e),
        }
    }

    fn merge_entry(&mut self, entry: Entry) -> (r: Result<(), ParseDefinitionError>)
        ensures
            final(self)@ == old(self)@.merge(entry@),
            match r {
                Ok(_) => SignalDefinitionView::accepts(entry@),
                Err(e) => !SignalDefinitionView::accepts(entry@) && e.reason()
                    == DefinitionErrorKind::UnusedEntry(entry@.kind()),
            },
    {
        match entry {
            Entry::SignalDefinition(DbcSignalDefinition {
                name,
                start_bit,
                bit_len,
                little_endian,
                signed,
                scale,
                offset,
                min_value,
                max_value,
                units,
                receiving_node: _receiving_node,
            }) => {
                self.name = name;
                self.start_bit = start_bit;
                self.bit_len = bit_len;
                self.little_endian = little_endian;
                self.signed = signed;
                self.scale = scale;
                self.offset = offset;
                self.min_value = min_value;
                self.max_value = max_value;
                self.units = units;
                Ok(())
            },
            Entry::SignalDescription(DbcSignalDescription { id, signal_name, description }) => {
                self.name = signal_name;
                self.id = id;
                self.description = description;
                Ok(())
            },
            Entry::SignalAttribute(DbcSignalAttribute { name: _name, id, signal_name, value }) => {
                match parse_usize(value.as_str()) {
                    Some(number) => {
                        self.name = signal_name;
                        self.id = id;
                        self.number = number;
                        Ok(())
                    },
                    None => Err(ParseDefinitionError::unused(EntryType::SignalAttribute)),
                }
            },
            _ => Err(ParseDefinitionError::unused(entry.get_type())),
        }
    }
}

/// A `FrameDefinition` with each string as its sequence of characters.
pub struct FrameDefinitionView {
    pub id: u32,
    pub name_abbrev: Seq<char>,
    pub description: Seq<char>,
    pub length: u32,
    pub signals: Seq<(Seq<char>, SignalDefinitionView)>,
}

/// The name of the attribute that gives a signal its number.
pub const NUMBER_ATTRIBUTE: &'static str = "SPN";

/// The name of the signal that an entry is about, and whether the entry
/// goes to that signal: a definition and a description do, an attribute
/// does where it is the one that gives the number.
pub open spec fn routed(entry: EntryView) -> Option<Seq<char>> {
    match entry {
        EntryView::SignalDefinition(d) => Some(d.name),
        EntryView::SignalDescription(d) => Some(d.signal_name),
        EntryView::SignalAttribute(a) => if a.name == NUMBER_ATTRIBUTE@ {
            Some(a.signal_name)
        } else {
            None
        },
        _ => None,
    }
}

impl FrameDefinitionView {
    /// A frame of which only the arbitration ID is known.
    pub open spec fn empty(id: u32) -> FrameDefinitionView {
        FrameDefinitionView {
            id,
            name_abbrev: Seq::empty(),
            description: Seq::empty(),
            length: 0,
            signals: Seq::empty(),
        }
    }

    /// Whether an entry can make a frame: it names a frame, and a frame
    /// can take it in.
    pub open spec fn starts(entry: EntryView) -> bool {
        crate::dbc::library::carried_id(entry).is_some() && FrameDefinitionView::accepts(entry)
    }

    /// The frame that an entry makes on its own: the frame of the
    /// arbitration ID that the entry names, of which nothing else is known,
    /// with the entry taken in.
    pub open spec fn from_entry(entry: EntryView) -> FrameDefinitionView {
        match crate::dbc::library::carried_id(entry) {
            Some(id) => FrameDefinitionView::empty(id).merge(entry),
            None => FrameDefinitionView::empty(0),
        }
    }

    /// Whether the frame can take in an entry: the entry is about a frame,
    /// or it is an attribute of a signal other than the number, which
    /// changes nothing, or it goes to a signal that can take it in.
    pub open spec fn accepts(entry: EntryView) -> bool {
        entry is MessageDefinition || entry is MessageDescription || entry is MessageAttribute || (
        entry is SignalAttribute && routed(entry).is_none()) || (routed(entry).is_some()
            && SignalDefinitionView::accepts(entry))
    }

    /// The frame after an entry has gone to the signal of the given name.
    pub open spec fn with_signal(self, name: Seq<char>, entry: EntryView) -> FrameDefinitionView {
        if has_key(self.signals, name) {
            let i = crate::name_map::first_index(self.signals, name);
            FrameDefinitionView {
                signals: self.signals.update(i, (name, self.signals[i].1.merge(entry))),
                ..self
            }
        } else {
            FrameDefinitionView {
                signals: self.signals.push((name, SignalDefinitionView::from_entry(entry))),
                ..self
            }
        }
    }

    /// The frame after it has taken in an entry that it accepts. A
    /// definition overwrites the name and the length, a description the
    /// text; an attribute of the frame changes nothing. The arbitration ID
    /// stays as it is.
    pub open spec fn merge(self, entry: EntryView) -> FrameDefinitionView {
        match entry {
            EntryView::MessageDefinition(d) => FrameDefinitionView {
                name_abbrev: d.name,
                length: d.message_len,
                ..self
            },
            EntryView::MessageDescription(d) => FrameDefinitionView {
                description: d.description,
                ..self
            },
            EntryView::MessageAttribute(_) => self,
            _ => match routed(entry) {
                Some(name) => if SignalDefinitionView::accepts(entry) {
                    self.with_signal(name, entry)
                } else {
                    self
                },
                None => self,
            },
        }
    }

    /// The signals by name.
    pub open spec fn signal_map(self) -> Map<Seq<char>, SignalDefinitionView> {
        crate::name_map::as_map(self.signals)
    }

    /// The signals as records that have a definition and nothing else.
    pub open spec fn records(self) -> Seq<(Seq<char>, SignalModel)> {
        with_values(self.signals, |s: SignalDefinitionView| s.record())
    }
}

/// A merge never changes the arbitration ID of a frame, whatever ID the
/// entry carries, and takes from an entry about the frame every other field
/// that the entry carries.
pub proof fn lemma_merge_keeps_id(frame: FrameDefinitionView, entry: EntryView)
    ensures
        frame.merge(entry).id == frame.id,
        entry matches EntryView::MessageDefinition(d) ==> frame.merge(entry).name_abbrev == d.name
            && frame.merge(entry).length == d.message_len,
        entry matches EntryView::MessageDescription(d) ==> frame.merge(entry).description
            == d.description,
{
}

/// A signal takes from a definition every field that the definition
/// carries, and keeps its number, its frame and its description.
pub proof fn lemma_merge_takes_definition(
    signal: SignalDefinitionView,
    definition: DbcSignalDefinitionView,
)
    ensures
        signal.merge(EntryView::SignalDefinition(definition)) == (SignalDefinitionView {
            number: signal.number,
            id: signal.id,
            description: signal.description,
            ..SignalDefinitionView::from_entry(EntryView::SignalDefinition(definition))
        }),
        signal.merge(EntryView::SignalDefinition(definition)).max_value == definition.max_value,
{
}

/// Parameter Group Number definition
#[derive(Debug, Clone)]
pub struct FrameDefinition {
    id: u32,
    name_abbrev: String,
    description: String,
    length: u32,
    signals: NameMap<SignalDefinition>,
}

impl View for FrameDefinition {
    type V = FrameDefinitionView;

    closed spec fn view(&self) -> FrameDefinitionView {
        FrameDefinitionView {
            id: self.id,
            name_abbrev: self.name_abbrev@,
            description: self.description@,
            length: self.length,
            signals: with_values(self.signals.entries(), |s: SignalDefinition| s@),
        }
    }
}

impl FrameDefinition {
    /// Returns new `FrameDefinition`
    pub fn new(
        id: u32,
        name_abbrev: String,
        description: String,
        length: u32,
        signals: NameMap<SignalDefinition>,
    ) -> (frame: Self)
        ensures
            frame@ == (FrameDefinitionView {
                id,
                name_abbrev: name_abbrev@,
                description: description@,
                length,
                signals: with_values(signals.entries(), |s: SignalDefinition| s@),
            }),
    {
        FrameDefinition { id, name_abbrev, description, length, signals }
    }

    /// A frame of which only the arbitration ID is known.
    pub fn empty(id: u32) -> (frame: Self)
        ensures
            frame@ == FrameDefinitionView::empty(id),
    {
        let frame = FrameDefinition::new(id, String::new(), String::new(), 0, NameMap::new());
        assert(frame@.signals =~= Seq::empty());
        frame
    }

    /// Returns copies of the signals of the frame
    pub fn get_signals(&self) -> (signals: Vec<SignalDefinition>)
        ensures
            signals@.len() == self@.signals.len(),
            forall|i: int| 0 <= i < signals@.len() ==> (#[trigger] signals@[i])@ ==
                self@.signals[i].1,
    {
        let mut signals: Vec<SignalDefinition> = Vec::new();
        let mut i: usize = 0;
        while i < self.signals.len()
            invariant
                i <= self.signals.entries().len(),
                signals@.len() == i,
                forall|j: int| 0 <= j < i ==> (#[trigger] signals@[j])@ == self@.signals[j].1,
            decreases self.signals.entries().len() - i,
        {
            let signal = self.signals.value_at(i);
            signals.push(
                SignalDefinition::new(
                    signal.name.clone(),
                    signal.number,
                    signal.id,
                    signal.description.clone(),
                    signal.start_bit,
                    signal.bit_len,
                    signal.little_endian,
                    signal.signed,
                    signal.scale.clone(),
                    signal.offset.clone(),
                    signal.min_value.clone(),
                    signal.max_value.clone(),
                    signal.units.clone(),
                ),
            );
            i += 1;
        }
        signals
    }

    /// The number of signals of the frame
    pub fn signal_count(&self) -> (n: usize)
        ensures
            n == self@.signals.len(),
    {
        self.signals.len()
    }

    /// The name and the signal at place `i` among the signals of the frame
    pub fn signal_at(&self, i: usize) -> (named: (&String, &SignalDefinition))
        requires
            i < self@.signals.len(),
        ensures
            named.0@ == self@.signals[i as int].0,
            named.1@ == self@.signals[i as int].1,
    {
        (self.signals.key_at(i), self.signals.value_at(i))
    }

    /// Query signal with signal name
    pub fn get_signal(&self, name: &str) -> (signal: Option<&SignalDefinition>)
        ensures
            match signal {
                Some(s) => self@.signal_map().contains_key(name@) && self@.signal_map()[name@]
                    == s@,
                None => !self@.signal_map().contains_key(name@),
            },
    {
        proof {
            crate::name_map::lemma_with_values(
                self.signals.entries(),
                |s: SignalDefinition| s@,
                name@,
            );
        }
        match self.signals.position(name) {
            Some(i) => {
                proof {
                    crate::name_map::lemma_first_unique(self@.signals, name@, i as int);
                }
                Some(self.signals.value_at(i))
            },
            None => None,
        }
    }

    /// Returns name of frame
    pub fn get_name(&self) -> (name: &str)
        ensures
            name@ == self@.name_abbrev,
    {
        self.name_abbrev.as_str()
    }

    /// Returns arbitration ID of CAN frame
    pub fn get_id(&self) -> (id: u32)
        ensures
            id == self@.id,
    {
        self.id
    }

    /// Returns the free text that describes the frame
    pub fn get_description(&self) -> (description: &str)
        ensures
            description@ == self@.description,
    {
        self.description.as_str()
    }

    /// Returns the length of the payload in bytes
    pub fn get_length(&self) -> (length: u32)
        ensures
            length == self@.length,
    {
        self.length
    }

    /// Hands an entry to the signal of the given name, which is made if
    /// the frame does not have it.
    fn route(&mut self, name: String, entry: Entry) -> (r: Result<(), ParseDefinitionError>)
        requires
            routed(entry@) == Some(name@),
        ensures
            final(self)@ == old(self)@.merge(entry@),
            match r {
                Ok(_) => SignalDefinitionView::accepts(entry@),
                Err(e) => !SignalDefinitionView::accepts(entry@) && e.reason()
                    == DefinitionErrorKind::UnusedEntry(entry@.kind()),
            },
    {
        proof {
            crate::name_map::lemma_with_values(
                self.signals.entries(),
                |s: SignalDefinition| s@,
                name@,
            );
        }
        match self.signals.position(name.as_str()) {
            Some(i) => {
                proof {
                    crate::name_map::lemma_first_unique(self@.signals, name@, i as int);
                }
                let signal = self.signals.value_at_mut(i);
                let r = signal.merge_entry(entry);
                assert(self@.signals =~= old(self)@.merge(entry@).signals);
                r
            },
            None => {
                match SignalDefinition::from_entry(entry) {
                    Ok(signal) => {
                        self.signals.insert(name, signal);
                        assert(self@.signals =~= old(self)@.merge(entry@).signals);
                        Ok(())
                    },
                    Err(e) => Err(e),
                }
            },
        }
    }
}

impl FromDbc for FrameDefinition {
    type Err = ParseDefinitionError;

    fn from_entry(entry: Entry) -> (r: Result<Self, ParseDefinitionError>)
        ensures
            match r {
                Ok(frame) => FrameDefinitionView::starts(entry@) && frame@
                    == FrameDefinitionView::from_entry(entry@),
                Err(e) => !FrameDefinitionView::starts(entry@) && e.reason()
                    == DefinitionErrorKind::UnusedEntry(entry@.kind()),
            },
    {
        let id = match &entry {
            Entry::MessageDefinition(d) => d.id,
            Entry::MessageDescription(d) => d.id,
            Entry::MessageAttribute(a) => a.id,
            Entry::SignalDescription(d) => d.id,
            Entry::SignalAttribute(a) => a.id,
            _ => {
                return Err(ParseDefinitionError::unused(entry.get_type()));
            },
        };
        let mut frame = FrameDefinition::empty(id);
        match frame.merge_entry(entry) {
            Ok(()) => Ok(frame),
            Err(e) => Err(e),
        }
    }

    fn merge_entry(&mut self, entry: Entry) -> (r: Result<(), ParseDefinitionError>)
        ensures
            final(self)@ == old(self)@.merge(entry@),
            match r {
                Ok(_) => FrameDefinitionView::accepts(entry@),
                Err(e) => !FrameDefinitionView::accepts(entry@) && e.reason()
                    == DefinitionErrorKind::UnusedEntry(entry@.kind()),
            },
    {
        match entry {
            Entry::MessageDefinition(d) => {
                self.name_abbrev = d.name;
                self.length = d.message_len;
                Ok(())
            },
            Entry::MessageDescription(d) => {
                self.description = d.description;
                Ok(())
            },
            Entry::MessageAttribute(_) => Ok(()),
            Entry::SignalDefinition(wrapped) => {
                let name = wrapped.name.clone();
                self.route(name, Entry::SignalDefinition(wrapped))
            },
            Entry::SignalDescription(wrapped) => {
                let name = wrapped.signal_name.clone();
                self.route(name, Entry::SignalDescription(wrapped))
            },
            Entry::SignalAttribute(wrapped) => {
                if !crate::text::same_text(wrapped.name.as_str(), NUMBER_ATTRIBUTE) {
                    // Skip non-SPN attributes
                    return Ok(());
                }
                let name = wrapped.signal_name.clone();
                self.route(name, Entry::SignalAttribute(wrapped))
            },
            _ => Err(ParseDefinitionError::unused(entry.get_type())),
        }
    }
}

/// What a library of PGN and SPN definitions holds.
pub struct LibraryView {
    /// The frame that was created or updated last, if any was.
    pub last_id: Option<u32>,
    /// The frames by arbitration ID.
    pub frames: Map<u32, FrameDefinitionView>,
}

impl LibraryView {
    /// A library without frames.
    pub open spec fn empty() -> LibraryView {
        LibraryView { last_id: None, frames: Map::empty() }
    }

    /// The frame that an entry goes to: the one that it names, or, for a
    /// signal definition, which names none, the frame that was touched
    /// last.
    pub open spec fn resolve(self, entry: EntryView) -> Result<u32, Failure> {
        match entry {
            EntryView::SignalDefinition(_) => match self.last_id {
                Some(id) => Ok(id),
                None => Err(Failure::MissingContext),
            },
            _ => match crate::dbc::library::carried_id(entry) {
                Some(id) => Ok(id),
                None => Err(Failure::UnsupportedEntry(entry.kind())),
            },
        }
    }

    /// The frame with the given ID as it is before an entry reaches it: the
    /// frame that the library holds, or a new one.
    pub open spec fn frame_or_new(self, id: u32) -> FrameDefinitionView {
        if self.frames.contains_key(id) {
            self.frames[id]
        } else {
            FrameDefinitionView::empty(id)
        }
    }

    /// The library after an entry has been added, or the reason why the
    /// entry cannot be added: besides what `resolve` refuses, an entry that
    /// the frame it goes to cannot take in.
    pub open spec fn add(self, entry: EntryView) -> Result<LibraryView, Failure> {
        match self.resolve(entry) {
            Ok(id) => if FrameDefinitionView::accepts(entry) {
                Ok(
                    LibraryView {
                        last_id: Some(id),
                        frames: self.frames.insert(id, self.frame_or_new(id).merge(entry)),
                    },
                )
            } else {
                Err(Failure::UnsupportedEntry(entry.kind()))
            },
            Err(e) => Err(e),
        }
    }

    /// Whether some frame has a signal of the given name.
    pub open spec fn has_signal(self, name: Seq<char>) -> bool {
        exists|id: u32| #[trigger]
            self.frames.contains_key(id) && self.frames[id].signal_map().contains_key(name)
    }
}

/// The library that the first `n` lines of a text make: each line that is
/// not empty and spells an entry that the library can add is added, in
/// order; every other line is passed over.
pub open spec fn ingest(lines: Seq<Seq<char>>, n: nat) -> LibraryView
    decreases n,
{
    if n == 0 {
        LibraryView::empty()
    } else {
        let before = ingest(lines, (n - 1) as nat);
        let line = lines[n - 1];
        if line.len() == 0 {
            before
        } else {
            match entry_in(line) {
                Some(entry) => match before.add(entry) {
                    Ok(after) => after,
                    Err(_) => before,
                },
                None => before,
            }
        }
    }
}

/// The library that a text makes.
pub open spec fn loaded(text: Seq<char>) -> LibraryView {
    ingest(lines_of(text), lines_of(text).len())
}

/// A library used to turn CAN signals into desired values.
#[derive(Debug, Clone)]
pub struct DbcLibrary {
    last_id: Option<u32>,
    frames: HashMap<u32, FrameDefinition>,
}

impl View for DbcLibrary {
    type V = LibraryView;

    closed spec fn view(&self) -> LibraryView {
        LibraryView {
            last_id: self.last_id,
            frames: self.frames@.map_values(|f: FrameDefinition| f@),
        }
    }
}

impl DbcLibrary {
    /// Creates a new `DbcLibrary` instance given an existing lookup table.
    pub fn new(frames: HashMap<u32, FrameDefinition>) -> (library: Self)
        ensures
            library@ == (LibraryView {
                last_id: None,
                frames: frames@.map_values(|f: FrameDefinition| f@),
            }),
            library@.frames.dom().finite(),
    {
        let library = DbcLibrary { last_id: None, frames };
        proof {
            library.lemma_frames_finite();
        }
        library
    }

    /// A library holds finitely many frames.
    pub proof fn lemma_frames_finite(&self)
        ensures
            self@.frames.dom().finite(),
    {
        assert(self@.frames.dom() =~= self.frames@.dom());
    }

    /// Loads an entire DBC text into a `DbcLibrary`. Lines that spell no
    /// entry are ignored, and so are entries that the library cannot add.
    pub fn from_text(source: &str) -> (library: Self)
        ensures
            library@ == loaded(source@),
            library@.frames.dom().finite(),
    {
        let lines = split_lines(source);
        let mut entries = tokenize(&lines);
        let ghost found = entries@;
        let mut library = DbcLibrary::default();
        let mut i: usize = 0;
        while i < lines.len()
            invariant
                i <= lines@.len(),
                texts(lines@) == lines_of(source@),
                entries@.len() == lines@.len(),
                found.len() == lines@.len(),
                forall|j: int| i <= j < entries@.len() ==> entries@[j] == found[j],
                forall|j: int|
                    0 <= j < found.len() ==> entry_view(#[trigger] found[j]) == entry_in(
                        lines@[j]@,
                    ),
                library@ == ingest(lines_of(source@), i as nat),
            decreases lines@.len() - i,
        {
            let line = lines[i].as_str();
            assert(texts(lines@)[i as int] == line@);
            assert(entry_view(found[i as int]) == entry_in(line@));
            if !line.is_empty() {
                match entries[i].take() {
                    Some(entry) => {
                        let _ = library.add_entry(entry);
                    },
                    None => {},
                }
            }
            i += 1;
        }
        proof {
            library.lemma_frames_finite();
        }
        library
    }

    /// Converts/combines DBC `Entry` values into entries within `DbcLibrary`.  Different `Entry`
    /// variants can modify the same internal entry, hence the need for mutability.  This function
    /// is meant to be called when parsing lines in a `dbc` file.
    pub fn add_entry(&mut self, entry: Entry) -> (r: Result<(), DbcError>)
        ensures
            match old(self)@.add(entry@) {
                Ok(after) => r is Ok && final(self)@ == after,
                Err(e) => r matches Err(error) && error@ == e && final(self)@ == old(self)@,
            },
            final(self)@.frames.dom().finite(),
    {
        proof {
            self.lemma_frames_finite();
        }
        let kind = entry.get_type();
        let id: u32 = match &entry {
            Entry::MessageDefinition(d) => d.id,
            Entry::MessageDescription(d) => d.id,
            Entry::MessageAttribute(a) => a.id,
            Entry::SignalDefinition(_) => {
                // no id, and by definition must follow MessageDefinition
                match self.last_id {
                    Some(last_id) => last_id,
                    None => {
                        return Err(DbcError::MissingContext);
                    },
                }
            },
            Entry::SignalDescription(d) => d.id,
            Entry::SignalAttribute(a) => a.id,
            _ => {
                return Err(DbcError::UnsupportedEntry(kind));
            },
        };
        let added = match self.frames.entry(id) {
            MapEntry::Occupied(occupied) => {
                let frame = occupied.into_mut();
                frame.merge_entry(entry).is_ok()
            },
            MapEntry::Vacant(vacant) => {
                let mut frame = FrameDefinition::empty(id);
                match frame.merge_entry(entry) {
                    Ok(()) => {
                        vacant.insert(frame);
                        true
                    },
                    Err(_) => false,
                }
            },
        };
        if added {
            self.last_id = Some(id);
            assert(self@.frames =~= old(self)@.add(entry@)->Ok_0.frames);
            Ok(())
        } else {
            assert(self@.frames =~= old(self)@.frames);
            Err(DbcError::UnsupportedEntry(kind))
        }
    }

    /// Returns a `FrameDefinition` entry reference, if it exists.
    pub fn get_frame(&self, frame_id: u32) -> (frame: Option<&FrameDefinition>)
        ensures
            match frame {
                Some(f) => self@.frames.contains_key(frame_id) && self@.frames[frame_id] == f@,
                None => !self@.frames.contains_key(frame_id),
            },
    {
        self.frames.get(&frame_id)
    }

    /// Returns the signal of the given name from a frame that has one, if
    /// any frame has. Where several frames have a signal of that name, the
    /// signal of any one of them may be returned.
    pub fn get_signal(&self, name: &str) -> (signal: Option<&SignalDefinition>)
        ensures
            match signal {
                Some(s) => exists|id: u32| #[trigger]
                    self@.frames.contains_key(id) && self@.frames[id].signal_map().contains_key(
                        name@,
                    ) && self@.frames[id].signal_map()[name@] == s@,
                None => !self@.has_signal(name@),
            },
    {
        for entry in it: self.frames.iter()
            invariant
                forall|j: int|
                    0 <= j < it.index() ==> !(#[trigger] it.seq()[j]).1@.signal_map().contains_key(
                        name@,
                    ),
        {
            let (id, frame) = entry;
            match frame.get_signal(name) {
                Some(s) => {
                    assert(self@.frames.contains_key(*id));
                    return Some(s);
                },
                None => {},
            }
        }
        assert(!self@.has_signal(name@));
        None
    }

    /// Returns the arbitration IDs of the frames, each once, in no
    /// particular order.
    pub fn get_frame_ids(&self) -> (ids: Vec<u32>)
        ensures
            ids@.no_duplicates(),
            ids@.to_set() == self@.frames.dom(),
    {
        let mut ids: Vec<u32> = Vec::new();
        let ghost keys = self.frames.keys().remaining();
        for id in it: self.frames.keys()
            invariant
                it.seq() == keys,
                ids@.len() == it.index(),
                forall|j: int| 0 <= j < ids@.len() ==> ids@[j] == *(#[trigger] keys[j]),
        {
            ids.push(*id);
        }
        proof {
            assert(self@.frames.dom() =~= self.frames@.dom());
            assert(ids@ =~= keys.unref());
            assert forall|i: int, j: int| 0 <= i < j < ids@.len() implies ids@[i] != ids@[j] by {
                assert(keys[i] != keys[j]);
            }
        }
        ids
    }
}

impl Default for DbcLibrary {
    fn default() -> (library: Self)
        ensures
            library@ == LibraryView::empty(),
            library@.frames.dom().finite(),
    {
        let library = DbcLibrary::new(HashMap::new());
        assert(library@.frames =~= Map::empty());
        library
    }
}

impl<'a> DecodeMessage<&'a [u8; 8]> for SignalDefinition {
    /// Decodes a signal from a CAN frame of eight bytes
    fn decode_message(&self, msg: &'a [u8; 8]) -> (raw: Option<u64>)
        ensures
            raw == signal_decoded(self@.record(), msg@),
    {
        parse_array(self.bit_len, self.start_bit, self.little_endian, msg)
    }
}

impl DecodeMessage<Vec<u8>> for SignalDefinition {
    /// Decodes a signal from a CAN frame given as a byte vector
    fn decode_message(&self, msg: Vec<u8>) -> (raw: Option<u64>)
        ensures
            raw == signal_decoded(self@.record(), msg@),
    {
        decode_message(self.bit_len, self.start_bit, self.little_endian, msg.as_slice())
    }
}

/// Encodes the raw values of all signals of a frame into one message. The
/// value of a signal is looked up under the name by which the frame holds
/// the signal.
pub fn encode_definitions(frame: &FrameDefinition, signal_map: &NameMap<u64>) -> (r: Result<
    [u8; 8],
    DbcError,
>)
    ensures
        is_outcome(r, frame_bytes(frame@.records(), signal_map@, frame@.signals.len())),
{
    let mut result: [u8; 8] = [0x00, 0x00, 0x00, 0x00, 0x00, 0x00, 0x00, 0x00];
    assert(result@ =~= zero_bytes());
    let ghost records = frame@.records();
    let count = frame.signal_count();
    let mut i: usize = 0;
    while i < count
        invariant
            i <= count,
            count == frame@.signals.len(),
            records == frame@.records(),
            frame_bytes(records, signal_map@, i as nat) == Ok::<Seq<u8>, Failure>(result@),
        decreases count - i,
    {
        let (name, signal) = frame.signal_at(i);
        assert(records[i as int] == (frame@.signals[i as int].0, signal@.record()));
        assert(frame_bytes(records, signal_map@, (i + 1) as nat) == match signal_bytes(
            records[i as int].0,
            records[i as int].1,
            signal_map@,
        ) {
            Err(e) => Err(e),
            Ok(bytes) => Ok(crate::mapper::or_bytes(result@, bytes)),
        });
        let raw = match signal_map.get(name.as_str()) {
            Some(raw) => *raw,
            None => {
                proof {
                    lemma_failure_stays(records, signal_map@, (i + 1) as nat, count as nat);
                }
                return Err(DbcError::MissingSignalData(name.clone()));
            },
        };
        let byte_data = match encode_signal(
            signal.bit_len,
            signal.start_bit,
            signal.little_endian,
            raw,
        ) {
            Ok(b) => b,
            Err(error) => {
                proof {
                    lemma_failure_stays(records, signal_map@, (i + 1) as nat, count as nat);
                }
                return Err(error);
            },
        };
        or_into(&mut result, &byte_data);
        i += 1;
    }
    Ok(result)
}

impl EncodeMessage<Vec<u8>> for FrameDefinition {
    /// Encodes a map of raw signal values into a message of eight bytes
    fn encode_message(&self, signal_map: &NameMap<u64>) -> (r: Result<Vec<u8>, DbcError>)
        ensures
            is_outcome_vec(r, frame_bytes(self@.records(), signal_map@, self@.signals.len())),
    {
        match encode_definitions(self, signal_map) {
            Ok(bytes) => Ok(to_vec(&bytes)),
            Err(e) => Err(e),
        }
    }
}

impl EncodeMessage<[u8; 8]> for FrameDefinition {
    /// Encodes a map of raw signal values into a message of eight bytes
    fn encode_message(&self, signal_map: &NameMap<u64>) -> (r: Result<[u8; 8], DbcError>)
        ensures
            is_outcome(r, frame_bytes(self@.records(), signal_map@, self@.signals.len())),
    {
        encode_definitions(self, signal_map)
    }
}

/// Whether the outcome of reading a line as a definition is the expected
/// one: the error of a line that spells no entry, the error of an entry
/// that makes no definition, or the definition.
pub open spec fn is_read<V>(
    line: Seq<char>,
    usable: spec_fn(EntryView) -> bool,
    made: spec_fn(EntryView) -> V,
    r: Result<V, ParseDefinitionError>,
) -> bool {
    match entry_in(line) {
        None => r matches Err(e) && e.reason() matches DefinitionErrorKind::Entry(cause)
            && cause.reason() == crate::dbc::EntryErrorKind::RegexNoMatch,
        Some(entry) => if usable(entry) {
            r == Ok::<V, ParseDefinitionError>(made(entry))
        } else {
            r matches Err(e) && e.reason() == DefinitionErrorKind::UnusedEntry(entry.kind())
        },
    }
}

/// The outcome of reading a line, with a definition as its view.
pub open spec fn frame_read(r: Result<FrameDefinition, ParseDefinitionError>) -> Result<
    FrameDefinitionView,
    ParseDefinitionError,
> {
    match r {
        Ok(frame) => Ok(frame@),
        Err(e) => Err(e),
    }
}

/// The outcome of reading a line, with a definition as its view.
pub open spec fn signal_read(r: Result<SignalDefinition, ParseDefinitionError>) -> Result<
    SignalDefinitionView,
    ParseDefinitionError,
> {
    match r {
        Ok(signal) => Ok(signal@),
        Err(e) => Err(e),
    }
}

impl FrameDefinition {
    /// Reads a line that spells an entry about a frame.
    pub fn parse(line: &str) -> (r: Result<Self, ParseDefinitionError>)
        ensures
            is_read(
                line@,
                |e: EntryView| FrameDefinitionView::starts(e),
                |e: EntryView| FrameDefinitionView::from_entry(e),
                frame_read(r),
            ),
    {
        match Entry::parse(line) {
            Ok(entry) => FrameDefinition::from_entry(entry),
            Err(e) => Err(ParseDefinitionError { kind: DefinitionErrorKind::Entry(e) }),
        }
    }
}

impl SignalDefinition {
    /// Reads a line that spells an entry about a signal.
    pub fn parse(line: &str) -> (r: Result<Self, ParseDefinitionError>)
        ensures
            is_read(
                line@,
                |e: EntryView| SignalDefinitionView::accepts(e),
                |e: EntryView| SignalDefinitionView::from_entry(e),
                signal_read(r),
            ),
    {
        match Entry::parse(line) {
            Ok(entry) => SignalDefinition::from_entry(entry),
            Err(e) => Err(ParseDefinitionError { kind: DefinitionErrorKind::Entry(e) }),
        }
    }
}

impl FromStr for FrameDefinition {
    type Err = ParseDefinitionError;

    fn from_str(line: &str) -> (r: Result<Self, Self::Err>)
        ensures
            is_read(
                line@,
                |e: EntryView| FrameDefinitionView::starts(e),
                |e: EntryView| FrameDefinitionView::from_entry(e),
                frame_read(r),
            ),
    {
        FrameDefinition::parse(line)
    }
}

impl FromStr for SignalDefinition {
    type Err = ParseDefinitionError;

    fn from_str(line: &str) -> (r: Result<Self, Self::Err>)
        ensures
            is_read(
                line@,
                |e: EntryView| SignalDefinitionView::accepts(e),
                |e: EntryView| SignalDefinitionView::from_entry(e),
                signal_read(r),
            ),
    {
        SignalDefinition::parse(line)
    }
}

impl From<DbcSignalDefinition> for SignalDefinition {
    fn from(definition: DbcSignalDefinition) -> (signal: Self)
        ensures
            signal@ == SignalDefinitionView::from_entry(EntryView::SignalDefinition(definition@)),
    {
        SignalDefinition::new(
            definition.name,
            0,
            0,
            String::new(),
            definition.start_bit,
            definition.bit_len,
            definition.little_endian,
            definition.signed,
            definition.scale,
            definition.offset,
            definition.min_value,
            definition.max_value,
            definition.units,
        )
    }
}

impl vstd::std_specs::convert::FromSpecImpl<DbcSignalDefinition> for SignalDefinition {
    open spec fn obeys_from_spec() -> bool {
        false
    }

    open spec fn from_spec(definition: DbcSignalDefinition) -> SignalDefinition {
        arbitrary()
    }
}

impl From<DbcSignalDescription> for SignalDefinition {
    fn from(description: DbcSignalDescription) -> (signal: Self)
        ensures
            signal@ == SignalDefinitionView::from_entry(EntryView::SignalDescription(description@)),
    {
        let mut signal = SignalDefinition::named(String::new());
        signal.name = description.signal_name;
        signal.id = description.id;
        signal.description = description.description;
        signal
    }
}

impl vstd::std_specs::convert::FromSpecImpl<DbcSignalDescription> for SignalDefinition {
    open spec fn obeys_from_spec() -> bool {
        false
    }

    open spec fn from_spec(description: DbcSignalDescription) -> SignalDefinition {
        arbitrary()
    }
}

} // verus!
