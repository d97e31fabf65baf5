//! Frames, signals and the library that collects them from entries.

use super::parser::{entry_in, entry_view, tokenize};
use super::{
    DbcError, DbcFrameDefinition, DbcFrameDefinitionView, DbcMessageAttribute,
    DbcMessageDescription, DbcSignalAttribute, DbcSignalDefinition, DbcSignalDefinitionView,
    DbcSignalDescription, Entry, EntryView, Failure, ValueDefinition,
};
use crate::name_map::{as_map, has_key, lemma_with_values, with_values, NameMap};
use crate::text::{lines_of, split_lines, texts};
use encoding::all::ISO_8859_1;
use encoding::{DecoderTrap, Encoding};
use std::collections::hash_map::Entry as MapEntry;
use std::collections::HashMap;
use vstd::prelude::*;

verus! {

broadcast use vstd::std_specs::hash::group_hash_axioms;

/// Trait for converting `Entry` values into a library's own entries.
pub trait FromDbc {
    /// Error Type for parsing errors
    type Err;

    /// Converts an `Entity` value from scratch.
    fn from_entry(entry: Entry) -> Result<Self, Self::Err> where Self: Sized;

    /// Merges the given `Entity` with a `mut` version of the library's entity.  Useful for when
    /// multiple `Entry` types contribute to various attributes within the same destination.
    fn merge_entry(&mut self, entry: Entry) -> Result<(), Self::Err>;
}

/// What is known of a signal.
pub struct SignalModel {
    /// The attributes by name.
    pub attributes: Map<Seq<char>, Seq<char>>,
    /// The free text that describes the signal.
    pub description: Option<Seq<char>>,
    /// The bit layout and the physical scale of the signal.
    pub definition: Option<DbcSignalDefinitionView>,
    /// The labels of the values of the signal.
    pub value_definition: Option<Seq<Seq<char>>>,
}

impl SignalModel {
    /// A signal of which nothing is known.
    pub open spec fn empty() -> SignalModel {
        SignalModel {
            attributes: Map::empty(),
            description: None,
            definition: None,
            value_definition: None,
        }
    }

    /// Whether an entry is about a signal.
    pub open spec fn accepts(entry: EntryView) -> bool {
        entry is SignalDefinition || entry is SignalDescription || entry is SignalAttribute
    }

    /// The signal after it has taken in an entry about a signal: the fields
    /// that the entry carries are overwritten, the others stay.
    pub open spec fn merge(self, entry: EntryView) -> SignalModel {
        match entry {
            EntryView::SignalDefinition(definition) => SignalModel {
                definition: Some(definition),
                ..self
            },
            EntryView::SignalDescription(d) => SignalModel {
                description: Some(d.description),
                ..self
            },
            EntryView::SignalAttribute(a) => SignalModel {
                attributes: self.attributes.insert(a.name, a.value),
                ..self
            },
            _ => self,
        }
    }

    /// The signal that an entry about a signal makes on its own.
    pub open spec fn from_entry(entry: EntryView) -> SignalModel {
        SignalModel::empty().merge(entry)
    }
}

/// The attribute values of a map as sequences of characters.
pub open spec fn text_map(m: Map<Seq<char>, String>) -> Map<Seq<char>, Seq<char>> {
    m.map_values(|s: String| s@)
}

/// The definition of a signal, if it has one, with each string as its
/// sequence of characters.
pub open spec fn definition_of(d: Option<DbcSignalDefinition>) -> Option<DbcSignalDefinitionView> {
    match d {
        Some(d) => Some(d@),
        None => None,
    }
}

/// The labels of a table of values, if there is one.
pub open spec fn labels_of(v: Option<ValueDefinition>) -> Option<Seq<Seq<char>>> {
    match v {
        Some(v) => Some(v.labels()),
        None => None,
    }
}

/// The text of an optional string.
pub open spec fn text_of(s: Option<String>) -> Option<Seq<char>> {
    match s {
        Some(s) => Some(s@),
        None => None,
    }
}

/// Container datatype for holding informations concerning a signal of a CAN frame
#[derive(Clone, Debug)]
pub struct DbcSignal {
    attributes: NameMap<String>,
    description: Option<String>,
    definition: Option<DbcSignalDefinition>,
    value_definition: Option<ValueDefinition>,
}

impl View for DbcSignal {
    type V = SignalModel;

    closed spec fn view(&self) -> SignalModel {
        SignalModel {
            attributes: text_map(self.attributes@),
            description: text_of(self.description),
            definition: definition_of(self.definition),
            value_definition: labels_of(self.value_definition),
        }
    }
}

proof fn lemma_text_map_insert(m: Map<Seq<char>, String>, k: Seq<char>, v: String)
    ensures
        text_map(m.insert(k, v)) == text_map(m).insert(k, v@),
{
    assert(text_map(m.insert(k, v)) =~= text_map(m).insert(k, v@));
}

proof fn lemma_text_map_empty()
    ensures
        text_map(Map::empty()) == Map::<Seq<char>, Seq<char>>::empty(),
{
    assert(text_map(Map::empty()) =~= Map::<Seq<char>, Seq<char>>::empty());
}

impl DbcSignal {
    /// Returns new DbcSignal
    pub fn new(
        definition: Option<DbcSignalDefinition>,
        description: Option<String>,
        attributes: NameMap<String>,
        value_definition: Option<ValueDefinition>,
    ) -> (signal: DbcSignal)
        ensures
            signal@ == (SignalModel {
                attributes: text_map(attributes@),
                description: text_of(description),
                definition: definition_of(definition),
                value_definition: labels_of(value_definition),
            }),
    {
        DbcSignal { definition, description, attributes, value_definition }
    }

    /// Whether the bit layout of the signal is known.
    pub fn has_definition(&self) -> (b: bool)
        ensures
            b == self@.definition.is_some(),
    {
        self.definition.is_some()
    }

    /// Returns the definition of the signal
    pub fn get_definition(&self) -> (definition: &DbcSignalDefinition)
        requires
            self@.definition.is_some(),
        ensures
            definition@ == self@.definition.unwrap(),
    {
        self.definition.as_ref().unwrap()
    }

    /// Returns the free text that describes the signal
    pub fn get_description(&self) -> (description: Option<&String>)
        ensures
            match description {
                Some(text) => self@.description == Some(text@),
                None => self@.description.is_none(),
            },
    {
        self.description.as_ref()
    }

    /// Queries the signal for an attribute with a given identifier
    pub fn get_attribute(&self, identifier: &str) -> (value: Option<&String>)
        ensures
            match value {
                Some(text) => self@.attributes.contains_key(identifier@)
                    && self@.attributes[identifier@] == text@,
                None => !self@.attributes.contains_key(identifier@),
            },
    {
        self.attributes.get(identifier)
    }

    /// Returns the long name of the signal: the attribute
    /// `SystemSignalLongSymbol` where the signal has it, else the name in
    /// its definition.
    pub fn long_name(&self) -> (name: &String)
        requires
            self@.attributes.contains_key("SystemSignalLongSymbol"@) || self@.definition.is_some(),
        ensures
            name@ == (if self@.attributes.contains_key("SystemSignalLongSymbol"@) {
                self@.attributes["SystemSignalLongSymbol"@]
            } else {
                self@.definition.unwrap().name
            }),
    {
        match self.attributes.get("SystemSignalLongSymbol") {
            Some(name) => name,
            None => &self.definition.as_ref().unwrap().name,
        }
    }
}

impl Default for DbcSignal {
    fn default() -> (signal: Self)
        ensures
            signal@ == SignalModel::empty(),
    {
        proof {
            lemma_text_map_empty();
        }
        DbcSignal {
            attributes: NameMap::new(),
            description: None,
            definition: None,
            value_definition: None,
        }
    }
}

impl FromDbc for DbcSignal {
    type Err = ();

    fn from_entry(entry: Entry) -> (r: Result<Self, ()>)
        ensures
            r is Ok <==> SignalModel::accepts(entry@),
            r matches Ok(signal) ==> signal@ == SignalModel::from_entry(entry@),
    {
        let mut signal = DbcSignal::default();
        match signal.merge_entry(entry) {
            Ok(()) => Ok(signal),
            Err(()) => Err(()),
        }
    }

    fn merge_entry(&mut self, entry: Entry) -> (r: Result<(), ()>)
        ensures
            r is Ok <==> SignalModel::accepts(entry@),
            final(self)@ == old(self)@.merge(entry@),
    {
        match entry {
            Entry::SignalDefinition(definition) => {
                self.definition = Some(definition);
                Ok(())
            },
            Entry::SignalDescription(DbcSignalDescription {
                id: _id,
                signal_name: _signal_name,
                description,
            }) => {
                self.description = Some(description);
                Ok(())
            },
            Entry::SignalAttribute(DbcSignalAttribute {
                name,
                id: _id,
                signal_name: _signal_name,
                value,
            }) => {
                proof {
                    lemma_text_map_insert(self.attributes@, name@, value);
                }
                self.attributes.insert(name, value);
                Ok(())
            },
            _ => Err(()),
        }
    }
}

/// The frame that an entry names by its own number, if it names one.
pub open spec fn carried_id(entry: EntryView) -> Option<u32> {
    match entry {
        EntryView::MessageDefinition(d) => Some(d.id),
        EntryView::MessageDescription(d) => Some(d.id),
        EntryView::MessageAttribute(a) => Some(a.id),
        EntryView::SignalDescription(d) => Some(d.id),
        EntryView::SignalAttribute(a) => Some(a.id),
        _ => None,
    }
}

/// The name of the signal that an entry is about, if it is about one.
pub open spec fn signal_name(entry: EntryView) -> Seq<char> {
    match entry {
        EntryView::SignalDefinition(d) => d.name,
        EntryView::SignalDescription(d) => d.signal_name,
        EntryView::SignalAttribute(a) => a.signal_name,
        _ => Seq::empty(),
    }
}

/// What is known of a frame.
pub struct FrameModel {
    /// The name of the frame.
    pub name: Seq<char>,
    /// The arbitration ID.
    pub id: u32,
    /// The length of the payload in bytes.
    pub message_len: u32,
    /// The node that sends the frame.
    pub sending_node: Seq<char>,
    /// The attributes by name.
    pub attributes: Map<Seq<char>, Seq<char>>,
    /// The free text that describes the frame.
    pub description: Option<Seq<char>>,
    /// The signals with their names, in the order in which the names came.
    pub signals: Seq<(Seq<char>, SignalModel)>,
}

impl FrameModel {
    /// A frame of which only the arbitration ID is known.
    pub open spec fn empty(id: u32) -> FrameModel {
        FrameModel {
            name: Seq::empty(),
            id,
            message_len: 0,
            sending_node: Seq::empty(),
            attributes: Map::empty(),
            description: None,
            signals: Seq::empty(),
        }
    }

    /// Whether an entry is about a frame or about a signal of a frame.
    pub open spec fn accepts(entry: EntryView) -> bool {
        entry is MessageDefinition || entry is MessageDescription || entry is MessageAttribute
            || SignalModel::accepts(entry)
    }

    /// The signals by name.
    pub open spec fn signal_map(self) -> Map<Seq<char>, SignalModel> {
        as_map(self.signals)
    }

    /// The frame after an entry about a signal has gone to the signal of
    /// that name: a signal that the frame has takes the entry in, a new one
    /// is made from it and put last.
    pub open spec fn with_signal(self, entry: EntryView) -> FrameModel {
        let name = signal_name(entry);
        if has_key(self.signals, name) {
            let i = crate::name_map::first_index(self.signals, name);
            FrameModel {
                signals: self.signals.update(i, (name, self.signals[i].1.merge(entry))),
                ..self
            }
        } else {
            FrameModel {
                signals: self.signals.push((name, SignalModel::from_entry(entry))),
                ..self
            }
        }
    }

    /// The frame after it has taken in an entry: the fields that the entry
    /// carries are overwritten, the others stay, the arbitration ID among
    /// them.
    pub open spec fn merge(self, entry: EntryView) -> FrameModel {
        match entry {
            EntryView::MessageDefinition(d) => FrameModel {
                name: d.name,
                message_len: d.message_len,
                sending_node: d.sending_node,
                ..self
            },
            EntryView::MessageDescription(d) => FrameModel {
                description: Some(d.description),
                ..self
            },
            EntryView::MessageAttribute(a) => FrameModel {
                attributes: self.attributes.insert(a.name, a.value),
                ..self
            },
            EntryView::SignalDefinition(_) => self.with_signal(entry),
            EntryView::SignalDescription(_) => self.with_signal(entry),
            EntryView::SignalAttribute(_) => self.with_signal(entry),
            _ => self,
        }
    }

    /// The frame that an entry makes on its own, where the entry names a
    /// frame.
    pub open spec fn from_entry(entry: EntryView) -> Option<FrameModel> {
        match carried_id(entry) {
            Some(id) => Some(FrameModel::empty(id).merge(entry)),
            None => None,
        }
    }
}

/// The entries of a map of signals, each signal as what is known of it.
pub open spec fn signal_models(entries: Seq<(Seq<char>, DbcSignal)>) -> Seq<
    (Seq<char>, SignalModel),
> {
    with_values(entries, |s: DbcSignal| s@)
}

/// Container datatype for holding all informations about a CAN frame from a DBC file
#[derive(Clone, Debug)]
pub struct DbcFrame {
    name: String,
    id: u32,
    message_len: u32,
    sending_node: String,
    attributes: NameMap<String>,
    description: Option<String>,
    signals: NameMap<DbcSignal>,
}

impl View for DbcFrame {
    type V = FrameModel;

    closed spec fn view(&self) -> FrameModel {
        FrameModel {
            name: self.name@,
            id: self.id,
            message_len: self.message_len,
            sending_node: self.sending_node@,
            attributes: text_map(self.attributes@),
            description: text_of(self.description),
            signals: signal_models(self.signals.entries()),
        }
    }
}

impl DbcFrame {
    /// Returns new DBCFrame
    pub fn new(
        name: String,
        id: u32,
        message_len: u32,
        sending_node: String,
        attributes: NameMap<String>,
        description: Option<String>,
        signals: NameMap<DbcSignal>,
    ) -> (frame: Self)
        ensures
            frame@ == (FrameModel {
                name: name@,
                id,
                message_len,
                sending_node: sending_node@,
                attributes: text_map(attributes@),
                description: text_of(description),
                signals: signal_models(signals.entries()),
            }),
    {
        DbcFrame { name, id, message_len, sending_node, attributes, description, signals }
    }

    /// A frame of which only the arbitration ID is known.
    pub fn empty(id: u32) -> (frame: Self)
        ensures
            frame@ == FrameModel::empty(id),
    {
        proof {
            lemma_text_map_empty();
        }
        let frame = DbcFrame {
            name: String::new(),
            id,
            message_len: 0,
            sending_node: String::new(),
            attributes: NameMap::new(),
            description: None,
            signals: NameMap::new(),
        };
        assert(frame@.signals =~= Seq::empty());
        frame
    }

    /// Returns Vec of borrowed signal objects
    pub fn get_signals(&self) -> (signals: Vec<&DbcSignal>)
        ensures
            signals@.len() == self@.signals.len(),
            forall|i: int| 0 <= i < signals@.len() ==> (#[trigger] signals@[i])@ ==
                self@.signals[i].1,
    {
        let mut signals: Vec<&DbcSignal> = Vec::new();
        let mut i: usize = 0;
        while i < self.signals.len()
            invariant
                i <= self.signals.entries().len(),
                signals@.len() == i,
                forall|j: int| 0 <= j < i ==> *(#[trigger] signals@[j]) ==
                    self.signals.entries()[j].1,
            decreases self.signals.entries().len() - i,
        {
            signals.push(self.signals.value_at(i));
            i += 1;
        }
        signals
    }

    /// The number of signals of the frame
    pub fn signal_count(&self) -> (n: usize)
        ensures
            n == self@.signals.len(),
    {
        self.signals.len()
    }

    /// The name and the signal at place `i` among the signals of the frame
    pub fn signal_at(&self, i: usize) -> (named: (&String, &DbcSignal))
        requires
            i < self@.signals.len(),
        ensures
            named.0@ == self@.signals[i as int].0,
            named.1@ == self@.signals[i as int].1,
    {
        (self.signals.key_at(i), self.signals.value_at(i))
    }

    /// Query signal with signal name
    pub fn get_signal(&self, name: &str) -> (signal: Option<&DbcSignal>)
        ensures
            match signal {
                Some(s) => self@.signal_map().contains_key(name@) && self@.signal_map()[name@]
                    == s@,
                None => !self@.signal_map().contains_key(name@),
            },
    {
        proof {
            lemma_with_values(self.signals.entries(), |s: DbcSignal| s@, name@);
        }
        match self.signals.position(name) {
            Some(i) => {
                proof {
                    crate::name_map::lemma_first_unique(self@.signals, name@, i as int);
                }
                Some(self.signals.value_at(i))
            },
            None => None,
        }
    }

    /// Returns name of frame
    pub fn get_name(&self) -> (name: &String)
        ensures
            name@ == self@.name,
    {
        &self.name
    }

    /// Returns arbitration ID of CAN frame
    pub fn get_id(&self) -> (id: u32)
        ensures
            id == self@.id,
    {
        self.id
    }

    /// Returns the length of the payload in bytes
    pub fn get_length(&self) -> (length: u32)
        ensures
            length == self@.message_len,
    {
        self.message_len
    }

    /// Returns the node that sends the frame
    pub fn get_sending_node(&self) -> (node: &String)
        ensures
            node@ == self@.sending_node,
    {
        &self.sending_node
    }

    /// Returns the free text that describes the frame
    pub fn get_description(&self) -> (description: Option<&String>)
        ensures
            match description {
                Some(text) => self@.description == Some(text@),
                None => self@.description.is_none(),
            },
    {
        self.description.as_ref()
    }

    /// Whether the frame has an attribute of this name
    pub fn has_attribute(&self, identifier: &str) -> (b: bool)
        ensures
            b == self@.attributes.contains_key(identifier@),
    {
        self.attributes.contains_key(identifier)
    }

    /// Query frame attribute with an identifier
    pub fn get_attribute(&self, identifier: &str) -> (value: &String)
        requires
            self@.attributes.contains_key(identifier@),
        ensures
            value@ == self@.attributes[identifier@],
    {
        self.attributes.get(identifier).unwrap()
    }

    /// Hands an entry about a signal to the signal of its name, which is
    /// made if the frame does not have it.
    fn route(&mut self, name: String, entry: Entry)
        requires
            SignalModel::accepts(entry@),
            name@ == signal_name(entry@),
        ensures
            final(self)@ == old(self)@.with_signal(entry@),
    {
        proof {
            lemma_with_values(self.signals.entries(), |s: DbcSignal| s@, name@);
        }
        match self.signals.position(name.as_str()) {
            Some(i) => {
                proof {
                    crate::name_map::lemma_first_unique(self@.signals, name@, i as int);
                }
                let signal = self.signals.value_at_mut(i);
                let _ = signal.merge_entry(entry);
                assert(self@.signals =~= old(self)@.with_signal(entry@).signals);
            },
            None => {
                match DbcSignal::from_entry(entry) {
                    Ok(signal) => {
                        self.signals.insert(name, signal);
                    },
                    Err(_) => {},
                }
                assert(self@.signals =~= old(self)@.with_signal(entry@).signals);
            },
        }
    }
}

impl Default for DbcFrame {
    fn default() -> (frame: Self)
        ensures
            frame@ == FrameModel::empty(0),
    {
        DbcFrame::empty(0)
    }
}

impl FromDbc for DbcFrame {
    type Err = ();

    fn from_entry(entry: Entry) -> (r: Result<Self, ()>)
        ensures
            r is Ok <==> carried_id(entry@).is_some(),
            r matches Ok(frame) ==> Some(frame@) == FrameModel::from_entry(entry@),
    {
        let id = match &entry {
            Entry::MessageDefinition(d) => d.id,
            Entry::MessageDescription(d) => d.id,
            Entry::MessageAttribute(a) => a.id,
            Entry::SignalDescription(d) => d.id,
            Entry::SignalAttribute(a) => a.id,
            _ => {
                return Err(());
            },
        };
        let mut frame = DbcFrame::empty(id);
        let _ = frame.merge_entry(entry);
        Ok(frame)
    }

    fn merge_entry(&mut self, entry: Entry) -> (r: Result<(), ()>)
        ensures
            r is Ok <==> FrameModel::accepts(entry@),
            final(self)@ == old(self)@.merge(entry@),
    {
        match entry {
            Entry::MessageDefinition(DbcFrameDefinition {
                id: _id,
                name,
                message_len,
                sending_node,
            }) => {
                self.name = name;
                self.message_len = message_len;
                self.sending_node = sending_node;
                Ok(())
            },
            Entry::MessageDescription(DbcMessageDescription { id: _id, description }) => {
                self.description = Some(description);
                Ok(())
            },
            Entry::MessageAttribute(DbcMessageAttribute { name, id: _id, value }) => {
                proof {
                    lemma_text_map_insert(self.attributes@, name@, value);
                }
                self.attributes.insert(name, value);
                Ok(())
            },
            Entry::SignalDefinition(inner) => {
                let name = inner.name.clone();
                self.route(name, Entry::SignalDefinition(inner));
                Ok(())
            },
            Entry::SignalDescription(inner) => {
                let name = inner.signal_name.clone();
                self.route(name, Entry::SignalDescription(inner));
                Ok(())
            },
            Entry::SignalAttribute(inner) => {
                let name = inner.signal_name.clone();
                self.route(name, Entry::SignalAttribute(inner));
                Ok(())
            },
            _ => Err(()),
        }
    }
}

/// What a library holds.
pub struct LibraryModel {
    /// The frame that was created or updated last, if any was.
    pub last_id: Option<u32>,
    /// The frames by arbitration ID.
    pub frames: Map<u32, FrameModel>,
}

impl LibraryModel {
    /// A library without frames.
    pub open spec fn empty() -> LibraryModel {
        LibraryModel { last_id: None, frames: Map::empty() }
    }

    /// The frame that an entry goes to: the one that it names, or, for a
    /// signal definition, which names none, the frame that was touched last.
    pub open spec fn resolve(self, entry: EntryView) -> Result<u32, Failure> {
        match entry {
            EntryView::SignalDefinition(_) => match self.last_id {
                Some(id) => Ok(id),
                None => Err(Failure::MissingContext),
            },
            _ => match carried_id(entry) {
                Some(id) => Ok(id),
                None => Err(Failure::UnsupportedEntry(entry.kind())),
            },
        }
    }

    /// The frame with the given ID as it is before an entry reaches it: the
    /// frame that the library holds, or a new one.
    pub open spec fn frame_or_new(self, id: u32) -> FrameModel {
        if self.frames.contains_key(id) {
            self.frames[id]
        } else {
            FrameModel::empty(id)
        }
    }

    /// The library after an entry has been added, or the reason why the
    /// entry cannot be added.
    pub open spec fn add(self, entry: EntryView) -> Result<LibraryModel, Failure> {
        match self.resolve(entry) {
            Ok(id) => Ok(
                LibraryModel {
                    last_id: Some(id),
                    frames: self.frames.insert(id, self.frame_or_new(id).merge(entry)),
                },
            ),
            Err(e) => Err(e),
        }
    }

    /// Whether some frame has a signal of the given name.
    pub open spec fn has_signal(self, name: Seq<char>) -> bool {
        exists|id: u32| #[trigger]
            self.frames.contains_key(id) && self.frames[id].signal_map().contains_key(name)
    }
}

/// The frames of a map, each as what is known of it.
pub open spec fn frame_models(frames: Map<u32, DbcFrame>) -> Map<u32, FrameModel> {
    frames.map_values(|f: DbcFrame| f@)
}

/// A struct that represents a CANdb file, and provides APIs for interacting
/// with CAN messages and signals.
#[derive(Clone, Debug)]
pub struct DbcLibrary {
    last_id: Option<u32>,
    frames: HashMap<u32, DbcFrame>,
}

impl View for DbcLibrary {
    type V = LibraryModel;

    closed spec fn view(&self) -> LibraryModel {
        LibraryModel { last_id: self.last_id, frames: frame_models(self.frames@) }
    }
}

impl DbcLibrary {
    /// Creates a new `DbcLibrary` instance given an existing lookup table.
    pub fn new(messages: HashMap<u32, DbcFrame>) -> (library: Self)
        ensures
            library@ == (LibraryModel { last_id: None, frames: frame_models(messages@) }),
            library@.frames.dom().finite(),
    {
        let library = DbcLibrary { last_id: None, frames: messages };
        proof {
            library.lemma_frames_finite();
        }
        library
    }

    /// A library holds finitely many frames.
    pub proof fn lemma_frames_finite(&self)
        ensures
            self@.frames.dom().finite(),
    {
        assert(self@.frames.dom() =~= self.frames@.dom());
    }

    /// Query frames with frame ID
    pub fn get_frame(&self, id: u32) -> (frame: Option<&DbcFrame>)
        ensures
            match frame {
                Some(f) => self@.frames.contains_key(id) && self@.frames[id] == f@,
                None => !self@.frames.contains_key(id),
            },
    {
        self.frames.get(&id)
    }

    /// Returns how many frames are contained in the DBC
    pub fn len(&self) -> (n: usize)
        ensures
            n == self@.frames.len(),
    {
        proof {
            assert(self@.frames.dom() =~= self.frames@.dom());
        }
        self.frames.len()
    }

    /// Returns true if library is empty, false if it contains at least one CAN frame definition
    pub fn is_empty(&self) -> (b: bool)
        ensures
            b == (self@.frames.len() == 0),
    {
        self.len() == 0
    }

    /// Returns the signal of the given name from a frame that has one, if
    /// any frame has. Where several frames have a signal of that name, the
    /// signal of any one of them may be returned.
    pub fn get_signal(&self, name: &str) -> (signal: Option<&DbcSignal>)
        ensures
            match signal {
                Some(s) => exists|id: u32| #[trigger]
                    self@.frames.contains_key(id) && self@.frames[id].signal_map().contains_key(
                        name@,
                    ) && self@.frames[id].signal_map()[name@] == s@,
                None => !self@.has_signal(name@),
            },
    {
        for entry in it: self.frames.iter()
            invariant
                forall|j: int|
                    0 <= j < it.index() ==> !(#[trigger] it.seq()[j]).1@.signal_map().contains_key(
                        name@,
                    ),
        {
            let (id, frame) = entry;
            match frame.get_signal(name) {
                Some(s) => {
                    assert(self@.frames.contains_key(*id));
                    return Some(s);
                },
                None => {},
            }
        }
        assert(!self@.has_signal(name@));
        None
    }

    /// Add DBC `Entry` to DBC library
    pub fn add_entry(&mut self, entry: Entry) -> (r: Result<(), DbcError>)
        ensures
            match old(self)@.add(entry@) {
                Ok(after) => r is Ok && final(self)@ == after,
                Err(e) => r matches Err(error) && error@ == e && final(self)@ == old(self)@,
            },
            final(self)@.frames.dom().finite(),
    {
        proof {
            self.lemma_frames_finite();
        }
        let id: u32 = match &entry {
            Entry::MessageDefinition(d) => d.id,
            Entry::MessageDescription(d) => d.id,
            Entry::MessageAttribute(a) => a.id,
            Entry::SignalDefinition(_) => {
                // no id, and by definition must follow MessageDefinition
                match self.last_id {
                    Some(last_id) => last_id,
                    None => {
                        return Err(DbcError::MissingContext);
                    },
                }
            },
            Entry::SignalDescription(d) => d.id,
            Entry::SignalAttribute(a) => a.id,
            _ => {
                return Err(DbcError::UnsupportedEntry(entry.get_type()));
            },
        };
        match self.frames.entry(id) {
            MapEntry::Occupied(occupied) => {
                let frame = occupied.into_mut();
                let _ = frame.merge_entry(entry);
            },
            MapEntry::Vacant(vacant) => {
                let mut frame = DbcFrame::empty(id);
                let _ = frame.merge_entry(entry);
                vacant.insert(frame);
            },
        }
        self.last_id = Some(id);
        assert(self@.frames =~= old(self)@.add(entry@)->Ok_0.frames);
        Ok(())
    }
}

impl Default for DbcLibrary {
    fn default() -> (library: Self)
        ensures
            library@ == LibraryModel::empty(),
            library@.frames.dom().finite(),
    {
        let library = DbcLibrary { last_id: None, frames: HashMap::new() };
        assert(library@.frames =~= Map::empty());
        library
    }
}

/// The library that the first `n` lines of a text make: each line that is
/// not empty and spells an entry that the library can add is added, in
/// order; every other line is passed over.
pub open spec fn ingest(lines: Seq<Seq<char>>, n: nat) -> LibraryModel
    decreases n,
{
    if n == 0 {
        LibraryModel::empty()
    } else {
        let before = ingest(lines, (n - 1) as nat);
        let line = lines[n - 1];
        if line.len() == 0 {
            before
        } else {
            match entry_in(line) {
                Some(entry) => match before.add(entry) {
                    Ok(after) => after,
                    Err(_) => before,
                },
                None => before,
            }
        }
    }
}

/// The library that a text makes.
pub open spec fn loaded(text: Seq<char>) -> LibraryModel {
    ingest(lines_of(text), lines_of(text).len())
}

/// The text that bytes spell in ISO 8859-1: each byte is the character of
/// the same number.
pub open spec fn latin1_text(bytes: Seq<u8>) -> Seq<char> {
    bytes.map_values(|b: u8| b as char)
}

/// Calls `decode` of `encoding::all::ISO_8859_1` with the trap
/// `encoding::DecoderTrap::Replace`. The decoder of this encoding turns each
/// byte into the character of the same number and raises no error, so the
/// call succeeds on every input.
#[verifier::external_body]
fn decode_latin1(bytes: &[u8]) -> (r: Result<String, String>)
    ensures
        r.is_ok(),
        r.unwrap()@ == latin1_text(bytes@),
{
    ISO_8859_1.decode(bytes, DecoderTrap::Replace).map_err(|e| e.into_owned())
}

impl DbcLibrary {
    /// Loads an entire DBC text into a `DbcLibrary`. Lines that spell no
    /// entry are ignored, and so are entries which don't apply to a
    /// `DbcLibrary` (such as a signal definition before any frame).
    pub fn from_text(source: &str) -> (library: Self)
        ensures
            library@ == loaded(source@),
            library@.consistent(),
            library@.frames.dom().finite(),
    {
        proof {
            lemma_ingest_consistent(lines_of(source@), lines_of(source@).len());
        }
        let lines = split_lines(source);
        let mut entries = tokenize(&lines);
        let ghost found = entries@;
        let mut library = DbcLibrary::default();
        let mut i: usize = 0;
        while i < lines.len()
            invariant
                i <= lines@.len(),
                texts(lines@) == lines_of(source@),
                entries@.len() == lines@.len(),
                found.len() == lines@.len(),
                forall|j: int| i <= j < entries@.len() ==> entries@[j] == found[j],
                forall|j: int|
                    0 <= j < found.len() ==> entry_view(#[trigger] found[j]) == entry_in(
                        lines@[j]@,
                    ),
                library@ == ingest(lines_of(source@), i as nat),
            decreases lines@.len() - i,
        {
            let line = lines[i].as_str();
            assert(texts(lines@)[i as int] == line@);
            assert(entry_view(found[i as int]) == entry_in(line@));
            if !line.is_empty() {
                match entries[i].take() {
                    Some(entry) => {
                        let _ = library.add_entry(entry);
                    },
                    None => {},
                }
            }
            i += 1;
        }
        proof {
            library.lemma_frames_finite();
        }
        library
    }

    /// Loads the bytes of a DBC file, which are read as ISO 8859-1 text.
    pub fn from_latin1(bytes: &[u8]) -> (library: Self)
        ensures
            library@ == loaded(latin1_text(bytes@)),
            library@.consistent(),
            library@.frames.dom().finite(),
    {
        match decode_latin1(bytes) {
            Ok(text) => DbcLibrary::from_text(text.as_str()),
            Err(_) => DbcLibrary::default(),
        }
    }
}

impl FrameModel {
    /// Whether no two signals of the frame share a name.
    pub open spec fn distinct(self) -> bool {
        crate::name_map::distinct_keys(self.signals)
    }

    /// Whether each signal that has a definition stands under the name that
    /// its definition gives it.
    pub open spec fn well_named(self) -> bool {
        forall|i: int|
            0 <= i < self.signals.len() ==> ((#[trigger] self.signals[i]).1.definition matches Some(
                d,
            ) ==> d.name == self.signals[i].0)
    }
}

impl LibraryModel {
    /// Whether each frame stands under its own arbitration ID, no frame has
    /// two signals of one name or a signal under another name than that of
    /// its definition, and the frame that was touched last is among the
    /// frames.
    pub open spec fn consistent(self) -> bool {
        &&& forall|id: u32| #[trigger]
            self.frames.contains_key(id) ==> {
                &&& self.frames[id].id == id
                &&& self.frames[id].distinct()
                &&& self.frames[id].well_named()
            }
        &&& self.last_id matches Some(id) ==> self.frames.contains_key(id)
    }
}

/// An entry about a signal reaches the signal of its name and no other: after
/// the merge the frame has a signal of that name, which is the signal that
/// the frame had, or a new one, with the entry taken in; every other signal
/// is as it was, no name occurs twice if none did before, and each
/// definition stands under its own name if each did before.
pub proof fn lemma_with_signal(frame: FrameModel, entry: EntryView)
    requires
        SignalModel::accepts(entry),
    ensures
        frame.with_signal(entry).signal_map() == frame.signal_map().insert(
            signal_name(entry),
            (if frame.signal_map().contains_key(signal_name(entry)) {
                frame.signal_map()[signal_name(entry)]
            } else {
                SignalModel::empty()
            }).merge(entry),
        ),
        frame.distinct() ==> frame.with_signal(entry).distinct(),
        frame.well_named() ==> frame.with_signal(entry).well_named(),
{
    let name = signal_name(entry);
    let after = frame.with_signal(entry).signals;
    if frame.well_named() {
        assert forall|i: int| 0 <= i < after.len() implies (
        (#[trigger] after[i]).1.definition matches Some(d) ==> d.name == after[i].0) by {
            if has_key(frame.signals, name) {
                crate::name_map::lemma_first_exists(frame.signals, name);
            }
            if i < frame.signals.len() {
                assert(frame.signals[i].1.definition matches Some(d) ==> d.name
                    == frame.signals[i].0);
            }
        }
    }
    if has_key(frame.signals, name) {
        crate::name_map::lemma_first_exists(frame.signals, name);
        let i = crate::name_map::first_index(frame.signals, name);
        crate::name_map::lemma_first_unique(frame.signals, name, i);
        crate::name_map::lemma_update_is_insert(
            frame.signals,
            name,
            i,
            frame.signals[i].1.merge(entry),
        );
    } else {
        crate::name_map::lemma_push_is_insert(frame.signals, name, SignalModel::from_entry(entry));
    }
}

/// A merge never changes the arbitration ID of a frame, never takes a
/// signal away, never makes two signals share a name, and never puts a
/// signal under another name than that of its definition.
pub proof fn lemma_merge_keeps(frame: FrameModel, entry: EntryView)
    ensures
        frame.merge(entry).id == frame.id,
        forall|name: Seq<char>| #[trigger]
            frame.signal_map().contains_key(name) ==> frame.merge(entry).signal_map().contains_key(
                name,
            ),
        frame.distinct() ==> frame.merge(entry).distinct(),
        frame.well_named() ==> frame.merge(entry).well_named(),
{
    if SignalModel::accepts(entry) {
        lemma_with_signal(frame, entry);
    }
}

/// Adding an entry never takes a frame away and changes no frame but the
/// one that the entry goes to, which is the frame touched last afterwards;
/// the number of frames grows by one where that frame is new, and not at
/// all where it is not; a library that was consistent stays so.
pub proof fn lemma_add_keeps(library: LibraryModel, entry: EntryView)
    requires
        library.add(entry) is Ok,
    ensures
        ({
            let after = library.add(entry)->Ok_0;
            let id = library.resolve(entry)->Ok_0;
            &&& after.last_id == Some(id)
            &&& after.frames.contains_key(id)
            &&& after.frames[id].id == library.frame_or_new(id).id
            &&& forall|k: u32| #[trigger]
                library.frames.contains_key(k) ==> after.frames.contains_key(k)
            &&& forall|k: u32|
                k != id ==> (#[trigger] after.frames.contains_key(k)
                    == library.frames.contains_key(k))
            &&& forall|k: u32|
                k != id && #[trigger] library.frames.contains_key(k) ==> after.frames[k]
                    == library.frames[k]
            &&& library.consistent() ==> after.consistent()
            &&& library.frames.dom().finite() ==> after.frames.dom().finite() && after.frames.len()
                == library.frames.len() + (if library.frames.contains_key(id) {
                0nat
            } else {
                1nat
            })
        }),
{
    let id = library.resolve(entry)->Ok_0;
    assert(library.add(entry)->Ok_0.frames.dom() =~= library.frames.dom().insert(id));
    lemma_merge_keeps(library.frame_or_new(id), entry);
    if library.consistent() {
        assert(library.frame_or_new(id).distinct());
    }
}

/// The library that the lines of a text make is consistent.
pub proof fn lemma_ingest_consistent(lines: Seq<Seq<char>>, n: nat)
    ensures
        ingest(lines, n).consistent(),
    decreases n,
{
    if n > 0 {
        lemma_ingest_consistent(lines, (n - 1) as nat);
        let before = ingest(lines, (n - 1) as nat);
        let line = lines[n - 1];
        if line.len() != 0 {
            if let Some(entry) = entry_in(line) {
                if before.add(entry) is Ok {
                    lemma_add_keeps(before, entry);
                }
            }
        }
    }
}

/// A signal definition goes to the frame that was defined just before it:
/// after the definition of a frame and then the definition of a signal have
/// been added to any library, the frame has the signal under its name, with
/// that definition.
pub proof fn lemma_signal_follows_frame(
    library: LibraryModel,
    frame: DbcFrameDefinitionView,
    signal: DbcSignalDefinitionView,
)
    ensures
        library.add(EntryView::MessageDefinition(frame)) is Ok,
        library.add(EntryView::MessageDefinition(frame))->Ok_0.add(
            EntryView::SignalDefinition(signal),
        ) is Ok,
        ({
            let after = library.add(EntryView::MessageDefinition(frame))->Ok_0.add(
                EntryView::SignalDefinition(signal),
            )->Ok_0;
            &&& after.frames.contains_key(frame.id)
            &&& after.frames[frame.id].name == frame.name
            &&& after.frames[frame.id].signal_map().contains_key(signal.name)
            &&& after.frames[frame.id].signal_map()[signal.name].definition == Some(signal)
        }),
{
    let first = library.add(EntryView::MessageDefinition(frame))->Ok_0;
    lemma_with_signal(first.frames[frame.id], EntryView::SignalDefinition(signal));
}

/// A signal definition that comes before any frame is refused, and the
/// entries of the kinds that a library does not hold are refused whatever
/// the library holds.
pub proof fn lemma_refused(library: LibraryModel, entry: EntryView)
    ensures
        entry is SignalDefinition && library.last_id.is_none() ==> library.add(entry) == Err::<
            LibraryModel,
            Failure,
        >(Failure::MissingContext),
        entry is Version || entry is BusConfiguration || entry is Unknown ==> library.add(entry)
            == Err::<LibraryModel, Failure>(Failure::UnsupportedEntry(entry.kind())),
        library.add(entry) is Ok <==> FrameModel::accepts(entry) && !(entry is SignalDefinition
            && library.last_id.is_none()),
{
}

} // verus!
