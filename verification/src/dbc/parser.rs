//! Regex-based DBC parser

use super::{
    DbcFrameDefinition, DbcFrameDefinitionView, DbcMessageAttribute, DbcMessageAttributeView,
    DbcMessageDescription, DbcMessageDescriptionView, DbcSignalAttribute, DbcSignalAttributeView,
    DbcSignalDefinition, DbcSignalDefinitionView, DbcSignalDescription, DbcSignalDescriptionView,
    Entry, EntryView,
};
use super::Decimal;
use crate::text::{chars_of, decimal_of, number_of, parse_u32, parse_usize};
use vstd::prelude::*;

verus! {

/// The pattern of a line that defines a frame.
pub const MESSAGE_DEFINITION: &'static str =
    r"BO_ (?P<id>\d+) (?P<name>\S+) ?: (?P<len>\d+) (?P<sending_node>.*) ?";

/// The pattern of a line that describes a frame.
pub const MESSAGE_DESCRIPTION: &'static str = r#"CM_ BO_ (?P<id>\d+) "(?P<description>.*)";"#;

/// The pattern of a line that gives an attribute of a frame.
pub const MESSAGE_ATTRIBUTE: &'static str =
    r#"BA_ "(?P<name>\w+)" BO_ (?P<id>\d+) (?P<value>\S*);"#;

/// The pattern of a line that defines a signal.
pub const SIGNAL_DEFINITION: &'static str =
    r#" SG_ (?P<name>\S*)[ \t]((?P<multiplexed>m\d+)|(?P<multiplexor>M))? ?:[ ]?(?P<start_bit>\d+)\|(?P<bit_len>\d+)@(?P<little_endian>\d)(?P<is_signed>[+-]) \((?P<scale>-?\d+(\.\d+)?(e-?\d+)?),(?P<offset>-?\d+(\.\d+)?(e-?\d+)?)\) \[(?P<min_value>-?\d+(\.\d+)?(e-?\d+)?)\|(?P<max_value>-?\d+(\.\d+)?(e-?\d+)?)\] "(?P<units>.*)" (?P<receiving_node>.*)"#;

/// The pattern of a line that describes a signal.
pub const SIGNAL_DESCRIPTION: &'static str =
    r#"CM_ SG_ (?P<id>\d+) (?P<name>\w+)[ \t]"(?P<description>.*)";"#;

/// The pattern of a line that gives an attribute of a signal.
pub const SIGNAL_ATTRIBUTE: &'static str =
    r#"BA_ "(?P<key>\w+)" SG_ (?P<id>\d+) (?P<name>\w+)[ \t]"?(?P<value>\w+)"?;"#;

/// What the regular expression `pattern` captures in `line`: nothing where
/// the pattern is no regular expression or matches nowhere in the line,
/// else, for the leftmost match, the text of the whole match followed by
/// the text of each group of the pattern, in the order in which the groups
/// open, a group that took no part in the match having no text.
pub uninterp spec fn regex_captures(pattern: Seq<char>, line: Seq<char>) -> Option<
    Seq<Option<Seq<char>>>,
>;

/// The texts of a list of groups.
pub open spec fn group_texts(groups: Seq<Option<String>>) -> Seq<Option<Seq<char>>> {
    groups.map_values(
        |g: Option<String>|
            match g {
                Some(s) => Some(s@),
                None => None,
            },
    )
}

/// The texts of the groups of a match, if there is a match.
pub open spec fn captured(groups: Option<Vec<Option<String>>>) -> Option<Seq<Option<Seq<char>>>> {
    match groups {
        Some(groups) => Some(group_texts(groups@)),
        None => None,
    }
}

/// Calls `regex::Regex::new` on the pattern, once, and
/// `regex::Regex::captures` on each line, and copies the text of each group
/// of a match that `regex::Captures::iter` hands out. The result has, at
/// the place of each line, what `regex_captures` names for the pattern and
/// that line.
#[verifier::external_body]
fn captures_each(pattern: &str, lines: &Vec<String>) -> (found: Vec<Option<Vec<Option<String>>>>)
    ensures
        found@.len() == lines@.len(),
        forall|i: int|
            0 <= i < found@.len() ==> captured(#[trigger] found@[i]) == regex_captures(
                pattern@,
                lines@[i]@,
            ),
{
    let compiled = regex::Regex::new(pattern).ok();
    lines.iter().map(|line| {
        let found = compiled.as_ref()?.captures(line)?;
        Some(found.iter().map(|m| m.map(|m| m.as_str().to_string())).collect())
    }).collect()
}

/// What a pattern captures in one line.
pub fn captures(pattern: &str, line: &str) -> (groups: Option<Vec<Option<String>>>)
    ensures
        captured(groups) == regex_captures(pattern@, line@),
{
    let mut lines: Vec<String> = Vec::new();
    lines.push(line.to_owned());
    let mut found = captures_each(pattern, &lines);
    match found.pop() {
        Some(groups) => groups,
        None => None,
    }
}

/// The text of the group at place `i`, if the group is there and has one.
pub open spec fn group(groups: Seq<Option<Seq<char>>>, i: int) -> Option<Seq<char>> {
    if 0 <= i < groups.len() {
        groups[i]
    } else {
        None
    }
}

/// The text of the group at place `i`.
pub fn group_at(groups: &Vec<Option<String>>, i: usize) -> (g: Option<&String>)
    ensures
        match g {
            Some(s) => group(group_texts(groups@), i as int) == Some(s@),
            None => group(group_texts(groups@), i as int).is_none(),
        },
{
    if i < groups.len() {
        groups[i].as_ref()
    } else {
        None
    }
}

/// The number of at most 32 bits that a text spells.
pub open spec fn u32_of(text: Seq<char>) -> Option<u32> {
    match number_of(text, u32::MAX as nat) {
        Some(n) => Some(n as u32),
        None => None,
    }
}

/// The number that a text spells, where it fits in a machine word.
pub open spec fn usize_of(text: Seq<char>) -> Option<usize> {
    match number_of(text, usize::MAX as nat) {
        Some(n) => Some(n as usize),
        None => None,
    }
}

/// The definition of a frame that the groups of a match spell: the groups
/// one to four are the arbitration ID, the name, the length and the sending
/// node.
pub open spec fn message_definition_of(groups: Seq<Option<Seq<char>>>) -> Option<
    DbcFrameDefinitionView,
> {
    match (group(groups, 1), group(groups, 2), group(groups, 3), group(groups, 4)) {
        (Some(id), Some(name), Some(len), Some(sending_node)) => match (u32_of(id), u32_of(len)) {
            (Some(id), Some(message_len)) => Some(
                DbcFrameDefinitionView { id, name, message_len, sending_node },
            ),
            _ => None,
        },
        _ => None,
    }
}

/// Makes the definition of a frame out of the groups of a match.
pub fn message_definition_from(groups: &Vec<Option<String>>) -> (r: Option<DbcFrameDefinition>)
    ensures
        match r {
            Some(d) => message_definition_of(group_texts(groups@)) == Some(d@),
            None => message_definition_of(group_texts(groups@)).is_none(),
        },
{
    match (group_at(groups, 1), group_at(groups, 2), group_at(groups, 3), group_at(groups, 4)) {
        (Some(id), Some(name), Some(len), Some(sending_node)) => {
            match (parse_u32(id.as_str()), parse_u32(len.as_str())) {
                (Some(id), Some(message_len)) => Some(
                    DbcFrameDefinition {
                        id,
                        name: name.clone(),
                        message_len,
                        sending_node: sending_node.clone(),
                    },
                ),
                _ => None,
            }
        },
        _ => None,
    }
}

/// The definition of a frame that a line spells.
pub open spec fn message_definition_in(line: Seq<char>) -> Option<DbcFrameDefinitionView> {
    match regex_captures(MESSAGE_DEFINITION@, line) {
        Some(groups) => message_definition_of(groups),
        None => None,
    }
}

/// Reads a line that defines a frame.
pub fn parse_message_definition(line: &str) -> (r: Option<DbcFrameDefinition>)
    ensures
        match r {
            Some(d) => message_definition_in(line@) == Some(d@),
            None => message_definition_in(line@).is_none(),
        },
{
    match captures(MESSAGE_DEFINITION, line) {
        Some(groups) => message_definition_from(&groups),
        None => None,
    }
}

/// The description of a frame that the groups of a match spell: the
/// groups one and two are the arbitration ID and the text.
pub open spec fn message_description_of(groups: Seq<Option<Seq<char>>>) ->
    Option<DbcMessageDescriptionView> {
    match (group(groups, 1), group(groups, 2)) {
        (Some(id), Some(description)) => match u32_of(id) {
            Some(id) => Some(DbcMessageDescriptionView { id, description }),
            None => None,
        },
        _ => None,
    }
}

/// Makes the description of a frame out of the groups of a match.
pub fn message_description_from(groups: &Vec<Option<String>>) -> (r: Option<DbcMessageDescription>)
    ensures
        match r {
            Some(d) => message_description_of(group_texts(groups@)) == Some(d@),
            None => message_description_of(group_texts(groups@)).is_none(),
        },
{
    match (group_at(groups, 1), group_at(groups, 2)) {
        (Some(id), Some(description)) => {
            match parse_u32(id.as_str()) {
                Some(id) => Some(DbcMessageDescription { id, description: description.clone() }),
                None => None,
            }
        },
        _ => None,
    }
}

/// The description of a frame that a line spells.
pub open spec fn message_description_in(line: Seq<char>) -> Option<DbcMessageDescriptionView> {
    match regex_captures(MESSAGE_DESCRIPTION@, line) {
        Some(groups) => message_description_of(groups),
        None => None,
    }
}

/// Reads a line that describes a frame.
pub fn parse_message_description(line: &str) -> (r: Option<DbcMessageDescription>)
    ensures
        match r {
            Some(d) => message_description_in(line@) == Some(d@),
            None => message_description_in(line@).is_none(),
        },
{
    match captures(MESSAGE_DESCRIPTION, line) {
        Some(groups) => message_description_from(&groups),
        None => None,
    }
}

/// The attribute of a frame that the groups of a match spell: the groups
/// one to three are the name, the arbitration ID and the value.
pub open spec fn message_attribute_of(groups: Seq<Option<Seq<char>>>) ->
    Option<DbcMessageAttributeView> {
    match (group(groups, 1), group(groups, 2), group(groups, 3)) {
        (Some(name), Some(id), Some(value)) => match u32_of(id) {
            Some(id) => Some(DbcMessageAttributeView { name, id, value }),
            None => None,
        },
        _ => None,
    }
}

/// Makes the attribute of a frame out of the groups of a match.
pub fn message_attribute_from(groups: &Vec<Option<String>>) -> (r: Option<DbcMessageAttribute>)
    ensures
        match r {
            Some(d) => message_attribute_of(group_texts(groups@)) == Some(d@),
            None => message_attribute_of(group_texts(groups@)).is_none(),
        },
{
    match (group_at(groups, 1), group_at(groups, 2), group_at(groups, 3)) {
        (Some(name), Some(id), Some(value)) => {
            match parse_u32(id.as_str()) {
                Some(id) => Some(DbcMessageAttribute { name: name.clone(), id, value: value.clone()
                    }),
                None => None,
            }
        },
        _ => None,
    }
}

/// The attribute of a frame that a line spells.
pub open spec fn message_attribute_in(line: Seq<char>) -> Option<DbcMessageAttributeView> {
    match regex_captures(MESSAGE_ATTRIBUTE@, line) {
        Some(groups) => message_attribute_of(groups),
        None => None,
    }
}

/// Reads a line that gives an attribute of a frame.
pub fn parse_message_attribute(line: &str) -> (r: Option<DbcMessageAttribute>)
    ensures
        match r {
            Some(d) => message_attribute_in(line@) == Some(d@),
            None => message_attribute_in(line@).is_none(),
        },
{
    match captures(MESSAGE_ATTRIBUTE, line) {
        Some(groups) => message_attribute_from(&groups),
        None => None,
    }
}

/// The description of a signal that the groups of a match spell: the
/// groups one to three are the arbitration ID, the name of the signal and
/// the text.
pub open spec fn signal_description_of(groups: Seq<Option<Seq<char>>>) ->
    Option<DbcSignalDescriptionView> {
    match (group(groups, 1), group(groups, 2), group(groups, 3)) {
        (Some(id), Some(signal_name), Some(description)) => match u32_of(id) {
            Some(id) => Some(DbcSignalDescriptionView { id, signal_name, description }),
            None => None,
        },
        _ => None,
    }
}

/// Makes the description of a signal out of the groups of a match.
pub fn signal_description_from(groups: &Vec<Option<String>>) -> (r: Option<DbcSignalDescription>)
    ensures
        match r {
            Some(d) => signal_description_of(group_texts(groups@)) == Some(d@),
            None => signal_description_of(group_texts(groups@)).is_none(),
        },
{
    match (group_at(groups, 1), group_at(groups, 2), group_at(groups, 3)) {
        (Some(id), Some(signal_name), Some(description)) => {
            match parse_u32(id.as_str()) {
                Some(id) => Some(DbcSignalDescription { id, signal_name: signal_name.clone(),
                    description: description.clone() }),
                None => None,
            }
        },
        _ => None,
    }
}

/// The description of a signal that a line spells.
pub open spec fn signal_description_in(line: Seq<char>) -> Option<DbcSignalDescriptionView> {
    match regex_captures(SIGNAL_DESCRIPTION@, line) {
        Some(groups) => signal_description_of(groups),
        None => None,
    }
}

/// Reads a line that describes a signal.
pub fn parse_signal_description(line: &str) -> (r: Option<DbcSignalDescription>)
    ensures
        match r {
            Some(d) => signal_description_in(line@) == Some(d@),
            None => signal_description_in(line@).is_none(),
        },
{
    match captures(SIGNAL_DESCRIPTION, line) {
        Some(groups) => signal_description_from(&groups),
        None => None,
    }
}

/// The attribute of a signal that the groups of a match spell: the
/// groups one to four are the name of the attribute, the arbitration ID,
/// the name of the signal and the value.
pub open spec fn signal_attribute_of(groups: Seq<Option<Seq<char>>>) ->
    Option<DbcSignalAttributeView> {
    match (group(groups, 1), group(groups, 2), group(groups, 3), group(groups, 4)) {
        (Some(name), Some(id), Some(signal_name), Some(value)) => match u32_of(id) {
            Some(id) => Some(DbcSignalAttributeView { name, id, signal_name, value }),
            None => None,
        },
        _ => None,
    }
}

/// Makes the attribute of a signal out of the groups of a match.
pub fn signal_attribute_from(groups: &Vec<Option<String>>) -> (r: Option<DbcSignalAttribute>)
    ensures
        match r {
            Some(d) => signal_attribute_of(group_texts(groups@)) == Some(d@),
            None => signal_attribute_of(group_texts(groups@)).is_none(),
        },
{
    match (group_at(groups, 1), group_at(groups, 2), group_at(groups, 3), group_at(groups, 4)) {
        (Some(name), Some(id), Some(signal_name), Some(value)) => {
            match parse_u32(id.as_str()) {
                Some(id) => Some(DbcSignalAttribute { name: name.clone(), id, signal_name:
                    signal_name.clone(), value: value.clone() }),
                None => None,
            }
        },
        _ => None,
    }
}

/// The attribute of a signal that a line spells.
pub open spec fn signal_attribute_in(line: Seq<char>) -> Option<DbcSignalAttributeView> {
    match regex_captures(SIGNAL_ATTRIBUTE@, line) {
        Some(groups) => signal_attribute_of(groups),
        None => None,
    }
}

/// Reads a line that gives an attribute of a signal.
pub fn parse_signal_attribute(line: &str) -> (r: Option<DbcSignalAttribute>)
    ensures
        match r {
            Some(d) => signal_attribute_in(line@) == Some(d@),
            None => signal_attribute_in(line@).is_none(),
        },
{
    match captures(SIGNAL_ATTRIBUTE, line) {
        Some(groups) => signal_attribute_from(&groups),
        None => None,
    }
}

/// The numbers of a signal definition that the groups of a match spell: the
/// groups 5 and 6 are the first bit and the count of bits, the groups 9,
/// 12, 15 and 18 the scale, the offset, the least and the greatest value.
pub open spec fn signal_numbers_of(groups: Seq<Option<Seq<char>>>) -> Option<
    (usize, usize, Seq<char>, Seq<char>, Seq<char>, Seq<char>),
> {
    match (
        group(groups, 5),
        group(groups, 6),
        group(groups, 9),
        group(groups, 12),
        group(groups, 15),
        group(groups, 18),
    ) {
        (
            Some(start_bit),
            Some(bit_len),
            Some(scale),
            Some(offset),
            Some(min_value),
            Some(max_value),
        ) => match (
            usize_of(start_bit),
            usize_of(bit_len),
            decimal_of(scale),
            decimal_of(offset),
            decimal_of(min_value),
            decimal_of(max_value),
        ) {
            (
                Some(start_bit),
                Some(bit_len),
                Some(scale),
                Some(offset),
                Some(min_value),
                Some(max_value),
            ) => Some((start_bit, bit_len, scale, offset, min_value, max_value)),
            _ => None,
        },
        _ => None,
    }
}

/// The definition of a signal that the groups of a match spell. Besides
/// the numbers, group 1 is the name, group 7 the byte order, little-endian
/// where it is the digit one, group 8 the sign, signed where it is a minus,
/// and the groups 21 and 22 are the unit and the receiving nodes.
pub open spec fn signal_definition_of(groups: Seq<Option<Seq<char>>>) -> Option<
    DbcSignalDefinitionView,
> {
    match (
        group(groups, 1),
        group(groups, 7),
        group(groups, 8),
        group(groups, 21),
        group(groups, 22),
        signal_numbers_of(groups),
    ) {
        (Some(name), Some(order), Some(sign), Some(units), Some(receiving_node), Some(numbers)) =>
            Some(
            DbcSignalDefinitionView {
                name,
                start_bit: numbers.0,
                bit_len: numbers.1,
                little_endian: order == seq!['1'],
                signed: sign == seq!['-'],
                scale: numbers.2,
                offset: numbers.3,
                min_value: numbers.4,
                max_value: numbers.5,
                units,
                receiving_node,
            },
        ),
        _ => None,
    }
}

/// Whether a text is the one character `c`.
pub fn is_char(text: &str, c: char) -> (b: bool)
    ensures
        b == (text@ == seq![c]),
{
    let chars = chars_of(text);
    let b = chars.len() == 1 && chars[0] == c;
    assert(b == (chars@ =~= seq![c]));
    b
}

/// Reads the numbers of a signal definition out of the groups of a match.
pub fn signal_numbers_from(groups: &Vec<Option<String>>) -> (r: Option<
    (usize, usize, Decimal, Decimal, Decimal, Decimal),
>)
    ensures
        match r {
            Some(n) => signal_numbers_of(group_texts(groups@)) == Some(
                (n.0, n.1, n.2@, n.3@, n.4@, n.5@),
            ),
            None => signal_numbers_of(group_texts(groups@)).is_none(),
        },
{
    match (
        group_at(groups, 5),
        group_at(groups, 6),
        group_at(groups, 9),
        group_at(groups, 12),
        group_at(groups, 15),
        group_at(groups, 18),
    ) {
        (
            Some(start_bit),
            Some(bit_len),
            Some(scale),
            Some(offset),
            Some(min_value),
            Some(max_value),
        ) => {
            match (
                parse_usize(start_bit.as_str()),
                parse_usize(bit_len.as_str()),
                Decimal::parse(scale.as_str()),
                Decimal::parse(offset.as_str()),
                Decimal::parse(min_value.as_str()),
                Decimal::parse(max_value.as_str()),
            ) {
                (
                    Some(start_bit),
                    Some(bit_len),
                    Some(scale),
                    Some(offset),
                    Some(min_value),
                    Some(max_value),
                ) => Some((start_bit, bit_len, scale, offset, min_value, max_value)),
                _ => None,
            }
        },
        _ => None,
    }
}

/// Makes the definition of a signal out of the groups of a match.
pub fn signal_definition_from(groups: &Vec<Option<String>>) -> (r: Option<DbcSignalDefinition>)
    ensures
        match r {
            Some(d) => signal_definition_of(group_texts(groups@)) == Some(d@),
            None => signal_definition_of(group_texts(groups@)).is_none(),
        },
{
    match (
        group_at(groups, 1),
        group_at(groups, 7),
        group_at(groups, 8),
        group_at(groups, 21),
        group_at(groups, 22),
        signal_numbers_from(groups),
    ) {
        (Some(name), Some(order), Some(sign), Some(units), Some(receiving_node), Some(numbers)) =>
            Some(
            DbcSignalDefinition {
                name: name.clone(),
                start_bit: numbers.0,
                bit_len: numbers.1,
                little_endian: is_char(order.as_str(), '1'),
                signed: is_char(sign.as_str(), '-'),
                scale: numbers.2,
                offset: numbers.3,
                min_value: numbers.4,
                max_value: numbers.5,
                units: units.clone(),
                receiving_node: receiving_node.clone(),
            },
        ),
        _ => None,
    }
}

/// The definition of a signal that a line spells.
pub open spec fn signal_definition_in(line: Seq<char>) -> Option<DbcSignalDefinitionView> {
    match regex_captures(SIGNAL_DEFINITION@, line) {
        Some(groups) => signal_definition_of(groups),
        None => None,
    }
}

/// Reads a line that defines a signal.
pub fn parse_signal_definition(line: &str) -> (r: Option<DbcSignalDefinition>)
    ensures
        match r {
            Some(d) => signal_definition_in(line@) == Some(d@),
            None => signal_definition_in(line@).is_none(),
        },
{
    match captures(SIGNAL_DEFINITION, line) {
        Some(groups) => signal_definition_from(&groups),
        None => None,
    }
}

/// What is captured in a line by each of the six patterns, in the order
/// frame definition, frame description, frame attribute, signal definition,
/// signal description, signal attribute.
pub struct Captured {
    pub message_definition: Option<Seq<Option<Seq<char>>>>,
    pub message_description: Option<Seq<Option<Seq<char>>>>,
    pub message_attribute: Option<Seq<Option<Seq<char>>>>,
    pub signal_definition: Option<Seq<Option<Seq<char>>>>,
    pub signal_description: Option<Seq<Option<Seq<char>>>>,
    pub signal_attribute: Option<Seq<Option<Seq<char>>>>,
}

/// What the six patterns capture in a line.
pub open spec fn captured_in(line: Seq<char>) -> Captured {
    Captured {
        message_definition: regex_captures(MESSAGE_DEFINITION@, line),
        message_description: regex_captures(MESSAGE_DESCRIPTION@, line),
        message_attribute: regex_captures(MESSAGE_ATTRIBUTE@, line),
        signal_definition: regex_captures(SIGNAL_DEFINITION@, line),
        signal_description: regex_captures(SIGNAL_DESCRIPTION@, line),
        signal_attribute: regex_captures(SIGNAL_ATTRIBUTE@, line),
    }
}

/// What `f` makes of the groups of a match, if there is a match.
pub open spec fn among<V>(
    groups: Option<Seq<Option<Seq<char>>>>,
    f: spec_fn(Seq<Option<Seq<char>>>) -> Option<V>,
) -> Option<V> {
    match groups {
        Some(groups) => f(groups),
        None => None,
    }
}

/// The entry that the captures of the six patterns spell: that of the
/// first pattern, in their order, whose groups spell an entry of its kind.
pub open spec fn entry_of(c: Captured) -> Option<EntryView> {
    if let Some(d) = among(c.message_definition, |g| message_definition_of(g)) {
        Some(EntryView::MessageDefinition(d))
    } else if let Some(d) = among(c.message_description, |g| message_description_of(g)) {
        Some(EntryView::MessageDescription(d))
    } else if let Some(a) = among(c.message_attribute, |g| message_attribute_of(g)) {
        Some(EntryView::MessageAttribute(a))
    } else if let Some(d) = among(c.signal_definition, |g| signal_definition_of(g)) {
        Some(EntryView::SignalDefinition(d))
    } else if let Some(d) = among(c.signal_description, |g| signal_description_of(g)) {
        Some(EntryView::SignalDescription(d))
    } else if let Some(a) = among(c.signal_attribute, |g| signal_attribute_of(g)) {
        Some(EntryView::SignalAttribute(a))
    } else {
        None
    }
}

/// The entry that a line spells: the first of the six kinds of line, in
/// the order frame definition, frame description, frame attribute, signal
/// definition, signal description, signal attribute, that the line
/// spells.
pub open spec fn entry_in(line: Seq<char>) -> Option<EntryView> {
    entry_of(captured_in(line))
}

/// An entry, if there is one, with each string as its sequence of
/// characters.
pub open spec fn entry_view(entry: Option<Entry>) -> Option<EntryView> {
    match entry {
        Some(entry) => Some(entry@),
        None => None,
    }
}

/// Makes an entry out of what the six patterns captured in a line.
pub fn entry_from(
    message_definition: &Option<Vec<Option<String>>>,
    message_description: &Option<Vec<Option<String>>>,
    message_attribute: &Option<Vec<Option<String>>>,
    signal_definition: &Option<Vec<Option<String>>>,
    signal_description: &Option<Vec<Option<String>>>,
    signal_attribute: &Option<Vec<Option<String>>>,
) -> (r: Option<Entry>)
    ensures
        entry_view(r) == entry_of(
            Captured {
                message_definition: captured(*message_definition),
                message_description: captured(*message_description),
                message_attribute: captured(*message_attribute),
                signal_definition: captured(*signal_definition),
                signal_description: captured(*signal_description),
                signal_attribute: captured(*signal_attribute),
            },
        ),
{
    if let Some(groups) = message_definition {
        if let Some(entry) = message_definition_from(groups) {
            return Some(Entry::MessageDefinition(entry));
        }
    }
    if let Some(groups) = message_description {
        if let Some(entry) = message_description_from(groups) {
            return Some(Entry::MessageDescription(entry));
        }
    }
    if let Some(groups) = message_attribute {
        if let Some(entry) = message_attribute_from(groups) {
            return Some(Entry::MessageAttribute(entry));
        }
    }
    if let Some(groups) = signal_definition {
        if let Some(entry) = signal_definition_from(groups) {
            return Some(Entry::SignalDefinition(entry));
        }
    }
    if let Some(groups) = signal_description {
        if let Some(entry) = signal_description_from(groups) {
            return Some(Entry::SignalDescription(entry));
        }
    }
    if let Some(groups) = signal_attribute {
        if let Some(entry) = signal_attribute_from(groups) {
            return Some(Entry::SignalAttribute(entry));
        }
    }
    None
}

/// Reads each line of a database. Each pattern is made ready once for all
/// lines.
pub fn tokenize(lines: &Vec<String>) -> (entries: Vec<Option<Entry>>)
    ensures
        entries@.len() == lines@.len(),
        forall|i: int|
            0 <= i < entries@.len() ==> entry_view(#[trigger] entries@[i]) == entry_in(
                lines@[i]@,
            ),
{
    let message_definitions = captures_each(MESSAGE_DEFINITION, lines);
    let message_descriptions = captures_each(MESSAGE_DESCRIPTION, lines);
    let message_attributes = captures_each(MESSAGE_ATTRIBUTE, lines);
    let signal_definitions = captures_each(SIGNAL_DEFINITION, lines);
    let signal_descriptions = captures_each(SIGNAL_DESCRIPTION, lines);
    let signal_attributes = captures_each(SIGNAL_ATTRIBUTE, lines);
    let mut entries: Vec<Option<Entry>> = Vec::new();
    let mut i: usize = 0;
    while i < lines.len()
        invariant
            i <= lines@.len(),
            entries@.len() == i,
            message_definitions@.len() == lines@.len(),
            message_descriptions@.len() == lines@.len(),
            message_attributes@.len() == lines@.len(),
            signal_definitions@.len() == lines@.len(),
            signal_descriptions@.len() == lines@.len(),
            signal_attributes@.len() == lines@.len(),
            forall|j: int|
                0 <= j < lines@.len() ==> captured(#[trigger] message_definitions@[j])
                    == regex_captures(MESSAGE_DEFINITION@, lines@[j]@),
            forall|j: int|
                0 <= j < lines@.len() ==> captured(#[trigger] message_descriptions@[j])
                    == regex_captures(MESSAGE_DESCRIPTION@, lines@[j]@),
            forall|j: int|
                0 <= j < lines@.len() ==> captured(#[trigger] message_attributes@[j])
                    == regex_captures(MESSAGE_ATTRIBUTE@, lines@[j]@),
            forall|j: int|
                0 <= j < lines@.len() ==> captured(#[trigger] signal_definitions@[j])
                    == regex_captures(SIGNAL_DEFINITION@, lines@[j]@),
            forall|j: int|
                0 <= j < lines@.len() ==> captured(#[trigger] signal_descriptions@[j])
                    == regex_captures(SIGNAL_DESCRIPTION@, lines@[j]@),
            forall|j: int|
                0 <= j < lines@.len() ==> captured(#[trigger] signal_attributes@[j])
                    == regex_captures(SIGNAL_ATTRIBUTE@, lines@[j]@),
            forall|j: int|
                0 <= j < i ==> entry_view(#[trigger] entries@[j]) == entry_in(lines@[j]@),
        decreases lines@.len() - i,
    {
        let entry = entry_from(
            &message_definitions[i],
            &message_descriptions[i],
            &message_attributes[i],
            &signal_definitions[i],
            &signal_descriptions[i],
            &signal_attributes[i],
        );
        entries.push(entry);
        i += 1;
    }
    entries
}

/// Reads one line of a database.
pub fn parse_dbc(line: &str) -> (r: Option<Entry>)
    ensures
        match r {
            Some(entry) => entry_in(line@) == Some(entry@),
            None => entry_in(line@).is_none(),
        },
{
    if let Some(entry) = parse_message_definition(line) {
        return Some(Entry::MessageDefinition(entry));
    }
    if let Some(entry) = parse_message_description(line) {
        return Some(Entry::MessageDescription(entry));
    }
    if let Some(entry) = parse_message_attribute(line) {
        return Some(Entry::MessageAttribute(entry));
    }
    if let Some(entry) = parse_signal_definition(line) {
        return Some(Entry::SignalDefinition(entry));
    }
    if let Some(entry) = parse_signal_description(line) {
        return Some(Entry::SignalDescription(entry));
    }
    match parse_signal_attribute(line) {
        Some(entry) => Some(Entry::SignalAttribute(entry)),
        None => None,
    }
}

} // verus!
