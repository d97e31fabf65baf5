//! Functions for encoding and decoding CAN frames

use crate::codec::{
    bytes_of, exceeds, extract, extract_bits, field_mask, oriented, place, place_bits, read_word,
    word_le, word_of, write_word,
};
use crate::dbc::library::{FrameModel, SignalModel};
use crate::dbc::{DbcError, DbcFrame, DbcSignal, DbcSignalDefinitionView, Failure};
use crate::name_map::NameMap;
use vstd::prelude::*;

verus! {

/// The first eight bytes of a message; where it is shorter, zero bytes fill
/// the rest.
pub open spec fn padded(msg: Seq<u8>) -> Seq<u8> {
    Seq::new(
        8,
        |i: int|
            if i < msg.len() {
                msg[i]
            } else {
                0u8
            },
    )
}

/// The raw value of a signal in a message: the bits of the signal in the
/// word that the message spells in the byte order of the signal. An empty
/// message has no value.
pub open spec fn decoded(
    bit_len: nat,
    start_bit: nat,
    little_endian: bool,
    msg: Seq<u8>,
) -> Option<u64> {
    if msg.len() == 0 {
        None
    } else {
        Some(extract(word_of(padded(msg), little_endian), start_bit, bit_len))
    }
}

/// The eight bytes that carry a raw value at the place of a signal and zero
/// elsewhere, or the refusal of a value beyond two to the power `bit_len`.
pub open spec fn encoded(
    bit_len: nat,
    start_bit: nat,
    little_endian: bool,
    raw: u64,
) -> Result<Seq<u8>, Failure> {
    if exceeds(raw, bit_len) {
        Err(Failure::Overflow(raw))
    } else {
        Ok(bytes_of(place(raw, start_bit), little_endian))
    }
}

/// Whether an outcome of encoding is the expected one: the same bytes, or
/// the same failure.
pub open spec fn is_outcome(
    r: Result<[u8; 8], DbcError>,
    expected: Result<Seq<u8>, Failure>,
) -> bool {
    match expected {
        Ok(bytes) => r matches Ok(b) && b@ == bytes,
        Err(e) => r matches Err(error) && error@ == e,
    }
}

/// Whether an outcome of encoding into a vector is the expected one: the
/// same bytes, or the same failure.
pub open spec fn is_outcome_vec(r: Result<Vec<u8>, DbcError>, expected: Result<Seq<u8>, Failure>)
    -> bool {
    match expected {
        Ok(bytes) => r matches Ok(b) && b@ == bytes,
        Err(e) => r matches Err(error) && error@ == e,
    }
}

/// Reads the raw value of a signal out of a full message of eight bytes.
pub fn parse_array(
    bit_len: usize,
    start_bit: usize,
    little_endian: bool,
    msg: &[u8; 8],
) -> (raw: Option<u64>)
    ensures
        raw == decoded(bit_len as nat, start_bit as nat, little_endian, msg@),
{
    assert(padded(msg@) =~= msg@);
    let word = read_word(msg.as_slice(), little_endian);
    Some(extract_bits(word, start_bit, bit_len))
}

/// Reads the raw value of a signal out of a message of any length. A
/// message of fewer than eight bytes is filled up with zero bytes, of a
/// longer one the first eight bytes count.
pub fn decode_message(
    bit_len: usize,
    start_bit: usize,
    little_endian: bool,
    msg: &[u8],
) -> (raw: Option<u64>)
    ensures
        raw == decoded(bit_len as nat, start_bit as nat, little_endian, msg@),
{
    if msg.len() == 0 {
        return None;
    }
    let mut buf: Vec<u8> = Vec::new();
    let mut i: usize = 0;
    while i < 8
        invariant
            i <= 8,
            buf@.len() == i,
            forall|j: int| 0 <= j < i ==> buf@[j] == padded(msg@)[j],
        decreases 8 - i,
    {
        if i < msg.len() {
            buf.push(msg[i]);
        } else {
            buf.push(0u8);
        }
        i += 1;
    }
    assert(buf@ =~= padded(msg@));
    let word = read_word(buf.as_slice(), little_endian);
    Some(extract_bits(word, start_bit, bit_len))
}

/// Puts a raw value at the place of a signal in a message of eight bytes.
pub fn encode_signal(
    bit_len: usize,
    start_bit: usize,
    little_endian: bool,
    raw: u64,
) -> (r: Result<[u8; 8], DbcError>)
    ensures
        is_outcome(r, encoded(bit_len as nat, start_bit as nat, little_endian, raw)),
{
    if bit_len < 64 {
        let n: u64 = bit_len as u64;
        if raw > (1u64 << n) {
            return Err(DbcError::Overflow(raw));
        }
    }
    let word = place_bits(raw, start_bit);
    Ok(write_word(word, little_endian))
}

/// The collection of functions for parsing CAN messages `N` into their defined signal values.
pub trait DecodeMessage<N> {
    /// Parses CAN message type `N` into the raw signal value on success, or `None`
    /// on failure.
    fn decode_message(&self, msg: N) -> Option<u64>;
}

/// Interface for encoding a map of signal values into a can frame
pub trait EncodeMessage<N> {
    /// Encode a can frame from the raw values of its signals
    fn encode_message(&self, signal_map: &NameMap<u64>) -> Result<N, DbcError>;
}

/// The raw value of a signal in a message. A signal without a definition
/// has none.
pub open spec fn signal_decoded(signal: SignalModel, msg: Seq<u8>) -> Option<u64> {
    match signal.definition {
        Some(d) => decoded(d.bit_len as nat, d.start_bit as nat, d.little_endian, msg),
        None => None,
    }
}

impl<'a> DecodeMessage<&'a [u8; 8]> for DbcSignal {
    /// Decodes a signal from a CAN frame of eight bytes
    fn decode_message(&self, msg: &'a [u8; 8]) -> (raw: Option<u64>)
        ensures
            raw == signal_decoded(self@, msg@),
    {
        if !self.has_definition() {
            return None;
        }
        let d = self.get_definition();
        parse_array(d.bit_len, d.start_bit, d.little_endian, msg)
    }
}

impl DecodeMessage<Vec<u8>> for DbcSignal {
    /// Decodes a signal from a CAN frame given as a byte vector
    fn decode_message(&self, msg: Vec<u8>) -> (raw: Option<u64>)
        ensures
            raw == signal_decoded(self@, msg@),
    {
        if !self.has_definition() {
            return None;
        }
        let d = self.get_definition();
        decode_message(d.bit_len, d.start_bit, d.little_endian, msg.as_slice())
    }
}

/// Eight zero bytes.
pub open spec fn zero_bytes() -> Seq<u8> {
    Seq::new(8, |i: int| 0u8)
}

/// The bytes that have each bit that `a` or `b` has at the same place.
pub open spec fn or_bytes(a: Seq<u8>, b: Seq<u8>) -> Seq<u8> {
    Seq::new(8, |i: int| a[i] | b[i])
}

/// The eight bytes that one signal of a frame contributes to a message.
/// The value is looked up under the name by which the frame holds the
/// signal.
pub open spec fn signal_bytes(name: Seq<char>, signal: SignalModel, values: Map<Seq<char>, u64>)
    -> Result<Seq<u8>, Failure> {
    match signal.definition {
        None => Err(Failure::MissingDefinition(name)),
        Some(d) => if !values.contains_key(name) {
            Err(Failure::MissingSignalData(name))
        } else {
            encoded(d.bit_len as nat, d.start_bit as nat, d.little_endian, values[name])
        },
    }
}

/// The message that the first `n` signals make together: the bytes of all
/// of them combined by `or_bytes`, or the failure of the first signal that
/// cannot be encoded.
pub open spec fn frame_bytes(
    signals: Seq<(Seq<char>, SignalModel)>,
    values: Map<Seq<char>, u64>,
    n: nat,
) -> Result<Seq<u8>, Failure>
    decreases n,
{
    if n == 0 {
        Ok(zero_bytes())
    } else {
        match frame_bytes(signals, values, (n - 1) as nat) {
            Err(e) => Err(e),
            Ok(so_far) => match signal_bytes(signals[n - 1].0, signals[n - 1].1, values) {
                Err(e) => Err(e),
                Ok(bytes) => Ok(or_bytes(so_far, bytes)),
            },
        }
    }
}

/// Sets in `result` every bit that `bytes` has.
pub fn or_into(result: &mut [u8; 8], bytes: &[u8; 8])
    ensures
        final(result)@ == or_bytes(old(result)@, bytes@),
{
    let ghost before = result@;
    let mut k: usize = 0;
    while k < 8
        invariant
            k <= 8,
            result@.len() == 8,
            bytes@.len() == 8,
            before.len() == 8,
            forall|j: int| 0 <= j < k ==> result@[j] == before[j] | bytes@[j],
            forall|j: int| k <= j < 8 ==> result@[j] == before[j],
        decreases 8 - k,
    {
        result[k] = result[k] | bytes[k];
        k += 1;
    }
    assert(result@ =~= or_bytes(before, bytes@));
}

/// The eight bytes of a message as a vector.
pub fn to_vec(bytes: &[u8; 8]) -> (v: Vec<u8>)
    ensures
        v@ == bytes@,
{
    let mut v: Vec<u8> = Vec::new();
    let mut k: usize = 0;
    while k < 8
        invariant
            k <= 8,
            bytes@.len() == 8,
            v@ == bytes@.subrange(0, k as int),
        decreases 8 - k,
    {
        v.push(bytes[k]);
        assert(v@ =~= bytes@.subrange(0, k + 1));
        k += 1;
    }
    assert(v@ =~= bytes@);
    v
}

/// Encodes the raw values of all signals of a frame into one message.
pub fn encode_frame(frame: &DbcFrame, signal_map: &NameMap<u64>) -> (r: Result<[u8; 8], DbcError>)
    ensures
        is_outcome(r, frame_bytes(frame@.signals, signal_map@, frame@.signals.len())),
{
    let mut result: [u8; 8] = [0x00, 0x00, 0x00, 0x00, 0x00, 0x00, 0x00, 0x00];
    assert(result@ =~= zero_bytes());
    let count = frame.signal_count();
    let mut i: usize = 0;
    while i < count
        invariant
            i <= count,
            count == frame@.signals.len(),
            frame_bytes(frame@.signals, signal_map@, i as nat) == Ok::<Seq<u8>, Failure>(result@),
        decreases count - i,
    {
        let (name, signal) = frame.signal_at(i);
        assert(frame_bytes(frame@.signals, signal_map@, (i + 1) as nat) == match signal_bytes(
            frame@.signals[i as int].0,
            frame@.signals[i as int].1,
            signal_map@,
        ) {
            Err(e) => Err(e),
            Ok(bytes) => Ok(or_bytes(result@, bytes)),
        });
        if !signal.has_definition() {
            proof {
                lemma_failure_stays(frame@.signals, signal_map@, (i + 1) as nat, count as nat);
            }
            return Err(DbcError::MissingDefinition(name.clone()));
        }
        let d = signal.get_definition();
        let raw = match signal_map.get(name.as_str()) {
            Some(raw) => *raw,
            None => {
                proof {
                    lemma_failure_stays(frame@.signals, signal_map@, (i + 1) as nat, count as nat);
                }
                return Err(DbcError::MissingSignalData(name.clone()));
            },
        };
        let byte_data = match encode_signal(d.bit_len, d.start_bit, d.little_endian, raw) {
            Ok(b) => b,
            Err(error) => {
                proof {
                    lemma_failure_stays(frame@.signals, signal_map@, (i + 1) as nat, count as nat);
                }
                return Err(error);
            },
        };
        or_into(&mut result, &byte_data);
        i += 1;
    }
    Ok(result)
}

/// Once a signal has failed, the failure is the result for any number of
/// further signals.
pub proof fn lemma_failure_stays(
    signals: Seq<(Seq<char>, SignalModel)>,
    values: Map<Seq<char>, u64>,
    n: nat,
    m: nat,
)
    requires
        n <= m,
        frame_bytes(signals, values, n) is Err,
    ensures
        frame_bytes(signals, values, m) == frame_bytes(signals, values, n),
    decreases m - n,
{
    if n < m {
        lemma_failure_stays(signals, values, n, (m - 1) as nat);
    }
}

impl EncodeMessage<Vec<u8>> for DbcFrame {
    /// Encodes a map of raw signal values into a message of eight bytes
    fn encode_message(&self, signal_map: &NameMap<u64>) -> (r: Result<Vec<u8>, DbcError>)
        ensures
            is_outcome_vec(r, frame_bytes(self@.signals, signal_map@, self@.signals.len())),
    {
        match encode_frame(self, signal_map) {
            Ok(bytes) => Ok(to_vec(&bytes)),
            Err(e) => Err(e),
        }
    }
}

impl EncodeMessage<[u8; 8]> for DbcFrame {
    /// Encodes a map of raw signal values into a message of eight bytes
    fn encode_message(&self, signal_map: &NameMap<u64>) -> (r: Result<[u8; 8], DbcError>)
        ensures
            is_outcome(r, frame_bytes(self@.signals, signal_map@, self@.signals.len())),
    {
        encode_frame(self, signal_map)
    }
}

/// Encoding and then decoding is the identity: a raw value that fits in the
/// bits of a signal, placed so that the signal ends within the 64 bits of a
/// message, is encoded without failure, and decoding the encoded message
/// gives the value back, in either byte order.
pub proof fn lemma_encode_then_decode(bit_len: nat, start_bit: nat, little_endian: bool, raw: u64)
    requires
        start_bit + bit_len <= 64,
        raw <= crate::codec::field_mask(bit_len),
    ensures
        encoded(bit_len, start_bit, little_endian, raw) is Ok,
        decoded(
            bit_len,
            start_bit,
            little_endian,
            encoded(bit_len, start_bit, little_endian, raw)->Ok_0,
        ) == Some(raw),
{
    crate::codec::lemma_extract_place(raw, start_bit, bit_len);
    crate::codec::lemma_word_of_bytes(place(raw, start_bit), little_endian);
    let bytes = bytes_of(place(raw, start_bit), little_endian);
    assert(padded(bytes) =~= bytes);
}

/// A message of eight bytes read in little-endian order and the same bytes
/// in reverse read in big-endian order hold the same raw value for a
/// signal.
pub proof fn lemma_byte_order_symmetry(bit_len: nat, start_bit: nat, msg: Seq<u8>)
    requires
        msg.len() == 8,
    ensures
        decoded(bit_len, start_bit, true, msg) == decoded(bit_len, start_bit, false, msg.reverse()),
{
    assert(padded(msg) =~= msg);
    assert(padded(msg.reverse()) =~= msg.reverse());
}

/// The bits of a word from `start_bit` on, `bit_len` of them, written with
/// the operators that a bit-vector proof understands.
spec fn field(word: u64, s: u64, l: u64) -> u64 {
    if s >= 64 {
        0
    } else if l >= 64 {
        word >> s
    } else {
        (word >> s) & (((1u64 << l) - 1) as u64)
    }
}

/// A bit count as a machine number; 64 stands for every count from 64 on,
/// which no field tells apart.
spec fn clamp(n: nat) -> u64 {
    if n >= 64 {
        64
    } else {
        n as u64
    }
}

proof fn lemma_field(word: u64, start_bit: nat, bit_len: nat)
    ensures
        extract(word, start_bit, bit_len) == field(word, clamp(start_bit), clamp(bit_len)),
{
    let s = clamp(start_bit);
    if start_bit < 64 && bit_len >= 64 {
        assert((word >> s) & 0xffff_ffff_ffff_ffffu64 == word >> s) by (bit_vector);
    }
}

/// A short message holds the same raw value as the full one where the
/// signal lies within the bytes that the short one has: a message cut
/// after its first `k` bytes decodes as the whole message does, in
/// little-endian order where the signal ends within the first `k` bytes,
/// in big-endian order where it starts above the bytes that were cut.
pub proof fn lemma_short_message(
    bit_len: nat,
    start_bit: nat,
    little_endian: bool,
    msg: Seq<u8>,
    k: nat,
)
    requires
        0 < k <= msg.len(),
        k < 8 ==> if little_endian {
            start_bit + bit_len <= 8 * k
        } else {
            start_bit >= 8 * (8 - k)
        },
    ensures
        decoded(bit_len, start_bit, little_endian, msg.take(k as int)) == decoded(
            bit_len,
            start_bit,
            little_endian,
            msg,
        ),
{
    let short = msg.take(k as int);
    if k >= 8 {
        assert(padded(short) =~= padded(msg));
    } else {
        let full = padded(msg);
        let cut = padded(short);
        let (b0, b1, b2, b3, b4, b5, b6, b7) = (
            full[0],
            full[1],
            full[2],
            full[3],
            full[4],
            full[5],
            full[6],
            full[7],
        );
        let k = k as u64;
        let s = clamp(start_bit);
        let l = clamp(bit_len);
        assert(cut =~= seq![
            (if k > 0 { b0 } else { 0u8 }),
            (if k > 1 { b1 } else { 0u8 }),
            (if k > 2 { b2 } else { 0u8 }),
            (if k > 3 { b3 } else { 0u8 }),
            (if k > 4 { b4 } else { 0u8 }),
            (if k > 5 { b5 } else { 0u8 }),
            (if k > 6 { b6 } else { 0u8 }),
            (if k > 7 { b7 } else { 0u8 }),
        ]);
        lemma_field(word_of(full, little_endian), start_bit, bit_len);
        lemma_field(word_of(cut, little_endian), start_bit, bit_len);
        if little_endian {
            assert(0 < k && k < 8 && s <= 64 && l <= 64 && s + l <= 8 * k ==> (if s >= 64 {
                0
            } else if l >= 64 {
                ((b0 as u64) | (b1 as u64) << 8 | (b2 as u64) << 16 | (b3 as u64) << 24 | (b4 as
                    u64) << 32 | (b5 as u64) << 40 | (b6 as u64) << 48 | (b7 as u64) << 56) >> s
            } else {
                (((b0 as u64) | (b1 as u64) << 8 | (b2 as u64) << 16 | (b3 as u64) << 24 | (b4 as
                    u64) << 32 | (b5 as u64) << 40 | (b6 as u64) << 48 | (b7 as u64) << 56) >> s) &
                    (((1u64 << l) - 1) as u64)
            }) == (if s >= 64 {
                0
            } else if l >= 64 {
                (((if k > 0 { b0 } else { 0u8 }) as u64) | ((if k > 1 { b1 } else { 0u8 }) as u64)
                    << 8 | ((if k > 2 { b2 } else { 0u8 }) as u64) << 16 | ((if k > 3 { b3 } else {
                    0u8 }) as u64) << 24 | ((if k > 4 { b4 } else { 0u8 }) as u64) << 32 | ((if k >
                    5 { b5 } else { 0u8 }) as u64) << 40 | ((if k > 6 { b6 } else { 0u8 }) as u64)
                    << 48 | ((if k > 7 { b7 } else { 0u8 }) as u64) << 56) >> s
            } else {
                ((((if k > 0 { b0 } else { 0u8 }) as u64) | ((if k > 1 { b1 } else { 0u8 }) as u64)
                    << 8 | ((if k > 2 { b2 } else { 0u8 }) as u64) << 16 | ((if k > 3 { b3 } else {
                    0u8 }) as u64) << 24 | ((if k > 4 { b4 } else { 0u8 }) as u64) << 32 | ((if k >
                    5 { b5 } else { 0u8 }) as u64) << 40 | ((if k > 6 { b6 } else { 0u8 }) as u64)
                    << 48 | ((if k > 7 { b7 } else { 0u8 }) as u64) << 56) >> s) & (((1u64 << l) -
                    1) as u64)
            })) by (bit_vector);
        } else {
            if start_bit < 64 {
                assert(0 < k && k < 8 && s < 64 && s >= 8 * (8 - k) ==> (if l >= 64 {
                    ((b7 as u64) | (b6 as u64) << 8 | (b5 as u64) << 16 | (b4 as u64) << 24 | (b3 as
                        u64) << 32 | (b2 as u64) << 40 | (b1 as u64) << 48 | (b0 as u64) << 56) >> s
                } else {
                    (((b7 as u64) | (b6 as u64) << 8 | (b5 as u64) << 16 | (b4 as u64) << 24 | (b3
                        as u64) << 32 | (b2 as u64) << 40 | (b1 as u64) << 48 | (b0 as u64) << 56)
                        >> s) & (((1u64 << l) - 1) as u64)
                }) == (if l >= 64 {
                    (((if k > 7 { b7 } else { 0u8 }) as u64) | ((if k > 6 { b6 } else { 0u8 }) as
                        u64) << 8 | ((if k > 5 { b5 } else { 0u8 }) as u64) << 16 | ((if k > 4 { b4
                        } else { 0u8 }) as u64) << 24 | ((if k > 3 { b3 } else { 0u8 }) as u64) <<
                        32 | ((if k > 2 { b2 } else { 0u8 }) as u64) << 40 | ((if k > 1 { b1 } else
                        { 0u8 }) as u64) << 48 | ((if k > 0 { b0 } else { 0u8 }) as u64) << 56) >> s
                } else {
                    ((((if k > 7 { b7 } else { 0u8 }) as u64) | ((if k > 6 { b6 } else { 0u8 }) as
                        u64) << 8 | ((if k > 5 { b5 } else { 0u8 }) as u64) << 16 | ((if k > 4 { b4
                        } else { 0u8 }) as u64) << 24 | ((if k > 3 { b3 } else { 0u8 }) as u64) <<
                        32 | ((if k > 2 { b2 } else { 0u8 }) as u64) << 40 | ((if k > 1 { b1 } else
                        { 0u8 }) as u64) << 48 | ((if k > 0 { b0 } else { 0u8 }) as u64) << 56) >>
                        s) & (((1u64 << l) - 1) as u64)
                })) by (bit_vector);
            }
        }
    }
}

/// The bits of a message, read as a little-endian word, that a signal
/// occupies.
pub open spec fn footprint(d: DbcSignalDefinitionView) -> u64 {
    oriented(place(field_mask(d.bit_len as nat), d.start_bit as nat), d.little_endian)
}

/// The definition of the signal at place `i`.
pub open spec fn layout(signals: Seq<(Seq<char>, SignalModel)>, i: int) -> DbcSignalDefinitionView {
    signals[i].1.definition.unwrap()
}

/// The value that is given for the signal at place `i`.
pub open spec fn value_of(
    signals: Seq<(Seq<char>, SignalModel)>,
    values: Map<Seq<char>, u64>,
    i: int,
) -> u64 {
    values[signals[i].0]
}

/// Whether every signal has a definition that ends within the 64 bits of a
/// message, and a value that fits in the bits of the signal.
pub open spec fn encodable(signals: Seq<(Seq<char>, SignalModel)>, values: Map<Seq<char>, u64>)
    -> bool {
    forall|i: int|
        0 <= i < signals.len() ==> {
            &&& (#[trigger] signals[i]).1.definition.is_some()
            &&& values.contains_key(signals[i].0)
            &&& layout(signals, i).start_bit + layout(signals, i).bit_len <= 64
            &&& value_of(signals, values, i) <= field_mask(layout(signals, i).bit_len as nat)
        }
}

/// Whether no two signals share a bit of the message.
pub open spec fn separate(signals: Seq<(Seq<char>, SignalModel)>) -> bool {
    forall|i: int, j: int|
        0 <= i < signals.len() && 0 <= j < signals.len() && i != j ==> footprint(
            #[trigger] layout(signals, i),
        ) & footprint(#[trigger] layout(signals, j)) == 0
}

proof fn lemma_or_words(a: Seq<u8>, b: Seq<u8>)
    ensures
        word_le(or_bytes(a, b)) == word_le(a) | word_le(b),
{
    let (a0, a1, a2, a3, a4, a5, a6, a7) = (a[0], a[1], a[2], a[3], a[4], a[5], a[6], a[7]);
    let (b0, b1, b2, b3, b4, b5, b6, b7) = (b[0], b[1], b[2], b[3], b[4], b[5], b[6], b[7]);
    assert(((a0 | b0) as u64) | ((a1 | b1) as u64) << 8 | ((a2 | b2) as u64) << 16 | ((a3 | b3) as
        u64) << 24 | ((a4 | b4) as u64) << 32 | ((a5 | b5) as u64) << 40 | ((a6 | b6) as u64) << 48
        | ((a7 | b7) as u64) << 56 == ((a0 as u64) | (a1 as u64) << 8 | (a2 as u64) << 16 | (a3 as
        u64) << 24 | (a4 as u64) << 32 | (a5 as u64) << 40 | (a6 as u64) << 48 | (a7 as u64) << 56)
        | ((b0 as u64) | (b1 as u64) << 8 | (b2 as u64) << 16 | (b3 as u64) << 24 | (b4 as u64) <<
        32 | (b5 as u64) << 40 | (b6 as u64) << 48 | (b7 as u64) << 56)) by (bit_vector);
}

/// What a signal contributes to a message, as a little-endian reader sees
/// it: a word within the footprint of the signal.
proof fn lemma_contribution(d: DbcSignalDefinitionView, raw: u64)
    requires
        raw <= field_mask(d.bit_len as nat),
    ensures
        word_le(bytes_of(place(raw, d.start_bit as nat), d.little_endian)) | footprint(d)
            == footprint(d),
        word_le(bytes_of(place(raw, d.start_bit as nat), d.little_endian)) == oriented(
            place(raw, d.start_bit as nat),
            d.little_endian,
        ),
{
    let placed = place(raw, d.start_bit as nat);
    let mask = place(field_mask(d.bit_len as nat), d.start_bit as nat);
    crate::codec::lemma_word_le_of_bytes(placed, d.little_endian);
    crate::codec::lemma_placed_within(raw, d.start_bit as nat, d.bit_len as nat);
    crate::codec::lemma_oriented(placed, mask, d.little_endian);
}

/// Two messages that agree on the footprint of a signal hold the same
/// value for it.
proof fn lemma_same_signal(x: Seq<u8>, y: Seq<u8>, d: DbcSignalDefinitionView)
    requires
        x.len() == 8,
        y.len() == 8,
        (word_le(x) ^ word_le(y)) & footprint(d) == 0,
    ensures
        decoded(d.bit_len as nat, d.start_bit as nat, d.little_endian, x) == decoded(
            d.bit_len as nat,
            d.start_bit as nat,
            d.little_endian,
            y,
        ),
{
    let e = d.little_endian;
    let mask = place(field_mask(d.bit_len as nat), d.start_bit as nat);
    assert(padded(x) =~= x);
    assert(padded(y) =~= y);
    crate::codec::lemma_word_of_oriented(x, e);
    crate::codec::lemma_word_of_oriented(y, e);
    crate::codec::lemma_oriented(word_le(x), word_le(y), e);
    crate::codec::lemma_oriented(word_le(x) ^ word_le(y), footprint(d), e);
    crate::codec::lemma_oriented(mask, 0, e);
    crate::codec::lemma_same_field(
        oriented(word_le(x), e),
        oriented(word_le(y), e),
        d.start_bit as nat,
        d.bit_len as nat,
    );
}

/// The message of the first `n` signals leaves clear every bit that the
/// footprints of those signals leave clear.
proof fn lemma_frame_clear(
    signals: Seq<(Seq<char>, SignalModel)>,
    values: Map<Seq<char>, u64>,
    n: nat,
    m: u64,
)
    requires
        encodable(signals, values),
        n <= signals.len(),
        forall|i: int| 0 <= i < n ==> footprint(#[trigger] layout(signals, i)) & m == 0,
    ensures
        frame_bytes(signals, values, n) is Ok,
        frame_bytes(signals, values, n)->Ok_0.len() == 8,
        word_le(frame_bytes(signals, values, n)->Ok_0) & m == 0,
    decreases n,
{
    if n == 0 {
        assert(((0u8 as u64) | (0u8 as u64) << 8 | (0u8 as u64) << 16 | (0u8 as u64) << 24 | (
        0u8 as u64) << 32 | (0u8 as u64) << 40 | (0u8 as u64) << 48 | (0u8 as u64) << 56) & m == 0)
            by (bit_vector);
    } else {
        let i = (n - 1) as int;
        lemma_frame_clear(signals, values, (n - 1) as nat, m);
        let so_far = frame_bytes(signals, values, (n - 1) as nat)->Ok_0;
        let d = layout(signals, i);
        let raw = value_of(signals, values, i);
        assert(signals[i].1.definition.is_some());
        crate::codec::lemma_extract_place(raw, d.start_bit as nat, d.bit_len as nat);
        let bytes = bytes_of(place(raw, d.start_bit as nat), d.little_endian);
        lemma_contribution(d, raw);
        lemma_or_words(so_far, bytes);
        let w = word_le(so_far);
        let c = word_le(bytes);
        let f = footprint(d);
        assert(f & m == 0);
        assert(w & m == 0 && c | f == f && f & m == 0 ==> (w | c) & m == 0) by (bit_vector);
    }
}

/// The message of the first `n` signals holds, for each of them, the value
/// that was given for it.
proof fn lemma_frame_prefix(
    signals: Seq<(Seq<char>, SignalModel)>,
    values: Map<Seq<char>, u64>,
    n: nat,
)
    requires
        encodable(signals, values),
        separate(signals),
        n <= signals.len(),
    ensures
        frame_bytes(signals, values, n) is Ok,
        frame_bytes(signals, values, n)->Ok_0.len() == 8,
        forall|i: int|
            0 <= i < n ==> signal_decoded(
                (#[trigger] signals[i]).1,
                frame_bytes(signals, values, n)->Ok_0,
            ) == Some(value_of(signals, values, i)),
    decreases n,
{
    if n > 0 {
        let last = (n - 1) as int;
        lemma_frame_prefix(signals, values, (n - 1) as nat);
        let so_far = frame_bytes(signals, values, (n - 1) as nat)->Ok_0;
        let d = layout(signals, last);
        let raw = value_of(signals, values, last);
        assert(signals[last].1.definition.is_some());
        crate::codec::lemma_extract_place(raw, d.start_bit as nat, d.bit_len as nat);
        let bytes = bytes_of(place(raw, d.start_bit as nat), d.little_endian);
        let all = or_bytes(so_far, bytes);
        assert(frame_bytes(signals, values, n) == Ok::<Seq<u8>, Failure>(all));
        lemma_contribution(d, raw);
        lemma_or_words(so_far, bytes);
        let w = word_le(so_far);
        let c = word_le(bytes);
        let f = footprint(d);
        assert forall|i: int| 0 <= i < n implies signal_decoded((#[trigger] signals[i]).1, all)
            == Some(value_of(signals, values, i)) by {
            let di = layout(signals, i);
            assert(signals[i].1.definition.is_some());
            if i < last {
                let fi = footprint(di);
                assert(fi & f == 0);
                assert(c | f == f && fi & f == 0 ==> ((w | c) ^ w) & fi == 0) by (bit_vector);
                lemma_same_signal(all, so_far, di);
            } else {
                assert forall|j: int| 0 <= j < last implies footprint(
                    #[trigger] layout(signals, j),
                ) & f == 0 by {}
                lemma_frame_clear(signals, values, (n - 1) as nat, f);
                assert(w & f == 0 ==> ((w | c) ^ c) & f == 0) by (bit_vector);
                assert(bytes.len() == 8);
                lemma_same_signal(all, bytes, d);
                lemma_encode_then_decode(
                    d.bit_len as nat,
                    d.start_bit as nat,
                    d.little_endian,
                    raw,
                );
            }
        }
    }
}

/// A frame whose signals share no bit of the message, each with a value
/// that fits in its bits, is encoded without failure, and decoding each
/// signal out of the encoded message gives the value that went in.
pub proof fn lemma_frame_round_trip(frame: FrameModel, values: Map<Seq<char>, u64>)
    requires
        encodable(frame.signals, values),
        separate(frame.signals),
    ensures
        frame_bytes(frame.signals, values, frame.signals.len()) is Ok,
        forall|i: int|
            0 <= i < frame.signals.len() ==> signal_decoded(
                (#[trigger] frame.signals[i]).1,
                frame_bytes(frame.signals, values, frame.signals.len())->Ok_0,
            ) == Some(value_of(frame.signals, values, i)),
{
    lemma_frame_prefix(frame.signals, values, frame.signals.len());
}

} // verus!
