//! The event identity model: stream-scoped event identifiers and their text
//! form, emitted event records and their content hash, per-stream handles
//! with the hash-derived stream identifier, and the typed binding through
//! which the current state of a handle is read back from the engine.
use vstd::prelude::*;

use crate::address::{
    address_hex_literal, address_of_hex_digits, is_address_hex_literal, AccountAddress, ObjectID,
    H256,
};
use crate::canonical::{encode_u64_le, encode_uleb, le_bytes, push_bytes, uleb_bytes};
use crate::digits::{dec_digits_of, dec_val_of, is_u64_dec, lemma_dec_digits_shape,
    lemma_dec_round_trip, parse_dec_u64, u128_to_dec_chars};
use crate::hash::{sha3_256, sha3_256_of};
use crate::move_types::{
    encode_type_info, encode_type_tag, type_info_bcs, type_tag_bcs, StructTag, StructTagModel,
    TypeTag, TypeTagModel,
};
use crate::strings::{str_chars, string_from_chars};
use vstd::string::StringExecFns;

verus! {

/// Mathematical model of an event identifier.
#[verifier::ext_equal]
pub struct EventIDModel {
    pub event_handle_id: Seq<u8>,
    pub event_seq: u64,
}

/// A globally unique identifier of one event: the stream it was emitted to
/// and its 0-based position within that stream. Within one stream,
/// identifiers order by the sequence number, ascending; no order is
/// defined across streams beyond the derived ordering of their bytes.
#[derive(Debug, PartialEq, Eq, PartialOrd, Ord, Hash)]
pub struct EventID {
    /// Identifies the event stream the event belongs to.
    pub event_handle_id: ObjectID,
    /// Position of the event within its stream, in emission order.
    pub event_seq: u64,
}

impl Clone for EventID {
    /// Clones the identifier; the copy has the same model.
    fn clone(&self) -> (r: Self)
        ensures
            r@ == self@,
    {
        EventID { event_handle_id: self.event_handle_id.clone(), event_seq: self.event_seq }
    }
}

impl View for EventID {
    type V = EventIDModel;

    open spec fn view(&self) -> EventIDModel {
        EventIDModel { event_handle_id: self.event_handle_id@, event_seq: self.event_seq }
    }
}

/// The text form of an event identifier: the stream identifier's literal,
/// one colon, and the decimal sequence number.
pub open spec fn event_id_chars(e: EventIDModel) -> Seq<char> {
    address_hex_literal(e.event_handle_id) + seq![':'] + dec_digits_of(e.event_seq as nat)
}

/// How often `c` occurs in `s`.
pub open spec fn count_char(s: Seq<char>, c: char) -> nat
    decreases s.len(),
{
    if s.len() == 0 {
        0
    } else {
        count_char(s.drop_last(), c) + if s.last() == c {
            1nat
        } else {
            0nat
        }
    }
}

/// Index of the first occurrence of `c` in `s`; the length when absent.
pub open spec fn first_index_of(s: Seq<char>, c: char) -> int
    decreases s.len(),
{
    if s.len() == 0 {
        0
    } else if s[0] == c {
        0
    } else {
        1 + first_index_of(s.drop_first(), c)
    }
}

/// `s` is an acceptable event identifier string: exactly one colon,
/// a stream identifier literal before it, a decimal `u64` after it.
pub open spec fn is_event_id_chars(s: Seq<char>) -> bool {
    &&& count_char(s, ':') == 1
    &&& is_address_hex_literal(s.take(first_index_of(s, ':')))
    &&& is_u64_dec(s.skip(first_index_of(s, ':') + 1))
}

/// Why an event identifier string was rejected.
#[derive(Debug, Clone, Copy, PartialEq, Eq, Structural)]
pub enum EventIDParseError {
    /// The string does not consist of exactly two colon-separated segments.
    WrongSegmentCount,
    /// The segment before the colon is not a stream identifier literal.
    InvalidHandleId,
    /// The segment after the colon is not a decimal `u64`.
    InvalidSequenceNumber,
}

/// Counting one more character extends the count by that character.
proof fn lemma_count_take_step(s: Seq<char>, c: char, i: int)
    requires
        0 <= i < s.len(),
    ensures
        count_char(s.take(i + 1), c) == count_char(s.take(i), c) + if s[i] == c {
            1nat
        } else {
            0nat
        },
{
    assert(s.take(i + 1).drop_last() =~= s.take(i));
    assert(s.take(i + 1).last() == s[i]);
}

/// The occurrences in a concatenation are those of both parts.
pub proof fn lemma_count_concat(a: Seq<char>, b: Seq<char>, c: char)
    ensures
        count_char(a + b, c) == count_char(a, c) + count_char(b, c),
    decreases b.len(),
{
    if b.len() == 0 {
        assert(a + b =~= a);
    } else {
        assert((a + b).drop_last() =~= a + b.drop_last());
        assert((a + b).last() == b.last());
        lemma_count_concat(a, b.drop_last(), c);
    }
}

/// A sequence without the character counts zero of it.
pub proof fn lemma_count_zero(s: Seq<char>, c: char)
    requires
        forall|k: int| 0 <= k < s.len() ==> s[k] != c,
    ensures
        count_char(s, c) == 0,
    decreases s.len(),
{
    if s.len() > 0 {
        lemma_count_zero(s.drop_last(), c);
    }
}

/// The position of a first occurrence determines `first_index_of`.
proof fn lemma_first_index_found(s: Seq<char>, c: char, i: int)
    requires
        0 <= i < s.len(),
        s[i] == c,
        forall|k: int| 0 <= k < i ==> s[k] != c,
    ensures
        first_index_of(s, c) == i,
    decreases i,
{
    if i > 0 {
        assert(s.drop_first()[i - 1] == s[i]);
        assert forall|k: int| 0 <= k < i - 1 implies s.drop_first()[k] != c by {
            assert(s.drop_first()[k] == s[k + 1]);
        }
        lemma_first_index_found(s.drop_first(), c, i - 1);
    }
}

impl EventID {
    /// Construct a new EventID.
    pub fn new(event_handle_id: ObjectID, event_seq: u64) -> (r: EventID)
        ensures
            r@.event_handle_id == event_handle_id@,
            r@.event_seq == event_seq,
    {
        EventID { event_handle_id, event_seq }
    }

    /// Renders the identifier in its canonical two-segment text form.
    pub fn to_string(&self) -> (r: String)
        ensures
            r@ == event_id_chars(self@),
    {
        let mut cs = self.event_handle_id.hex_literal_chars();
        cs.push(':');
        let mut ds = u128_to_dec_chars(self.event_seq as u128);
        cs.append(&mut ds);
        proof {
            assert(cs@ =~= event_id_chars(self@));
        }
        string_from_chars(cs)
    }

    /// Parses the two-segment text form back into an identifier. Each
    /// rejection names the first condition that failed: segment count,
    /// then the stream identifier, then the sequence number.
    pub fn from_string(s: &str) -> (r: Result<EventID, EventIDParseError>)
        ensures
            r is Ok <==> is_event_id_chars(s@),
            r matches Ok(id) ==> id@.event_handle_id == address_of_hex_digits(
                s@.take(first_index_of(s@, ':')).skip(2),
            ) && id@.event_seq as nat == dec_val_of(s@.skip(first_index_of(s@, ':') + 1))
                && id.event_handle_id.wf(),
            r == Err::<EventID, EventIDParseError>(EventIDParseError::WrongSegmentCount) <==> count_char(s@, ':') != 1,
            r == Err::<EventID, EventIDParseError>(EventIDParseError::InvalidHandleId) <==> count_char(s@, ':') == 1
                && !is_address_hex_literal(s@.take(first_index_of(s@, ':'))),
            r == Err::<EventID, EventIDParseError>(EventIDParseError::InvalidSequenceNumber) <==> count_char(s@, ':') == 1
                && is_address_hex_literal(s@.take(first_index_of(s@, ':'))) && !is_u64_dec(
                s@.skip(first_index_of(s@, ':') + 1),
            ),
    {
        let chars = str_chars(s);
        let mut cnt: usize = 0;
        let mut fc: usize = chars.len();
        let mut i: usize = 0;
        while i < chars.len()
            invariant
                i <= chars@.len(),
                chars@ == s@,
                cnt as nat == count_char(chars@.take(i as int), ':'),
                cnt <= i,
                cnt == 0 ==> fc == chars@.len() && (forall|k: int|
                    0 <= k < i ==> chars@[k] != ':'),
                cnt > 0 ==> fc < i && chars@[fc as int] == ':' && (forall|k: int|
                    0 <= k < fc ==> chars@[k] != ':'),
            decreases chars@.len() - i,
        {
            proof {
                lemma_count_take_step(chars@, ':', i as int);
            }
            if chars[i] == ':' {
                if cnt == 0 {
                    fc = i;
                }
                cnt = cnt + 1;
            }
            i = i + 1;
        }
        proof {
            assert(chars@.take(chars@.len() as int) =~= chars@);
        }
        if cnt != 1 {
            return Err(EventIDParseError::WrongSegmentCount);
        }
        proof {
            lemma_first_index_found(chars@, ':', fc as int);
            assert(chars@.subrange(0, fc as int) =~= chars@.take(fc as int));
        }
        let handle = match ObjectID::from_hex_literal(&chars, 0, fc) {
            Some(handle) => handle,
            None => {
                return Err(EventIDParseError::InvalidHandleId);
            },
        };
        proof {
            assert(chars@.subrange(fc + 1, chars@.len() as int) =~= chars@.skip(fc + 1));
        }
        match parse_dec_u64(&chars, fc + 1, chars.len()) {
            Some(event_seq) => Ok(EventID { event_handle_id: handle, event_seq }),
            None => Err(EventIDParseError::InvalidSequenceNumber),
        }
    }
}

impl EventID {
    /// Renders the identifier in its descriptive bracketed form.
    pub fn display_string(&self) -> (r: String)
        ensures
            r@ == "EventID[event handle id: "@ + address_hex_literal(self@.event_handle_id)
                + ", event seq: "@ + dec_digits_of(self@.event_seq as nat) + "]"@,
    {
        let mut r: String = "EventID[event handle id: ".to_owned();
        let handle = string_from_chars(self.event_handle_id.hex_literal_chars());
        r.append(handle.as_str());
        r.append(", event seq: ");
        let seq_str = string_from_chars(u128_to_dec_chars(self.event_seq as u128));
        r.append(seq_str.as_str());
        r.append("]");
        proof {
            assert(r@ =~= "EventID[event handle id: "@ + address_hex_literal(
                self@.event_handle_id,
            ) + ", event seq: "@ + dec_digits_of(self@.event_seq as nat) + "]"@);
        }
        r
    }
}

/// The canonical text form of an identifier with a 32-byte stream
/// identifier is acceptable, and parsing recovers both fields exactly.
pub proof fn lemma_event_id_string_round_trip(e: EventIDModel)
    requires
        e.event_handle_id.len() == 32,
    ensures
        is_event_id_chars(event_id_chars(e)),
        address_of_hex_digits(
            event_id_chars(e).take(first_index_of(event_id_chars(e), ':')).skip(2),
        ) == e.event_handle_id,
        dec_val_of(event_id_chars(e).skip(first_index_of(event_id_chars(e), ':') + 1))
            == e.event_seq as nat,
{
    let lit = address_hex_literal(e.event_handle_id);
    let digits = dec_digits_of(e.event_seq as nat);
    let s = event_id_chars(e);
    crate::address::lemma_address_literal_round_trip(e.event_handle_id);
    lemma_dec_digits_shape(e.event_seq as nat);
    lemma_dec_round_trip(e.event_seq as nat);
    assert(lit.len() == 66);
    assert forall|k: int| 0 <= k < lit.len() implies lit[k] != ':' by {
        if k >= 2 {
            assert(crate::digits::is_hex_digit(lit[k]));
        }
    }
    assert forall|k: int| 0 <= k < digits.len() implies digits[k] != ':' by {
        assert(crate::digits::is_dec_digit(digits[k]));
    }
    assert(s.len() == 67 + digits.len());
    assert(s[66] == ':');
    assert forall|k: int| 0 <= k < 66 implies s[k] != ':' by {
        assert(s[k] == lit[k]);
    }
    lemma_first_index_found(s, ':', 66);
    lemma_count_concat(lit + seq![':'], digits, ':');
    lemma_count_concat(lit, seq![':'], ':');
    lemma_count_zero(lit, ':');
    lemma_count_zero(digits, ':');
    let one = seq![':'];
    assert(one.len() == 1);
    assert(one.last() == ':');
    assert(one.drop_last().len() == 0);
    assert(count_char(one.drop_last(), ':') == 0);
    assert(count_char(one, ':') == 1);
    assert(count_char(s, ':') == 1);
    assert(s.take(66) =~= lit);
    assert(s.skip(67) =~= digits);
    assert(s.take(66).skip(2) =~= lit.skip(2));
}

/// Mathematical model of an emitted event record.
#[verifier::ext_equal]
pub struct EventModel {
    pub event_id: EventIDModel,
    pub type_tag: TypeTagModel,
    pub event_data: Seq<u8>,
    pub event_index: u64,
}

/// Canonical encoding of an event identifier: the stream identifier's raw
/// bytes, then the sequence number in eight little-endian bytes.
pub open spec fn event_id_bcs(e: EventIDModel) -> Seq<u8> {
    e.event_handle_id + le_bytes(e.event_seq as nat, 8)
}

/// Canonical encoding of a whole event record, over which its content hash
/// is taken.
pub open spec fn event_bcs(e: EventModel) -> Seq<u8> {
    event_id_bcs(e.event_id) + type_tag_bcs(e.type_tag) + uleb_bytes(e.event_data.len())
        + e.event_data + le_bytes(e.event_index as nat, 8)
}

/// An immutable record emitted to an event stream.
#[derive(Debug, PartialEq, Eq, Hash)]
pub struct Event {
    /// The unique identifier the event was emitted under.
    pub event_id: EventID,
    /// The declared type of the payload.
    pub type_tag: TypeTag,
    /// The encoded payload, addressed by `type_tag`.
    pub event_data: Vec<u8>,
    /// Position of the event among all events of its transaction; a
    /// different axis than the per-stream `event_seq`.
    pub event_index: u64,
}

impl Clone for Event {
    /// Clones the record; the copy has the same model.
    fn clone(&self) -> (r: Self)
        ensures
            r@ == self@,
    {
        let r = Event {
            event_id: self.event_id.clone(),
            type_tag: self.type_tag.clone(),
            event_data: crate::address::clone_bytes(&self.event_data),
            event_index: self.event_index,
        };
        proof {
            assert(r@ =~= self@);
        }
        r
    }
}

impl View for Event {
    type V = EventModel;

    open spec fn view(&self) -> EventModel {
        EventModel {
            event_id: self.event_id@,
            type_tag: self.type_tag@,
            event_data: self.event_data@,
            event_index: self.event_index,
        }
    }
}

impl Event {
    /// Assembles an event record from its four fields.
    pub fn new(event_id: EventID, type_tag: TypeTag, event_data: Vec<u8>, event_index: u64) -> (r:
        Event)
        ensures
            r@.event_id == event_id@,
            r@.type_tag == type_tag@,
            r@.event_data == event_data@,
            r@.event_index == event_index,
    {
        Event { event_id, type_tag, event_data, event_index }
    }

    /// The identifier the event was emitted under.
    pub fn event_id(&self) -> (r: &EventID)
        ensures
            r@ == self@.event_id,
    {
        &self.event_id
    }

    /// The encoded payload.
    pub fn event_data(&self) -> (r: &Vec<u8>)
        ensures
            r@ == self@.event_data,
    {
        &self.event_data
    }

    /// The declared payload type.
    pub fn type_tag(&self) -> (r: &TypeTag)
        ensures
            r@ == self@.type_tag,
    {
        &self.type_tag
    }

    /// The canonical encoding of the whole record.
    pub fn to_canonical_bytes(&self) -> (r: Vec<u8>)
        ensures
            r@ == event_bcs(self@),
    {
        let mut out: Vec<u8> = Vec::new();
        push_bytes(&mut out, self.event_id.event_handle_id.as_bytes());
        encode_u64_le(self.event_id.event_seq, &mut out);
        encode_type_tag(&self.type_tag, &mut out);
        encode_uleb(self.event_data.len(), &mut out);
        push_bytes(&mut out, &self.event_data);
        encode_u64_le(self.event_index, &mut out);
        proof {
            assert(out@ =~= event_bcs(self@));
        }
        out
    }

    /// Whether the event's payload is declared as the given struct type.
    pub fn is_type(&self, tag: &StructTag) -> (r: bool)
        ensures
            r == (self@.type_tag == TypeTagModel::Struct(tag@)),
    {
        match &self.type_tag {
            TypeTag::Struct(st) => crate::move_types::struct_tag_eq(&**st, tag),
            _ => false,
        }
    }

    /// The content hash of the record: the digest of its canonical
    /// encoding. Serves content addressing and deduplication only; it is a
    /// pure function of the record's fields.
    pub fn hash(&self) -> (r: H256)
        ensures
            r@ == sha3_256_of(event_bcs(self@)),
            r.wf(),
    {
        let bytes = self.to_canonical_bytes();
        H256::new(sha3_256(&bytes))
    }
}

/// The content hash depends on the record's fields alone: records with one
/// model hash alike, on every call.
pub proof fn lemma_event_hash_deterministic(a: EventModel, b: EventModel)
    requires
        a == b,
    ensures
        sha3_256_of(event_bcs(a)) == sha3_256_of(event_bcs(b)),
{
}

/// A per-stream counter object: the stream's identifier, the next sequence
/// number to assign, and the address that created the stream. Only the
/// execution engine ever advances the counter; this layer reads snapshots.
#[derive(Debug, PartialEq, Eq, Hash)]
pub struct EventHandle {
    /// Number of events emitted to the stream so far.
    count: u64,
    /// The stream's identifier.
    event_handle_id: ObjectID,
    /// The address that created the stream.
    sender: AccountAddress,
}

impl Clone for EventHandle {
    /// Clones the handle; the copy has the same fields.
    fn clone(&self) -> (r: Self)
        ensures
            r.count_spec() == self.count_spec(),
            r.event_handle_id_spec() == self.event_handle_id_spec(),
            r.sender_spec() == self.sender_spec(),
    {
        EventHandle {
            count: self.count,
            event_handle_id: self.event_handle_id.clone(),
            sender: self.sender.clone(),
        }
    }
}

impl EventHandle {
    /// The counter value.
    pub closed spec fn count_spec(&self) -> u64 {
        self.count
    }

    /// The stream identifier's bytes.
    pub closed spec fn event_handle_id_spec(&self) -> Seq<u8> {
        self.event_handle_id@
    }

    /// The creating address's bytes.
    pub closed spec fn sender_spec(&self) -> Seq<u8> {
        self.sender@
    }

    /// Constructs a handle snapshot from its fields.
    pub fn new(event_handle_id: ObjectID, count: u64, sender: AccountAddress) -> (r: EventHandle)
        ensures
            r.event_handle_id_spec() == event_handle_id@,
            r.count_spec() == count,
            r.sender_spec() == sender@,
    {
        EventHandle { count, event_handle_id, sender }
    }

    /// The stream's identifier.
    pub fn event_handle_id(&self) -> (r: &ObjectID)
        ensures
            r@ == self.event_handle_id_spec(),
    {
        &self.event_handle_id
    }

    /// The counter value of this snapshot.
    pub fn count(&self) -> (r: u64)
        ensures
            r == self.count_spec(),
    {
        self.count
    }

    /// Derives the stream identifier of a typed event stream: the digest of
    /// the canonical encoding of the declaring address, module name and type
    /// name. The descriptor's type parameters play no part, so all streams
    /// of one declared type share one identifier, deliberately.
    pub fn derive_event_handle_id(event_handle_type: StructTag) -> (r: ObjectID)
        ensures
            r@ == sha3_256_of(
                type_info_bcs(
                    event_handle_type@.address,
                    event_handle_type@.module,
                    event_handle_type@.name,
                ),
            ),
            r.wf(),
    {
        let mut bytes: Vec<u8> = Vec::new();
        encode_type_info(
            &event_handle_type.address,
            &event_handle_type.module,
            &event_handle_type.name,
            &mut bytes,
        );
        proof {
            assert(bytes@ =~= type_info_bcs(
                event_handle_type@.address,
                event_handle_type@.module,
                event_handle_type@.name,
            ));
        }
        let digest = sha3_256(&bytes);
        ObjectID::new(AccountAddress::new(digest))
    }
}

/// The derived stream identifier is a pure function of the declaring
/// address, module name and type name; the type parameters play no part.
pub proof fn lemma_derive_id_pure(a: StructTagModel, b: StructTagModel)
    requires
        a.address == b.address,
        a.module == b.module,
        a.name == b.name,
    ensures
        sha3_256_of(type_info_bcs(a.address, a.module, a.name)) == sha3_256_of(
            type_info_bcs(b.address, b.module, b.name),
        ),
{
}

} // verus!
