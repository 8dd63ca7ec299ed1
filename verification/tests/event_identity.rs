use moveos_views::address::{AccountAddress, ObjectID};
use moveos_views::canonical::{encode_u64_le, encode_uleb};
use moveos_views::event::{Event, EventHandle, EventID, EventIDParseError};
use moveos_views::move_types::{encode_identifier, Identifier, StructTag, TypeTag};

use sha3::Digest;

fn addr(last: u8) -> AccountAddress {
    let mut bytes = vec![0u8; 32];
    bytes[31] = last;
    AccountAddress::new(bytes)
}

fn tag(module: &str, name: &str, type_params: Vec<TypeTag>) -> StructTag {
    StructTag {
        address: addr(2),
        module: Identifier::new(module).unwrap(),
        name: Identifier::new(name).unwrap(),
        type_params,
    }
}

#[test]
fn event_id_to_string_exact() {
    let id = EventID::new(ObjectID::new(addr(2)), 5);
    let expected = format!("0x{}02:5", "00".repeat(31));
    assert_eq!(id.to_string(), expected);
}

#[test]
fn event_id_round_trip() {
    let id = EventID::new(ObjectID::new(addr(2)), 5);
    assert_eq!(EventID::from_string(&id.to_string()).unwrap(), id);
}

#[test]
fn event_id_round_trip_extremes() {
    let id = EventID::new(ObjectID::new(addr(0)), 0);
    assert_eq!(EventID::from_string(&id.to_string()).unwrap(), id);
    let id = EventID::new(ObjectID::new(AccountAddress::new(vec![0xff; 32])), u64::MAX);
    assert_eq!(EventID::from_string(&id.to_string()).unwrap(), id);
}

#[test]
fn event_id_from_string_short_handle() {
    let id = EventID::from_string("0x2:5").unwrap();
    assert_eq!(id.event_handle_id, ObjectID::new(addr(2)));
    assert_eq!(id.event_seq, 5);
}

#[test]
fn event_id_malformed_segments() {
    assert_eq!(
        EventID::from_string("0x25").unwrap_err(),
        EventIDParseError::WrongSegmentCount
    );
    assert_eq!(
        EventID::from_string("0x2:5:6").unwrap_err(),
        EventIDParseError::WrongSegmentCount
    );
    assert_eq!(EventID::from_string("").unwrap_err(), EventIDParseError::WrongSegmentCount);
}

#[test]
fn event_id_malformed_handle() {
    assert_eq!(EventID::from_string("zz:5").unwrap_err(), EventIDParseError::InvalidHandleId);
    assert_eq!(EventID::from_string(":5").unwrap_err(), EventIDParseError::InvalidHandleId);
    assert_eq!(EventID::from_string("0x:5").unwrap_err(), EventIDParseError::InvalidHandleId);
    assert_eq!(
        EventID::from_string("0xg1:5").unwrap_err(),
        EventIDParseError::InvalidHandleId
    );
    let too_long = format!("0x{}:5", "0".repeat(65));
    assert_eq!(
        EventID::from_string(&too_long).unwrap_err(),
        EventIDParseError::InvalidHandleId
    );
}

#[test]
fn event_id_malformed_sequence() {
    assert_eq!(
        EventID::from_string("0x2:").unwrap_err(),
        EventIDParseError::InvalidSequenceNumber
    );
    assert_eq!(
        EventID::from_string("0x2:5a").unwrap_err(),
        EventIDParseError::InvalidSequenceNumber
    );
    assert_eq!(
        EventID::from_string("0x2:-1").unwrap_err(),
        EventIDParseError::InvalidSequenceNumber
    );
    // one past u64::MAX
    assert_eq!(
        EventID::from_string("0x2:18446744073709551616").unwrap_err(),
        EventIDParseError::InvalidSequenceNumber
    );
    // u64::MAX itself is fine
    assert!(EventID::from_string("0x2:18446744073709551615").is_ok());
}

#[test]
fn event_id_non_ascii_rejected() {
    assert!(EventID::from_string("0xé:5").is_err());
}

#[test]
fn event_id_display_string() {
    let id = EventID::new(ObjectID::new(addr(2)), 7);
    let expected = format!("EventID[event handle id: 0x{}02, event seq: 7]", "00".repeat(31));
    assert_eq!(id.display_string(), expected);
}

#[test]
fn derive_event_handle_id_deterministic() {
    let a = EventHandle::derive_event_handle_id(tag("event", "EventHandle", vec![]));
    let b = EventHandle::derive_event_handle_id(tag("event", "EventHandle", vec![]));
    assert_eq!(a, b);
}

#[test]
fn derive_event_handle_id_ignores_type_params() {
    let a = EventHandle::derive_event_handle_id(tag("event", "EventHandle", vec![]));
    let b = EventHandle::derive_event_handle_id(tag("event", "EventHandle", vec![TypeTag::U8]));
    assert_eq!(a, b);
}

#[test]
fn derive_event_handle_id_differs_by_name() {
    let a = EventHandle::derive_event_handle_id(tag("event", "EventHandleA", vec![]));
    let b = EventHandle::derive_event_handle_id(tag("event", "EventHandleB", vec![]));
    assert_ne!(a, b);
}

#[test]
fn derive_event_handle_id_matches_reference_digest() {
    // the canonical descriptor encoding, built with the reference encoder
    let mut expected_input = addr(2).as_bytes().clone();
    expected_input.extend_from_slice(&bcs::to_bytes("event").unwrap());
    expected_input.extend_from_slice(&bcs::to_bytes("EventHandle").unwrap());
    let expected = sha3::Sha3_256::digest(&expected_input).to_vec();
    let derived = EventHandle::derive_event_handle_id(tag("event", "EventHandle", vec![]));
    assert_eq!(derived.as_bytes(), &expected);
}

#[test]
fn encode_u64_le_matches_reference() {
    let mut mine: Vec<u8> = Vec::new();
    encode_u64_le(123456789012345, &mut mine);
    assert_eq!(mine, bcs::to_bytes(&123456789012345u64).unwrap());
}

#[test]
fn encode_uleb_matches_reference() {
    let payload = vec![7u8; 300];
    let reference = bcs::to_bytes(&payload).unwrap();
    let mut mine: Vec<u8> = Vec::new();
    encode_uleb(300, &mut mine);
    assert_eq!(&reference[..mine.len()], &mine[..]);
}

#[test]
fn encode_identifier_matches_reference() {
    let mut mine: Vec<u8> = Vec::new();
    encode_identifier(&Identifier::new("get_event_handle").unwrap(), &mut mine);
    assert_eq!(mine, bcs::to_bytes("get_event_handle").unwrap());
}

#[test]
fn identifier_rejects_bad_names() {
    assert!(Identifier::new("").is_none());
    assert!(Identifier::new("9lives").is_none());
    assert!(Identifier::new("has space").is_none());
    assert!(Identifier::new("ok_name_9").is_some());
    assert!(Identifier::new("_leading").is_some());
}

#[test]
fn event_hash_stable() {
    let event = Event::new(
        EventID::new(ObjectID::new(addr(9)), 3),
        TypeTag::U64,
        vec![1, 2, 3],
        2,
    );
    assert_eq!(event.hash(), event.hash());
    assert_eq!(event.hash(), event.clone().hash());
}

#[test]
fn event_hash_changes_with_each_field() {
    let base = Event::new(EventID::new(ObjectID::new(addr(9)), 3), TypeTag::U64, vec![1, 2, 3], 2);
    let other_id = Event::new(
        EventID::new(ObjectID::new(addr(9)), 4),
        TypeTag::U64,
        vec![1, 2, 3],
        2,
    );
    let other_tag = Event::new(
        EventID::new(ObjectID::new(addr(9)), 3),
        TypeTag::U128,
        vec![1, 2, 3],
        2,
    );
    let other_data = Event::new(
        EventID::new(ObjectID::new(addr(9)), 3),
        TypeTag::U64,
        vec![1, 2, 4],
        2,
    );
    let other_index = Event::new(
        EventID::new(ObjectID::new(addr(9)), 3),
        TypeTag::U64,
        vec![1, 2, 3],
        7,
    );
    assert_ne!(base.hash(), other_id.hash());
    assert_ne!(base.hash(), other_tag.hash());
    assert_ne!(base.hash(), other_data.hash());
    assert_ne!(base.hash(), other_index.hash());
}

#[test]
fn event_hash_matches_reference_digest() {
    let event = Event::new(
        EventID::new(ObjectID::new(addr(9)), 3),
        TypeTag::U64,
        vec![1, 2, 3],
        2,
    );
    let mut encoding = addr(9).as_bytes().clone();
    encoding.extend_from_slice(&bcs::to_bytes(&3u64).unwrap());
    encoding.push(2); // the variant index of a 64-bit integer type tag
    encoding.extend_from_slice(&bcs::to_bytes(&vec![1u8, 2, 3]).unwrap());
    encoding.extend_from_slice(&bcs::to_bytes(&2u64).unwrap());
    let expected = sha3::Sha3_256::digest(&encoding).to_vec();
    assert_eq!(event.hash().as_bytes(), &expected);
    assert_eq!(event.to_canonical_bytes(), encoding);
}

#[test]
fn event_is_type() {
    let coin = tag("coin", "Coin", vec![]);
    let event = Event::new(
        EventID::new(ObjectID::new(addr(9)), 3),
        TypeTag::Struct(Box::new(tag("coin", "Coin", vec![]))),
        vec![],
        0,
    );
    assert!(event.is_type(&coin));
    assert!(!event.is_type(&tag("coin", "Treasury", vec![])));
    assert!(!event.is_type(&tag("bank", "Coin", vec![])));
    let primitive = Event::new(EventID::new(ObjectID::new(addr(9)), 3), TypeTag::U64, vec![], 0);
    assert!(!primitive.is_type(&coin));
}

#[test]
fn event_ids_order_by_sequence_within_a_stream() {
    let stream = ObjectID::new(addr(5));
    let earlier = EventID::new(stream.clone(), 1);
    let later = EventID::new(stream, 2);
    assert!(earlier < later);
    // ordering compares the stream identifier first
    let other_stream = EventID::new(ObjectID::new(addr(6)), 0);
    assert!(later < other_stream);
}

#[test]
fn type_tags_render_canonically() {
    assert_eq!(TypeTag::U64.canonical_string(), "u64");
    assert_eq!(TypeTag::Bool.canonical_string(), "bool");
    assert_eq!(
        TypeTag::Vector(Box::new(TypeTag::U8)).canonical_string(),
        "vector<u8>"
    );
    let plain = tag("coin", "Coin", vec![]);
    assert_eq!(
        plain.canonical_string(),
        format!("0x{}02::coin::Coin", "00".repeat(31))
    );
    let generic = tag("coin", "Coin", vec![TypeTag::U8, TypeTag::Bool]);
    assert_eq!(
        TypeTag::Struct(Box::new(generic)).canonical_string(),
        format!("0x{}02::coin::Coin<u8, bool>", "00".repeat(31))
    );
}

#[test]
fn event_getters() {
    let event = Event::new(
        EventID::new(ObjectID::new(addr(9)), 3),
        TypeTag::Bool,
        vec![1],
        0,
    );
    assert_eq!(event.event_id(), &EventID::new(ObjectID::new(addr(9)), 3));
    assert_eq!(event.event_data(), &vec![1u8]);
    assert_eq!(event.type_tag(), &TypeTag::Bool);
}
