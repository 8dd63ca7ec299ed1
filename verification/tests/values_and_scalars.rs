use moveos_views::address::AccountAddress;
use moveos_views::move_types::{Identifier, StructTag, TypeTag};
use moveos_views::scalar::MalformedScalar;
use moveos_views::u256::U256;
use moveos_views::view::{
    AnnotatedMoveStruct, AnnotatedMoveStructView, AnnotatedMoveValue, AnnotatedMoveValueView,
    StrView,
};

fn addr(last: u8) -> AccountAddress {
    let mut bytes = vec![0u8; 32];
    bytes[31] = last;
    AccountAddress::new(bytes)
}

fn sample_struct() -> AnnotatedMoveStruct {
    AnnotatedMoveStruct {
        abilities: 3,
        type_: StructTag {
            address: addr(2),
            module: Identifier::new("coin").unwrap(),
            name: Identifier::new("Coin").unwrap(),
            type_params: vec![],
        },
        value: vec![
            (Identifier::new("zeta").unwrap(), AnnotatedMoveValue::U8(1)),
            (Identifier::new("alpha").unwrap(), AnnotatedMoveValue::U64(7)),
            (Identifier::new("mid").unwrap(), AnnotatedMoveValue::Bool(true)),
        ],
    }
}

#[test]
fn transform_preserves_field_order_and_names() {
    let view = AnnotatedMoveStructView::from(sample_struct());
    assert_eq!(view.abilities, 3);
    assert_eq!(view.value.len(), 3);
    assert_eq!(view.value[0].0, Identifier::new("zeta").unwrap());
    assert_eq!(view.value[1].0, Identifier::new("alpha").unwrap());
    assert_eq!(view.value[2].0, Identifier::new("mid").unwrap());
    assert_eq!(view.value[0].1, AnnotatedMoveValueView::U8(1));
    assert_eq!(view.value[1].1, AnnotatedMoveValueView::U64(StrView(7)));
    assert_eq!(view.value[2].1, AnnotatedMoveValueView::Bool(true));
    assert_eq!(view.type_.0.name, Identifier::new("Coin").unwrap());
}

#[test]
fn transform_vector_preserves_order_and_tag() {
    let value = AnnotatedMoveValue::Vector(
        TypeTag::U64,
        vec![AnnotatedMoveValue::U64(1), AnnotatedMoveValue::U64(2)],
    );
    match AnnotatedMoveValueView::from(value) {
        AnnotatedMoveValueView::Vector(tag, items) => {
            assert_eq!(tag.0, TypeTag::U64);
            assert_eq!(items.len(), 2);
            assert_eq!(items[0], AnnotatedMoveValueView::U64(StrView(1)));
            assert_eq!(items[1], AnnotatedMoveValueView::U64(StrView(2)));
        },
        other => panic!("expected a vector view, got {:?}", other),
    }
}

#[test]
fn transform_wide_scalars_and_bytes() {
    let v = AnnotatedMoveValueView::from(AnnotatedMoveValue::U256(U256::max_value()));
    assert_eq!(v, AnnotatedMoveValueView::U256(StrView(U256::max_value())));
    let v = AnnotatedMoveValueView::from(AnnotatedMoveValue::Bytes(vec![0xde, 0xad]));
    assert_eq!(v, AnnotatedMoveValueView::Bytes(StrView(vec![0xde, 0xad])));
    let v = AnnotatedMoveValueView::from(AnnotatedMoveValue::Address(addr(7)));
    assert_eq!(v, AnnotatedMoveValueView::Address(addr(7)));
}

#[test]
fn transform_nested_struct() {
    let nested = AnnotatedMoveValue::Struct(sample_struct());
    match AnnotatedMoveValueView::from(nested) {
        AnnotatedMoveValueView::Struct(view) => {
            assert_eq!(view.value.len(), 3);
            assert_eq!(view.value[1].0, Identifier::new("alpha").unwrap());
        },
        other => panic!("expected a struct view, got {:?}", other),
    }
}

#[test]
fn scalar_round_trip_u8() {
    for v in [0u8, 1, 9, 10, 255] {
        let s = StrView(v).encode();
        assert_eq!(StrView::<u8>::decode(&s).unwrap(), StrView(v));
    }
}

#[test]
fn scalar_round_trip_u16() {
    for v in [0u16, 256, u16::MAX] {
        let s = StrView(v).encode();
        assert_eq!(StrView::<u16>::decode(&s).unwrap(), StrView(v));
    }
}

#[test]
fn scalar_round_trip_u32() {
    for v in [0u32, 65536, u32::MAX] {
        let s = StrView(v).encode();
        assert_eq!(StrView::<u32>::decode(&s).unwrap(), StrView(v));
    }
}

#[test]
fn scalar_round_trip_u64() {
    for v in [0u64, 1 << 53, u64::MAX] {
        let s = StrView(v).encode();
        assert_eq!(StrView::<u64>::decode(&s).unwrap(), StrView(v));
    }
}

#[test]
fn scalar_round_trip_u128() {
    for v in [0u128, u64::MAX as u128 + 1, u128::MAX] {
        let s = StrView(v).encode();
        assert_eq!(StrView::<u128>::decode(&s).unwrap(), StrView(v));
    }
}

#[test]
fn scalar_round_trip_u256() {
    for v in [U256::zero(), U256::from_u128(u128::MAX), U256::max_value()] {
        let s = StrView(v).encode();
        assert_eq!(StrView::<U256>::decode(&s).unwrap(), StrView(v));
    }
}

#[test]
fn scalar_exact_strings() {
    assert_eq!(StrView(12345u64).encode(), "12345");
    assert_eq!(StrView(0u128).encode(), "0");
    assert_eq!(
        StrView(U256::max_value()).encode(),
        "115792089237316195423570985008687907853269984665640564039457584007913129639935"
    );
    assert_eq!(StrView(u64::MAX).encode(), "18446744073709551615");
}

#[test]
fn scalar_decode_rejects_malformed() {
    assert_eq!(StrView::<u8>::decode(""), Err(MalformedScalar));
    assert_eq!(StrView::<u8>::decode("12a"), Err(MalformedScalar));
    assert_eq!(StrView::<u8>::decode("-3"), Err(MalformedScalar));
    assert_eq!(StrView::<u8>::decode("256"), Err(MalformedScalar));
    assert_eq!(StrView::<u8>::decode("007").unwrap(), StrView(7u8));
    assert_eq!(StrView::<u64>::decode("18446744073709551616"), Err(MalformedScalar));
    assert_eq!(
        StrView::<U256>::decode(
            "115792089237316195423570985008687907853269984665640564039457584007913129639936"
        ),
        Err(MalformedScalar)
    );
}

#[test]
fn bytes_encode_matches_reference_hex() {
    let data = vec![0xde, 0xad, 0xbe, 0xef, 0x00, 0x1f];
    let encoded = StrView(data.clone()).encode();
    assert_eq!(encoded, format!("0x{}", hex::encode(&data)));
}

#[test]
fn bytes_round_trip() {
    for data in [vec![], vec![0u8], vec![0xde, 0xad, 0xbe, 0xef]] {
        let s = StrView(data.clone()).encode();
        assert_eq!(StrView::<Vec<u8>>::decode(&s).unwrap(), StrView(data));
    }
}

#[test]
fn bytes_decode_accepts_uppercase_and_rejects_malformed() {
    assert_eq!(
        StrView::<Vec<u8>>::decode("0xDEADBEEF").unwrap(),
        StrView(vec![0xde, 0xad, 0xbe, 0xef])
    );
    assert_eq!(StrView::<Vec<u8>>::decode("0xabc"), Err(MalformedScalar));
    assert_eq!(StrView::<Vec<u8>>::decode("abcd"), Err(MalformedScalar));
    assert_eq!(StrView::<Vec<u8>>::decode(""), Err(MalformedScalar));
    assert_eq!(StrView::<Vec<u8>>::decode("0x").unwrap(), StrView(vec![]));
}
