//! Transport-safe view types and the recursive transformation of annotated
//! runtime values into them. Both sides share one mathematical model, and
//! the transform preserves it exactly: type tags, field names and field
//! order included.
use vstd::prelude::*;

use crate::address::{AccountAddress, ObjectID, H256};
use crate::binding::{FunctionCall, FunctionId};
use crate::event::{Event, EventID};
use crate::move_types::{Identifier, StructTag, StructTagModel, TypeTag, TypeTagModel};
use crate::u256::U256;

verus! {

/// A scalar wrapped so that lossy external encodings carry it as a string;
/// see the scalar module for the renderings.
#[derive(Debug, PartialEq, Eq, Hash)]
pub struct StrView<T>(pub T);

/// Mathematical model of an annotated runtime value.
#[verifier::ext_equal]
pub enum MoveValueModel {
    U8(u8),
    U16(u16),
    U32(u32),
    U64(u64),
    U128(u128),
    U256(nat),
    Bool(bool),
    Address(Seq<u8>),
    Bytes(Seq<u8>),
    Vector(TypeTagModel, Seq<MoveValueModel>),
    Struct(MoveStructModel),
}

/// Mathematical model of an annotated struct value: ability bits, its
/// type, and its fields in declaration order.
#[verifier::ext_equal]
pub struct MoveStructModel {
    pub abilities: u8,
    pub type_: StructTagModel,
    pub value: Seq<(Seq<u8>, MoveValueModel)>,
}

/// A tagged runtime value as the execution engine annotates it: a closed
/// set of primitives, vectors and nested structs.
#[derive(Debug, PartialEq, Eq, Hash)]
pub enum AnnotatedMoveValue {
    U8(u8),
    U16(u16),
    U32(u32),
    U64(u64),
    U128(u128),
    U256(U256),
    Bool(bool),
    Address(AccountAddress),
    Bytes(Vec<u8>),
    Vector(TypeTag, Vec<AnnotatedMoveValue>),
    Struct(AnnotatedMoveStruct),
}

/// A struct value as the execution engine annotates it.
#[derive(Debug, PartialEq, Eq, Hash)]
pub struct AnnotatedMoveStruct {
    pub abilities: u8,
    pub type_: StructTag,
    pub value: Vec<(Identifier, AnnotatedMoveValue)>,
}

/// Model of an annotated value.
pub open spec fn value_model(v: AnnotatedMoveValue) -> MoveValueModel
    decreases v,
{
    match v {
        AnnotatedMoveValue::U8(u) => MoveValueModel::U8(u),
        AnnotatedMoveValue::U16(u) => MoveValueModel::U16(u),
        AnnotatedMoveValue::U32(u) => MoveValueModel::U32(u),
        AnnotatedMoveValue::U64(u) => MoveValueModel::U64(u),
        AnnotatedMoveValue::U128(u) => MoveValueModel::U128(u),
        AnnotatedMoveValue::U256(u) => MoveValueModel::U256(u@),
        AnnotatedMoveValue::Bool(b) => MoveValueModel::Bool(b),
        AnnotatedMoveValue::Address(a) => MoveValueModel::Address(a@),
        AnnotatedMoveValue::Bytes(d) => MoveValueModel::Bytes(d@),
        AnnotatedMoveValue::Vector(t, d) => MoveValueModel::Vector(t@, values_model(d@)),
        AnnotatedMoveValue::Struct(s) => MoveValueModel::Struct(struct_value_model(s)),
    }
}

/// Models of a list of annotated values, in order.
pub open spec fn values_model(vs: Seq<AnnotatedMoveValue>) -> Seq<MoveValueModel>
    decreases vs,
{
    if vs.len() == 0 {
        Seq::empty()
    } else {
        values_model(vs.drop_last()).push(value_model(vs.last()))
    }
}

/// Model of an annotated struct value.
pub open spec fn struct_value_model(s: AnnotatedMoveStruct) -> MoveStructModel
    decreases s,
{
    MoveStructModel { abilities: s.abilities, type_: s.type_@, value: fields_model(s.value@) }
}

/// Models of a field list: each name with its value's model, in order.
pub open spec fn fields_model(fs: Seq<(Identifier, AnnotatedMoveValue)>) -> Seq<
    (Seq<u8>, MoveValueModel),
>
    decreases fs,
{
    if fs.len() == 0 {
        Seq::empty()
    } else {
        fields_model(fs.drop_last()).push((fs.last().0@, value_model(fs.last().1)))
    }
}

/// The model list mirrors the value list element by element.
pub proof fn lemma_values_model(vs: Seq<AnnotatedMoveValue>)
    ensures
        values_model(vs).len() == vs.len(),
        forall|i: int|
            0 <= i < vs.len() ==> #[trigger] values_model(vs)[i] == value_model(vs[i]),
    decreases vs,
{
    if vs.len() > 0 {
        lemma_values_model(vs.drop_last());
    }
}

/// The model list mirrors the field list element by element.
pub proof fn lemma_fields_model(fs: Seq<(Identifier, AnnotatedMoveValue)>)
    ensures
        fields_model(fs).len() == fs.len(),
        forall|i: int|
            0 <= i < fs.len() ==> #[trigger] fields_model(fs)[i] == (
                fs[i].0@,
                value_model(fs[i].1),
            ),
    decreases fs,
{
    if fs.len() > 0 {
        lemma_fields_model(fs.drop_last());
    }
}

impl View for AnnotatedMoveValue {
    type V = MoveValueModel;

    open spec fn view(&self) -> MoveValueModel {
        value_model(*self)
    }
}

impl View for AnnotatedMoveStruct {
    type V = MoveStructModel;

    open spec fn view(&self) -> MoveStructModel {
        struct_value_model(*self)
    }
}

/// The transport-safe mirror of an annotated value; wide integers and byte
/// payloads go through the string-safe wrapper.
#[derive(Debug, PartialEq, Eq, Hash)]
pub enum AnnotatedMoveValueView {
    U8(u8),
    U64(StrView<u64>),
    U128(StrView<u128>),
    Bool(bool),
    Address(AccountAddress),
    Vector(StrView<TypeTag>, Vec<AnnotatedMoveValueView>),
    Bytes(StrView<Vec<u8>>),
    Struct(AnnotatedMoveStructView),
    U16(StrView<u16>),
    U32(StrView<u32>),
    U256(StrView<U256>),
}

/// The transport-safe mirror of an annotated struct value.
#[derive(Debug, PartialEq, Eq, Hash)]
pub struct AnnotatedMoveStructView {
    pub abilities: u8,
    pub type_: StrView<StructTag>,
    pub value: Vec<(Identifier, AnnotatedMoveValueView)>,
}

/// Model of a view value; the wrappers are transparent to it.
pub open spec fn view_value_model(v: AnnotatedMoveValueView) -> MoveValueModel
    decreases v,
{
    match v {
        AnnotatedMoveValueView::U8(u) => MoveValueModel::U8(u),
        AnnotatedMoveValueView::U16(w) => MoveValueModel::U16(w.0),
        AnnotatedMoveValueView::U32(w) => MoveValueModel::U32(w.0),
        AnnotatedMoveValueView::U64(w) => MoveValueModel::U64(w.0),
        AnnotatedMoveValueView::U128(w) => MoveValueModel::U128(w.0),
        AnnotatedMoveValueView::U256(w) => MoveValueModel::U256(w.0@),
        AnnotatedMoveValueView::Bool(b) => MoveValueModel::Bool(b),
        AnnotatedMoveValueView::Address(a) => MoveValueModel::Address(a@),
        AnnotatedMoveValueView::Bytes(w) => MoveValueModel::Bytes(w.0@),
        AnnotatedMoveValueView::Vector(tw, d) => MoveValueModel::Vector(
            tw.0@,
            view_values_model(d@),
        ),
        AnnotatedMoveValueView::Struct(s) => MoveValueModel::Struct(view_struct_model(s)),
    }
}

/// Models of a list of view values, in order.
pub open spec fn view_values_model(vs: Seq<AnnotatedMoveValueView>) -> Seq<MoveValueModel>
    decreases vs,
{
    if vs.len() == 0 {
        Seq::empty()
    } else {
        view_values_model(vs.drop_last()).push(view_value_model(vs.last()))
    }
}

/// Model of a struct view.
pub open spec fn view_struct_model(s: AnnotatedMoveStructView) -> MoveStructModel
    decreases s,
{
    MoveStructModel { abilities: s.abilities, type_: s.type_.0@, value: view_fields_model(s.value@) }
}

/// Models of a view field list, in order.
pub open spec fn view_fields_model(fs: Seq<(Identifier, AnnotatedMoveValueView)>) -> Seq<
    (Seq<u8>, MoveValueModel),
>
    decreases fs,
{
    if fs.len() == 0 {
        Seq::empty()
    } else {
        view_fields_model(fs.drop_last()).push((fs.last().0@, view_value_model(fs.last().1)))
    }
}

/// The model list mirrors the view value list element by element.
pub proof fn lemma_view_values_model(vs: Seq<AnnotatedMoveValueView>)
    ensures
        view_values_model(vs).len() == vs.len(),
        forall|i: int|
            0 <= i < vs.len() ==> #[trigger] view_values_model(vs)[i] == view_value_model(vs[i]),
    decreases vs,
{
    if vs.len() > 0 {
        lemma_view_values_model(vs.drop_last());
    }
}

/// The model list mirrors the view field list element by element.
pub proof fn lemma_view_fields_model(fs: Seq<(Identifier, AnnotatedMoveValueView)>)
    ensures
        view_fields_model(fs).len() == fs.len(),
        forall|i: int|
            0 <= i < fs.len() ==> #[trigger] view_fields_model(fs)[i] == (
                fs[i].0@,
                view_value_model(fs[i].1),
            ),
    decreases fs,
{
    if fs.len() > 0 {
        lemma_view_fields_model(fs.drop_last());
    }
}

impl View for AnnotatedMoveValueView {
    type V = MoveValueModel;

    open spec fn view(&self) -> MoveValueModel {
        view_value_model(*self)
    }
}

impl View for AnnotatedMoveStructView {
    type V = MoveStructModel;

    open spec fn view(&self) -> MoveStructModel {
        view_struct_model(*self)
    }
}

/// Transforms a list of annotated values, preserving order.
fn transform_values(values: &Vec<AnnotatedMoveValue>) -> (r: Vec<AnnotatedMoveValueView>)
    ensures
        r@.len() == values@.len(),
        forall|i: int|
            0 <= i < values@.len() ==> #[trigger] r@[i]@ == value_model(values@[i]),
    decreases values,
{
    let mut out: Vec<AnnotatedMoveValueView> = Vec::new();
    let mut i: usize = 0;
    while i < values.len()
        invariant
            i <= values@.len(),
            out@.len() == i,
            forall|k: int| 0 <= k < i ==> #[trigger] out@[k]@ == value_model(values@[k]),
        decreases values@.len() - i,
    {
        proof {
            assert(decreases_to!(values => values@));
            assert(decreases_to!(values@ => values@[i as int]));
        }
        out.push(transform_value(&values[i]));
        i = i + 1;
    }
    out
}

/// Transforms a field list, preserving names and order.
fn transform_fields(fields: &Vec<(Identifier, AnnotatedMoveValue)>) -> (r: Vec<
    (Identifier, AnnotatedMoveValueView),
>)
    ensures
        r@.len() == fields@.len(),
        forall|i: int| 0 <= i < fields@.len() ==> #[trigger] r@[i].0@ == fields@[i].0@,
        forall|i: int|
            0 <= i < fields@.len() ==> #[trigger] r@[i].1@ == value_model(fields@[i].1),
    decreases fields,
{
    let mut out: Vec<(Identifier, AnnotatedMoveValueView)> = Vec::new();
    let mut i: usize = 0;
    while i < fields.len()
        invariant
            i <= fields@.len(),
            out@.len() == i,
            forall|k: int| 0 <= k < i ==> #[trigger] out@[k].0@ == fields@[k].0@,
            forall|k: int|
                0 <= k < i ==> #[trigger] out@[k].1@ == value_model(fields@[k].1),
        decreases fields@.len() - i,
    {
        proof {
            assert(decreases_to!(fields => fields@));
            assert(decreases_to!(fields@ => fields@[i as int]));
            assert(decreases_to!(fields@[i as int] => fields@[i as int].1));
        }
        let pair = &fields[i];
        out.push((pair.0.clone(), transform_value(&pair.1)));
        i = i + 1;
    }
    out
}

/// Transforms one annotated value into its view; the view carries exactly
/// the model of the input.
fn transform_value(origin: &AnnotatedMoveValue) -> (r: AnnotatedMoveValueView)
    ensures
        r@ == origin@,
    decreases origin,
{
    match origin {
        AnnotatedMoveValue::U8(u) => AnnotatedMoveValueView::U8(*u),
        AnnotatedMoveValue::U16(u) => AnnotatedMoveValueView::U16(StrView(*u)),
        AnnotatedMoveValue::U32(u) => AnnotatedMoveValueView::U32(StrView(*u)),
        AnnotatedMoveValue::U64(u) => AnnotatedMoveValueView::U64(StrView(*u)),
        AnnotatedMoveValue::U128(u) => AnnotatedMoveValueView::U128(StrView(*u)),
        AnnotatedMoveValue::U256(u) => AnnotatedMoveValueView::U256(StrView(*u)),
        AnnotatedMoveValue::Bool(b) => AnnotatedMoveValueView::Bool(*b),
        AnnotatedMoveValue::Address(a) => AnnotatedMoveValueView::Address(a.clone()),
        AnnotatedMoveValue::Bytes(d) => AnnotatedMoveValueView::Bytes(
            StrView(crate::address::clone_bytes(d)),
        ),
        AnnotatedMoveValue::Vector(t, d) => {
            proof {
                assert(decreases_to!(origin => *d));
            }
            let out = transform_values(d);
            proof {
                lemma_values_model(d@);
                lemma_view_values_model(out@);
                assert forall|i: int| 0 <= i < out@.len() implies view_value_model(out@[i])
                    == value_model(d@[i]) by {
                    assert(out@[i]@ == value_model(d@[i]));
                }
                assert(view_values_model(out@) =~= values_model(d@));
            }
            AnnotatedMoveValueView::Vector(StrView(t.clone()), out)
        },
        AnnotatedMoveValue::Struct(s) => {
            proof {
                assert(decreases_to!(origin => *s));
            }
            AnnotatedMoveValueView::Struct(transform_struct(s))
        },
    }
}

/// Transforms one annotated struct into its view.
fn transform_struct(origin: &AnnotatedMoveStruct) -> (r: AnnotatedMoveStructView)
    ensures
        r@ == origin@,
    decreases origin,
{
    proof {
        assert(decreases_to!(origin => origin.value));
    }
    let out = transform_fields(&origin.value);
    proof {
        lemma_fields_model(origin.value@);
        lemma_view_fields_model(out@);
        assert forall|i: int| 0 <= i < out@.len() implies view_value_model(out@[i].1)
            == value_model(origin.value@[i].1) by {
            assert(out@[i].1@ == value_model(origin.value@[i].1));
        }
        assert forall|i: int| 0 <= i < out@.len() implies out@[i].0@ == origin.value@[i].0@ by {
            assert(out@[i].0@ == origin.value@[i].0@);
        }
        assert(view_fields_model(out@) =~= fields_model(origin.value@));
    }
    AnnotatedMoveStructView {
        abilities: origin.abilities,
        type_: StrView(origin.type_.clone()),
        value: out,
    }
}

impl AnnotatedMoveValueView {
    /// Transforms an annotated value into its transport-safe view. Total:
    /// every value of the closed variant set maps, and the view carries
    /// exactly the model of the input.
    pub fn from(origin: AnnotatedMoveValue) -> (r: AnnotatedMoveValueView)
        ensures
            r@ == origin@,
    {
        transform_value(&origin)
    }
}

impl AnnotatedMoveStructView {
    /// Transforms an annotated struct into its transport-safe view,
    /// keeping the ability bits, the type tag, and every field under its
    /// name in declaration order.
    pub fn from(origin: AnnotatedMoveStruct) -> (r: AnnotatedMoveStructView)
        ensures
            r@ == origin@,
    {
        transform_struct(&origin)
    }
}

/// The transform is structure-preserving: a struct view that carries the
/// model of an annotated struct has the same ability bits and type tag,
/// and the same fields under the same names in the same order.
pub proof fn lemma_transform_structure_preserving(
    origin: AnnotatedMoveStruct,
    view: AnnotatedMoveStructView,
)
    requires
        view@ == origin@,
    ensures
        view.abilities == origin.abilities,
        view.type_.0@ == origin.type_@,
        view.value@.len() == origin.value@.len(),
        forall|i: int|
            0 <= i < origin.value@.len() ==> #[trigger] view.value@[i].0@ == origin.value@[i].0@,
        forall|i: int|
            0 <= i < origin.value@.len() ==> #[trigger] view.value@[i].1@ == origin.value@[i].1@,
{
    lemma_fields_model(origin.value@);
    lemma_view_fields_model(view.value@);
    assert forall|i: int| 0 <= i < origin.value@.len() implies #[trigger] view.value@[i].0@
        == origin.value@[i].0@ by {
        assert(view_fields_model(view.value@)[i] == fields_model(origin.value@)[i]);
    }
    assert forall|i: int| 0 <= i < origin.value@.len() implies #[trigger] view.value@[i].1@
        == origin.value@[i].1@ by {
        assert(view_fields_model(view.value@)[i] == fields_model(origin.value@)[i]);
        assert(view.value@[i].1@ == view_value_model(view.value@[i].1));
        assert(origin.value@[i].1@ == value_model(origin.value@[i].1));
    }
}

/// An object held by the engine, with its annotated contents.
#[derive(Debug, PartialEq, Eq, Hash)]
pub struct AnnotatedObject {
    pub id: ObjectID,
    pub owner: AccountAddress,
    pub value: AnnotatedMoveStruct,
}

/// The transport-safe mirror of an annotated object.
#[derive(Debug, PartialEq, Eq, Hash)]
pub struct AnnotatedObjectView {
    pub id: ObjectID,
    pub owner: AccountAddress,
    pub value: AnnotatedMoveStructView,
}

impl AnnotatedObjectView {
    /// Transforms an annotated object into its view.
    pub fn from(origin: AnnotatedObject) -> (r: AnnotatedObjectView)
        ensures
            r.id@ == origin.id@,
            r.owner@ == origin.owner@,
            r.value@ == origin.value@,
    {
        AnnotatedObjectView {
            id: origin.id,
            owner: origin.owner,
            value: AnnotatedMoveStructView::from(origin.value),
        }
    }
}

/// An emitted event together with its payload decoded into an annotated
/// struct.
#[derive(Debug, PartialEq, Eq, Hash)]
pub struct AnnotatedEvent {
    pub event: Event,
    pub decoded_event_data: AnnotatedMoveStruct,
}

impl AnnotatedEvent {
    /// Pairs an event with its decoded payload.
    pub fn new(event: Event, decoded_event_data: AnnotatedMoveStruct) -> (r: AnnotatedEvent)
        ensures
            r.event@ == event@,
            r.decoded_event_data@ == decoded_event_data@,
    {
        AnnotatedEvent { event, decoded_event_data }
    }
}

/// The transport-safe mirror of an emitted event. The owner of the stream
/// is not yet carried on the wire: `sender` stays `None` until the engine
/// populates it, rather than standing in as the zero address.
#[derive(Debug, PartialEq, Eq, Hash)]
pub struct EventView {
    pub tx_hash: Option<H256>,
    pub sender: Option<AccountAddress>,
    pub event_data: StrView<Vec<u8>>,
    pub type_tag: StrView<TypeTag>,
    pub event_index: Option<u64>,
    pub event_id: EventID,
}

impl EventView {
    /// Mirrors an event record without a transaction hash.
    pub fn from(event: Event) -> (r: EventView)
        ensures
            r.tx_hash is None,
            r.sender is None,
            r.event_data.0@ == event@.event_data,
            r.type_tag.0@ == event@.type_tag,
            r.event_index == Some(event@.event_index),
            r.event_id@ == event@.event_id,
    {
        let Event { event_id, type_tag, event_data, event_index } = event;
        EventView {
            tx_hash: None,
            sender: None,
            event_data: StrView(event_data),
            type_tag: StrView(type_tag),
            event_index: Some(event_index),
            event_id,
        }
    }

    /// Mirrors an event record, carrying the hash of the transaction that
    /// produced it.
    pub fn try_from(event: Event, tx_hash: H256) -> (r: EventView)
        ensures
            r.tx_hash matches Some(h) && h@ == tx_hash@,
            r.sender is None,
            r.event_data.0@ == event@.event_data,
            r.type_tag.0@ == event@.type_tag,
            r.event_index == Some(event@.event_index),
            r.event_id@ == event@.event_id,
    {
        let Event { event_id, type_tag, event_data, event_index } = event;
        EventView {
            tx_hash: Some(tx_hash),
            sender: None,
            event_data: StrView(event_data),
            type_tag: StrView(type_tag),
            event_index: Some(event_index),
            event_id,
        }
    }
}

/// The transport-safe mirror of a function call request.
#[derive(Debug, PartialEq, Eq, Hash)]
pub struct FunctionCallView {
    pub function_id: FunctionId,
    pub ty_args: Vec<StrView<TypeTag>>,
    pub args: Vec<StrView<Vec<u8>>>,
}

impl FunctionCallView {
    /// Wraps a call request's type arguments and argument blobs.
    pub fn from(origin: FunctionCall) -> (r: FunctionCallView)
        ensures
            r.function_id == origin.function_id,
            r.ty_args@.len() == origin.ty_args@.len(),
            forall|i: int|
                0 <= i < origin.ty_args@.len() ==> #[trigger] r.ty_args@[i].0@
                    == origin.ty_args@[i]@,
            r.args@.len() == origin.args@.len(),
            forall|i: int|
                0 <= i < origin.args@.len() ==> #[trigger] r.args@[i].0@ == origin.args@[i]@,
    {
        let FunctionCall { function_id, ty_args, args } = origin;
        let ghost t0 = ty_args@;
        let ghost a0 = args@;
        let mut ty_in = ty_args;
        let mut ty_out: Vec<StrView<TypeTag>> = Vec::new();
        while ty_in.len() > 0
            invariant
                ty_out@.len() + ty_in@.len() == t0.len(),
                ty_in@ =~= t0.skip(ty_out@.len() as int),
                forall|k: int| 0 <= k < ty_out@.len() ==> #[trigger] ty_out@[k].0@ == t0[k]@,
            decreases ty_in@.len(),
        {
            let ghost j = ty_out@.len() as int;
            let x = ty_in.remove(0);
            proof {
                assert(x == t0[j]);
                assert(ty_in@ =~= t0.skip(j + 1));
            }
            ty_out.push(StrView(x));
        }
        let mut a_in = args;
        let mut a_out: Vec<StrView<Vec<u8>>> = Vec::new();
        while a_in.len() > 0
            invariant
                a_out@.len() + a_in@.len() == a0.len(),
                a_in@ =~= a0.skip(a_out@.len() as int),
                forall|k: int| 0 <= k < a_out@.len() ==> #[trigger] a_out@[k].0@ == a0[k]@,
            decreases a_in@.len(),
        {
            let ghost j = a_out@.len() as int;
            let x = a_in.remove(0);
            proof {
                assert(x == a0[j]);
                assert(a_in@ =~= a0.skip(j + 1));
            }
            a_out.push(StrView(x));
        }
        FunctionCallView { function_id, ty_args: ty_out, args: a_out }
    }
}

impl FunctionCall {
    /// Unwraps a call view back into the call it mirrors; the conversion
    /// is lossless in both directions.
    pub fn from(view: FunctionCallView) -> (r: FunctionCall)
        ensures
            r.function_id == view.function_id,
            r.ty_args@.len() == view.ty_args@.len(),
            forall|i: int|
                0 <= i < view.ty_args@.len() ==> #[trigger] r.ty_args@[i]@ == view.ty_args@[i].0@,
            r.args@.len() == view.args@.len(),
            forall|i: int|
                0 <= i < view.args@.len() ==> #[trigger] r.args@[i]@ == view.args@[i].0@,
    {
        let FunctionCallView { function_id, ty_args, args } = view;
        let ghost t0 = ty_args@;
        let ghost a0 = args@;
        let mut ty_in = ty_args;
        let mut ty_out: Vec<TypeTag> = Vec::new();
        while ty_in.len() > 0
            invariant
                ty_out@.len() + ty_in@.len() == t0.len(),
                ty_in@ =~= t0.skip(ty_out@.len() as int),
                forall|k: int| 0 <= k < ty_out@.len() ==> #[trigger] ty_out@[k]@ == t0[k].0@,
            decreases ty_in@.len(),
        {
            let ghost j = ty_out@.len() as int;
            let x = ty_in.remove(0);
            proof {
                assert(x == t0[j]);
                assert(ty_in@ =~= t0.skip(j + 1));
            }
            ty_out.push(x.0);
        }
        let mut a_in = args;
        let mut a_out: Vec<Vec<u8>> = Vec::new();
        while a_in.len() > 0
            invariant
                a_out@.len() + a_in@.len() == a0.len(),
                a_in@ =~= a0.skip(a_out@.len() as int),
                forall|k: int| 0 <= k < a_out@.len() ==> #[trigger] a_out@[k]@ == a0[k].0@,
            decreases a_in@.len(),
        {
            let ghost j = a_out@.len() as int;
            let x = a_in.remove(0);
            proof {
                assert(x == a0[j]);
                assert(a_in@ =~= a0.skip(j + 1));
            }
            a_out.push(x.0);
        }
        FunctionCall { function_id, ty_args: ty_out, args: a_out }
    }
}

} // verus!
