//! Identifiers and fully-qualified type descriptors of the runtime value
//! model, their mathematical models, and their canonical binary encoding,
//! over which stream identities and event hashes are defined.
use vstd::prelude::*;

use crate::address::{address_hex_literal, AccountAddress};
use crate::canonical::{encode_uleb, push_bytes, uleb_bytes};
use crate::strings::{push_str_chars, str_chars, string_from_chars};

verus! {

/// `b` may open an identifier: a letter or an underscore.
pub open spec fn is_identifier_head(b: u8) -> bool {
    97 <= b <= 122 || 65 <= b <= 90 || b == 95
}

/// `b` may continue an identifier: a letter, a digit or an underscore.
pub open spec fn is_identifier_tail(b: u8) -> bool {
    is_identifier_head(b) || 48 <= b <= 57
}

/// `s` spells a well-formed identifier.
pub open spec fn is_identifier_bytes(s: Seq<u8>) -> bool {
    1 <= s.len() && is_identifier_head(s[0]) && forall|i: int|
        1 <= i < s.len() ==> is_identifier_tail(#[trigger] s[i])
}

/// `c` may open an identifier.
pub open spec fn is_identifier_head_char(c: char) -> bool {
    97 <= c as u32 <= 122 || 65 <= c as u32 <= 90 || c as u32 == 95
}

/// `c` may continue an identifier.
pub open spec fn is_identifier_tail_char(c: char) -> bool {
    is_identifier_head_char(c) || 48 <= c as u32 <= 57
}

/// The string spells a well-formed identifier.
pub open spec fn is_identifier_string(s: Seq<char>) -> bool {
    1 <= s.len() && is_identifier_head_char(s[0]) && forall|i: int|
        1 <= i < s.len() ==> is_identifier_tail_char(#[trigger] s[i])
}

/// The name of a module, function or type: ASCII letters, digits and
/// underscores, not opening with a digit.
#[derive(Debug, PartialEq, Eq, Hash)]
pub struct Identifier {
    bytes: Vec<u8>,
}

impl Clone for Identifier {
    /// Clones the identifier; the copy has the same bytes.
    fn clone(&self) -> (r: Self)
        ensures
            r@ == self@,
    {
        Identifier { bytes: crate::address::clone_bytes(&self.bytes) }
    }
}

impl View for Identifier {
    type V = Seq<u8>;

    closed spec fn view(&self) -> Seq<u8> {
        self.bytes@
    }
}

impl Identifier {
    /// The identifier is well formed.
    pub open spec fn wf(&self) -> bool {
        is_identifier_bytes(self@)
    }

    /// Builds an identifier from a string; fails exactly when the string is
    /// not a well-formed identifier.
    pub fn new(s: &str) -> (r: Option<Identifier>)
        ensures
            r is Some <==> is_identifier_string(s@),
            r matches Some(id) ==> id.wf() && id@.len() == s@.len() && (forall|i: int|
                0 <= i < s@.len() ==> #[trigger] id@[i] as u32 == s@[i] as u32),
    {
        let chars = str_chars(s);
        if chars.len() == 0 {
            return None;
        }
        let mut bytes: Vec<u8> = Vec::new();
        let mut i: usize = 0;
        while i < chars.len()
            invariant
                i <= chars@.len(),
                chars@ == s@,
                chars@.len() >= 1,
                bytes@.len() == i,
                forall|k: int| 0 <= k < i ==> #[trigger] bytes@[k] as u32 == chars@[k] as u32,
                i >= 1 ==> is_identifier_head_char(chars@[0]),
                forall|k: int| 1 <= k < i ==> is_identifier_tail_char(#[trigger] chars@[k]),
                i >= 1 ==> is_identifier_head(bytes@[0]),
                forall|k: int| 1 <= k < i ==> is_identifier_tail(#[trigger] bytes@[k]),
            decreases chars@.len() - i,
        {
            let c: char = chars[i];
            let cv: u32 = c as u32;
            let head_ok: bool = (97 <= cv && cv <= 122) || (65 <= cv && cv <= 90) || cv == 95;
            let tail_ok: bool = head_ok || (48 <= cv && cv <= 57);
            if i == 0 {
                if !head_ok {
                    return None;
                }
            } else {
                if !tail_ok {
                    return None;
                }
            }
            let b: u8 = cv as u8;
            bytes.push(b);
            i = i + 1;
        }
        Some(Identifier { bytes })
    }

    /// Reads the raw bytes of the name.
    pub fn as_bytes(&self) -> (r: &Vec<u8>)
        ensures
            r@ == self@,
    {
        &self.bytes
    }

    /// The length of the name in bytes.
    pub fn len(&self) -> (r: usize)
        ensures
            r == self@.len(),
    {
        self.bytes.len()
    }
}

/// A runtime type, as the execution engine tags values with it.
#[derive(Debug, PartialEq, Eq, Hash)]
pub enum TypeTag {
    Bool,
    U8,
    U16,
    U32,
    U64,
    U128,
    U256,
    Address,
    Signer,
    Vector(Box<TypeTag>),
    Struct(Box<StructTag>),
}

/// A fully-qualified struct type: declaring address, module, name and
/// type parameters.
#[derive(Debug, PartialEq, Eq, Hash)]
pub struct StructTag {
    pub address: AccountAddress,
    pub module: Identifier,
    pub name: Identifier,
    pub type_params: Vec<TypeTag>,
}

/// Mathematical model of a runtime type.
#[verifier::ext_equal]
pub enum TypeTagModel {
    Bool,
    U8,
    U16,
    U32,
    U64,
    U128,
    U256,
    Address,
    Signer,
    Vector(Box<TypeTagModel>),
    Struct(StructTagModel),
}

/// Mathematical model of a fully-qualified struct type.
#[verifier::ext_equal]
pub struct StructTagModel {
    pub address: Seq<u8>,
    pub module: Seq<u8>,
    pub name: Seq<u8>,
    pub type_params: Seq<TypeTagModel>,
}

/// Model of a runtime type tag.
pub open spec fn type_tag_model(t: TypeTag) -> TypeTagModel
    decreases t,
{
    match t {
        TypeTag::Bool => TypeTagModel::Bool,
        TypeTag::U8 => TypeTagModel::U8,
        TypeTag::U16 => TypeTagModel::U16,
        TypeTag::U32 => TypeTagModel::U32,
        TypeTag::U64 => TypeTagModel::U64,
        TypeTag::U128 => TypeTagModel::U128,
        TypeTag::U256 => TypeTagModel::U256,
        TypeTag::Address => TypeTagModel::Address,
        TypeTag::Signer => TypeTagModel::Signer,
        TypeTag::Vector(inner) => TypeTagModel::Vector(Box::new(type_tag_model(*inner))),
        TypeTag::Struct(st) => TypeTagModel::Struct(struct_tag_model(*st)),
    }
}

/// Models of a list of type parameters, in order.
pub open spec fn type_params_model(ps: Seq<TypeTag>) -> Seq<TypeTagModel>
    decreases ps,
{
    if ps.len() == 0 {
        Seq::empty()
    } else {
        type_params_model(ps.drop_last()).push(type_tag_model(ps.last()))
    }
}

/// The model list mirrors the parameter list element by element.
pub proof fn lemma_type_params_model(ps: Seq<TypeTag>)
    ensures
        type_params_model(ps).len() == ps.len(),
        forall|i: int|
            0 <= i < ps.len() ==> #[trigger] type_params_model(ps)[i] == type_tag_model(ps[i]),
    decreases ps,
{
    if ps.len() > 0 {
        lemma_type_params_model(ps.drop_last());
    }
}

/// Model of a struct tag.
pub open spec fn struct_tag_model(st: StructTag) -> StructTagModel
    decreases st,
{
    StructTagModel {
        address: st.address@,
        module: st.module@,
        name: st.name@,
        type_params: type_params_model(st.type_params@),
    }
}

impl View for TypeTag {
    type V = TypeTagModel;

    open spec fn view(&self) -> TypeTagModel {
        type_tag_model(*self)
    }
}

impl View for StructTag {
    type V = StructTagModel;

    open spec fn view(&self) -> StructTagModel {
        struct_tag_model(*self)
    }
}

/// The struct tag is well formed: 32-byte address, identifier names, and
/// well-formed type parameters all the way down.
pub open spec fn struct_tag_model_wf(st: StructTagModel) -> bool
    decreases st.type_params,
{
    &&& st.address.len() == 32
    &&& is_identifier_bytes(st.module)
    &&& is_identifier_bytes(st.name)
    &&& forall|i: int|
        0 <= i < st.type_params.len() ==> type_tag_model_wf(#[trigger] st.type_params[i])
}

/// The type tag is well formed.
pub open spec fn type_tag_model_wf(t: TypeTagModel) -> bool
    decreases t,
{
    match t {
        TypeTagModel::Vector(inner) => type_tag_model_wf(*inner),
        TypeTagModel::Struct(st) => struct_tag_model_wf(st),
        _ => true,
    }
}

impl Clone for TypeTag {
    /// Clones the tag; the copy has the same model.
    fn clone(&self) -> (r: Self)
        ensures
            r@ == self@,
        decreases self,
    {
        match self {
            TypeTag::Bool => TypeTag::Bool,
            TypeTag::U8 => TypeTag::U8,
            TypeTag::U16 => TypeTag::U16,
            TypeTag::U32 => TypeTag::U32,
            TypeTag::U64 => TypeTag::U64,
            TypeTag::U128 => TypeTag::U128,
            TypeTag::U256 => TypeTag::U256,
            TypeTag::Address => TypeTag::Address,
            TypeTag::Signer => TypeTag::Signer,
            TypeTag::Vector(inner) => TypeTag::Vector(Box::new((**inner).clone())),
            TypeTag::Struct(st) => TypeTag::Struct(Box::new((**st).clone())),
        }
    }
}

impl Clone for StructTag {
    /// Clones the tag; the copy has the same model.
    fn clone(&self) -> (r: Self)
        ensures
            r@ == self@,
        decreases self,
    {
        let mut type_params: Vec<TypeTag> = Vec::new();
        let mut i: usize = 0;
        while i < self.type_params.len()
            invariant
                i <= self.type_params@.len(),
                type_params@.len() == i,
                forall|k: int|
                    0 <= k < i ==> #[trigger] type_params@[k]@ == self.type_params@[k]@,
            decreases self.type_params@.len() - i,
        {
            type_params.push(self.type_params[i].clone());
            i = i + 1;
        }
        let r = StructTag {
            address: self.address.clone(),
            module: self.module.clone(),
            name: self.name.clone(),
            type_params,
        };
        proof {
            lemma_type_params_model(r.type_params@);
            lemma_type_params_model(self.type_params@);
            assert forall|k: int| 0 <= k < r@.type_params.len() implies r@.type_params[k]
                == self@.type_params[k] by {
                assert(r.type_params@[k]@ == self.type_params@[k]@);
            }
            assert(r@.type_params =~= self@.type_params);
            assert(r@ =~= self@);
        }
        r
    }
}

/// Canonical encoding of an identifier: its length, then its bytes.
pub open spec fn identifier_bcs(name: Seq<u8>) -> Seq<u8> {
    uleb_bytes(name.len()) + name
}

/// Canonical encoding of a type tag: a variant index, then the payload.
pub open spec fn type_tag_bcs(t: TypeTagModel) -> Seq<u8>
    decreases t,
{
    match t {
        TypeTagModel::Bool => seq![0u8],
        TypeTagModel::U8 => seq![1u8],
        TypeTagModel::U64 => seq![2u8],
        TypeTagModel::U128 => seq![3u8],
        TypeTagModel::Address => seq![4u8],
        TypeTagModel::Signer => seq![5u8],
        TypeTagModel::Vector(inner) => seq![6u8] + type_tag_bcs(*inner),
        TypeTagModel::Struct(st) => seq![7u8] + struct_tag_bcs(st),
        TypeTagModel::U16 => seq![8u8],
        TypeTagModel::U32 => seq![9u8],
        TypeTagModel::U256 => seq![10u8],
    }
}

/// Canonical encoding of a struct tag.
pub open spec fn struct_tag_bcs(st: StructTagModel) -> Seq<u8>
    decreases st,
{
    st.address + identifier_bcs(st.module) + identifier_bcs(st.name) + uleb_bytes(
        st.type_params.len(),
    ) + type_params_bcs(st.type_params)
}

/// Canonical encoding of a list of type parameters, in order.
pub open spec fn type_params_bcs(ps: Seq<TypeTagModel>) -> Seq<u8>
    decreases ps,
{
    if ps.len() == 0 {
        Seq::empty()
    } else {
        type_tag_bcs(ps[0]) + type_params_bcs(ps.drop_first())
    }
}

/// Appending one parameter extends the encoding at the end.
pub proof fn lemma_type_params_bcs_push(ps: Seq<TypeTagModel>, x: TypeTagModel)
    ensures
        type_params_bcs(ps.push(x)) == type_params_bcs(ps) + type_tag_bcs(x),
    decreases ps.len(),
{
    if ps.len() == 0 {
        assert(ps.push(x)[0] == x);
        assert(ps.push(x).drop_first() =~= ps);
        assert(type_params_bcs(ps.push(x)) == type_tag_bcs(x) + type_params_bcs(ps));
        assert(type_params_bcs(ps) =~= Seq::<u8>::empty());
        assert(type_tag_bcs(x) + type_params_bcs(ps) =~= type_params_bcs(ps) + type_tag_bcs(x));
    } else {
        assert(ps.push(x)[0] == ps[0]);
        assert(ps.push(x).drop_first() =~= ps.drop_first().push(x));
        lemma_type_params_bcs_push(ps.drop_first(), x);
        assert(type_params_bcs(ps.push(x)) == type_tag_bcs(ps[0]) + (type_params_bcs(
            ps.drop_first(),
        ) + type_tag_bcs(x)));
        assert(type_params_bcs(ps) == type_tag_bcs(ps[0]) + type_params_bcs(ps.drop_first()));
        assert(type_tag_bcs(ps[0]) + (type_params_bcs(ps.drop_first()) + type_tag_bcs(x)) =~= (
        type_tag_bcs(ps[0]) + type_params_bcs(ps.drop_first())) + type_tag_bcs(x));
    }
}

/// Appends the canonical encoding of an identifier.
pub fn encode_identifier(id: &Identifier, out: &mut Vec<u8>)
    ensures
        final(out)@ == old(out)@ + identifier_bcs(id@),
{
    encode_uleb(id.len(), out);
    push_bytes(out, id.as_bytes());
    proof {
        assert(final(out)@ =~= old(out)@ + identifier_bcs(id@));
    }
}

/// Appends the canonical encoding of a type tag.
pub fn encode_type_tag(t: &TypeTag, out: &mut Vec<u8>)
    ensures
        final(out)@ == old(out)@ + type_tag_bcs(t@),
    decreases t,
{
    match t {
        TypeTag::Bool => {
            out.push(0u8);
            proof {
                assert(final(out)@ =~= old(out)@ + type_tag_bcs(t@));
            }
        },
        TypeTag::U8 => {
            out.push(1u8);
            proof {
                assert(final(out)@ =~= old(out)@ + type_tag_bcs(t@));
            }
        },
        TypeTag::U64 => {
            out.push(2u8);
            proof {
                assert(final(out)@ =~= old(out)@ + type_tag_bcs(t@));
            }
        },
        TypeTag::U128 => {
            out.push(3u8);
            proof {
                assert(final(out)@ =~= old(out)@ + type_tag_bcs(t@));
            }
        },
        TypeTag::Address => {
            out.push(4u8);
            proof {
                assert(final(out)@ =~= old(out)@ + type_tag_bcs(t@));
            }
        },
        TypeTag::Signer => {
            out.push(5u8);
            proof {
                assert(final(out)@ =~= old(out)@ + type_tag_bcs(t@));
            }
        },
        TypeTag::Vector(inner) => {
            out.push(6u8);
            encode_type_tag(&**inner, out);
            proof {
                assert(final(out)@ =~= old(out)@ + type_tag_bcs(t@));
            }
        },
        TypeTag::Struct(st) => {
            out.push(7u8);
            encode_struct_tag(&**st, out);
            proof {
                assert(final(out)@ =~= old(out)@ + type_tag_bcs(t@));
            }
        },
        TypeTag::U16 => {
            out.push(8u8);
            proof {
                assert(final(out)@ =~= old(out)@ + type_tag_bcs(t@));
            }
        },
        TypeTag::U32 => {
            out.push(9u8);
            proof {
                assert(final(out)@ =~= old(out)@ + type_tag_bcs(t@));
            }
        },
        TypeTag::U256 => {
            out.push(10u8);
            proof {
                assert(final(out)@ =~= old(out)@ + type_tag_bcs(t@));
            }
        },
    }
}

/// Appends the canonical encoding of a struct tag.
pub fn encode_struct_tag(st: &StructTag, out: &mut Vec<u8>)
    ensures
        final(out)@ == old(out)@ + struct_tag_bcs(st@),
    decreases st,
{
    let ghost pm = struct_tag_model(*st).type_params;
    proof {
        lemma_type_params_model(st.type_params@);
    }
    push_bytes(out, st.address.as_bytes());
    encode_identifier(&st.module, out);
    encode_identifier(&st.name, out);
    encode_uleb(st.type_params.len(), out);
    let ghost head = out@;
    let mut i: usize = 0;
    while i < st.type_params.len()
        invariant
            i <= st.type_params@.len(),
            pm == struct_tag_model(*st).type_params,
            pm.len() == st.type_params@.len(),
            out@ == head + type_params_bcs(pm.take(i as int)),
        decreases st.type_params@.len() - i,
    {
        encode_type_tag(&st.type_params[i], out);
        proof {
            lemma_type_params_model(st.type_params@);
            assert(st.type_params@[i as int]@ == pm[i as int]);
            lemma_type_params_bcs_push(pm.take(i as int), pm[i as int]);
            assert(pm.take(i + 1) =~= pm.take(i as int).push(pm[i as int]));
        }
        i = i + 1;
    }
    proof {
        assert(pm.take(pm.len() as int) =~= pm);
        assert(out@ =~= old(out)@ + struct_tag_bcs(st@));
    }
}

/// Compares two identifiers by their bytes.
pub fn identifier_eq(a: &Identifier, b: &Identifier) -> (r: bool)
    ensures
        r == (a@ == b@),
{
    crate::address::bytes_eq(a.as_bytes(), b.as_bytes())
}

/// Compares two type tags; the result is exactly whether their models
/// are equal.
pub fn type_tag_eq(a: &TypeTag, b: &TypeTag) -> (r: bool)
    ensures
        r == (a@ == b@),
    decreases a,
{
    match (a, b) {
        (TypeTag::Bool, TypeTag::Bool) => true,
        (TypeTag::U8, TypeTag::U8) => true,
        (TypeTag::U16, TypeTag::U16) => true,
        (TypeTag::U32, TypeTag::U32) => true,
        (TypeTag::U64, TypeTag::U64) => true,
        (TypeTag::U128, TypeTag::U128) => true,
        (TypeTag::U256, TypeTag::U256) => true,
        (TypeTag::Address, TypeTag::Address) => true,
        (TypeTag::Signer, TypeTag::Signer) => true,
        (TypeTag::Vector(x), TypeTag::Vector(y)) => {
            proof {
                assert(decreases_to!(a => *x));
            }
            type_tag_eq(&**x, &**y)
        },
        (TypeTag::Struct(x), TypeTag::Struct(y)) => {
            proof {
                assert(decreases_to!(a => *x));
            }
            struct_tag_eq(&**x, &**y)
        },
        _ => false,
    }
}

/// Compares two struct tags; the result is exactly whether their models
/// are equal.
pub fn struct_tag_eq(a: &StructTag, b: &StructTag) -> (r: bool)
    ensures
        r == (a@ == b@),
    decreases a,
{
    proof {
        lemma_type_params_model(a.type_params@);
        lemma_type_params_model(b.type_params@);
    }
    if !crate::address::address_eq(&a.address, &b.address) {
        return false;
    }
    if !identifier_eq(&a.module, &b.module) {
        return false;
    }
    if !identifier_eq(&a.name, &b.name) {
        return false;
    }
    if a.type_params.len() != b.type_params.len() {
        return false;
    }
    let mut i: usize = 0;
    while i < a.type_params.len()
        invariant
            i <= a.type_params@.len(),
            a.type_params@.len() == b.type_params@.len(),
            forall|k: int| 0 <= k < i ==> #[trigger] a.type_params@[k]@ == b.type_params@[k]@,
        decreases a.type_params@.len() - i,
    {
        proof {
            assert(decreases_to!(a => a.type_params));
            assert(decreases_to!(a.type_params => a.type_params@));
            assert(decreases_to!(a.type_params@ => a.type_params@[i as int]));
        }
        if !type_tag_eq(&a.type_params[i], &b.type_params[i]) {
            proof {
                lemma_type_params_model(a.type_params@);
                lemma_type_params_model(b.type_params@);
                assert(a@.type_params[i as int] != b@.type_params[i as int]);
            }
            return false;
        }
        i = i + 1;
    }
    proof {
        lemma_type_params_model(a.type_params@);
        lemma_type_params_model(b.type_params@);
        assert forall|k: int| 0 <= k < a.type_params@.len() implies type_tag_model(
            a.type_params@[k],
        ) == type_tag_model(b.type_params@[k]) by {
            assert(a.type_params@[k]@ == b.type_params@[k]@);
        }
        assert(a@.type_params =~= b@.type_params);
        assert(a@ =~= b@);
    }
    true
}

/// The characters of an identifier's name.
pub open spec fn identifier_chars(name: Seq<u8>) -> Seq<char> {
    Seq::new(name.len(), |i: int| name[i] as char)
}

/// Canonical text of a type tag: a primitive keyword, the vector form, or
/// the struct form.
pub open spec fn type_tag_chars(t: TypeTagModel) -> Seq<char>
    decreases t,
{
    match t {
        TypeTagModel::Bool => "bool"@,
        TypeTagModel::U8 => "u8"@,
        TypeTagModel::U16 => "u16"@,
        TypeTagModel::U32 => "u32"@,
        TypeTagModel::U64 => "u64"@,
        TypeTagModel::U128 => "u128"@,
        TypeTagModel::U256 => "u256"@,
        TypeTagModel::Address => "address"@,
        TypeTagModel::Signer => "signer"@,
        TypeTagModel::Vector(inner) => "vector<"@ + type_tag_chars(*inner) + ">"@,
        TypeTagModel::Struct(st) => struct_tag_chars(st),
    }
}

/// Canonical text of a struct tag: the declaring address's literal, the
/// module and type names, and the type parameters in angle brackets.
pub open spec fn struct_tag_chars(st: StructTagModel) -> Seq<char>
    decreases st,
{
    address_hex_literal(st.address) + "::"@ + identifier_chars(st.module) + "::"@
        + identifier_chars(st.name) + if st.type_params.len() == 0 {
        Seq::<char>::empty()
    } else {
        "<"@ + type_params_chars(st.type_params) + ">"@
    }
}

/// Canonical text of a parameter list, comma-separated, in order.
pub open spec fn type_params_chars(ps: Seq<TypeTagModel>) -> Seq<char>
    decreases ps,
{
    if ps.len() == 0 {
        Seq::empty()
    } else if ps.len() == 1 {
        type_tag_chars(ps[0])
    } else {
        type_tag_chars(ps[0]) + ", "@ + type_params_chars(ps.drop_first())
    }
}

/// Appending one parameter extends the text at the end, with a separator
/// after the first.
pub proof fn lemma_type_params_chars_push(ps: Seq<TypeTagModel>, x: TypeTagModel)
    ensures
        ps.len() == 0 ==> type_params_chars(ps.push(x)) == type_tag_chars(x),
        ps.len() >= 1 ==> type_params_chars(ps.push(x)) == type_params_chars(ps) + ", "@
            + type_tag_chars(x),
    decreases ps.len(),
{
    assert(ps.push(x)[0 as int] == if ps.len() == 0 { x } else { ps[0] });
    if ps.len() == 0 {
    } else if ps.len() == 1 {
        assert(ps.push(x).drop_first() =~= seq![x]);
        let single = seq![x];
        assert(single.len() == 1 && single[0 as int] == x);
        assert(type_params_chars(single) == type_tag_chars(x));
        assert(type_params_chars(ps.push(x)) == type_tag_chars(ps[0 as int]) + ", "@
            + type_params_chars(single));
        assert(type_params_chars(ps) == type_tag_chars(ps[0 as int]));
    } else {
        assert(ps.push(x).drop_first() =~= ps.drop_first().push(x));
        lemma_type_params_chars_push(ps.drop_first(), x);
        assert(type_params_chars(ps.push(x)) =~= type_params_chars(ps) + ", "@ + type_tag_chars(
            x,
        ));
    }
}

/// Appends the characters of an identifier's name.
fn render_identifier(id: &Identifier, out: &mut Vec<char>)
    ensures
        final(out)@ == old(out)@ + identifier_chars(id@),
{
    let ghost base = out@;
    let bytes = id.as_bytes();
    let mut i: usize = 0;
    while i < bytes.len()
        invariant
            i <= bytes@.len(),
            bytes@ == id@,
            out@.len() == base.len() + i,
            forall|k: int| 0 <= k < base.len() ==> out@[k] == base[k],
            forall|k: int| 0 <= k < i ==> out@[base.len() + k] == #[trigger] bytes@[k] as char,
        decreases bytes@.len() - i,
    {
        out.push(bytes[i] as char);
        i = i + 1;
    }
    proof {
        assert(out@ =~= base + identifier_chars(id@));
    }
}

/// Appends the canonical text of a type tag.
fn render_type_tag(t: &TypeTag, out: &mut Vec<char>)
    ensures
        final(out)@ == old(out)@ + type_tag_chars(t@),
    decreases t,
{
    match t {
        TypeTag::Bool => {
            push_str_chars(out, "bool");
        },
        TypeTag::U8 => {
            push_str_chars(out, "u8");
        },
        TypeTag::U16 => {
            push_str_chars(out, "u16");
        },
        TypeTag::U32 => {
            push_str_chars(out, "u32");
        },
        TypeTag::U64 => {
            push_str_chars(out, "u64");
        },
        TypeTag::U128 => {
            push_str_chars(out, "u128");
        },
        TypeTag::U256 => {
            push_str_chars(out, "u256");
        },
        TypeTag::Address => {
            push_str_chars(out, "address");
        },
        TypeTag::Signer => {
            push_str_chars(out, "signer");
        },
        TypeTag::Vector(inner) => {
            push_str_chars(out, "vector<");
            render_type_tag(&**inner, out);
            push_str_chars(out, ">");
            proof {
                assert(final(out)@ =~= old(out)@ + type_tag_chars(t@));
            }
        },
        TypeTag::Struct(st) => {
            render_struct_tag(&**st, out);
        },
    }
}

/// Appends the canonical text of a struct tag.
fn render_struct_tag(st: &StructTag, out: &mut Vec<char>)
    ensures
        final(out)@ == old(out)@ + struct_tag_chars(st@),
    decreases st,
{
    let ghost pm = struct_tag_model(*st).type_params;
    proof {
        lemma_type_params_model(st.type_params@);
    }
    let mut lit = st.address.hex_literal_chars();
    out.append(&mut lit);
    push_str_chars(out, "::");
    render_identifier(&st.module, out);
    push_str_chars(out, "::");
    render_identifier(&st.name, out);
    if st.type_params.len() == 0 {
        proof {
            assert(final(out)@ =~= old(out)@ + struct_tag_chars(st@));
        }
        return ;
    }
    push_str_chars(out, "<");
    let ghost head = out@;
    let mut i: usize = 0;
    while i < st.type_params.len()
        invariant
            i <= st.type_params@.len(),
            pm == struct_tag_model(*st).type_params,
            pm.len() == st.type_params@.len(),
            out@ == head + type_params_chars(pm.take(i as int)),
        decreases st.type_params@.len() - i,
    {
        if i > 0 {
            push_str_chars(out, ", ");
        }
        render_type_tag(&st.type_params[i], out);
        proof {
            lemma_type_params_model(st.type_params@);
            assert(st.type_params@[i as int]@ == pm[i as int]);
            lemma_type_params_chars_push(pm.take(i as int), pm[i as int]);
            assert(pm.take(i + 1) =~= pm.take(i as int).push(pm[i as int]));
            assert(out@ =~= head + type_params_chars(pm.take(i + 1)));
        }
        i = i + 1;
    }
    push_str_chars(out, ">");
    proof {
        assert(pm.take(pm.len() as int) =~= pm);
        assert(final(out)@ =~= old(out)@ + struct_tag_chars(st@));
    }
}

impl TypeTag {
    /// The canonical text of the tag.
    pub fn canonical_string(&self) -> (r: String)
        ensures
            r@ == type_tag_chars(self@),
    {
        let mut cs: Vec<char> = Vec::new();
        render_type_tag(self, &mut cs);
        proof {
            assert(cs@ =~= type_tag_chars(self@));
        }
        string_from_chars(cs)
    }
}

impl StructTag {
    /// The canonical text of the tag.
    pub fn canonical_string(&self) -> (r: String)
        ensures
            r@ == struct_tag_chars(self@),
    {
        let mut cs: Vec<char> = Vec::new();
        render_struct_tag(self, &mut cs);
        proof {
            assert(cs@ =~= struct_tag_chars(self@));
        }
        string_from_chars(cs)
    }
}

/// Canonical encoding of the type descriptor a stream identity is hashed
/// over: the declaring address, the module name and the type name; the
/// descriptor's type parameters do not take part.
pub open spec fn type_info_bcs(address: Seq<u8>, module: Seq<u8>, name: Seq<u8>) -> Seq<u8> {
    address + identifier_bcs(module) + identifier_bcs(name)
}

/// Appends the canonical encoding of a type descriptor.
pub fn encode_type_info(
    address: &AccountAddress,
    module: &Identifier,
    name: &Identifier,
    out: &mut Vec<u8>,
)
    ensures
        final(out)@ == old(out)@ + type_info_bcs(address@, module@, name@),
{
    push_bytes(out, address.as_bytes());
    encode_identifier(module, out);
    encode_identifier(name, out);
    proof {
        assert(final(out)@ =~= old(out)@ + type_info_bcs(address@, module@, name@));
    }
}

} // verus!
