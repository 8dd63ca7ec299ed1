//! The typed binding through which live engine state is queried: function
//! call requests, the injected caller capability, and positional decoding
//! of the raw byte returns of the `get_event_handle` query.
use vstd::prelude::*;

use crate::address::{clone_bytes, AccountAddress, ObjectID};
use crate::canonical::le_val;
use crate::move_types::{is_identifier_string, Identifier, StructTag, TypeTag};

verus! {

/// Names a module: its declaring address and its name.
#[derive(Debug, PartialEq, Eq, Hash)]
pub struct ModuleId {
    pub address: AccountAddress,
    pub name: Identifier,
}

/// Names a function of a module.
#[derive(Debug, PartialEq, Eq, Hash)]
pub struct FunctionId {
    pub module_id: ModuleId,
    pub function_name: Identifier,
}

/// A request to invoke a named function on the execution engine.
#[derive(Debug, PartialEq, Eq, Hash)]
pub struct FunctionCall {
    pub function_id: FunctionId,
    pub ty_args: Vec<TypeTag>,
    pub args: Vec<Vec<u8>>,
}

impl FunctionCall {
    /// Assembles a call request from its parts.
    pub fn new(function_id: FunctionId, ty_args: Vec<TypeTag>, args: Vec<Vec<u8>>) -> (r:
        FunctionCall)
        ensures
            r.function_id == function_id,
            r.ty_args == ty_args,
            r.args == args,
    {
        FunctionCall { function_id, ty_args, args }
    }
}

/// One return slot of an engine call: the value's type and its encoding.
#[derive(Debug, PartialEq, Eq, Hash)]
pub struct FunctionReturnValue {
    pub type_tag: TypeTag,
    pub value: Vec<u8>,
}

/// The execution context handed along with a read-only call.
#[derive(Debug, PartialEq, Eq, Hash)]
pub struct TxContext {
    pub sender: AccountAddress,
}

impl TxContext {
    /// The zero context used for read-only queries.
    pub fn zero() -> (r: TxContext)
        ensures
            r.sender@ == crate::address::zero_address_bytes(),
    {
        TxContext { sender: AccountAddress::zero() }
    }
}

/// Why reading a handle back from the engine failed.
#[derive(Debug, Clone, Copy, PartialEq, Eq, Structural)]
pub enum EventCallError {
    /// The engine rejected the call.
    CallRejected,
    /// A statically expected return slot is absent.
    MissingReturnValue,
    /// A present return slot does not carry the expected encoding.
    DecodeError,
}

/// The capability through which the engine is invoked. Implementations are
/// supplied by the embedding process; nothing is assumed of what they
/// return.
pub trait MoveFunctionCaller {
    /// Executes a read-only function call and hands back the return slots,
    /// or the engine's status code when it rejects the call.
    fn call_function(&self, ctx: &TxContext, call: FunctionCall) -> Result<
        Vec<FunctionReturnValue>,
        u64,
    >;
}

/// The three return slots of the handle query carry the expected
/// encodings: a 32-byte stream identifier, a 32-byte address, and an
/// eight-byte little-endian counter.
pub open spec fn event_handle_slots_ok(vs: Seq<FunctionReturnValue>) -> bool {
    vs[0].value@.len() == 32 && vs[1].value@.len() == 32 && vs[2].value@.len() == 8
}

/// Decodes the three positional return slots of the handle query, in
/// order; the first position that fails decides: an absent slot is
/// `MissingReturnValue`, a present slot of the wrong shape is
/// `DecodeError`. A complete well-formed response always decodes.
pub fn decode_event_handle_result(values: &Vec<FunctionReturnValue>) -> (r: Result<
    (ObjectID, AccountAddress, u64),
    EventCallError,
>)
    ensures
        r is Ok <==> values@.len() >= 3 && event_handle_slots_ok(values@),
        r matches Ok(t) ==> t.0@ == values@[0].value@ && t.1@ == values@[1].value@ && t.2 as nat
            == le_val(values@[2].value@) && t.0.wf() && t.1.wf(),
        r == Err::<(ObjectID, AccountAddress, u64), EventCallError>(
            EventCallError::MissingReturnValue,
        ) <==> values@.len() == 0 || (values@.len() == 1 && values@[0].value@.len() == 32) || (
        values@.len() == 2 && values@[0].value@.len() == 32 && values@[1].value@.len() == 32),
        r == Err::<(ObjectID, AccountAddress, u64), EventCallError>(EventCallError::DecodeError)
            <==> (values@.len() >= 1 && values@[0].value@.len() != 32) || (values@.len() >= 2
            && values@[0].value@.len() == 32 && values@[1].value@.len() != 32) || (values@.len()
            >= 3 && values@[0].value@.len() == 32 && values@[1].value@.len() == 32
            && values@[2].value@.len() != 8),
{
    if values.len() == 0 {
        return Err(EventCallError::MissingReturnValue);
    }
    let b0 = &values[0].value;
    if b0.len() != 32 {
        return Err(EventCallError::DecodeError);
    }
    if values.len() == 1 {
        return Err(EventCallError::MissingReturnValue);
    }
    let b1 = &values[1].value;
    if b1.len() != 32 {
        return Err(EventCallError::DecodeError);
    }
    if values.len() == 2 {
        return Err(EventCallError::MissingReturnValue);
    }
    let event_handle_id = ObjectID::new(AccountAddress::new(clone_bytes(b0)));
    let sender = AccountAddress::new(clone_bytes(b1));
    match crate::canonical::decode_u64_le(&values[2].value) {
        Some(event_seq) => Ok((event_handle_id, sender, event_seq)),
        None => Err(EventCallError::DecodeError),
    }
}

/// The bindings for the engine's standard event module.
pub struct EventModule<'a, C: MoveFunctionCaller> {
    caller: &'a C,
}

impl<'a, C: MoveFunctionCaller> EventModule<'a, C> {
    /// Binds the module to a caller capability.
    pub fn new(caller: &'a C) -> EventModule<'a, C> {
        EventModule { caller }
    }

    /// Queries the engine for the current state of the event stream of the
    /// given type: its stream identifier, creating address and counter.
    /// The decoding of whatever the engine returned follows
    /// `decode_event_handle_result` exactly.
    pub fn get_event_handle(&self, event_handle_type: StructTag) -> (r: Result<
        (ObjectID, AccountAddress, u64),
        EventCallError,
    >)
        ensures
            r matches Ok(t) ==> t.0.wf() && t.1.wf(),
    {
        let ctx = TxContext::zero();
        proof {
            reveal_strlit("event");
            reveal_strlit("get_event_handle");
        }
        let module_name = match Identifier::new("event") {
            Some(id) => id,
            None => {
                proof {
                    assert(is_identifier_string("event"@));
                }
                return Err(EventCallError::CallRejected);
            },
        };
        let function_name = match Identifier::new("get_event_handle") {
            Some(id) => id,
            None => {
                proof {
                    assert(is_identifier_string("get_event_handle"@));
                }
                return Err(EventCallError::CallRejected);
            },
        };
        let mut ty_args: Vec<TypeTag> = Vec::new();
        ty_args.push(TypeTag::Struct(Box::new(event_handle_type)));
        let call = FunctionCall::new(
            FunctionId {
                module_id: ModuleId { address: AccountAddress::std_address(), name: module_name },
                function_name,
            },
            ty_args,
            Vec::new(),
        );
        let values = match self.caller.call_function(&ctx, call) {
            Ok(values) => values,
            Err(_) => {
                return Err(EventCallError::CallRejected);
            },
        };
        decode_event_handle_result(&values)
    }
}

} // verus!
