use moveos_views::address::{AccountAddress, ObjectID, H256};
use moveos_views::binding::{
    decode_event_handle_result, EventCallError, EventModule, FunctionCall, FunctionReturnValue,
    MoveFunctionCaller, TxContext,
};
use moveos_views::config::{Config, ServerConfig};
use moveos_views::event::{Event, EventHandle, EventID};
use moveos_views::move_types::{Identifier, StructTag, TypeTag};
use moveos_views::view::EventView;

fn addr(last: u8) -> AccountAddress {
    let mut bytes = vec![0u8; 32];
    bytes[31] = last;
    AccountAddress::new(bytes)
}

fn handle_tag() -> StructTag {
    StructTag {
        address: addr(2),
        module: Identifier::new("event").unwrap(),
        name: Identifier::new("EventHandle").unwrap(),
        type_params: vec![],
    }
}

fn slot(bytes: Vec<u8>) -> FunctionReturnValue {
    FunctionReturnValue { type_tag: TypeTag::Address, value: bytes }
}

struct ScriptedCaller {
    response: Result<Vec<Vec<u8>>, u64>,
}

impl MoveFunctionCaller for ScriptedCaller {
    fn call_function(
        &self,
        _ctx: &TxContext,
        _call: FunctionCall,
    ) -> Result<Vec<FunctionReturnValue>, u64> {
        match &self.response {
            Ok(slots) => Ok(slots.iter().map(|b| slot(b.clone())).collect()),
            Err(code) => Err(*code),
        }
    }
}

#[test]
fn missing_return_slot_is_reported_as_missing() {
    // only two of the three expected return slots come back
    let caller = ScriptedCaller { response: Ok(vec![vec![0u8; 32], vec![0u8; 32]]) };
    let module = EventModule::new(&caller);
    assert_eq!(
        module.get_event_handle(handle_tag()).unwrap_err(),
        EventCallError::MissingReturnValue
    );
}

#[test]
fn malformed_return_slot_is_reported_as_decode_error() {
    let caller = ScriptedCaller {
        response: Ok(vec![vec![0u8; 32], vec![0u8; 32], vec![5, 0, 0, 0]]),
    };
    let module = EventModule::new(&caller);
    assert_eq!(
        module.get_event_handle(handle_tag()).unwrap_err(),
        EventCallError::DecodeError
    );
}

#[test]
fn rejected_call_is_reported_as_rejected() {
    let caller = ScriptedCaller { response: Err(4016) };
    let module = EventModule::new(&caller);
    assert_eq!(
        module.get_event_handle(handle_tag()).unwrap_err(),
        EventCallError::CallRejected
    );
}

#[test]
fn complete_response_decodes_positionally() {
    let mut id_bytes = vec![0u8; 32];
    id_bytes[31] = 9;
    let mut sender_bytes = vec![0u8; 32];
    sender_bytes[31] = 0xab;
    let mut seq_bytes = vec![0u8; 8];
    seq_bytes[0] = 5;
    let caller = ScriptedCaller { response: Ok(vec![id_bytes, sender_bytes, seq_bytes]) };
    let module = EventModule::new(&caller);
    let (oid, sender, seq) = module.get_event_handle(handle_tag()).unwrap();
    assert_eq!(oid, ObjectID::new(addr(9)));
    assert_eq!(sender, addr(0xab));
    assert_eq!(seq, 5);
}

#[test]
fn error_precedence_is_positional() {
    // the first slot is inspected before later slots are found missing
    let caller = ScriptedCaller { response: Ok(vec![vec![1, 2, 3]]) };
    let module = EventModule::new(&caller);
    assert_eq!(
        module.get_event_handle(handle_tag()).unwrap_err(),
        EventCallError::DecodeError
    );
    // two well-formed slots: the absent third slot decides
    assert_eq!(
        decode_event_handle_result(&vec![slot(vec![0u8; 32]), slot(vec![0u8; 32])]).unwrap_err(),
        EventCallError::MissingReturnValue
    );
    // a malformed second slot decides before the absent third one
    assert_eq!(
        decode_event_handle_result(&vec![slot(vec![0u8; 32]), slot(vec![0u8; 4])]).unwrap_err(),
        EventCallError::DecodeError
    );
}

#[test]
fn decode_result_empty_response() {
    assert_eq!(
        decode_event_handle_result(&vec![]).unwrap_err(),
        EventCallError::MissingReturnValue
    );
}

#[test]
fn end_to_end_event_identity_scenario() {
    // a handle at count 5 assigns sequence number 5 to the next event
    let stream = ObjectID::new(addr(9));
    let handle = EventHandle::new(stream.clone(), 5, addr(0xab));
    let event = Event::new(
        EventID::new(handle.event_handle_id().clone(), handle.count()),
        TypeTag::U64,
        vec![1, 2, 3],
        2,
    );
    assert_eq!(*event.event_id(), EventID::new(stream.clone(), 5));
    // after the engine records the event, the counter reads 6
    let advanced = EventHandle::new(stream, handle.count() + 1, addr(0xab));
    assert_eq!(advanced.count(), 6);
}

#[test]
fn event_view_reserves_sender() {
    let event = Event::new(EventID::new(ObjectID::new(addr(9)), 3), TypeTag::U64, vec![1], 2);
    let view = EventView::from(event.clone());
    assert_eq!(view.tx_hash, None);
    assert_eq!(view.sender, None);
    assert_eq!(view.event_index, Some(2));
    assert_eq!(view.event_id, EventID::new(ObjectID::new(addr(9)), 3));
    let with_hash = EventView::try_from(event, H256::new(vec![7u8; 32]));
    assert_eq!(with_hash.tx_hash, Some(H256::new(vec![7u8; 32])));
    assert_eq!(with_hash.sender, None);
}

#[test]
fn default_url_renders_http_and_https() {
    let config = ServerConfig::default();
    assert_eq!(config.url(false), "http://0.0.0.0:50051");
    assert_eq!(config.url(true), "https://0.0.0.0:50051");
}

#[test]
fn config_literal_equality() {
    let literal = Config::new(
        ServerConfig { host: "0.0.0.0".to_string(), port: 50051 },
        ServerConfig { host: "0.0.0.0".to_string(), port: 50051 },
    );
    assert_eq!(literal, Config::default());
    assert_eq!(literal.rpc_server.url(false), "http://0.0.0.0:50051");
}

#[test]
fn url_renders_custom_endpoint() {
    let config = ServerConfig { host: "127.0.0.1".to_string(), port: 8080 };
    assert_eq!(config.url(false), "http://127.0.0.1:8080");
}
