use wayland_client::catalog::Catalog;
use wayland_client::codec::{encode_message, ArgValue};
use wayland_client::compiler::{RawArg, RawElement, RawInterface, RawMessage, RawProtocol};
use wayland_client::connection::{Connection, ConnectionError, Dispatched};
use wayland_client::events::{Display, Event, GlobalEvent, Registry};
use wayland_client::proxy::Proxy;
use wayland_client::registry::{ObjectRegistry, ObjectState, RegistryError};
use wayland_client::schema::ArgType;
use wayland_client::setup::{resolve_endpoint, ConnectError, Endpoint};

fn s(x: &str) -> String {
    x.to_string()
}

fn arg(name: &str, ty: &str, iface: Option<&str>) -> RawArg {
    RawArg {
        name: s(name),
        arg_type: s(ty),
        summary: None,
        interface: iface.map(s),
        allow_null: None,
        enum_ref: None,
        description: None,
    }
}

fn msg(name: &str, kind: Option<&str>, since: Option<&str>, args: Vec<RawArg>) -> RawMessage {
    RawMessage { name: s(name), kind: kind.map(s), since: since.map(s), deprecated_since: None, description: None, args }
}

fn iface(name: &str, version: &str, elements: Vec<RawElement>) -> RawInterface {
    RawInterface { name: s(name), version: s(version), description: None, elements }
}

fn core_catalog() -> Catalog {
    let display = iface(
        "wl_display",
        "1",
        vec![
            RawElement::Request(msg("sync", None, None, vec![arg("callback", "new_id", Some("wl_callback"))])),
            RawElement::Request(msg("get_registry", None, None, vec![arg("registry", "new_id", Some("wl_registry"))])),
            RawElement::Event(msg("error", None, None, vec![
                arg("object_id", "object", None),
                arg("code", "uint", None),
                arg("message", "string", None),
            ])),
            RawElement::Event(msg("delete_id", None, None, vec![arg("id", "uint", None)])),
        ],
    );
    let registry = iface(
        "wl_registry",
        "1",
        vec![
            RawElement::Request(msg("bind", None, None, vec![arg("name", "uint", None), arg("id", "new_id", None)])),
            RawElement::Event(msg("global", None, None, vec![
                arg("name", "uint", None),
                arg("interface", "string", None),
                arg("version", "uint", None),
            ])),
            RawElement::Event(msg("global_remove", None, None, vec![arg("name", "uint", None)])),
        ],
    );
    let callback = iface(
        "wl_callback",
        "1",
        vec![RawElement::Event(msg("done", Some("destructor"), None, vec![arg("callback_data", "uint", None)]))],
    );
    let output = iface(
        "wl_output",
        "4",
        vec![
            RawElement::Request(msg("release", Some("destructor"), Some("3"), vec![])),
            RawElement::Event(msg("scale", None, Some("2"), vec![arg("factor", "int", None)])),
        ],
    );
    let doc = RawProtocol {
        name: s("wayland"),
        copyright: None,
        description: None,
        interfaces: vec![display, registry, callback, output],
    };
    Catalog::compile(&vec![doc]).unwrap()
}

fn event_bytes(object_id: u32, opcode: u16, sig: &[ArgType], vals: &[ArgValue]) -> Vec<u8> {
    encode_message(object_id, opcode, sig, vals).unwrap().0
}

fn global(name: u32, interface: &str, version: u32) -> Vec<u8> {
    event_bytes(
        2,
        0,
        &[ArgType::UInt, ArgType::String, ArgType::UInt],
        &[ArgValue::UInt(name), ArgValue::Str(Some(interface.as_bytes().to_vec())), ArgValue::UInt(version)],
    )
}

fn delete_id(id: u32) -> Vec<u8> {
    event_bytes(1, 1, &[ArgType::UInt], &[ArgValue::UInt(id)])
}

#[test]
fn end_to_end_session() {
    let catalog = core_catalog();
    let mut conn = Connection::new(&catalog).unwrap();
    let display: Proxy<Display, 1> = conn.get_display();
    assert_eq!(display.get_id(), 1);
    assert_eq!(Proxy::<Display, 1>::interface(), "wl_display");
    assert_eq!(conn.object(1).unwrap().state, ObjectState::Active);

    let registry_id = conn.send_request(&catalog, 1, 1, vec![ArgValue::NewId(0)]).unwrap();
    assert_eq!(registry_id, Some(2));
    let (out, fds) = conn.take_outgoing();
    assert_eq!(out, vec![1, 0, 0, 0, 1, 0, 12, 0, 2, 0, 0, 0]);
    assert!(fds.is_empty());
    let registry: Proxy<Registry, 1> = Proxy::new(2);
    assert!(registry.equals(&Proxy::new(2)));

    conn.receive(&global(7, "wl_output", 4), &[]);
    let m = conn.get_next_event(&catalog).unwrap().unwrap();
    assert_eq!(m.object_id, 2);
    assert_eq!(m.opcode, 0);
    let ev = Event::from_registry_message(&m).unwrap();
    assert_eq!(ev, Event::WlRegistryGlobal(GlobalEvent { name: 7, interface: b"wl_output".to_vec(), version: 4 }));

    let advertised = match &ev {
        Event::WlRegistryGlobal(g) => g,
        _ => unreachable!(),
    };
    // Above the advertised version is refused and sends nothing.
    assert_eq!(conn.bind_global(&catalog, 2, advertised, 5), Err(ConnectionError::BadNewId));
    assert_eq!(conn.bind_global(&catalog, 2, advertised, 0), Err(ConnectionError::BadNewId));
    assert!(conn.take_outgoing().0.is_empty());
    let bound = conn.bind_global(&catalog, 2, advertised, 3).unwrap();
    assert_eq!(bound, Some(3));
    let info = conn.object(3).unwrap();
    assert_eq!(info.version, 3);
    assert_eq!(catalog.interfaces[info.interface].get_wire_name(), "wl_output");

    assert_eq!(conn.send_request(&catalog, 3, 0, vec![]), Ok(None));
    assert_eq!(conn.object(3).unwrap().state, ObjectState::PendingDestroy);
    // Events already on their way to the object are still delivered.
    conn.receive(&event_bytes(3, 0, &[ArgType::Int], &[ArgValue::Int(2)]), &[]);
    let late = conn.get_next_event(&catalog).unwrap().unwrap();
    assert_eq!(late.object_id, 3);
    assert_eq!(late.args, vec![ArgValue::Int(2)]);

    conn.receive(&delete_id(3), &[]);
    assert_eq!(conn.get_next_event(&catalog), Ok(None));
    assert_eq!(conn.object(3).unwrap().state, ObjectState::Freed);

    let callback = conn.send_request(&catalog, 1, 0, vec![ArgValue::NewId(0)]).unwrap();
    assert_eq!(callback, Some(3));
}

#[test]
fn freed_and_unknown_ids_are_refused() {
    let catalog = core_catalog();
    let mut conn = Connection::new(&catalog).unwrap();
    conn.send_request(&catalog, 1, 1, vec![ArgValue::NewId(0)]).unwrap();
    conn.receive(&global(1, "wl_output", 4), &[]);
    conn.get_next_event(&catalog).unwrap();
    conn.send_request(
        &catalog,
        2,
        0,
        vec![ArgValue::UInt(1), ArgValue::UnspecifiedNewId { interface: b"wl_output".to_vec(), version: 4, id: 0 }],
    )
    .unwrap();
    conn.send_request(&catalog, 3, 0, vec![]).unwrap();
    // A second destructor before the delete-id is refused and frees nothing.
    assert_eq!(conn.send_request(&catalog, 3, 0, vec![]), Err(ConnectionError::Registry(RegistryError::NotActive)));
    conn.receive(&delete_id(3), &[]);
    assert_eq!(conn.get_next_event(&catalog), Ok(None));
    conn.receive(&event_bytes(3, 0, &[ArgType::Int], &[ArgValue::Int(2)]), &[]);
    assert_eq!(conn.get_next_event(&catalog), Err(ConnectionError::Registry(RegistryError::Freed)));

    let mut other = Connection::new(&catalog).unwrap();
    other.receive(&event_bytes(40, 0, &[ArgType::UInt], &[ArgValue::UInt(1)]), &[]);
    assert_eq!(other.get_next_event(&catalog), Err(ConnectionError::Registry(RegistryError::Unknown)));
}

#[test]
fn partial_messages_wait_for_the_rest() {
    let catalog = core_catalog();
    let mut conn = Connection::new(&catalog).unwrap();
    conn.send_request(&catalog, 1, 1, vec![ArgValue::NewId(0)]).unwrap();
    let bytes = global(5, "wl_seat", 7);
    conn.receive(&bytes[..5], &[]);
    assert_eq!(conn.dispatch_one(&catalog), Ok(Dispatched::NotReady));
    conn.receive(&bytes[5..10], &[]);
    assert_eq!(conn.get_next_event(&catalog), Ok(None));
    conn.receive(&bytes[10..], &[]);
    let m = conn.get_next_event(&catalog).unwrap().unwrap();
    assert_eq!(m.args[0], ArgValue::UInt(5));
    assert_eq!(conn.get_next_event(&catalog), Ok(None));
}

#[test]
fn display_errors_are_surfaced() {
    let catalog = core_catalog();
    let mut conn = Connection::new(&catalog).unwrap();
    conn.receive(
        &event_bytes(
            1,
            0,
            &[ArgType::UInt, ArgType::UInt, ArgType::String],
            &[ArgValue::UInt(1), ArgValue::UInt(3), ArgValue::Str(Some(b"bad".to_vec()))],
        ),
        &[],
    );
    assert_eq!(
        conn.get_next_event(&catalog),
        Err(ConnectionError::Display { object_id: 1, code: 3, message: b"bad".to_vec() })
    );
    let recorded = conn.last_error().unwrap();
    assert_eq!(recorded.code, 3);
    assert_eq!(recorded.message, b"bad".to_vec());
}

#[test]
fn requests_are_checked_before_sending() {
    let catalog = core_catalog();
    let mut conn = Connection::new(&catalog).unwrap();
    assert_eq!(conn.send_request(&catalog, 1, 9, vec![]), Err(ConnectionError::BadOpcode));
    assert_eq!(conn.send_request(&catalog, 5, 0, vec![]), Err(ConnectionError::Registry(RegistryError::Unknown)));
    conn.send_request(&catalog, 1, 1, vec![ArgValue::NewId(0)]).unwrap();
    // wl_output is at version 4 at most.
    let too_new = conn.send_request(
        &catalog,
        2,
        0,
        vec![ArgValue::UInt(1), ArgValue::UnspecifiedNewId { interface: b"wl_output".to_vec(), version: 5, id: 0 }],
    );
    assert_eq!(too_new, Err(ConnectionError::BadNewId));
    // Bound at version 2, the output has no release request yet.
    conn.send_request(
        &catalog,
        2,
        0,
        vec![ArgValue::UInt(1), ArgValue::UnspecifiedNewId { interface: b"wl_output".to_vec(), version: 2, id: 0 }],
    )
    .unwrap();
    assert_eq!(conn.send_request(&catalog, 3, 0, vec![]), Err(ConnectionError::VersionTooLow));
    assert!(matches!(conn.send_request(&catalog, 1, 0, vec![ArgValue::Int(0)]), Err(ConnectionError::Encode(_))));
}

#[test]
fn destructor_events_release_server_side() {
    let catalog = core_catalog();
    let mut conn = Connection::new(&catalog).unwrap();
    let cb = conn.send_request(&catalog, 1, 0, vec![ArgValue::NewId(0)]).unwrap().unwrap();
    conn.receive(&event_bytes(cb, 0, &[ArgType::UInt], &[ArgValue::UInt(99)]), &[]);
    let done = conn.get_next_event(&catalog).unwrap().unwrap();
    assert_eq!(done.args, vec![ArgValue::UInt(99)]);
    assert_eq!(conn.object(cb).unwrap().state, ObjectState::PendingDestroy);
    conn.receive(&delete_id(cb), &[]);
    assert_eq!(conn.get_next_event(&catalog), Ok(None));
    assert_eq!(conn.allocate_id(0, 1), Some(cb));
}

#[test]
fn registry_lifecycle() {
    let mut reg = ObjectRegistry::new(0);
    assert_eq!(reg.allocate(1, 1), Some(2));
    assert_eq!(reg.allocate(1, 1), Some(3));
    assert_eq!(reg.delete_id(2), Err(RegistryError::NotPendingDestroy));
    assert_eq!(reg.mark_destroyed(2), Ok(()));
    assert_eq!(reg.mark_destroyed(2), Err(RegistryError::NotActive));
    assert_eq!(reg.allocate(1, 1), Some(4));
    assert_eq!(reg.lookup(2).unwrap().state, ObjectState::PendingDestroy);
    assert_eq!(reg.delete_id(2), Ok(()));
    assert_eq!(reg.delete_id(2), Err(RegistryError::NotPendingDestroy));
    assert_eq!(reg.lookup(2), Err(RegistryError::Freed));
    assert_eq!(reg.lookup(77), Err(RegistryError::Unknown));
    assert_eq!(reg.allocate(1, 1), Some(2));
    assert_eq!(reg.allocate(1, 1), Some(5));
    assert_eq!(reg.bind_server_id(5, 0, 1), Err(RegistryError::BadServerId));
    assert_eq!(reg.bind_server_id(0xff00_0001, 0, 1), Ok(()));
    assert_eq!(reg.bind_server_id(0xff00_0001, 0, 1), Err(RegistryError::BadServerId));
}

#[test]
fn endpoints() {
    assert_eq!(resolve_endpoint(Some(s("5")), None, None), Ok(Endpoint::Fd(5)));
    assert_eq!(resolve_endpoint(Some(s("x")), None, None), Err(ConnectError::InvalidSocket(s("x"))));
    assert_eq!(resolve_endpoint(None, None, Some(s("/run/user/1000"))), Ok(Endpoint::Path(s("/run/user/1000/wayland-0"))));
    assert_eq!(resolve_endpoint(None, Some(s("wayland-1")), Some(s("/tmp/"))), Ok(Endpoint::Path(s("/tmp/wayland-1"))));
    assert_eq!(resolve_endpoint(None, Some(s("/abs/sock")), None), Ok(Endpoint::Path(s("/abs/sock"))));
    assert_eq!(resolve_endpoint(None, Some(s("wayland-1")), None), Err(ConnectError::NoXdgRuntimeDir));
}

#[test]
fn malformed_inbound_messages_are_refused() {
    let catalog = core_catalog();
    let mut conn = Connection::new(&catalog).unwrap();
    conn.receive(&[1, 0, 0, 0, 0, 0, 4, 0], &[]);
    assert_eq!(
        conn.get_next_event(&catalog),
        Err(ConnectionError::Decode(wayland_client::codec::DecodeError::BadFrame))
    );
    let mut conn = Connection::new(&catalog).unwrap();
    conn.receive(&event_bytes(1, 7, &[], &[]), &[]);
    assert_eq!(conn.get_next_event(&catalog), Err(ConnectionError::BadOpcode));
    let mut conn = Connection::new(&catalog).unwrap();
    // delete_id declares one word; this header claims two.
    conn.receive(&event_bytes(1, 1, &[ArgType::UInt, ArgType::UInt], &[ArgValue::UInt(2), ArgValue::UInt(0)]), &[]);
    assert_eq!(
        conn.get_next_event(&catalog),
        Err(ConnectionError::Decode(wayland_client::codec::DecodeError::BadFrame))
    );
}

#[test]
fn a_catalog_without_display_cannot_connect() {
    let doc = RawProtocol { name: s("other"), copyright: None, description: None, interfaces: vec![iface("thing", "1", vec![])] };
    let catalog = Catalog::compile(&vec![doc]).unwrap();
    assert!(matches!(Connection::new(&catalog), Err(ConnectionError::NoDisplayInterface)));
}
