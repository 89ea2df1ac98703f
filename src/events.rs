//! The core protocol's display, registry and callback events, in typed
//! form.
use vstd::prelude::*;
use crate::codec::{ArgValue, WireValue};
use crate::connection::Message;
use crate::proxy::Interface;

verus! {

/// The display singleton, always object 1.
pub struct Display;

/// The registry, which announces the server's globals.
pub struct Registry;

/// A one-shot completion notification.
pub struct Callback;

impl Interface for Display {
    const INTERFACE: &'static str = "wl_display";
    const MAX_VERSION: u32 = 1;
}

impl Interface for Registry {
    const INTERFACE: &'static str = "wl_registry";
    const MAX_VERSION: u32 = 1;
}

impl Interface for Callback {
    const INTERFACE: &'static str = "wl_callback";
    const MAX_VERSION: u32 = 1;
}

/// The display acknowledges that an id may be reused.
#[derive(Clone, Copy, Debug, PartialEq, Eq, Structural)]
pub struct DeleteIdEvent {
    pub id: u32,
}

/// The display reports a fatal error on an object.
#[derive(Debug, PartialEq, Eq)]
pub struct ErrorEvent {
    pub object_id: u32,
    pub code: u32,
    pub message: Vec<u8>,
}

/// The registry announces a global: its name, interface and version.
#[derive(Debug, PartialEq, Eq)]
pub struct GlobalEvent {
    pub name: u32,
    pub interface: Vec<u8>,
    pub version: u32,
}

/// The registry withdraws a global.
#[derive(Clone, Copy, Debug, PartialEq, Eq, Structural)]
pub struct GlobalRemoveEvent {
    pub name: u32,
}

/// A core event in typed form.
#[derive(Debug, PartialEq, Eq)]
pub enum Event {
    WlDisplayDeleteId(DeleteIdEvent),
    WlDisplayError(ErrorEvent),
    WlRegistryGlobal(GlobalEvent),
    WlRegistryGlobalRemove(GlobalRemoveEvent),
    CallbackDone { callback_data: u32 },
}

/// The typed form of a registry event: `global` (opcode 0) carries a name,
/// an interface name and a version; `global_remove` (opcode 1) a name.
pub open spec fn registry_event(opcode: u16, args: Seq<WireValue>) -> Option<(u32, Option<(Seq<u8>, u32)>)> {
    if opcode == 0 && args.len() == 3 {
        match (args[0], args[1], args[2]) {
            (WireValue::UInt(name), WireValue::Str(Some(iface)), WireValue::UInt(version)) => Some(
                (name, Some((iface, version))),
            ),
            _ => None,
        }
    } else if opcode == 1 && args.len() == 1 {
        match args[0] {
            WireValue::UInt(name) => Some((name, None)),
            _ => None,
        }
    } else {
        None
    }
}

impl crate::connection::Event for Event {
    fn from_message(m: &Message) -> Option<Event> {
        Event::from_registry_message(m)
    }
}

impl Event {
    /// Reads a registry event in typed form; `None` where the message is
    /// not one of the registry's events as the core protocol declares them.
    pub fn from_registry_message(m: &Message) -> (r: Option<Event>)
        ensures
            match registry_event(m.opcode, m.args@.map_values(|v: ArgValue| v@)) {
                None => r is None,
                Some((name, Some((iface, version)))) => r matches Some(Event::WlRegistryGlobal(g))
                    && g.name == name && g.interface@ == iface && g.version == version,
                Some((name, None)) => r == Some(Event::WlRegistryGlobalRemove(GlobalRemoveEvent { name })),
            },
    {
        let ghost vs = m.args@.map_values(|v: ArgValue| v@);
        if m.opcode == 0 && m.args.len() == 3 {
            assert(vs[0] == m.args@[0]@ && vs[1] == m.args@[1]@ && vs[2] == m.args@[2]@);
            match (&m.args[0], &m.args[1], &m.args[2]) {
                (ArgValue::UInt(name), ArgValue::Str(Some(iface)), ArgValue::UInt(version)) => Some(
                    Event::WlRegistryGlobal(
                        GlobalEvent { name: *name, interface: iface.clone(), version: *version },
                    ),
                ),
                _ => None,
            }
        } else if m.opcode == 1 && m.args.len() == 1 {
            assert(vs[0] == m.args@[0]@);
            match &m.args[0] {
                ArgValue::UInt(name) => Some(Event::WlRegistryGlobalRemove(GlobalRemoveEvent { name: *name })),
                _ => None,
            }
        } else {
            None
        }
    }
}

} // verus!
