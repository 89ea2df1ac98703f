//! The compiled protocol schema: protocols, interfaces, messages, enums and
//! arguments, as they stand after normalization.
use vstd::prelude::*;

verus! {

#[derive(Debug, PartialEq, Eq)]
/// One protocol description document, compiled.
pub struct Protocol {
    pub name: String,
    pub copyright: Option<Copyright>,
    pub description: Option<Description>,
    pub interfaces: Vec<Interface>,
}

impl Protocol {
    /// The protocol's name (`wl` for the core protocol).
    pub fn get_name(&self) -> (r: &str)
        ensures
            r@ == self.name@,
    {
        self.name.as_str()
    }

    /// The copyright notice, if any.
    pub fn get_copyright(&self) -> (r: Option<&Copyright>)
        ensures
            match r {
                Some(v) => self.copyright == Some(*v),
                None => self.copyright is None,
            },
    {
        self.copyright.as_ref()
    }

    /// The description, if any.
    pub fn get_description(&self) -> (r: Option<&Description>)
        ensures
            match r {
                Some(v) => self.description == Some(*v),
                None => self.description is None,
            },
    {
        self.description.as_ref()
    }

    /// The interfaces, in document order.
    pub fn get_interfaces(&self) -> (r: &[Interface])
        ensures
            r@ == self.interfaces@,
    {
        self.interfaces.as_slice()
    }
}

#[derive(Debug, PartialEq, Eq)]
/// A copyright notice, without surrounding whitespace.
pub struct Copyright(pub String);

impl Copyright {
    /// The notice's text.
    pub fn get_content(&self) -> (r: &str)
        ensures
            r@ == self.0@,
    {
        self.0.as_str()
    }
}

#[derive(Debug, PartialEq, Eq)]
/// An interface: a kind of protocol object, with its requests, events and
/// enums in declaration order. A message's opcode is its index in its list.
pub struct Interface {
    /// The normalized type name.
    pub name: String,
    /// The name as the document and the wire spell it.
    pub wire_name: String,
    pub max_version: u32,
    pub description: Option<Description>,
    pub requests: Vec<Request>,
    pub events: Vec<Event>,
    pub enums: Vec<Enum>,
}

impl Interface {
    /// The normalized type name.
    pub fn get_name(&self) -> (r: &str)
        ensures
            r@ == self.name@,
    {
        self.name.as_str()
    }

    /// The name as the document and the wire spell it.
    pub fn get_wire_name(&self) -> (r: &str)
        ensures
            r@ == self.wire_name@,
    {
        self.wire_name.as_str()
    }

    /// The highest version of the interface.
    pub fn get_max_version(&self) -> (r: u32)
        ensures
            r == self.max_version,
    {
        self.max_version
    }

    /// The description, if any.
    pub fn get_description(&self) -> (r: Option<&Description>)
        ensures
            match r {
                Some(v) => self.description == Some(*v),
                None => self.description is None,
            },
    {
        self.description.as_ref()
    }

    /// The requests; a request's opcode is its index here.
    pub fn get_requests(&self) -> (r: &[Request])
        ensures
            r@ == self.requests@,
    {
        self.requests.as_slice()
    }

    /// The events; an event's opcode is its index here.
    pub fn get_events(&self) -> (r: &[Event])
        ensures
            r@ == self.events@,
    {
        self.events.as_slice()
    }

    /// The enums, in document order.
    pub fn get_enums(&self) -> (r: &[Enum])
        ensures
            r@ == self.enums@,
    {
        self.enums.as_slice()
    }
}

/// Whether a request ends the life of the object it is sent to.
#[derive(Clone, Copy, Debug, PartialEq, Eq, Structural)]
pub enum RequestType {
    Default,
    Destructor,
}

#[derive(Debug, PartialEq, Eq)]
/// A request: a message from client to server.
pub struct Request {
    pub name: String,
    pub kind: RequestType,
    pub since: u32,
    pub deprecated_since: Option<u32>,
    pub description: Option<Description>,
    pub args: Vec<Arg>,
}

impl Request {
    /// The request's name.
    pub fn get_name(&self) -> (r: &str)
        ensures
            r@ == self.name@,
    {
        self.name.as_str()
    }

    /// Whether the request is a destructor.
    pub fn get_type(&self) -> (r: &RequestType)
        ensures
            *r == self.kind,
    {
        &self.kind
    }

    /// The first interface version that has the request.
    pub fn get_since(&self) -> (r: u32)
        ensures
            r == self.since,
    {
        self.since
    }

    /// The version from which the request is deprecated, if any.
    pub fn get_deprecated_since(&self) -> (r: Option<u32>)
        ensures
            r == self.deprecated_since,
    {
        self.deprecated_since
    }

    /// The description, if any.
    pub fn get_description(&self) -> (r: Option<&Description>)
        ensures
            match r {
                Some(v) => self.description == Some(*v),
                None => self.description is None,
            },
    {
        self.description.as_ref()
    }

    /// The arguments, in wire order.
    pub fn get_args(&self) -> (r: &[Arg])
        ensures
            r@ == self.args@,
    {
        self.args.as_slice()
    }
}

/// Whether an event ends the life of the object it comes from.
#[derive(Clone, Copy, Debug, PartialEq, Eq, Structural)]
pub enum EventType {
    Default,
    Destructor,
}

#[derive(Debug, PartialEq, Eq)]
/// An event: a message from server to client.
pub struct Event {
    pub name: String,
    pub kind: EventType,
    pub since: u32,
    pub deprecated_since: Option<u32>,
    pub description: Option<Description>,
    pub args: Vec<Arg>,
}

impl Event {
    /// The normalized type name of the event.
    pub fn get_name(&self) -> (r: &str)
        ensures
            r@ == self.name@,
    {
        self.name.as_str()
    }

    /// Whether the event is a destructor.
    pub fn get_type(&self) -> (r: &EventType)
        ensures
            *r == self.kind,
    {
        &self.kind
    }

    /// The first interface version that has the event.
    pub fn get_since(&self) -> (r: u32)
        ensures
            r == self.since,
    {
        self.since
    }

    /// The version from which the event is deprecated, if any.
    pub fn get_deprecated_since(&self) -> (r: Option<u32>)
        ensures
            r == self.deprecated_since,
    {
        self.deprecated_since
    }

    /// The description, if any.
    pub fn get_description(&self) -> (r: Option<&Description>)
        ensures
            match r {
                Some(v) => self.description == Some(*v),
                None => self.description is None,
            },
    {
        self.description.as_ref()
    }

    /// The arguments, in wire order.
    pub fn get_args(&self) -> (r: &[Arg])
        ensures
            r@ == self.args@,
    {
        self.args.as_slice()
    }
}

#[derive(Debug, PartialEq, Eq)]
/// An enumeration of named values; values need not be distinct.
pub struct Enum {
    pub name: String,
    pub since: u32,
    pub is_bitfield: bool,
    pub description: Option<Description>,
    pub entries: Vec<Entry>,
}

impl Enum {
    /// The normalized type name.
    pub fn get_name(&self) -> (r: &str)
        ensures
            r@ == self.name@,
    {
        self.name.as_str()
    }

    /// The first interface version that has the enum.
    pub fn get_since(&self) -> (r: u32)
        ensures
            r == self.since,
    {
        self.since
    }

    /// Whether values combine as bit flags.
    pub fn get_is_bitfield(&self) -> (r: bool)
        ensures
            r == self.is_bitfield,
    {
        self.is_bitfield
    }

    /// The description, if any.
    pub fn get_description(&self) -> (r: Option<&Description>)
        ensures
            match r {
                Some(v) => self.description == Some(*v),
                None => self.description is None,
            },
    {
        self.description.as_ref()
    }

    /// The entries, in document order.
    pub fn get_entries(&self) -> (r: &[Entry])
        ensures
            r@ == self.entries@,
    {
        self.entries.as_slice()
    }
}

#[derive(Debug, PartialEq, Eq)]
/// One named value of an enum.
pub struct Entry {
    /// The normalized identifier; never starts with a digit.
    pub name: String,
    pub value: u32,
    pub summary: Option<String>,
    pub since: u32,
    pub deprecated_since: Option<u32>,
    pub description: Option<Description>,
}

impl Entry {
    /// The normalized identifier.
    pub fn get_name(&self) -> (r: &str)
        ensures
            r@ == self.name@,
    {
        self.name.as_str()
    }

    /// The numeric value.
    pub fn get_value(&self) -> (r: u32)
        ensures
            r == self.value,
    {
        self.value
    }

    /// The one-line summary, if any.
    pub fn get_summary(&self) -> (r: Option<&str>)
        ensures
            match r {
                Some(v) => self.summary is Some && v@ == self.summary.unwrap()@,
                None => self.summary is None,
            },
    {
        match &self.summary {
            Some(s) => Some(s.as_str()),
            None => None,
        }
    }

    /// The first interface version that has the entry.
    pub fn get_since(&self) -> (r: u32)
        ensures
            r == self.since,
    {
        self.since
    }

    /// The version from which the entry is deprecated, if any.
    pub fn get_deprecated_since(&self) -> (r: Option<u32>)
        ensures
            r == self.deprecated_since,
    {
        self.deprecated_since
    }

    /// The description, if any.
    pub fn get_description(&self) -> (r: Option<&Description>)
        ensures
            match r {
                Some(v) => self.description == Some(*v),
                None => self.description is None,
            },
    {
        self.description.as_ref()
    }
}

/// The type of an argument. `Enum`, `Object` and `NewId` carry the name of
/// the enum or interface they refer to, as the document wrote it.
#[derive(Debug, PartialEq, Eq)]
pub enum ArgType {
    Int,
    UInt,
    Enum(String),
    Fixed,
    String,
    Object(String),
    NewId(String),
    UnspecifiedNewId,
    Array,
    Fd,
}

#[derive(Debug, PartialEq, Eq)]
/// An argument of a request or an event.
pub struct Arg {
    pub name: String,
    pub arg_type: ArgType,
    pub summary: Option<String>,
    pub nullable: bool,
    pub description: Option<Description>,
}

impl Arg {
    /// The argument's name.
    pub fn get_name(&self) -> (r: &str)
        ensures
            r@ == self.name@,
    {
        self.name.as_str()
    }

    /// The argument's type.
    pub fn get_type(&self) -> (r: &ArgType)
        ensures
            *r == self.arg_type,
    {
        &self.arg_type
    }

    /// The one-line summary, if any.
    pub fn get_summary(&self) -> (r: Option<&str>)
        ensures
            match r {
                Some(v) => self.summary is Some && v@ == self.summary.unwrap()@,
                None => self.summary is None,
            },
    {
        match &self.summary {
            Some(s) => Some(s.as_str()),
            None => None,
        }
    }

    /// Whether the argument may be null.
    pub fn get_nullable(&self) -> (r: bool)
        ensures
            r == self.nullable,
    {
        self.nullable
    }

    /// The description, if any.
    pub fn get_description(&self) -> (r: Option<&Description>)
        ensures
            match r {
                Some(v) => self.description == Some(*v),
                None => self.description is None,
            },
    {
        self.description.as_ref()
    }
}

#[derive(Debug, PartialEq, Eq)]
/// A summary line and an optional longer text.
pub struct Description {
    pub summary: String,
    pub content: Option<String>,
}

impl Description {
    /// The summary line.
    pub fn get_summary(&self) -> (r: &str)
        ensures
            r@ == self.summary@,
    {
        self.summary.as_str()
    }

    /// The longer text, without surrounding whitespace, if any.
    pub fn get_content(&self) -> (r: Option<&str>)
        ensures
            match r {
                Some(v) => self.content is Some && v@ == self.content.unwrap()@,
                None => self.content is None,
            },
    {
        match &self.content {
            Some(s) => Some(s.as_str()),
            None => None,
        }
    }
}

} // verus!
