//! The schema compiler: turns description documents, as read into plain
//! values, into the normalized schema, and merges documents into one
//! catalog whose cross references all resolve.
use vstd::prelude::*;
use crate::schema::{
    Arg, ArgType, Copyright, Description, Entry, Enum, Event, EventType, Interface, Protocol,
    Request, RequestType,
};
use crate::text::{
    is_ascii_digit,
    eq_ignoring_ascii_case, is_identifier, literal_value, parse_literal, parses_as_ident, pascal,
    pascal_case, push_char, text_eq, text_eq_ignore_ascii_case, trim_text, trimmed,
};

verus! {

/// A description document's root element.
pub struct RawProtocol {
    pub name: String,
    pub copyright: Option<String>,
    pub description: Option<RawDescription>,
    pub interfaces: Vec<RawInterface>,
}

/// An `interface` element; its children in document order.
pub struct RawInterface {
    pub name: String,
    pub version: String,
    pub description: Option<RawDescription>,
    pub elements: Vec<RawElement>,
}

/// A child of an `interface` element.
pub enum RawElement {
    Request(RawMessage),
    Event(RawMessage),
    Enum(RawEnum),
}

/// A `request` or `event` element.
pub struct RawMessage {
    pub name: String,
    pub kind: Option<String>,
    pub since: Option<String>,
    pub deprecated_since: Option<String>,
    pub description: Option<RawDescription>,
    pub args: Vec<RawArg>,
}

/// An `enum` element.
pub struct RawEnum {
    pub name: String,
    pub since: Option<String>,
    pub bitfield: Option<String>,
    pub description: Option<RawDescription>,
    pub entries: Vec<RawEntry>,
}

/// An `entry` element.
pub struct RawEntry {
    pub name: String,
    pub value: String,
    pub summary: Option<String>,
    pub since: Option<String>,
    pub deprecated_since: Option<String>,
    pub description: Option<RawDescription>,
}

/// An `arg` element.
pub struct RawArg {
    pub name: String,
    pub arg_type: String,
    pub summary: Option<String>,
    pub interface: Option<String>,
    pub allow_null: Option<String>,
    pub enum_ref: Option<String>,
    pub description: Option<RawDescription>,
}

/// A `description` element: its summary attribute and its text.
pub struct RawDescription {
    pub summary: String,
    pub content: Option<String>,
}

/// Why a set of documents does not compile.
#[derive(Debug, PartialEq, Eq)]
pub enum CompileError {
    /// A version or value attribute that is no numeric literal in range.
    BadNumber(String),
    /// An argument type outside the closed set of wire types.
    UnknownArgType(String),
    /// Two interfaces of the merged catalog share a name.
    DuplicateInterface(String),
    /// An argument names an interface that no document defines.
    UnresolvedInterface(String),
    /// An argument names an enum that its interface does not define.
    UnresolvedEnum(String),
}

/// The errors that a single document can give on its own.
pub open spec fn is_document_error(e: CompileError) -> bool {
    e is BadNumber || e is UnknownArgType
}

pub open spec fn opt_view(o: Option<String>) -> Option<Seq<char>> {
    match o {
        Some(s) => Some(s@),
        None => None,
    }
}

/// A version number: a numeric literal of at least 1.
pub open spec fn version_literal(s: Seq<char>) -> Option<u32> {
    match literal_value(s) {
        Some(v) => if v >= 1 {
            Some(v)
        } else {
            None
        },
        None => None,
    }
}

/// A `since` attribute's value; 1 where it is absent.
pub open spec fn since_value(o: Option<String>) -> Option<u32> {
    match o {
        None => Some(1),
        Some(s) => version_literal(s@),
    }
}

/// A `deprecated-since` attribute's value, which may be absent.
pub open spec fn deprecated_value(o: Option<String>) -> Option<Option<u32>> {
    match o {
        None => Some(None),
        Some(s) => match version_literal(s@) {
            Some(v) => Some(Some(v)),
            None => None,
        },
    }
}

pub open spec fn description_from(d: Description, raw: RawDescription) -> bool {
    &&& d.summary@ == raw.summary@
    &&& opt_view(d.content) == match raw.content {
        Some(c) => Some(trimmed(c@)),
        None => None,
    }
}

pub open spec fn opt_description_from(d: Option<Description>, raw: Option<RawDescription>) -> bool {
    match (d, raw) {
        (None, None) => true,
        (Some(a), Some(b)) => description_from(a, b),
        _ => false,
    }
}

pub open spec fn known_arg_type(t: Seq<char>) -> bool {
    t == "int"@ || t == "uint"@ || t == "fixed"@ || t == "string"@ || t == "object"@ || t
        == "new_id"@ || t == "array"@ || t == "fd"@
}

/// How an argument's type follows from its `type`, `interface` and `enum`
/// attributes: a number with an enum is an enum; an object without an
/// interface is a plain number on the wire; a new id without an interface
/// carries the interface on the wire.
pub open spec fn classified(
    at: ArgType,
    t: Seq<char>,
    iface: Option<Seq<char>>,
    en: Option<Seq<char>>,
) -> bool {
    match at {
        ArgType::Int => t == "int"@ && en is None,
        ArgType::UInt => (t == "uint"@ && en is None) || (t == "object"@ && iface is None),
        ArgType::Enum(r) => (t == "int"@ || t == "uint"@) && en == Some(r@),
        ArgType::Fixed => t == "fixed"@,
        ArgType::String => t == "string"@,
        ArgType::Object(r) => t == "object"@ && iface == Some(r@),
        ArgType::NewId(r) => t == "new_id"@ && iface == Some(r@),
        ArgType::UnspecifiedNewId => t == "new_id"@ && iface is None,
        ArgType::Array => t == "array"@,
        ArgType::Fd => t == "fd"@,
    }
}

pub open spec fn arg_compiled(a: Arg, raw: RawArg) -> bool {
    &&& a.name@ == raw.name@
    &&& classified(a.arg_type, raw.arg_type@, opt_view(raw.interface), opt_view(raw.enum_ref))
    &&& opt_view(a.summary) == opt_view(raw.summary)
    &&& a.nullable == (raw.allow_null is Some && eq_ignoring_ascii_case(
        raw.allow_null.unwrap()@,
        "true"@,
    ))
    &&& opt_description_from(a.description, raw.description)
}

pub open spec fn args_compile(raw: Seq<RawArg>) -> bool {
    forall|k: int| 0 <= k < raw.len() ==> known_arg_type(#[trigger] raw[k].arg_type@)
}

pub open spec fn args_compiled(out: Seq<Arg>, raw: Seq<RawArg>) -> bool {
    out.len() == raw.len() && forall|k: int| 0 <= k < raw.len() ==> arg_compiled(#[trigger] out[k], raw[k])
}

pub open spec fn is_destructor(kind: Option<String>) -> bool {
    kind is Some && kind.unwrap()@ == "destructor"@
}

pub open spec fn message_compiles(raw: RawMessage) -> bool {
    &&& since_value(raw.since) is Some
    &&& deprecated_value(raw.deprecated_since) is Some
    &&& args_compile(raw.args@)
}

pub open spec fn request_compiled(r: Request, raw: RawMessage) -> bool {
    &&& r.name@ == raw.name@
    &&& (r.kind == RequestType::Destructor <==> is_destructor(raw.kind))
    &&& Some(r.since) == since_value(raw.since)
    &&& Some(r.deprecated_since) == deprecated_value(raw.deprecated_since)
    &&& opt_description_from(r.description, raw.description)
    &&& args_compiled(r.args@, raw.args@)
}

pub open spec fn event_compiled(e: Event, raw: RawMessage) -> bool {
    &&& e.name@ == pascal(raw.name@)
    &&& (e.kind == EventType::Destructor <==> is_destructor(raw.kind))
    &&& Some(e.since) == since_value(raw.since)
    &&& Some(e.deprecated_since) == deprecated_value(raw.deprecated_since)
    &&& opt_description_from(e.description, raw.description)
    &&& args_compiled(e.args@, raw.args@)
}

/// The identifier of an enum entry: its Pascal-case form, behind `_` where
/// that form is no legal identifier (`pascal_is_ident` tells which).
pub open spec fn entry_ident(name: Seq<char>, pascal_is_ident: bool) -> Seq<char> {
    if pascal_is_ident {
        pascal(name)
    } else {
        seq!['_'] + pascal(name)
    }
}

pub open spec fn entry_compiles(raw: RawEntry) -> bool {
    &&& literal_value(raw.value@) is Some
    &&& since_value(raw.since) is Some
    &&& deprecated_value(raw.deprecated_since) is Some
}

pub open spec fn entry_compiled(e: Entry, raw: RawEntry) -> bool {
    &&& e.name@ == entry_ident(raw.name@, parses_as_ident(pascal(raw.name@)))
    &&& Some(e.value) == literal_value(raw.value@)
    &&& opt_view(e.summary) == opt_view(raw.summary)
    &&& Some(e.since) == since_value(raw.since)
    &&& Some(e.deprecated_since) == deprecated_value(raw.deprecated_since)
    &&& opt_description_from(e.description, raw.description)
}

pub open spec fn enum_compiles(raw: RawEnum) -> bool {
    &&& since_value(raw.since) is Some
    &&& forall|k: int| 0 <= k < raw.entries@.len() ==> entry_compiles(#[trigger] raw.entries@[k])
}

pub open spec fn enum_compiled(e: Enum, raw: RawEnum) -> bool {
    &&& e.name@ == pascal(raw.name@)
    &&& Some(e.since) == since_value(raw.since)
    &&& e.is_bitfield == (raw.bitfield is Some && raw.bitfield.unwrap()@ == "true"@)
    &&& opt_description_from(e.description, raw.description)
    &&& e.entries@.len() == raw.entries@.len()
    &&& forall|k: int|
        0 <= k < raw.entries@.len() ==> entry_compiled(#[trigger] e.entries@[k], raw.entries@[k])
}

/// The requests among an interface's children, in document order.
pub open spec fn requests_of(e: Seq<RawElement>) -> Seq<RawMessage>
    decreases e.len(),
{
    if e.len() == 0 {
        Seq::empty()
    } else {
        match e.last() {
            RawElement::Request(m) => requests_of(e.drop_last()).push(m),
            _ => requests_of(e.drop_last()),
        }
    }
}

/// The events among an interface's children, in document order.
pub open spec fn events_of(e: Seq<RawElement>) -> Seq<RawMessage>
    decreases e.len(),
{
    if e.len() == 0 {
        Seq::empty()
    } else {
        match e.last() {
            RawElement::Event(m) => events_of(e.drop_last()).push(m),
            _ => events_of(e.drop_last()),
        }
    }
}

/// The enums among an interface's children, in document order.
pub open spec fn enums_of(e: Seq<RawElement>) -> Seq<RawEnum>
    decreases e.len(),
{
    if e.len() == 0 {
        Seq::empty()
    } else {
        match e.last() {
            RawElement::Enum(m) => enums_of(e.drop_last()).push(m),
            _ => enums_of(e.drop_last()),
        }
    }
}

pub open spec fn element_compiles(e: RawElement) -> bool {
    match e {
        RawElement::Request(m) => message_compiles(m),
        RawElement::Event(m) => message_compiles(m),
        RawElement::Enum(m) => enum_compiles(m),
    }
}

/// An interface name without the core protocol's `wl_` prefix, which only
/// the core document's names lose.
pub open spec fn strip_core_prefix(s: Seq<char>, core: bool) -> Seq<char> {
    if core && s.len() >= 3 && s[0] == 'w' && s[1] == 'l' && s[2] == '_' {
        s.skip(3)
    } else {
        s
    }
}

pub open spec fn interface_compiles(raw: RawInterface) -> bool {
    &&& version_literal(raw.version@) is Some
    &&& forall|k: int| 0 <= k < raw.elements@.len() ==> element_compiles(#[trigger] raw.elements@[k])
}

pub open spec fn interface_compiled(i: Interface, raw: RawInterface, core: bool) -> bool {
    let reqs = requests_of(raw.elements@);
    let evs = events_of(raw.elements@);
    let ens = enums_of(raw.elements@);
    &&& i.wire_name@ == raw.name@
    &&& i.name@ == pascal(strip_core_prefix(raw.name@, core))
    &&& Some(i.max_version) == version_literal(raw.version@)
    &&& opt_description_from(i.description, raw.description)
    &&& i.requests@.len() == reqs.len()
    &&& forall|k: int| 0 <= k < reqs.len() ==> request_compiled(#[trigger] i.requests@[k], reqs[k])
    &&& i.events@.len() == evs.len()
    &&& forall|k: int| 0 <= k < evs.len() ==> event_compiled(#[trigger] i.events@[k], evs[k])
    &&& i.enums@.len() == ens.len()
    &&& forall|k: int| 0 <= k < ens.len() ==> enum_compiled(#[trigger] i.enums@[k], ens[k])
}

pub open spec fn is_core(raw: RawProtocol) -> bool {
    raw.name@ == "wayland"@
}

pub open spec fn protocol_compiles(raw: RawProtocol) -> bool {
    forall|k: int| 0 <= k < raw.interfaces@.len() ==> interface_compiles(#[trigger] raw.interfaces@[k])
}

pub open spec fn protocol_compiled(p: Protocol, raw: RawProtocol) -> bool {
    &&& p.name@ == (if is_core(raw) {
        "wl"@
    } else {
        raw.name@
    })
    &&& match (p.copyright, raw.copyright) {
        (None, None) => true,
        (Some(c), Some(t)) => c.0@ == trimmed(t@),
        _ => false,
    }
    &&& opt_description_from(p.description, raw.description)
    &&& p.interfaces@.len() == raw.interfaces@.len()
    &&& forall|k: int|
        0 <= k < raw.interfaces@.len() ==> interface_compiled(
            #[trigger] p.interfaces@[k],
            raw.interfaces@[k],
            is_core(raw),
        )
}

/// The identifiers of an interface and of its messages and enums, in
/// order; a message's position is its opcode.
pub open spec fn interface_identifiers(i: Interface) -> (
    Seq<char>,
    Seq<char>,
    Seq<Seq<char>>,
    Seq<Seq<char>>,
    Seq<(Seq<char>, Seq<Seq<char>>)>,
) {
    (
        i.name@,
        i.wire_name@,
        i.requests@.map_values(|q: Request| q.name@),
        i.events@.map_values(|e: Event| e.name@),
        i.enums@.map_values(
            |e: Enum| (e.name@, e.entries@.map_values(|x: Entry| x.name@)),
        ),
    )
}

/// Compiling a document is deterministic: two compilations of the same
/// document assign the same identifiers and the same opcodes.
pub proof fn lemma_compile_deterministic(raw: RawProtocol, a: Protocol, b: Protocol)
    requires
        protocol_compiled(a, raw),
        protocol_compiled(b, raw),
    ensures
        a.name@ == b.name@,
        a.interfaces@.len() == b.interfaces@.len(),
        forall|k: int|
            0 <= k < a.interfaces@.len() ==> interface_identifiers(#[trigger] a.interfaces@[k])
                == interface_identifiers(b.interfaces@[k]),
{
    assert forall|k: int| 0 <= k < a.interfaces@.len() implies interface_identifiers(
        #[trigger] a.interfaces@[k],
    ) == interface_identifiers(b.interfaces@[k]) by {
        let x = a.interfaces@[k];
        let y = b.interfaces@[k];
        let ri = raw.interfaces@[k];
        assert(interface_compiled(x, ri, is_core(raw)));
        assert(interface_compiled(y, ri, is_core(raw)));
        let reqs = requests_of(ri.elements@);
        let evs = events_of(ri.elements@);
        let ens = enums_of(ri.elements@);
        assert(x.requests@.map_values(|q: Request| q.name@) =~= y.requests@.map_values(
            |q: Request| q.name@,
        )) by {
            assert forall|j: int| 0 <= j < x.requests@.len() implies x.requests@[j].name@
                == y.requests@[j].name@ by {
                assert(request_compiled(x.requests@[j], reqs[j]));
                assert(request_compiled(y.requests@[j], reqs[j]));
            }
        }
        assert(x.events@.map_values(|e: Event| e.name@) =~= y.events@.map_values(|e: Event| e.name@))
            by {
            assert forall|j: int| 0 <= j < x.events@.len() implies x.events@[j].name@
                == y.events@[j].name@ by {
                assert(event_compiled(x.events@[j], evs[j]));
                assert(event_compiled(y.events@[j], evs[j]));
            }
        }
        assert(x.enums@.map_values(|e: Enum| (e.name@, e.entries@.map_values(|z: Entry| z.name@)))
            =~= y.enums@.map_values(
            |e: Enum| (e.name@, e.entries@.map_values(|z: Entry| z.name@)),
        )) by {
            assert forall|j: int| 0 <= j < x.enums@.len() implies (
                x.enums@[j].name@,
                x.enums@[j].entries@.map_values(|z: Entry| z.name@),
            ) == (y.enums@[j].name@, y.enums@[j].entries@.map_values(|z: Entry| z.name@)) by {
                let ex = x.enums@[j];
                let ey = y.enums@[j];
                assert(enum_compiled(ex, ens[j]));
                assert(enum_compiled(ey, ens[j]));
                assert(ex.entries@.map_values(|z: Entry| z.name@) =~= ey.entries@.map_values(
                    |z: Entry| z.name@,
                )) by {
                    assert forall|t: int| 0 <= t < ex.entries@.len() implies ex.entries@[t].name@
                        == ey.entries@[t].name@ by {
                        assert(entry_compiled(ex.entries@[t], ens[j].entries@[t]));
                        assert(entry_compiled(ey.entries@[t], ens[j].entries@[t]));
                    }
                }
            }
        }
    }
}

fn copy_text(s: &String) -> (r: String)
    ensures
        r@ == s@,
{
    s.clone()
}

fn copy_opt_text(o: &Option<String>) -> (r: Option<String>)
    ensures
        opt_view(r) == opt_view(*o),
{
    match o {
        Some(s) => Some(s.clone()),
        None => None,
    }
}

fn compile_description(raw: &Option<RawDescription>) -> (r: Option<Description>)
    ensures
        opt_description_from(r, *raw),
{
    match raw {
        None => None,
        Some(d) => {
            let content = match &d.content {
                Some(c) => Some(trim_text(c.as_str())),
                None => None,
            };
            Some(Description { summary: copy_text(&d.summary), content })
        },
    }
}

fn compile_version(s: &String) -> (r: Result<u32, CompileError>)
    ensures
        r matches Err(e) ==> is_document_error(e),
        match r {
            Ok(v) => version_literal(s@) == Some(v),
            Err(e) => version_literal(s@) is None && (e matches CompileError::BadNumber(t) && t@ == s@),
        },
{
    match parse_literal(s.as_str()) {
        Some(v) => {
            if v >= 1 {
                Ok(v)
            } else {
                Err(CompileError::BadNumber(copy_text(s)))
            }
        },
        None => Err(CompileError::BadNumber(copy_text(s))),
    }
}

fn compile_since(o: &Option<String>) -> (r: Result<u32, CompileError>)
    ensures
        r matches Err(e) ==> is_document_error(e),
        match r {
            Ok(v) => since_value(*o) == Some(v),
            Err(_) => since_value(*o) is None,
        },
{
    match o {
        None => Ok(1),
        Some(s) => compile_version(s),
    }
}

fn compile_deprecated(o: &Option<String>) -> (r: Result<Option<u32>, CompileError>)
    ensures
        r matches Err(e) ==> is_document_error(e),
        match r {
            Ok(v) => deprecated_value(*o) == Some(v),
            Err(_) => deprecated_value(*o) is None,
        },
{
    match o {
        None => Ok(None),
        Some(s) => match compile_version(s) {
            Ok(v) => Ok(Some(v)),
            Err(e) => Err(e),
        },
    }
}

/// Classifies an argument's type from its `type`, `interface` and `enum`
/// attributes.
pub fn classify_arg_type(t: &str, iface: &Option<String>, en: &Option<String>) -> (r: Result<
    ArgType,
    CompileError,
>)
    ensures
        r matches Err(e) ==> is_document_error(e),
        r is Ok <==> known_arg_type(t@),
        r matches Ok(at) ==> classified(at, t@, opt_view(*iface), opt_view(*en)),
        r matches Err(e) ==> e matches CompileError::UnknownArgType(s) && s@ == t@,
{
    let is_int = text_eq(t, "int");
    if is_int || text_eq(t, "uint") {
        match en {
            Some(e) => Ok(ArgType::Enum(copy_text(e))),
            None => if is_int {
                Ok(ArgType::Int)
            } else {
                Ok(ArgType::UInt)
            },
        }
    } else if text_eq(t, "fixed") {
        Ok(ArgType::Fixed)
    } else if text_eq(t, "string") {
        Ok(ArgType::String)
    } else if text_eq(t, "object") {
        match iface {
            Some(i) => Ok(ArgType::Object(copy_text(i))),
            None => Ok(ArgType::UInt),
        }
    } else if text_eq(t, "new_id") {
        match iface {
            Some(i) => Ok(ArgType::NewId(copy_text(i))),
            None => Ok(ArgType::UnspecifiedNewId),
        }
    } else if text_eq(t, "array") {
        Ok(ArgType::Array)
    } else if text_eq(t, "fd") {
        Ok(ArgType::Fd)
    } else {
        Err(CompileError::UnknownArgType(t.to_owned()))
    }
}

fn compile_arg(raw: &RawArg) -> (r: Result<Arg, CompileError>)
    ensures
        r matches Err(e) ==> is_document_error(e),
        r is Ok <==> known_arg_type(raw.arg_type@),
        r matches Ok(a) ==> arg_compiled(a, *raw),
{
    let arg_type = match classify_arg_type(raw.arg_type.as_str(), &raw.interface, &raw.enum_ref) {
        Ok(t) => t,
        Err(e) => return Err(e),
    };
    let nullable = match &raw.allow_null {
        Some(s) => text_eq_ignore_ascii_case(s.as_str(), "true"),
        None => false,
    };
    Ok(
        Arg {
            name: copy_text(&raw.name),
            arg_type,
            summary: copy_opt_text(&raw.summary),
            nullable,
            description: compile_description(&raw.description),
        },
    )
}

fn compile_args(raw: &Vec<RawArg>) -> (r: Result<Vec<Arg>, CompileError>)
    ensures
        r matches Err(e) ==> is_document_error(e),
        r is Ok <==> args_compile(raw@),
        r matches Ok(v) ==> args_compiled(v@, raw@),
{
    let mut out: Vec<Arg> = Vec::new();
    let mut i: usize = 0;
    while i < raw.len()
        invariant
            i <= raw@.len(),
            out@.len() == i,
            forall|k: int| 0 <= k < i ==> arg_compiled(#[trigger] out@[k], raw@[k]),
            forall|k: int| 0 <= k < i ==> known_arg_type(#[trigger] raw@[k].arg_type@),
        decreases raw@.len() - i,
    {
        match compile_arg(&raw[i]) {
            Ok(a) => out.push(a),
            Err(e) => return Err(e),
        }
        i = i + 1;
    }
    Ok(out)
}

fn compile_request(raw: &RawMessage) -> (r: Result<Request, CompileError>)
    ensures
        r matches Err(e) ==> is_document_error(e),
        r is Ok <==> message_compiles(*raw),
        r matches Ok(q) ==> request_compiled(q, *raw),
{
    let since = match compile_since(&raw.since) {
        Ok(v) => v,
        Err(e) => return Err(e),
    };
    let deprecated_since = match compile_deprecated(&raw.deprecated_since) {
        Ok(v) => v,
        Err(e) => return Err(e),
    };
    let args = match compile_args(&raw.args) {
        Ok(v) => v,
        Err(e) => return Err(e),
    };
    let kind = match &raw.kind {
        Some(k) => if text_eq(k.as_str(), "destructor") {
            RequestType::Destructor
        } else {
            RequestType::Default
        },
        None => RequestType::Default,
    };
    Ok(
        Request {
            name: copy_text(&raw.name),
            kind,
            since,
            deprecated_since,
            description: compile_description(&raw.description),
            args,
        },
    )
}

fn compile_event(raw: &RawMessage) -> (r: Result<Event, CompileError>)
    ensures
        r matches Err(e) ==> is_document_error(e),
        r is Ok <==> message_compiles(*raw),
        r matches Ok(q) ==> event_compiled(q, *raw),
{
    let since = match compile_since(&raw.since) {
        Ok(v) => v,
        Err(e) => return Err(e),
    };
    let deprecated_since = match compile_deprecated(&raw.deprecated_since) {
        Ok(v) => v,
        Err(e) => return Err(e),
    };
    let args = match compile_args(&raw.args) {
        Ok(v) => v,
        Err(e) => return Err(e),
    };
    let kind = match &raw.kind {
        Some(k) => if text_eq(k.as_str(), "destructor") {
            EventType::Destructor
        } else {
            EventType::Default
        },
        None => EventType::Default,
    };
    Ok(
        Event {
            name: pascal_case(raw.name.as_str()),
            kind,
            since,
            deprecated_since,
            description: compile_description(&raw.description),
            args,
        },
    )
}

/// The identifier of an enum entry, given whether the Pascal-case form of
/// its name is a legal identifier.
pub fn entry_type_name(name: &str, pascal_is_ident: bool) -> (r: String)
    ensures
        r@ == entry_ident(name@, pascal_is_ident),
{
    let p = pascal_case(name);
    if pascal_is_ident {
        p
    } else {
        let mut r = String::new();
        push_char(&mut r, '_');
        r.append(p.as_str());
        r
    }
}

/// Compiles one enum entry. A name that starts with a digit is no
/// identifier, so its identifier starts with `_`.
pub fn compile_entry(raw: &RawEntry) -> (r: Result<Entry, CompileError>)
    ensures
        r matches Err(e) ==> is_document_error(e),
        r is Ok <==> entry_compiles(*raw),
        r matches Ok(e) ==> entry_compiled(e, *raw),
        raw.name@.len() > 0 && is_ascii_digit(raw.name@[0]) ==> (r matches Ok(e) ==> e.name@.len()
            > 0 && e.name@[0] == '_'),
{
    let value = match parse_literal(raw.value.as_str()) {
        Some(v) => v,
        None => return Err(CompileError::BadNumber(copy_text(&raw.value))),
    };
    let since = match compile_since(&raw.since) {
        Ok(v) => v,
        Err(e) => return Err(e),
    };
    let deprecated_since = match compile_deprecated(&raw.deprecated_since) {
        Ok(v) => v,
        Err(e) => return Err(e),
    };
    let pascal_form = pascal_case(raw.name.as_str());
    let name_is_ident = is_identifier(pascal_form.as_str());
    proof {
        if raw.name@.len() > 0 && is_ascii_digit(raw.name@[0]) {
            crate::text::lemma_pascal_first(raw.name@);
        }
    }
    Ok(
        Entry {
            name: entry_type_name(raw.name.as_str(), name_is_ident),
            value,
            summary: copy_opt_text(&raw.summary),
            since,
            deprecated_since,
            description: compile_description(&raw.description),
        },
    )
}

fn compile_enum(raw: &RawEnum) -> (r: Result<Enum, CompileError>)
    ensures
        r matches Err(e) ==> is_document_error(e),
        r is Ok <==> enum_compiles(*raw),
        r matches Ok(e) ==> enum_compiled(e, *raw),
{
    let since = match compile_since(&raw.since) {
        Ok(v) => v,
        Err(e) => return Err(e),
    };
    let mut entries: Vec<Entry> = Vec::new();
    let mut i: usize = 0;
    while i < raw.entries.len()
        invariant
            i <= raw.entries@.len(),
            entries@.len() == i,
            forall|k: int| 0 <= k < i ==> entry_compiled(#[trigger] entries@[k], raw.entries@[k]),
            forall|k: int| 0 <= k < i ==> entry_compiles(#[trigger] raw.entries@[k]),
        decreases raw.entries@.len() - i,
    {
        match compile_entry(&raw.entries[i]) {
            Ok(e) => entries.push(e),
            Err(e) => return Err(e),
        }
        i = i + 1;
    }
    let is_bitfield = match &raw.bitfield {
        Some(b) => text_eq(b.as_str(), "true"),
        None => false,
    };
    Ok(
        Enum {
            name: pascal_case(raw.name.as_str()),
            since,
            is_bitfield,
            description: compile_description(&raw.description),
            entries,
        },
    )
}

fn interface_type_name(name: &str, core: bool) -> (r: String)
    ensures
        r@ == pascal(strip_core_prefix(name@, core)),
{
    let n = name.unicode_len();
    if core && n >= 3 && name.get_char(0) == 'w' && name.get_char(1) == 'l' && name.get_char(2)
        == '_' {
        pascal_case(name.substring_char(3, n))
    } else {
        pascal_case(name)
    }
}

/// Compiles one interface; `core` tells whether it belongs to the core
/// protocol, whose prefix its type name loses.
pub fn compile_interface(raw: &RawInterface, core: bool) -> (r: Result<Interface, CompileError>)
    ensures
        r matches Err(e) ==> is_document_error(e),
        r is Ok <==> interface_compiles(*raw),
        r matches Ok(i) ==> interface_compiled(i, *raw, core),
{
    let max_version = match compile_version(&raw.version) {
        Ok(v) => v,
        Err(e) => return Err(e),
    };
    let mut requests: Vec<Request> = Vec::new();
    let mut events: Vec<Event> = Vec::new();
    let mut enums: Vec<Enum> = Vec::new();
    let mut i: usize = 0;
    while i < raw.elements.len()
        invariant
            i <= raw.elements@.len(),
            requests@.len() == requests_of(raw.elements@.take(i as int)).len(),
            forall|k: int|
                0 <= k < requests@.len() ==> request_compiled(
                    #[trigger] requests@[k],
                    requests_of(raw.elements@.take(i as int))[k],
                ),
            events@.len() == events_of(raw.elements@.take(i as int)).len(),
            forall|k: int|
                0 <= k < events@.len() ==> event_compiled(
                    #[trigger] events@[k],
                    events_of(raw.elements@.take(i as int))[k],
                ),
            enums@.len() == enums_of(raw.elements@.take(i as int)).len(),
            forall|k: int|
                0 <= k < enums@.len() ==> enum_compiled(
                    #[trigger] enums@[k],
                    enums_of(raw.elements@.take(i as int))[k],
                ),
            forall|k: int| 0 <= k < i ==> element_compiles(#[trigger] raw.elements@[k]),
        decreases raw.elements@.len() - i,
    {
        let ghost before = raw.elements@.take(i as int);
        let ghost after = raw.elements@.take(i + 1);
        assert(after.drop_last() =~= before);
        assert(after.last() == raw.elements@[i as int]);
        match &raw.elements[i] {
            RawElement::Request(m) => match compile_request(m) {
                Ok(q) => requests.push(q),
                Err(e) => return Err(e),
            },
            RawElement::Event(m) => match compile_event(m) {
                Ok(q) => events.push(q),
                Err(e) => return Err(e),
            },
            RawElement::Enum(m) => match compile_enum(m) {
                Ok(q) => enums.push(q),
                Err(e) => return Err(e),
            },
        }
        i = i + 1;
    }
    assert(raw.elements@.take(raw.elements@.len() as int) =~= raw.elements@);
    Ok(
        Interface {
            name: interface_type_name(raw.name.as_str(), core),
            wire_name: copy_text(&raw.name),
            max_version,
            description: compile_description(&raw.description),
            requests,
            events,
            enums,
        },
    )
}

/// Compiles one description document on its own.
pub fn compile_protocol(raw: &RawProtocol) -> (r: Result<Protocol, CompileError>)
    ensures
        r matches Err(e) ==> is_document_error(e),
        r is Ok <==> protocol_compiles(*raw),
        r matches Ok(p) ==> protocol_compiled(p, *raw),
{
    let core = text_eq(raw.name.as_str(), "wayland");
    let mut interfaces: Vec<Interface> = Vec::new();
    let mut i: usize = 0;
    while i < raw.interfaces.len()
        invariant
            core == is_core(*raw),
            i <= raw.interfaces@.len(),
            interfaces@.len() == i,
            forall|k: int|
                0 <= k < i ==> interface_compiled(
                    #[trigger] interfaces@[k],
                    raw.interfaces@[k],
                    core,
                ),
            forall|k: int| 0 <= k < i ==> interface_compiles(#[trigger] raw.interfaces@[k]),
        decreases raw.interfaces@.len() - i,
    {
        match compile_interface(&raw.interfaces[i], core) {
            Ok(x) => interfaces.push(x),
            Err(e) => return Err(e),
        }
        i = i + 1;
    }
    let name = if core {
        String::from_str("wl")
    } else {
        copy_text(&raw.name)
    };
    let copyright = match &raw.copyright {
        Some(c) => Some(Copyright(trim_text(c.as_str()))),
        None => None,
    };
    Ok(
        Protocol {
            name,
            copyright,
            description: compile_description(&raw.description),
            interfaces,
        },
    )
}

} // verus!
