//! The connection engine: frames requests into the outbound buffer, frames
//! and decodes events from the inbound buffer, and drives the registry
//! through the two-phase destruction of ids. The transport itself is the
//! caller's: it writes out what this engine queued and hands in what it
//! read.
use vstd::prelude::*;
use crate::catalog::Catalog;
use crate::codec::{
    decode_body, decode_header, decode_message, encode_message, encode_value, encode_values, fits,
    frame_fits, has_type, header_of, message_bytes, values_fds, values_view, well_typed, ArgValue,
    DecodeError, EncodeError, WireValue,
};
use crate::registry::{
    delete_model, is_live, lookup_model, ObjectInfo, ObjectRegistry, ObjectState, RegistryError,
    DISPLAY_ID,
};
use crate::schema::{Arg, ArgType, EventType, Interface, RequestType};

verus! {

/// Why the connection cannot go on with a call.
#[derive(Debug, PartialEq, Eq)]
pub enum ConnectionError {
    /// The catalog has no display interface.
    NoDisplayInterface,
    /// The registry refused the id.
    Registry(RegistryError),
    /// An object's interface is not in the catalog given.
    UnknownInterface,
    /// The opcode is beyond the interface's messages.
    BadOpcode,
    /// The message is newer than the version the object is bound at.
    VersionTooLow,
    /// A new id whose interface is unknown or whose version is out of range,
    /// or more than one new id in one request.
    BadNewId,
    Encode(EncodeError),
    Decode(DecodeError),
    /// The server reported an error on an object: the object, the error
    /// code and the message.
    Display { object_id: u32, code: u32, message: Vec<u8> },
}

/// A decoded event of an application object.
#[derive(Debug, PartialEq, Eq)]
pub struct Message {
    pub object_id: u32,
    /// The object's interface, as an index into the catalog.
    pub interface: usize,
    pub opcode: u16,
    pub args: Vec<ArgValue>,
}

/// An application's typed form of the events of its interfaces, read from
/// decoded messages.
pub trait Event: Sized {
    /// The typed event, or `None` where the message is no event of this kind.
    fn from_message(m: &Message) -> Option<Self>;
}

/// What one step of the inbound side did.
#[derive(Debug, PartialEq, Eq)]
pub enum Dispatched {
    /// No whole message (bytes and descriptors) has arrived yet.
    NotReady,
    /// The display acknowledged the deletion of an id, which is now free.
    DeleteId(u32),
    /// An event for the application.
    Event(Message),
}

/// The argument types of a message, in order.
pub open spec fn sig_of(args: Seq<Arg>) -> Seq<ArgType> {
    args.map_values(|a: Arg| a.arg_type)
}

/// The arguments as sent: the new id, if there is one, takes the place of
/// whatever id the caller put in the new-id argument.
pub open spec fn with_new_id(vs: Seq<WireValue>, id: u32) -> Seq<WireValue> {
    vs.map_values(
        |v: WireValue|
            match v {
                WireValue::NewId(_) => WireValue::NewId(id),
                WireValue::UnspecifiedNewId(n, ver, _) => WireValue::UnspecifiedNewId(n, ver, id),
                _ => v,
            },
    )
}

pub open spec fn is_new_id(v: WireValue) -> bool {
    v is NewId || v is UnspecifiedNewId
}


/// Whether a request may be sent: the object is active, its interface is
/// in the catalog, the opcode names one of its requests, and the request
/// exists at the object's version.
pub open spec fn request_valid(
    m: crate::registry::RegistryModel,
    cat: Seq<Interface>,
    object_id: u32,
    opcode: u16,
) -> bool {
    &&& m.objects.contains_key(object_id)
    &&& m.objects[object_id].state == ObjectState::Active
    &&& m.objects[object_id].interface < cat.len()
    &&& opcode < cat[m.objects[object_id].interface as int].requests@.len()
    &&& cat[m.objects[object_id].interface as int].requests@[opcode as int].since
        <= m.objects[object_id].version
}

pub open spec fn request_of(
    m: crate::registry::RegistryModel,
    cat: Seq<Interface>,
    object_id: u32,
    opcode: u16,
) -> crate::schema::Request {
    cat[m.objects[object_id].interface as int].requests@[opcode as int]
}

/// A request that creates no object and that the codec can carry.
pub open spec fn plain_request_ok(
    m: crate::registry::RegistryModel,
    cat: Seq<Interface>,
    object_id: u32,
    opcode: u16,
    args: Seq<ArgValue>,
) -> bool {
    &&& request_valid(m, cat, object_id, opcode)
    &&& well_typed(sig_of(request_of(m, cat, object_id, opcode).args@), values_view(args))
    &&& 8 + encode_values(values_view(args)).len() <= 0xffff
    &&& forall|k: int| 0 <= k < args.len() ==> !is_new_id(#[trigger] args[k]@)
}


/// How many descriptors a message of this signature carries.
pub open spec fn fd_count(sig: Seq<ArgType>) -> int
    decreases sig.len(),
{
    if sig.len() == 0 {
        0
    } else {
        fd_count(sig.drop_last()) + if sig.last() is Fd {
            1int
        } else {
            0int
        }
    }
}

pub open spec fn event_of(
    m: crate::registry::RegistryModel,
    cat: Seq<Interface>,
    object_id: u32,
    opcode: u16,
) -> crate::schema::Event {
    cat[m.objects[object_id].interface as int].events@[opcode as int]
}

fn count_fds(sig: &Vec<ArgType>) -> (r: usize)
    ensures
        r == fd_count(sig@),
{
    let mut n: usize = 0;
    let mut i: usize = 0;
    while i < sig.len()
        invariant
            i <= sig@.len(),
            n == fd_count(sig@.take(i as int)),
            n <= i,
        decreases sig@.len() - i,
    {
        assert(sig@.take(i + 1).drop_last() =~= sig@.take(i as int));
        if let ArgType::Fd = &sig[i] {
            n = n + 1;
        }
        i = i + 1;
    }
    assert(sig@.take(sig@.len() as int) =~= sig@);
    n
}


/// A request that creates one object of an interface that its signature
/// names, where the catalog resolves and a client id is left.
pub open spec fn typed_new_id_request_ok(
    m: crate::registry::RegistryModel,
    cat: Seq<Interface>,
    object_id: u32,
    opcode: u16,
    args: Seq<ArgValue>,
) -> bool {
    &&& request_valid(m, cat, object_id, opcode)
    &&& well_typed(sig_of(request_of(m, cat, object_id, opcode).args@), values_view(args))
    &&& 8 + encode_values(values_view(args)).len() <= 0xffff
    &&& exists|j: int|
        0 <= j < args.len() && (#[trigger] args[j]@) is NewId && forall|k: int|
            0 <= k < args.len() && k != j ==> !is_new_id(#[trigger] args[k]@)
    &&& crate::catalog::catalog_resolves(cat)
    &&& (m.free.len() > 0 || m.next_id < crate::registry::SERVER_ID_START)
}

proof fn lemma_with_new_id_keeps_shape(sig: Seq<ArgType>, vs: Seq<WireValue>, id: u32)
    requires
        well_typed(sig, vs),
    ensures
        well_typed(sig, with_new_id(vs, id)),
        encode_values(with_new_id(vs, id)).len() == encode_values(vs).len(),
    decreases vs.len(),
{
    let ws = with_new_id(vs, id);
    assert forall|k: int| 0 <= k < ws.len() implies has_type(sig[k], #[trigger] ws[k]) && fits(ws[k]) by {
        assert(has_type(sig[k], vs[k]) && fits(vs[k]));
    }
    if vs.len() > 0 {
        let s2 = sig.drop_first();
        let v2 = vs.drop_first();
        assert forall|k: int| 0 <= k < v2.len() implies has_type(s2[k], #[trigger] v2[k]) && fits(v2[k]) by {
            assert(has_type(sig[k + 1], vs[k + 1]) && fits(vs[k + 1]));
        }
        lemma_with_new_id_keeps_shape(s2, v2, id);
        assert(ws.drop_first() =~= with_new_id(v2, id));
        assert(encode_value(ws[0]).len() == encode_value(vs[0]).len());
    }
}

fn copy_arg_type(t: &ArgType) -> (r: ArgType)
    ensures
        r == *t,
{
    match t {
        ArgType::Int => ArgType::Int,
        ArgType::UInt => ArgType::UInt,
        ArgType::Enum(s) => ArgType::Enum(s.clone()),
        ArgType::Fixed => ArgType::Fixed,
        ArgType::String => ArgType::String,
        ArgType::Object(s) => ArgType::Object(s.clone()),
        ArgType::NewId(s) => ArgType::NewId(s.clone()),
        ArgType::UnspecifiedNewId => ArgType::UnspecifiedNewId,
        ArgType::Array => ArgType::Array,
        ArgType::Fd => ArgType::Fd,
    }
}

/// The argument types of a message, in order.
pub fn signature(args: &Vec<Arg>) -> (r: Vec<ArgType>)
    ensures
        r@ == sig_of(args@),
{
    let mut out: Vec<ArgType> = Vec::new();
    let mut i: usize = 0;
    while i < args.len()
        invariant
            i <= args@.len(),
            out@ == sig_of(args@).take(i as int),
        decreases args@.len() - i,
    {
        out.push(copy_arg_type(&args[i].arg_type));
        assert(sig_of(args@).take(i + 1) =~= sig_of(args@).take(i as int).push(args@[i as int].arg_type));
        i = i + 1;
    }
    assert(sig_of(args@).take(args@.len() as int) =~= sig_of(args@));
    out
}

/// Whether some bytes spell a text, one character per byte.
pub open spec fn bytes_spell(b: Seq<u8>, s: Seq<char>) -> bool {
    b.len() == s.len() && forall|k: int| 0 <= k < b.len() ==> (b[k] as char) == s[k]
}

fn bytes_match(b: &Vec<u8>, s: &str) -> (r: bool)
    ensures
        r == bytes_spell(b@, s@),
{
    let n = b.len();
    if n != s.unicode_len() {
        return false;
    }
    let mut i: usize = 0;
    while i < n
        invariant
            n == b@.len(),
            n == s@.len(),
            i <= n,
            forall|k: int| 0 <= k < i ==> (b@[k] as char) == s@[k],
        decreases n - i,
    {
        if (b[i] as char) != s.get_char(i) {
            return false;
        }
        i = i + 1;
    }
    true
}

fn find_interface_by_bytes(catalog: &Catalog, name: &Vec<u8>) -> (r: Option<usize>)
    ensures
        match r {
            Some(k) => k < catalog.interfaces@.len() && bytes_spell(name@, catalog.interfaces@[k as int].wire_name@),
            None => forall|k: int| 0 <= k < catalog.interfaces@.len() ==> !bytes_spell(name@, #[trigger] catalog.interfaces@[k].wire_name@),
        },
{
    let mut k: usize = 0;
    while k < catalog.interfaces.len()
        invariant
            k <= catalog.interfaces@.len(),
            forall|j: int| 0 <= j < k ==> !bytes_spell(name@, #[trigger] catalog.interfaces@[j].wire_name@),
        decreases catalog.interfaces@.len() - k,
    {
        if bytes_match(name, catalog.interfaces[k].wire_name.as_str()) {
            return Some(k);
        }
        k = k + 1;
    }
    None
}

fn count_new_ids(args: &Vec<ArgValue>) -> (r: (usize, usize))
    ensures
        r.0 <= args@.len(),
        r.1 < args@.len() ==> is_new_id(args@[r.1 as int]@),
        r.1 >= args@.len() ==> forall|k: int| 0 <= k < args@.len() ==> !is_new_id(#[trigger] args@[k]@),
        r.0 == 0 <==> r.1 >= args@.len(),
        r.0 <= 1 ==> forall|k: int| 0 <= k < args@.len() && k != r.1 ==> !is_new_id(#[trigger] args@[k]@),
        r.0 > 1 ==> exists|k: int| 0 <= k < args@.len() && k != r.1 && is_new_id(#[trigger] args@[k]@),
{
    let mut count: usize = 0;
    let mut first: usize = args.len();
    let mut i: usize = 0;
    while i < args.len()
        invariant
            i <= args@.len(),
            count <= i,
            first == args@.len() <==> count == 0,
            first < args@.len() ==> is_new_id(args@[first as int]@) && first < i,
            first >= args@.len() ==> first == args@.len() && forall|k: int| 0 <= k < i ==> !is_new_id(#[trigger] args@[k]@),
            count <= 1 ==> forall|k: int| 0 <= k < i && k != first ==> !is_new_id(#[trigger] args@[k]@),
            count > 1 ==> exists|k: int| 0 <= k < i && k != first && is_new_id(#[trigger] args@[k]@),
        decreases args@.len() - i,
    {
        let n = match &args[i] {
            ArgValue::NewId(_) | ArgValue::UnspecifiedNewId { .. } => true,
            _ => false,
        };
        assert(n == is_new_id(args@[i as int]@));
        if n {
            if count == 0 {
                first = i;
            }
            count = count + 1;
        }
        i = i + 1;
    }
    (count, first)
}

fn set_new_id(v: &mut ArgValue, id: u32)
    ensures
        final(v)@ == (match old(v)@ {
            WireValue::NewId(_) => WireValue::NewId(id),
            WireValue::UnspecifiedNewId(n, ver, _) => WireValue::UnspecifiedNewId(n, ver, id),
            other => other,
        }),
{
    match v {
        ArgValue::NewId(x) => {
            *x = id;
        },
        ArgValue::UnspecifiedNewId { id: x, .. } => {
            *x = id;
        },
        _ => {},
    }
}


/// What one step of the inbound side gives, as a mathematical value.
pub enum Outcome {
    NotReady,
    DeleteId(u32),
    /// An event: the object, its interface, the opcode and the arguments.
    Event(u32, usize, u16, Seq<WireValue>),
    Registry(RegistryError),
    UnknownInterface,
    BadOpcode,
    VersionTooLow,
    Decode(DecodeError),
    /// The display's error event: object, code and message.
    Display(u32, u32, Seq<u8>),
    /// An error that the inbound side never gives.
    Other,
}

/// The registry, the undelivered bytes and the undelivered descriptors.
pub type InboundState = (crate::registry::RegistryModel, Seq<u8>, Seq<i32>);

pub open spec fn error_outcome(e: ConnectionError) -> Outcome {
    match e {
        ConnectionError::Registry(r) => Outcome::Registry(r),
        ConnectionError::UnknownInterface => Outcome::UnknownInterface,
        ConnectionError::BadOpcode => Outcome::BadOpcode,
        ConnectionError::VersionTooLow => Outcome::VersionTooLow,
        ConnectionError::Decode(d) => Outcome::Decode(d),
        ConnectionError::Display { object_id, code, message } => Outcome::Display(
            object_id,
            code,
            message@,
        ),
        _ => Outcome::Other,
    }
}

pub open spec fn dispatch_outcome(r: Result<Dispatched, ConnectionError>) -> Outcome {
    match r {
        Ok(Dispatched::NotReady) => Outcome::NotReady,
        Ok(Dispatched::DeleteId(id)) => Outcome::DeleteId(id),
        Ok(Dispatched::Event(m)) => Outcome::Event(m.object_id, m.interface, m.opcode, values_view(m.args@)),
        Err(e) => error_outcome(e),
    }
}

pub open spec fn poll_outcome(r: Result<Option<Message>, ConnectionError>) -> Outcome {
    match r {
        Ok(None) => Outcome::NotReady,
        Ok(Some(m)) => Outcome::Event(m.object_id, m.interface, m.opcode, values_view(m.args@)),
        Err(e) => error_outcome(e),
    }
}

/// The catalog index of the interface that the wire calls `name`.
pub open spec fn interface_index(cat: Seq<Interface>, name: Seq<char>) -> usize {
    (choose|k: int| 0 <= k < cat.len() && #[trigger] cat[k].wire_name@ == name) as usize
}

/// Binds the ids that the server created in an event's new-id arguments,
/// from the `i`-th argument on: the registry afterwards, and the error that
/// stopped it, if one did.
pub open spec fn bind_new_ids(
    m: crate::registry::RegistryModel,
    cat: Seq<Interface>,
    sig: Seq<ArgType>,
    vs: Seq<WireValue>,
    version: u32,
    i: int,
) -> (crate::registry::RegistryModel, Option<Outcome>)
    decreases sig.len() - i,
{
    if i < 0 || i >= sig.len() || i >= vs.len() {
        (m, None)
    } else {
        match (sig[i], vs[i]) {
            (ArgType::NewId(name), WireValue::NewId(id)) => if !crate::catalog::has_interface(
                cat,
                name@,
            ) {
                (m, Some(Outcome::UnknownInterface))
            } else {
                let (m2, res) = crate::registry::server_bind_model(
                    m,
                    id,
                    interface_index(cat, name@),
                    version,
                );
                match res {
                    Ok(_) => bind_new_ids(m2, cat, sig, vs, version, i + 1),
                    Err(e) => (m2, Some(Outcome::Registry(e))),
                }
            },
            _ => bind_new_ids(m, cat, sig, vs, version, i + 1),
        }
    }
}

/// What the display's error event carries, if its arguments have the
/// expected shape.
pub open spec fn display_error(vs: Seq<WireValue>) -> Outcome {
    if vs.len() == 3 && vs[1] is UInt && vs[2] is Str && vs[2]->Str_0 is Some && (vs[0] is Object
        || vs[0] is UInt) {
        Outcome::Display(
            if vs[0] is Object {
                vs[0]->Object_0
            } else {
                vs[0]->UInt_0
            },
            vs[1]->UInt_0,
            vs[2]->Str_0.unwrap(),
        )
    } else {
        Outcome::Decode(DecodeError::BadString)
    }
}

/// One step of the inbound side on a state: whether a whole message has
/// arrived, whether its object, opcode, version, descriptors and length
/// hold, what it decodes to, and what handling it does to the registry.
/// The display's `delete_id` frees an id and its `error` is reported; any
/// other event binds the ids it creates and, for a destructor, starts its
/// sender's destruction.
pub open spec fn step(st: InboundState, cat: Seq<Interface>) -> (InboundState, Outcome) {
    let (reg, b, fq) = st;
    if b.len() < 8 {
        (st, Outcome::NotReady)
    } else {
        let h = header_of(b);
        if h.size < 8 {
            (st, Outcome::Decode(DecodeError::BadFrame))
        } else if h.size > b.len() {
            (st, Outcome::NotReady)
        } else {
            match lookup_model(reg, h.object_id) {
                Err(e) => (st, Outcome::Registry(e)),
                Ok(info) => if info.interface >= cat.len() {
                    (st, Outcome::UnknownInterface)
                } else if h.opcode >= cat[info.interface as int].events@.len() {
                    (st, Outcome::BadOpcode)
                } else {
                    let ev = cat[info.interface as int].events@[h.opcode as int];
                    let sig = sig_of(ev.args@);
                    if ev.since > info.version {
                        (st, Outcome::VersionTooLow)
                    } else if fd_count(sig) > fq.len() {
                        (st, Outcome::NotReady)
                    } else if !frame_fits(h.size as int, sig) {
                        (st, Outcome::Decode(DecodeError::BadFrame))
                    } else {
                        match decode_body(b.subrange(8, h.size as int), sig, fq) {
                            Err(e) => (st, Outcome::Decode(e)),
                            Ok((vs, used)) => {
                                let b2 = b.skip(h.size as int);
                                let f2 = fq.skip(used);
                                if h.object_id == DISPLAY_ID && h.opcode == 0 {
                                    ((reg, b2, f2), display_error(vs))
                                } else if h.object_id == DISPLAY_ID && h.opcode == 1 {
                                    if vs.len() == 1 && vs[0] is UInt {
                                        let (r2, res) = delete_model(reg, vs[0]->UInt_0);
                                        match res {
                                            Ok(_) => ((r2, b2, f2), Outcome::DeleteId(vs[0]->UInt_0)),
                                            Err(e) => ((r2, b2, f2), Outcome::Registry(e)),
                                        }
                                    } else {
                                        ((reg, b2, f2), Outcome::Decode(DecodeError::BadString))
                                    }
                                } else {
                                    let (r2, stop) = bind_new_ids(reg, cat, sig, vs, info.version, 0);
                                    match stop {
                                        Some(o) => ((r2, b2, f2), o),
                                        None => {
                                            let r3 = if ev.kind == EventType::Destructor {
                                                crate::registry::destroy_model(r2, h.object_id).0
                                            } else {
                                                r2
                                            };
                                            (
                                                (r3, b2, f2),
                                                Outcome::Event(h.object_id, info.interface, h.opcode, vs),
                                            )
                                        },
                                    }
                                }
                            },
                        }
                    }
                },
            }
        }
    }
}

/// A run of steps, each of which handled a display `delete_id`.
pub open spec fn delete_steps(s: Seq<InboundState>, cat: Seq<Interface>) -> bool {
    &&& s.len() >= 1
    &&& forall|i: int|
        0 <= i < s.len() - 1 ==> (#[trigger] step(s[i], cat)).0 == s[i + 1] && step(s[i], cat).1 is DeleteId
}


/// A whole message addressed to an id that was never bound, or that has
/// been freed, is refused and leaves the state as it was.
pub proof fn lemma_dead_target_refused(st: InboundState, cat: Seq<Interface>)
    requires
        st.1.len() >= 8,
        8 <= header_of(st.1).size <= st.1.len(),
        !is_live(st.0, header_of(st.1).object_id),
    ensures
        step(st, cat) == (st, Outcome::Registry(lookup_model(st.0, header_of(st.1).object_id)->Err_0)),
        lookup_model(st.0, header_of(st.1).object_id) is Err,
{
}

/// A whole message whose declared length cannot be that of its signature
/// is refused before any argument is decoded, and leaves the registry,
/// the bytes and the descriptors as they were.
pub proof fn lemma_bad_frame_refused(st: InboundState, cat: Seq<Interface>)
    requires
        st.1.len() >= 8,
        8 <= header_of(st.1).size <= st.1.len(),
        lookup_model(st.0, header_of(st.1).object_id) matches Ok(info) && info.interface < cat.len()
            && header_of(st.1).opcode < cat[info.interface as int].events@.len() && ({
            let ev = cat[info.interface as int].events@[header_of(st.1).opcode as int];
            &&& ev.since <= info.version
            &&& fd_count(sig_of(ev.args@)) <= st.2.len()
            &&& !frame_fits(header_of(st.1).size as int, sig_of(ev.args@))
        }),
    ensures
        step(st, cat) == (st, Outcome::Decode(DecodeError::BadFrame)),
{
}

/// The display's `delete_id` for an id whose destruction was requested
/// frees the id: it is not handed out as an event, and the registry moves
/// as the delete-id transition says.
pub proof fn lemma_delete_id_frees(st: InboundState, cat: Seq<Interface>, id: u32)
    requires
        st.1.len() >= 8,
        header_of(st.1).object_id == DISPLAY_ID,
        header_of(st.1).opcode == 1,
        8 <= header_of(st.1).size <= st.1.len(),
        is_live(st.0, DISPLAY_ID),
        st.0.objects[DISPLAY_ID].interface < cat.len(),
        ({
            let ev = cat[st.0.objects[DISPLAY_ID].interface as int].events@[1];
            &&& 1 < cat[st.0.objects[DISPLAY_ID].interface as int].events@.len()
            &&& ev.since <= st.0.objects[DISPLAY_ID].version
            &&& fd_count(sig_of(ev.args@)) <= st.2.len()
            &&& frame_fits(header_of(st.1).size as int, sig_of(ev.args@))
            &&& decode_body(st.1.subrange(8, header_of(st.1).size as int), sig_of(ev.args@), st.2)
                matches Ok((vs, _)) && vs == seq![WireValue::UInt(id)]
        }),
        st.0.objects.contains_key(id),
        st.0.objects[id].state == ObjectState::PendingDestroy,
    ensures
        step(st, cat).1 == Outcome::DeleteId(id),
        step(st, cat).0.0 == delete_model(st.0, id).0,
        step(st, cat).0.0.objects[id].state == ObjectState::Freed,
{
}

/// The display's `error` event is reported as an error that carries its
/// object, code and message; it is never handed out as an event.
pub proof fn lemma_display_error_reported(st: InboundState, cat: Seq<Interface>, object_id: u32, code: u32, message: Seq<u8>)
    requires
        st.1.len() >= 8,
        header_of(st.1).object_id == DISPLAY_ID,
        header_of(st.1).opcode == 0,
        8 <= header_of(st.1).size <= st.1.len(),
        is_live(st.0, DISPLAY_ID),
        st.0.objects[DISPLAY_ID].interface < cat.len(),
        ({
            let ev = cat[st.0.objects[DISPLAY_ID].interface as int].events@[0];
            &&& 0 < cat[st.0.objects[DISPLAY_ID].interface as int].events@.len()
            &&& ev.since <= st.0.objects[DISPLAY_ID].version
            &&& fd_count(sig_of(ev.args@)) <= st.2.len()
            &&& frame_fits(header_of(st.1).size as int, sig_of(ev.args@))
            &&& decode_body(st.1.subrange(8, header_of(st.1).size as int), sig_of(ev.args@), st.2)
                matches Ok((vs, _)) && vs == seq![
                WireValue::UInt(object_id),
                WireValue::UInt(code),
                WireValue::Str(Some(message)),
            ]
        }),
    ensures
        step(st, cat).1 == Outcome::Display(object_id, code, message),
        step(st, cat).0.0 == st.0,
{
}

proof fn lemma_delete_step_consumes(st: InboundState, cat: Seq<Interface>)
    requires
        step(st, cat).1 is DeleteId,
    ensures
        step(st, cat).0.1.len() < st.1.len(),
{
}

/// One client connection's protocol state.
pub struct Connection {
    registry: ObjectRegistry,
    inbound: Vec<u8>,
    inbound_fds: Vec<i32>,
    outbound: Vec<u8>,
    outbound_fds: Vec<i32>,
    last_error: Option<crate::events::ErrorEvent>,
}

impl Connection {
    pub closed spec fn registry_model(&self) -> crate::registry::RegistryModel {
        self.registry@
    }

    pub closed spec fn inbound_bytes(&self) -> Seq<u8> {
        self.inbound@
    }

    pub closed spec fn inbound_fd_queue(&self) -> Seq<i32> {
        self.inbound_fds@
    }

    pub closed spec fn outbound_bytes(&self) -> Seq<u8> {
        self.outbound@
    }

    /// The error that the display reported, if it reported one.
    pub closed spec fn recorded_error(&self) -> Option<crate::events::ErrorEvent> {
        self.last_error
    }

    pub closed spec fn outbound_fd_queue(&self) -> Seq<i32> {
        self.outbound_fds@
    }

    /// The registry's invariant: live ids are unique, the reuse pool holds
    /// each freed client id once and nothing else.
    pub open spec fn wf(&self) -> bool {
        crate::registry::model_wf(self.registry_model())
    }

    /// The state that the inbound side works on: the registry, the
    /// undelivered bytes and the undelivered descriptors.
    pub open spec fn inbound_state(&self) -> InboundState {
        (self.registry_model(), self.inbound_bytes(), self.inbound_fd_queue())
    }

    /// A fresh connection: the display object holds id 1, nothing is
    /// buffered.
    pub fn new(catalog: &Catalog) -> (r: Result<Connection, ConnectionError>)
        ensures
            match r {
                Ok(c) => {
                    &&& c.wf()
                    &&& exists|d: int|
                        0 <= d < catalog.interfaces@.len() && #[trigger] catalog.interfaces@[d].wire_name@
                            == "wl_display"@ && c.registry_model().objects == Map::<u32, ObjectInfo>::empty().insert(
                            DISPLAY_ID,
                            ObjectInfo { interface: d as usize, version: 1, state: ObjectState::Active },
                        )
                    &&& c.registry_model().next_id == 2
                    &&& c.registry_model().free.len() == 0
                    &&& c.inbound_bytes().len() == 0 && c.inbound_fd_queue().len() == 0
                    &&& c.outbound_bytes().len() == 0 && c.outbound_fd_queue().len() == 0
                },
                Err(e) => e == ConnectionError::NoDisplayInterface && !crate::catalog::has_interface(
                    catalog.interfaces@,
                    "wl_display"@,
                ),
            },
    {
        match catalog.find_interface("wl_display") {
            Some(d) => {
                let c = Connection {
                    registry: ObjectRegistry::new(d),
                    inbound: Vec::new(),
                    inbound_fds: Vec::new(),
                    outbound: Vec::new(),
                    outbound_fds: Vec::new(),
                    last_error: None,
                };
                assert(catalog.interfaces@[d as int].wire_name@ == "wl_display"@);
                Ok(c)
            },
            None => Err(ConnectionError::NoDisplayInterface),
        }
    }

    /// A handle to the display object, which always has id 1.
    pub fn get_display<I: crate::proxy::Interface, const V: u32>(&self) -> (r: crate::proxy::Proxy<I, V>)
        requires
            1 <= V <= I::MAX_VERSION,
        ensures
            r.id() == DISPLAY_ID,
    {
        crate::proxy::Proxy::new(DISPLAY_ID)
    }

    /// What an id is bound to, if anything.
    pub fn object(&self, id: u32) -> (r: Option<ObjectInfo>)
        ensures
            match r {
                Some(info) => self.registry_model().objects.contains_key(id)
                    && self.registry_model().objects[id] == info,
                None => !self.registry_model().objects.contains_key(id),
            },
    {
        self.registry.get(id)
    }

    /// Binds a fresh client id to an interface and version, outside of any
    /// request.
    pub fn allocate_id(&mut self, interface: usize, version: u32) -> (r: Option<u32>)
        requires
            old(self).wf(),
        ensures
            final(self).wf(),
            (final(self).registry_model(), r) == crate::registry::allocate_model(
                old(self).registry_model(),
                interface,
                version,
            ),
            final(self).inbound_bytes() == old(self).inbound_bytes(),
            final(self).outbound_bytes() == old(self).outbound_bytes(),
            r matches Some(id) ==> !is_live(old(self).registry_model(), id),
    {
        proof {
            crate::registry::lemma_allocate_reuses_only_freed(self.registry@, interface, version);
        }
        self.registry.allocate(interface, version)
    }

    /// The error that the display reported, if it reported one; the
    /// connection is then beyond use, and closing it is the caller's call.
    pub fn last_error(&self) -> (r: Option<&crate::events::ErrorEvent>)
        ensures
            match r {
                Some(e) => self.recorded_error() == Some(*e),
                None => self.recorded_error() is None,
            },
    {
        self.last_error.as_ref()
    }

    /// Hands in bytes and descriptors read from the transport.
    pub fn receive(&mut self, bytes: &[u8], fds: &[i32])
        ensures
            final(self).wf() == old(self).wf(),
            final(self).registry_model() == old(self).registry_model(),
            final(self).inbound_bytes() == old(self).inbound_bytes() + bytes@,
            final(self).inbound_fd_queue() == old(self).inbound_fd_queue() + fds@,
            final(self).outbound_bytes() == old(self).outbound_bytes(),
            final(self).outbound_fd_queue() == old(self).outbound_fd_queue(),
    {
        let mut i: usize = 0;
        let ghost start = self.inbound@;
        while i < bytes.len()
            invariant
                i <= bytes@.len(),
                self.inbound@ == start + bytes@.take(i as int),
                self.registry == old(self).registry,
                self.inbound_fds == old(self).inbound_fds,
                self.outbound == old(self).outbound,
                self.outbound_fds == old(self).outbound_fds,
            decreases bytes@.len() - i,
        {
            self.inbound.push(bytes[i]);
            assert(bytes@.take(i + 1) =~= bytes@.take(i as int).push(bytes@[i as int]));
            i = i + 1;
        }
        assert(bytes@.take(bytes@.len() as int) =~= bytes@);
        let ghost fstart = self.inbound_fds@;
        let mut j: usize = 0;
        while j < fds.len()
            invariant
                j <= fds@.len(),
                self.inbound_fds@ == fstart + fds@.take(j as int),
                self.inbound@ == old(self).inbound@ + bytes@,
                self.registry == old(self).registry,
                self.outbound == old(self).outbound,
                self.outbound_fds == old(self).outbound_fds,
            decreases fds@.len() - j,
        {
            self.inbound_fds.push(fds[j]);
            assert(fds@.take(j + 1) =~= fds@.take(j as int).push(fds@[j as int]));
            j = j + 1;
        }
        assert(fds@.take(fds@.len() as int) =~= fds@);
    }


    /// Queues a request. A new-id argument gets a fresh client id, bound to
    /// the interface that the signature names at the sender's version, or,
    /// where the argument carries its interface, to that interface at the
    /// version it asks for; the id is returned. A destructor starts the
    /// sender's destruction: its id stays reserved until the server's
    /// delete-id.
    pub fn send_request(
        &mut self,
        catalog: &Catalog,
        object_id: u32,
        opcode: u16,
        args: Vec<ArgValue>,
    ) -> (r: Result<Option<u32>, ConnectionError>)
        requires
            old(self).wf(),
        ensures
            final(self).wf(),
            final(self).inbound_bytes() == old(self).inbound_bytes(),
            final(self).inbound_fd_queue() == old(self).inbound_fd_queue(),
            plain_request_ok(old(self).registry_model(), catalog.interfaces@, object_id, opcode, args@)
                ==> r == Ok::<Option<u32>, ConnectionError>(None),
            typed_new_id_request_ok(old(self).registry_model(), catalog.interfaces@, object_id, opcode, args@)
                ==> r matches Ok(Some(_)),
            r is Err ==> {
                &&& final(self).inbound_state() == old(self).inbound_state()
                &&& final(self).outbound_bytes() == old(self).outbound_bytes()
                &&& final(self).outbound_fd_queue() == old(self).outbound_fd_queue()
                &&& final(self).recorded_error() == old(self).recorded_error()
            },
            r is Ok ==> request_valid(old(self).registry_model(), catalog.interfaces@, object_id, opcode),
            r matches Ok(new_id) ==> ({
                let sent = match new_id {
                    Some(id) => with_new_id(values_view(args@), id),
                    None => values_view(args@),
                };
                let req = request_of(old(self).registry_model(), catalog.interfaces@, object_id, opcode);
                &&& well_typed(sig_of(req.args@), sent)
                &&& final(self).outbound_bytes() == old(self).outbound_bytes() + message_bytes(
                    object_id,
                    opcode,
                    encode_values(sent),
                )
                &&& final(self).outbound_fd_queue() == old(self).outbound_fd_queue() + values_fds(sent)
                &&& final(self).registry_model().objects[object_id].state == (if req.kind
                    == RequestType::Destructor {
                    ObjectState::PendingDestroy
                } else {
                    ObjectState::Active
                })
                &&& match new_id {
                    Some(id) => !is_live(old(self).registry_model(), id)
                        && final(self).registry_model().objects.contains_key(id)
                        && final(self).registry_model().objects[id].state == ObjectState::Active
                        && forall|k: int|
                            0 <= k < args@.len() && (#[trigger] args@[k]@) is UnspecifiedNewId ==> {
                                let info = final(self).registry_model().objects[id];
                                let ver = args@[k]@->UnspecifiedNewId_1;
                                &&& info.version == ver
                                &&& info.interface < catalog.interfaces@.len()
                                &&& bytes_spell(
                                    args@[k]@->UnspecifiedNewId_0,
                                    catalog.interfaces@[info.interface as int].wire_name@,
                                )
                                &&& 1 <= ver <= catalog.interfaces@[info.interface as int].max_version
                            },
                    None => forall|k: int| 0 <= k < args@.len() ==> !is_new_id(#[trigger] args@[k]@),
                }
            }),
    {
        let info = match self.registry.get(object_id) {
            Some(info) => info,
            None => return Err(ConnectionError::Registry(RegistryError::Unknown)),
        };
        if info.state != ObjectState::Active {
            return Err(ConnectionError::Registry(RegistryError::NotActive));
        }
        if info.interface >= catalog.interfaces.len() {
            return Err(ConnectionError::UnknownInterface);
        }
        let iface = &catalog.interfaces[info.interface];
        if opcode as usize >= iface.requests.len() {
            return Err(ConnectionError::BadOpcode);
        }
        let req = &iface.requests[opcode as usize];
        if req.since > info.version {
            return Err(ConnectionError::VersionTooLow);
        }
        let sig = signature(&req.args);
        proof {
            if plain_request_ok(old(self).registry_model(), catalog.interfaces@, object_id, opcode, args@)
                || typed_new_id_request_ok(old(self).registry_model(), catalog.interfaces@, object_id, opcode, args@) {
                assert(sig@ == sig_of(req.args@));
                assert forall|k: int| 0 <= k < args@.len() implies has_type(sig@[k], #[trigger] args@[k]@)
                    && fits(args@[k]@) by {
                    assert(values_view(args@)[k] == args@[k]@);
                }
            }
        }
        match encode_message(object_id, opcode, sig.as_slice(), args.as_slice()) {
            Ok(_) => {},
            Err(e) => return Err(ConnectionError::Encode(e)),
        }
        assert(well_typed(sig@, values_view(args@)));
        assert(8 + encode_values(values_view(args@)).len() <= 0xffff);
        let mut args = args;
        let ghost given = values_view(args@);
        let (count, first) = count_new_ids(&args);
        let ghost typed = typed_new_id_request_ok(
            old(self).registry_model(),
            catalog.interfaces@,
            object_id,
            opcode,
            args@,
        );
        proof {
            if typed {
                let j = choose|j: int|
                    0 <= j < args@.len() && (#[trigger] args@[j]@) is NewId && forall|k: int|
                        0 <= k < args@.len() && k != j ==> !is_new_id(#[trigger] args@[k]@);
                assert(is_new_id(args@[j]@));
                if count > 1 {
                    let k = choose|k: int| 0 <= k < args@.len() && k != first && is_new_id(#[trigger] args@[k]@);
                    assert(false);
                }
                assert(first == j);
                assert(values_view(args@)[j] == args@[j]@);
                assert(has_type(sig@[j], args@[j]@));
                assert(sig@[j] == req.args@[j].arg_type);
                let cat = catalog.interfaces@;
                assert(crate::catalog::interface_resolves(cat, cat[info.interface as int]));
                assert(crate::catalog::args_resolve(cat, cat[info.interface as int], cat[info.interface as int].requests@[opcode as int].args@));
                assert(crate::catalog::arg_resolves(cat, cat[info.interface as int], req.args@[j].arg_type));
            }
        }
        let mut new_id: Option<u32> = None;
        if count > 1 {
            return Err(ConnectionError::BadNewId);
        }
        if count == 1 {
            assert(given[first as int] == args@[first as int]@);
            let (target, version) = match (&sig[first], &args[first]) {
                (ArgType::NewId(name), _) => match catalog.find_interface(name.as_str()) {
                    Some(k) => {
                        assert(has_type(sig@[first as int], given[first as int]));
                        assert forall|j: int| 0 <= j < given.len() implies !(#[trigger] given[j] is UnspecifiedNewId) by {
                            if j != first {
                                assert(given[j] == args@[j]@);
                            }
                        }
                        (k, info.version)
                    },
                    None => return Err(ConnectionError::BadNewId),
                },
                (_, ArgValue::UnspecifiedNewId { interface, version, .. }) => {
                    match find_interface_by_bytes(catalog, interface) {
                        Some(k) => {
                            if *version < 1 || *version > catalog.interfaces[k].max_version {
                                return Err(ConnectionError::BadNewId);
                            }
                            assert forall|j: int| 0 <= j < given.len() && #[trigger] given[j] is UnspecifiedNewId implies j == first by {
                                if j != first {
                                    assert(given[j] == args@[j]@);
                                }
                            }
                            (k, *version)
                        },
                        None => return Err(ConnectionError::BadNewId),
                    }
                },
                _ => return Err(ConnectionError::BadNewId),
            };
            assert(forall|j: int| 0 <= j < given.len() && #[trigger] given[j] is UnspecifiedNewId ==> {
                &&& j == first
                &&& version == given[j]->UnspecifiedNewId_1
                &&& target < catalog.interfaces@.len()
                &&& bytes_spell(given[j]->UnspecifiedNewId_0, catalog.interfaces@[target as int].wire_name@)
                &&& 1 <= version <= catalog.interfaces@[target as int].max_version
            });
            let id = match self.registry.allocate(target, version) {
                Some(id) => id,
                None => return Err(ConnectionError::Registry(RegistryError::Exhausted)),
            };
            proof {
                crate::registry::lemma_allocate_reuses_only_freed(
                    old(self).registry@,
                    target,
                    version,
                );
            }
            assert(self.registry@.objects[id] == ObjectInfo { interface: target, version, state: ObjectState::Active });
            let ghost before = args@;
            let mut slot = args.remove(first);
            set_new_id(&mut slot, id);
            args.insert(first, slot);
            proof {
                assert forall|k: int| 0 <= k < args@.len() implies #[trigger] args@[k]@ == with_new_id(
                    given,
                    id,
                )[k] by {
                    if k != first {
                        assert(args@[k] == before[k]);
                        assert(!is_new_id(before[k]@));
                    }
                }
                assert(values_view(args@) =~= with_new_id(given, id));
                lemma_with_new_id_keeps_shape(sig@, given, id);
                assert(id != object_id);
            }
            new_id = Some(id);
        }
        proof {
            if plain_request_ok(old(self).registry_model(), catalog.interfaces@, object_id, opcode, args@) {
                assert(sig@ == sig_of(req.args@));
                assert forall|k: int| 0 <= k < args@.len() implies has_type(sig@[k], #[trigger] args@[k]@)
                    && fits(args@[k]@) by {
                    assert(values_view(args@)[k] == args@[k]@);
                }
            }
            assert forall|k: int| 0 <= k < args@.len() implies has_type(sig@[k], #[trigger] args@[k]@)
                && fits(args@[k]@) by {
                assert(values_view(args@)[k] == args@[k]@);
            }
        }
        let ghost reg_before_send = self.registry@;
        let (mut bytes, mut fds) = match encode_message(object_id, opcode, sig.as_slice(), args.as_slice()) {
            Ok(x) => x,
            Err(e) => {
                assert(false);
                return Err(ConnectionError::Encode(e));
            },
        };
        self.outbound.append(&mut bytes);
        self.outbound_fds.append(&mut fds);
        if req.kind == RequestType::Destructor {
            assert(self.registry@.objects[object_id].state == ObjectState::Active);
            match self.registry.mark_destroyed(object_id) {
                Ok(()) => {},
                Err(e) => {
                    assert(false);
                    return Err(ConnectionError::Registry(e));
                },
            }
        }
        Ok(new_id)
    }


    /// Binds a global that the registry advertised, by sending the
    /// registry's `bind` request (opcode 0) with the global's name and
    /// interface. The version must lie between 1 and the advertised version;
    /// the request itself holds it to the interface's highest.
    pub fn bind_global(
        &mut self,
        catalog: &Catalog,
        registry_id: u32,
        global: &crate::events::GlobalEvent,
        version: u32,
    ) -> (r: Result<Option<u32>, ConnectionError>)
        requires
            old(self).wf(),
        ensures
            final(self).wf(),
            !(1 <= version <= global.version) ==> r == Err::<Option<u32>, ConnectionError>(
                ConnectionError::BadNewId,
            ),
            r is Err ==> final(self).inbound_state() == old(self).inbound_state()
                && final(self).outbound_bytes() == old(self).outbound_bytes(),
            r matches Ok(Some(id)) ==> ({
                let info = final(self).registry_model().objects[id];
                &&& !is_live(old(self).registry_model(), id)
                &&& info.state == ObjectState::Active
                &&& info.version == version
                &&& 1 <= version <= global.version
                &&& info.interface < catalog.interfaces@.len()
                &&& version <= catalog.interfaces@[info.interface as int].max_version
                &&& bytes_spell(global.interface@, catalog.interfaces@[info.interface as int].wire_name@)
            }),
    {
        if version < 1 || version > global.version {
            return Err(ConnectionError::BadNewId);
        }
        let args = vec![
            ArgValue::UInt(global.name),
            ArgValue::UnspecifiedNewId { interface: global.interface.clone(), version, id: 0 },
        ];
        assert(args@[1]@ is UnspecifiedNewId);
        let r = self.send_request(catalog, registry_id, 0, args);
        r
    }

    /// Binds the ids that the server allocated in an event's new-id
    /// arguments, each to the interface its signature names, at the
    /// version of the object the event came from.
    fn bind_server_ids(
        &mut self,
        catalog: &Catalog,
        sig: &Vec<ArgType>,
        vals: &Vec<ArgValue>,
        version: u32,
    ) -> (r: Result<(), ConnectionError>)
        requires
            old(self).wf(),
            catalog.wf(),
        ensures
            final(self).wf(),
            final(self).inbound == old(self).inbound,
            final(self).inbound_fds == old(self).inbound_fds,
            final(self).outbound == old(self).outbound,
            final(self).outbound_fds == old(self).outbound_fds,
            final(self).last_error == old(self).last_error,
            !(r matches Err(ConnectionError::Display { .. })),
            (final(self).registry_model(), match r {
                Ok(()) => None,
                Err(e) => Some(error_outcome(e)),
            }) == bind_new_ids(old(self).registry_model(), catalog.interfaces@, sig@, values_view(vals@), version, 0),
    {
        let ghost vs = values_view(vals@);
        let mut i: usize = 0;
        while i < vals.len() && i < sig.len()
            invariant
                self.wf(),
                catalog.wf(),
                vs == values_view(vals@),
                i <= vals@.len(),
                self.inbound == old(self).inbound,
                self.inbound_fds == old(self).inbound_fds,
                self.outbound == old(self).outbound,
                self.outbound_fds == old(self).outbound_fds,
                self.last_error == old(self).last_error,
                bind_new_ids(old(self).registry_model(), catalog.interfaces@, sig@, vs, version, 0)
                    == bind_new_ids(self.registry_model(), catalog.interfaces@, sig@, vs, version, i as int),
            decreases vals@.len() - i,
        {
            assert(vs[i as int] == vals@[i as int]@);
            if let (ArgType::NewId(name), ArgValue::NewId(id)) = (&sig[i], &vals[i]) {
                let k = match catalog.find_interface(name.as_str()) {
                    Some(k) => k,
                    None => return Err(ConnectionError::UnknownInterface),
                };
                proof {
                    let c = catalog.interfaces@;
                    let j = choose|j: int| 0 <= j < c.len() && #[trigger] c[j].wire_name@ == name@;
                    assert(c[k as int].wire_name@ == name@);
                    assert(j == k as int);
                }
                match self.registry.bind_server_id(*id, k, version) {
                    Ok(()) => {},
                    Err(e) => return Err(ConnectionError::Registry(e)),
                }
            }
            i = i + 1;
        }
        Ok(())
    }

    /// Takes one whole message off the inbound buffer, if one has arrived,
    /// and handles it. The display's `delete_id` frees the id it names; its
    /// `error` becomes a connection error; every other event is handed out,
    /// after the ids it creates are bound and, for a destructor event, the
    /// sender's destruction has begun.
    pub fn dispatch_one(&mut self, catalog: &Catalog) -> (r: Result<Dispatched, ConnectionError>)
        requires
            old(self).wf(),
            catalog.wf(),
        ensures
            final(self).wf(),
            final(self).outbound_bytes() == old(self).outbound_bytes(),
            final(self).outbound_fd_queue() == old(self).outbound_fd_queue(),
            (final(self).inbound_state(), dispatch_outcome(r)) == step(old(self).inbound_state(), catalog.interfaces@),
            match dispatch_outcome(r) {
                Outcome::Display(object_id, code, message) => final(self).recorded_error() matches Some(e)
                    && e.object_id == object_id && e.code == code && e.message@ == message,
                _ => final(self).recorded_error() == old(self).recorded_error(),
            },
    {
        let h = match decode_header(self.inbound.as_slice()) {
            None => return Ok(Dispatched::NotReady),
            Some(h) => h,
        };
        let size = h.size as usize;
        if size < 8 {
            return Err(ConnectionError::Decode(DecodeError::BadFrame));
        }
        if size > self.inbound.len() {
            return Ok(Dispatched::NotReady);
        }
        let info = match self.registry.lookup(h.object_id) {
            Ok(info) => info,
            Err(e) => return Err(ConnectionError::Registry(e)),
        };
        if info.interface >= catalog.interfaces.len() {
            return Err(ConnectionError::UnknownInterface);
        }
        let iface = &catalog.interfaces[info.interface];
        if h.opcode as usize >= iface.events.len() {
            return Err(ConnectionError::BadOpcode);
        }
        let ev = &iface.events[h.opcode as usize];
        if ev.since > info.version {
            return Err(ConnectionError::VersionTooLow);
        }
        let sig = signature(&ev.args);
        if count_fds(&sig) > self.inbound_fds.len() {
            return Ok(Dispatched::NotReady);
        }
        let ghost b = self.inbound@;
        let ghost fq = self.inbound_fds@;
        let mut msg = self.inbound.clone();
        let rest = msg.split_off(size);
        assert(msg@ =~= b.subrange(0, size as int));
        assert(header_of(msg@) == header_of(b));
        assert(msg@.skip(8) =~= b.subrange(8, size as int));
        let (vals, used) = match decode_message(msg.as_slice(), sig.as_slice(), self.inbound_fds.as_slice()) {
            Ok(x) => x,
            Err(e) => return Err(ConnectionError::Decode(e)),
        };
        self.inbound = rest;
        assert(self.inbound@ =~= b.skip(size as int));
        let fds_rest = self.inbound_fds.split_off(used);
        self.inbound_fds = fds_rest;
        if h.object_id == DISPLAY_ID && h.opcode == 0 {
            if vals.len() != 3 {
                return Err(ConnectionError::Decode(DecodeError::BadString));
            }
            return match (&vals[0], &vals[1], &vals[2]) {
                (ArgValue::Object(o), ArgValue::UInt(code), ArgValue::Str(Some(text)))
                | (ArgValue::UInt(o), ArgValue::UInt(code), ArgValue::Str(Some(text))) => {
                    self.last_error = Some(
                        crate::events::ErrorEvent { object_id: *o, code: *code, message: text.clone() },
                    );
                    Err(ConnectionError::Display { object_id: *o, code: *code, message: text.clone() })
                },
                _ => Err(ConnectionError::Decode(DecodeError::BadString)),
            };
        }
        if h.object_id == DISPLAY_ID && h.opcode == 1 {
            if vals.len() != 1 {
                return Err(ConnectionError::Decode(DecodeError::BadString));
            }
            let id = match &vals[0] {
                ArgValue::UInt(id) => *id,
                _ => return Err(ConnectionError::Decode(DecodeError::BadString)),
            };
            return match self.registry.delete_id(id) {
                Ok(()) => Ok(Dispatched::DeleteId(id)),
                Err(e) => Err(ConnectionError::Registry(e)),
            };
        }
        match self.bind_server_ids(catalog, &sig, &vals, info.version) {
            Ok(()) => {},
            Err(e) => return Err(e),
        }
        if ev.kind == EventType::Destructor {
            let _ = self.registry.mark_destroyed(h.object_id);
        }
        Ok(Dispatched::Event(Message { object_id: h.object_id, interface: info.interface, opcode: h.opcode, args: vals }))
    }

    /// The next event for the application, if a whole one has arrived.
    /// Display events met on the way are handled, never handed out.
    pub fn get_next_event(&mut self, catalog: &Catalog) -> (r: Result<Option<Message>, ConnectionError>)
        requires
            old(self).wf(),
            catalog.wf(),
        ensures
            final(self).wf(),
            final(self).outbound_bytes() == old(self).outbound_bytes(),
            final(self).outbound_fd_queue() == old(self).outbound_fd_queue(),
            exists|s: Seq<InboundState>|
                #![trigger delete_steps(s, catalog.interfaces@)]
                {
                    &&& delete_steps(s, catalog.interfaces@)
                    &&& s[0] == old(self).inbound_state()
                    &&& !(step(s.last(), catalog.interfaces@).1 is DeleteId)
                    &&& step(s.last(), catalog.interfaces@).0 == final(self).inbound_state()
                    &&& step(s.last(), catalog.interfaces@).1 == poll_outcome(r)
                },
            match poll_outcome(r) {
                Outcome::Display(object_id, code, message) => final(self).recorded_error() matches Some(e)
                    && e.object_id == object_id && e.code == code && e.message@ == message,
                _ => final(self).recorded_error() == old(self).recorded_error(),
            },
    {
        let ghost mut s: Seq<InboundState> = seq![self.inbound_state()];
        loop
            invariant
                self.wf(),
                catalog.wf(),
                self.outbound_bytes() == old(self).outbound_bytes(),
                self.outbound_fd_queue() == old(self).outbound_fd_queue(),
                self.recorded_error() == old(self).recorded_error(),
                delete_steps(s, catalog.interfaces@),
                s[0] == old(self).inbound_state(),
                s.last() == self.inbound_state(),
            decreases self.inbound_bytes().len(),
        {
            let ghost before = self.inbound_state();
            let d = self.dispatch_one(catalog);
            match d {
                Ok(Dispatched::DeleteId(_)) => {
                    proof {
                        lemma_delete_step_consumes(before, catalog.interfaces@);
                        let s2 = s.push(self.inbound_state());
                        assert forall|i: int| 0 <= i < s2.len() - 1 implies (#[trigger] step(
                            s2[i],
                            catalog.interfaces@,
                        )).0 == s2[i + 1] && step(s2[i], catalog.interfaces@).1 is DeleteId by {
                            if i < s.len() - 1 {
                                assert(s2[i] == s[i] && s2[i + 1] == s[i + 1]);
                            } else {
                                assert(s2[i] == before);
                            }
                        }
                        s = s2;
                    }
                },
                Ok(Dispatched::NotReady) => {
                    assert(delete_steps(s, catalog.interfaces@));
                    return Ok(None);
                },
                Ok(Dispatched::Event(m)) => {
                    assert(delete_steps(s, catalog.interfaces@));
                    return Ok(Some(m));
                },
                Err(e) => {
                    assert(delete_steps(s, catalog.interfaces@));
                    return Err(e);
                },
            }
        }
    }

    /// Takes the queued outbound bytes and descriptors, to be written in
    /// one go so that no message's descriptors are split across writes.
    pub fn take_outgoing(&mut self) -> (r: (Vec<u8>, Vec<i32>))
        ensures
            r.0@ == old(self).outbound_bytes(),
            r.1@ == old(self).outbound_fd_queue(),
            final(self).outbound_bytes().len() == 0,
            final(self).outbound_fd_queue().len() == 0,
            final(self).wf() == old(self).wf(),
            final(self).registry_model() == old(self).registry_model(),
            final(self).inbound_bytes() == old(self).inbound_bytes(),
            final(self).inbound_fd_queue() == old(self).inbound_fd_queue(),
    {
        let bytes = self.outbound.split_off(0);
        let fds = self.outbound_fds.split_off(0);
        (bytes, fds)
    }
}

} // verus!
