//! The wire codec: arguments to bytes and back, given the ordered argument
//! types of the message. Words are 32 bits, least significant byte first;
//! every argument is padded to a whole number of words; file descriptors
//! travel beside the bytes, in argument order.
use vstd::prelude::*;
use crate::fixed::{group_fixed_lemmas, Fixed};
use crate::schema::ArgType;

verus! {

broadcast use group_fixed_lemmas;

/// The value of one argument, as the codec sees it. Strings and arrays are
/// raw bytes; a string's terminating zero is not part of its value.
#[derive(Debug, PartialEq, Eq)]
pub enum ArgValue {
    Int(i32),
    UInt(u32),
    Fixed(Fixed),
    /// `None` is the null string.
    Str(Option<Vec<u8>>),
    /// An object id; 0 is the null object.
    Object(u32),
    NewId(u32),
    /// A new id whose interface travels with it: the interface's wire name,
    /// the version to bind, and the id.
    UnspecifiedNewId { interface: Vec<u8>, version: u32, id: u32 },
    Array(Vec<u8>),
    Fd(i32),
}

/// The mathematical value of an argument.
pub enum WireValue {
    Int(i32),
    UInt(u32),
    Fixed(i32),
    Str(Option<Seq<u8>>),
    Object(u32),
    NewId(u32),
    UnspecifiedNewId(Seq<u8>, u32, u32),
    Array(Seq<u8>),
    Fd(i32),
}

impl View for ArgValue {
    type V = WireValue;

    open spec fn view(&self) -> WireValue {
        match self {
            ArgValue::Int(x) => WireValue::Int(*x),
            ArgValue::UInt(x) => WireValue::UInt(*x),
            ArgValue::Fixed(f) => WireValue::Fixed(f.bits()),
            ArgValue::Str(s) => WireValue::Str(
                match s {
                    Some(c) => Some(c@),
                    None => None,
                },
            ),
            ArgValue::Object(x) => WireValue::Object(*x),
            ArgValue::NewId(x) => WireValue::NewId(*x),
            ArgValue::UnspecifiedNewId { interface, version, id } => WireValue::UnspecifiedNewId(
                interface@,
                *version,
                *id,
            ),
            ArgValue::Array(a) => WireValue::Array(a@),
            ArgValue::Fd(fd) => WireValue::Fd(*fd),
        }
    }
}

pub open spec fn values_view(s: Seq<ArgValue>) -> Seq<WireValue> {
    s.map_values(|v: ArgValue| v@)
}

/// Why bytes do not decode as a message body.
#[derive(Clone, Copy, Debug, PartialEq, Eq, Structural)]
pub enum DecodeError {
    /// An argument runs past the end of the message.
    Truncated,
    /// A descriptor argument finds no descriptor queued.
    MissingFd,
    /// A string without its terminating zero, or a null string where the
    /// wire needs one.
    BadString,
    /// Bytes are left after the last argument.
    TrailingBytes,
    /// The header's length cannot be that of a message of this signature.
    BadFrame,
}

/// Why arguments cannot be encoded.
#[derive(Clone, Copy, Debug, PartialEq, Eq, Structural)]
pub enum EncodeError {
    /// The values do not match the signature, one for one.
    Mismatch,
    /// A string or array too long for its length word, or a message too
    /// long for the header's 16-bit length.
    TooLarge,
}

/// Four bytes of a word, least significant first.
pub open spec fn word(w: u32) -> Seq<u8> {
    seq![
        (w & 0xff) as u8,
        ((w >> 8) & 0xff) as u8,
        ((w >> 16) & 0xff) as u8,
        ((w >> 24) & 0xff) as u8,
    ]
}

pub open spec fn read4(b0: u8, b1: u8, b2: u8, b3: u8) -> u32 {
    (b0 as u32) | ((b1 as u32) << 8) | ((b2 as u32) << 16) | ((b3 as u32) << 24)
}

/// The word stored at `pos`.
pub open spec fn read_word(b: Seq<u8>, pos: int) -> u32 {
    read4(b[pos], b[pos + 1], b[pos + 2], b[pos + 3])
}

/// The number of zero bytes that bring `n` bytes to a whole number of words.
pub open spec fn pad(n: int) -> int {
    (4 - n % 4) % 4
}

pub open spec fn zeros(n: int) -> Seq<u8> {
    Seq::new(n as nat, |i: int| 0u8)
}

/// A length word, the bytes, and padding.
pub open spec fn encode_blob(c: Seq<u8>) -> Seq<u8> {
    word(c.len() as u32) + c + zeros(pad(c.len() as int))
}

/// A string: its length with the terminator, the bytes, the terminating
/// zero and padding; a null string is a zero length.
pub open spec fn encode_string(s: Option<Seq<u8>>) -> Seq<u8> {
    match s {
        None => word(0),
        Some(c) => word((c.len() + 1) as u32) + c + seq![0u8] + zeros(pad(c.len() + 1 as int)),
    }
}

pub open spec fn encode_value(v: WireValue) -> Seq<u8> {
    match v {
        WireValue::Int(x) => word(x as u32),
        WireValue::UInt(x) => word(x),
        WireValue::Fixed(x) => word(x as u32),
        WireValue::Str(s) => encode_string(s),
        WireValue::Object(x) => word(x),
        WireValue::NewId(x) => word(x),
        WireValue::UnspecifiedNewId(name, version, id) => encode_string(Some(name)) + word(version)
            + word(id),
        WireValue::Array(a) => encode_blob(a),
        WireValue::Fd(_) => Seq::empty(),
    }
}

pub open spec fn value_fds(v: WireValue) -> Seq<i32> {
    match v {
        WireValue::Fd(fd) => seq![fd],
        _ => Seq::empty(),
    }
}

/// The bytes of a list of arguments.
pub open spec fn encode_values(vs: Seq<WireValue>) -> Seq<u8>
    decreases vs.len(),
{
    if vs.len() == 0 {
        Seq::empty()
    } else {
        encode_value(vs[0]) + encode_values(vs.drop_first())
    }
}

/// The descriptors of a list of arguments, in order.
pub open spec fn values_fds(vs: Seq<WireValue>) -> Seq<i32>
    decreases vs.len(),
{
    if vs.len() == 0 {
        Seq::empty()
    } else {
        value_fds(vs[0]) + values_fds(vs.drop_first())
    }
}

/// Whether a value has the type that the signature asks for. Enum arguments
/// travel as unsigned words.
pub open spec fn has_type(t: ArgType, v: WireValue) -> bool {
    match (t, v) {
        (ArgType::Int, WireValue::Int(_)) => true,
        (ArgType::UInt, WireValue::UInt(_)) => true,
        (ArgType::Enum(_), WireValue::UInt(_)) => true,
        (ArgType::Fixed, WireValue::Fixed(_)) => true,
        (ArgType::String, WireValue::Str(_)) => true,
        (ArgType::Object(_), WireValue::Object(_)) => true,
        (ArgType::NewId(_), WireValue::NewId(_)) => true,
        (ArgType::UnspecifiedNewId, WireValue::UnspecifiedNewId(_, _, _)) => true,
        (ArgType::Array, WireValue::Array(_)) => true,
        (ArgType::Fd, WireValue::Fd(_)) => true,
        _ => false,
    }
}

/// Whether a value's lengths fit in its length word.
pub open spec fn fits(v: WireValue) -> bool {
    match v {
        WireValue::Str(Some(c)) => c.len() + 1 <= u32::MAX,
        WireValue::UnspecifiedNewId(name, _, _) => name.len() + 1 <= u32::MAX,
        WireValue::Array(a) => a.len() <= u32::MAX,
        _ => true,
    }
}

pub open spec fn well_typed(sig: Seq<ArgType>, vs: Seq<WireValue>) -> bool {
    &&& sig.len() == vs.len()
    &&& forall|k: int| 0 <= k < vs.len() ==> has_type(sig[k], #[trigger] vs[k]) && fits(vs[k])
}

/// A string at `pos`, and the position after it.
pub open spec fn decode_string(b: Seq<u8>, pos: int) -> Result<(Option<Seq<u8>>, int), DecodeError> {
    if pos + 4 > b.len() {
        Err(DecodeError::Truncated)
    } else {
        let n = read_word(b, pos) as int;
        if n == 0 {
            Ok((None, pos + 4))
        } else if pos + 4 + n + pad(n) > b.len() {
            Err(DecodeError::Truncated)
        } else if b[pos + 4 + n - 1] != 0 {
            Err(DecodeError::BadString)
        } else {
            Ok((Some(b.subrange(pos + 4, pos + 4 + n - 1)), pos + 4 + n + pad(n)))
        }
    }
}

/// One argument of type `t` at `pos`, with the descriptors from `fpos`:
/// the value, the position after it and the next descriptor's index.
pub open spec fn decode_value(b: Seq<u8>, pos: int, t: ArgType, fds: Seq<i32>, fpos: int) -> Result<
    (WireValue, int, int),
    DecodeError,
> {
    match t {
        ArgType::Fd => if fpos < fds.len() {
            Ok((WireValue::Fd(fds[fpos]), pos, fpos + 1))
        } else {
            Err(DecodeError::MissingFd)
        },
        ArgType::String => match decode_string(b, pos) {
            Ok((s, p)) => Ok((WireValue::Str(s), p, fpos)),
            Err(e) => Err(e),
        },
        ArgType::UnspecifiedNewId => match decode_string(b, pos) {
            Ok((Some(name), p)) => if p + 8 > b.len() {
                Err(DecodeError::Truncated)
            } else {
                Ok(
                    (
                        WireValue::UnspecifiedNewId(name, read_word(b, p), read_word(b, p + 4)),
                        p + 8,
                        fpos,
                    ),
                )
            },
            Ok((None, _)) => Err(DecodeError::BadString),
            Err(e) => Err(e),
        },
        ArgType::Array => if pos + 4 > b.len() {
            Err(DecodeError::Truncated)
        } else {
            let n = read_word(b, pos) as int;
            if pos + 4 + n + pad(n) > b.len() {
                Err(DecodeError::Truncated)
            } else {
                Ok((WireValue::Array(b.subrange(pos + 4, pos + 4 + n)), pos + 4 + n + pad(n), fpos))
            }
        },
        _ => if pos + 4 > b.len() {
            Err(DecodeError::Truncated)
        } else {
            let w = read_word(b, pos);
            let v = match t {
                ArgType::Int => WireValue::Int(w as i32),
                ArgType::Fixed => WireValue::Fixed(w as i32),
                ArgType::Object(_) => WireValue::Object(w),
                ArgType::NewId(_) => WireValue::NewId(w),
                _ => WireValue::UInt(w),
            };
            Ok((v, pos + 4, fpos))
        },
    }
}

/// The arguments from the `i`-th on, decoded after those in `acc`; the
/// bytes must end with the last argument. Gives the values and the number
/// of descriptors taken.
pub open spec fn decode_values(
    b: Seq<u8>,
    pos: int,
    sig: Seq<ArgType>,
    i: int,
    fds: Seq<i32>,
    fpos: int,
    acc: Seq<WireValue>,
) -> Result<(Seq<WireValue>, int), DecodeError>
    decreases sig.len() - i,
{
    if i >= sig.len() {
        if pos == b.len() {
            Ok((acc, fpos))
        } else {
            Err(DecodeError::TrailingBytes)
        }
    } else {
        match decode_value(b, pos, sig[i], fds, fpos) {
            Ok((v, p, f)) => decode_values(b, p, sig, i + 1, fds, f, acc.push(v)),
            Err(e) => Err(e),
        }
    }
}

/// A message body decoded against its signature.
pub open spec fn decode_body(b: Seq<u8>, sig: Seq<ArgType>, fds: Seq<i32>) -> Result<
    (Seq<WireValue>, int),
    DecodeError,
> {
    decode_values(b, 0, sig, 0, fds, 0, Seq::empty())
}

proof fn lemma_word(w: u32)
    ensures
        read4(word(w)[0], word(w)[1], word(w)[2], word(w)[3]) == w,
{
    let b0 = (w & 0xff) as u8;
    let b1 = ((w >> 8) & 0xff) as u8;
    let b2 = ((w >> 16) & 0xff) as u8;
    let b3 = ((w >> 24) & 0xff) as u8;
    assert((b0 as u32) | ((b1 as u32) << 8) | ((b2 as u32) << 16) | ((b3 as u32) << 24) == w)
        by (bit_vector)
        requires
            b0 == (w & 0xff) as u8,
            b1 == ((w >> 8) & 0xff) as u8,
            b2 == ((w >> 16) & 0xff) as u8,
            b3 == ((w >> 24) & 0xff) as u8,
    ;
}

proof fn lemma_signed_word(x: i32)
    ensures
        ((x as u32) as i32) == x,
{
    assert(((x as u32) as i32) == x) by (bit_vector);
}

/// A word written at some position reads back there.
proof fn lemma_read_written(b: Seq<u8>, pos: int, w: u32)
    requires
        0 <= pos,
        pos + 4 <= b.len(),
        b.subrange(pos, pos + 4) == word(w),
    ensures
        read_word(b, pos) == w,
{
    lemma_word(w);
    assert(b[pos] == b.subrange(pos, pos + 4)[0]);
    assert(b[pos + 1] == b.subrange(pos, pos + 4)[1]);
    assert(b[pos + 2] == b.subrange(pos, pos + 4)[2]);
    assert(b[pos + 3] == b.subrange(pos, pos + 4)[3]);
}

proof fn lemma_pad(n: int)
    requires
        0 <= n,
    ensures
        0 <= pad(n) < 4,
        (n + pad(n)) % 4 == 0,
{
}

/// Decoding one encoded value, wherever it stands, gives it back and moves
/// past exactly its bytes and descriptors.
proof fn lemma_decode_value_encoded(
    p: Seq<u8>,
    v: WireValue,
    r: Seq<u8>,
    t: ArgType,
    fp: Seq<i32>,
    fr: Seq<i32>,
)
    requires
        has_type(t, v),
        fits(v),
    ensures
        decode_value(p + encode_value(v) + r, p.len() as int, t, fp + value_fds(v) + fr, fp.len() as int)
            == Ok::<(WireValue, int, int), DecodeError>(
            (v, (p.len() + encode_value(v).len()) as int, (fp.len() + value_fds(v).len()) as int),
        ),
{
    match v {
        WireValue::Str(s) => {
            lemma_decode_string_encoded(p, s, r);
        },
        WireValue::UnspecifiedNewId(name, version, id) => {
            lemma_decode_new_id_encoded(p, name, version, id, r);
        },
        WireValue::Array(a) => {
            lemma_decode_array_encoded(p, a, r);
        },
        WireValue::Fd(fd) => {
            assert(p + encode_value(v) + r =~= p + r);
            assert((fp + value_fds(v) + fr)[fp.len() as int] == fd);
        },
        _ => {
            lemma_decode_word_encoded(p, v, r, t);
        },
    }
}

proof fn lemma_decode_word_encoded(p: Seq<u8>, v: WireValue, r: Seq<u8>, t: ArgType)
    requires
        has_type(t, v),
        v is Int || v is UInt || v is Fixed || v is Object || v is NewId,
    ensures
        forall|fds: Seq<i32>, fpos: int|
            #[trigger] decode_value(p + encode_value(v) + r, p.len() as int, t, fds, fpos) == Ok::<
                (WireValue, int, int),
                DecodeError,
            >((v, p.len() + 4int, fpos)),
{
    let b = p + encode_value(v) + r;
    let pos = p.len() as int;
    let w: u32 = match v {
        WireValue::Int(x) => x as u32,
        WireValue::Fixed(x) => x as u32,
        WireValue::UInt(x) => x,
        WireValue::Object(x) => x,
        WireValue::NewId(x) => x,
        _ => 0,
    };
    assert(encode_value(v) == word(w));
    assert(b.subrange(pos, pos + 4) =~= word(w));
    lemma_read_written(b, pos, w);
    match v {
        WireValue::Int(x) => lemma_signed_word(x),
        WireValue::Fixed(x) => lemma_signed_word(x),
        _ => {},
    }
}

proof fn lemma_decode_array_encoded(p: Seq<u8>, a: Seq<u8>, r: Seq<u8>)
    requires
        a.len() <= u32::MAX,
    ensures
        forall|fds: Seq<i32>, fpos: int|
            #[trigger] decode_value(
                p + encode_value(WireValue::Array(a)) + r,
                p.len() as int,
                ArgType::Array,
                fds,
                fpos,
            ) == Ok::<(WireValue, int, int), DecodeError>(
                (WireValue::Array(a), (p.len() + encode_blob(a).len()) as int, fpos),
            ),
{
    let b = p + encode_blob(a) + r;
    let pos = p.len() as int;
    let n = a.len() as int;
    assert(b.subrange(pos, pos + 4) =~= word(n as u32));
    lemma_read_written(b, pos, n as u32);
    assert(b.subrange(pos + 4, pos + 4 + n) =~= a);
}

proof fn lemma_decode_new_id_encoded(p: Seq<u8>, name: Seq<u8>, version: u32, id: u32, r: Seq<u8>)
    requires
        name.len() + 1 <= u32::MAX,
    ensures
        forall|fds: Seq<i32>, fpos: int|
            #[trigger] decode_value(
                p + encode_value(WireValue::UnspecifiedNewId(name, version, id)) + r,
                p.len() as int,
                ArgType::UnspecifiedNewId,
                fds,
                fpos,
            ) == Ok::<(WireValue, int, int), DecodeError>(
                (
                    WireValue::UnspecifiedNewId(name, version, id),
                    (p.len() + encode_value(WireValue::UnspecifiedNewId(name, version, id)).len()) as int,
                    fpos,
                ),
            ),
{
    let es = encode_string(Some(name));
    let rest = word(version) + word(id) + r;
    let b = p + encode_value(WireValue::UnspecifiedNewId(name, version, id)) + r;
    assert(b =~= p + es + rest);
    lemma_decode_string_encoded(p, Some(name), rest);
    let q = (p.len() + es.len()) as int;
    assert(b.subrange(q, q + 4) =~= word(version));
    assert(b.subrange(q + 4, q + 8) =~= word(id));
    lemma_read_written(b, q, version);
    lemma_read_written(b, q + 4, id);
}

proof fn lemma_decode_string_encoded(p: Seq<u8>, s: Option<Seq<u8>>, r: Seq<u8>)
    requires
        s matches Some(c) ==> c.len() + 1 <= u32::MAX,
    ensures
        decode_string(p + encode_string(s) + r, p.len() as int) == Ok::<
            (Option<Seq<u8>>, int),
            DecodeError,
        >((s, (p.len() + encode_string(s).len()) as int)),
{
    let e = encode_string(s);
    let b = p + e + r;
    let pos = p.len() as int;
    match s {
        None => {
            assert(b.subrange(pos, pos + 4) =~= word(0));
            lemma_read_written(b, pos, 0);
        },
        Some(c) => {
            let n = c.len() + 1;
            assert(b.subrange(pos, pos + 4) =~= word(n as u32));
            lemma_read_written(b, pos, n as u32);
            assert(b[pos + 4 + n - 1] == e[4 + n - 1]);
            assert(b.subrange(pos + 4, pos + 4 + n - 1) =~= c);
        },
    }
}

/// Decoding the encoding of well-typed values from the `i`-th on, after any
/// bytes and descriptors already consumed, gives those values back.
proof fn lemma_decode_values_encoded(
    p: Seq<u8>,
    sig: Seq<ArgType>,
    vs: Seq<WireValue>,
    i: int,
    fp: Seq<i32>,
    acc: Seq<WireValue>,
)
    requires
        well_typed(sig, vs),
        0 <= i <= vs.len(),
    ensures
        decode_values(
            p + encode_values(vs.skip(i)),
            p.len() as int,
            sig,
            i,
            fp + values_fds(vs.skip(i)),
            fp.len() as int,
            acc,
        ) == Ok::<(Seq<WireValue>, int), DecodeError>(
            (acc + vs.skip(i), (fp.len() + values_fds(vs.skip(i)).len()) as int),
        ),
    decreases vs.len() - i,
{
    let rest = vs.skip(i);
    if i == vs.len() {
        assert(rest =~= Seq::<WireValue>::empty());
        assert(p + encode_values(rest) =~= p);
        assert(fp + values_fds(rest) =~= fp);
        assert(acc + rest =~= acc);
    } else {
        let v = vs[i];
        assert(rest[0] == v);
        assert(rest.drop_first() =~= vs.skip(i + 1));
        let er = encode_values(vs.skip(i + 1));
        let fr = values_fds(vs.skip(i + 1));
        assert(p + encode_values(rest) =~= p + encode_value(v) + er);
        assert(fp + values_fds(rest) =~= fp + value_fds(v) + fr);
        assert(has_type(sig[i], vs[i]) && fits(vs[i]));
        lemma_decode_value_encoded(p, v, er, sig[i], fp, fr);
        lemma_decode_values_encoded(p + encode_value(v), sig, vs, i + 1, fp + value_fds(v), acc.push(v));
        assert(p + encode_value(v) + er =~= (p + encode_value(v)) + er);
        assert(fp + value_fds(v) + fr =~= (fp + value_fds(v)) + fr);
        assert(acc.push(v) + vs.skip(i + 1) =~= acc + rest);
    }
}

proof fn lemma_decode_values_short_fds(
    p: Seq<u8>,
    sig: Seq<ArgType>,
    vs: Seq<WireValue>,
    i: int,
    fds: Seq<i32>,
    fpos: int,
    acc: Seq<WireValue>,
)
    requires
        well_typed(sig, vs),
        0 <= i <= vs.len(),
        0 <= fpos <= fds.len(),
        fpos + values_fds(vs.skip(i)).len() > fds.len(),
    ensures
        decode_values(p + encode_values(vs.skip(i)), p.len() as int, sig, i, fds, fpos, acc)
            == Err::<(Seq<WireValue>, int), DecodeError>(DecodeError::MissingFd),
    decreases vs.len() - i,
{
    let rest = vs.skip(i);
    if i == vs.len() {
        assert(rest =~= Seq::<WireValue>::empty());
        assert(values_fds(rest) =~= Seq::<i32>::empty());
    } else {
        let v = vs[i];
        assert(rest[0] == v);
        assert(rest.drop_first() =~= vs.skip(i + 1));
        let er = encode_values(vs.skip(i + 1));
        assert(p + encode_values(rest) =~= (p + encode_value(v)) + er);
        assert(has_type(sig[i], vs[i]) && fits(vs[i]));
        if v is Fd {
            if fpos < fds.len() {
                assert(encode_value(v) =~= Seq::<u8>::empty());
                assert((p + encode_value(v)) =~= p);
                lemma_decode_values_short_fds(p, sig, vs, i + 1, fds, fpos + 1, acc.push(WireValue::Fd(fds[fpos])));
            }
        } else {
            assert(value_fds(v) =~= Seq::<i32>::empty());
            assert(fds.take(fpos) + value_fds(v) + fds.skip(fpos) =~= fds);
            lemma_decode_value_encoded(p, v, er, sig[i], fds.take(fpos), fds.skip(fpos));
            assert(p + encode_value(v) + er =~= (p + encode_value(v)) + er);
            lemma_decode_values_short_fds(p + encode_value(v), sig, vs, i + 1, fds, fpos, acc.push(v));
        }
    }
}

/// Decoding well-typed arguments with fewer descriptors queued than their
/// descriptor arguments need fails as a framing error: never a partial
/// result.
pub proof fn lemma_missing_fds(sig: Seq<ArgType>, vs: Seq<WireValue>, fds: Seq<i32>)
    requires
        well_typed(sig, vs),
        fds.len() < values_fds(vs).len(),
    ensures
        decode_body(encode_values(vs), sig, fds) == Err::<(Seq<WireValue>, int), DecodeError>(
            DecodeError::MissingFd,
        ),
{
    assert(vs.skip(0) =~= vs);
    lemma_decode_values_short_fds(Seq::empty(), sig, vs, 0, fds, 0, Seq::empty());
    assert(Seq::<u8>::empty() + encode_values(vs) =~= encode_values(vs));
}

/// Encoding well-typed arguments and decoding the bytes with the same
/// signature and the descriptors that the encoding set aside gives the
/// arguments back, and takes every descriptor.
pub proof fn lemma_round_trip(sig: Seq<ArgType>, vs: Seq<WireValue>)
    requires
        well_typed(sig, vs),
    ensures
        decode_body(encode_values(vs), sig, values_fds(vs)) == Ok::<(Seq<WireValue>, int), DecodeError>(
            (vs, values_fds(vs).len() as int),
        ),
{
    lemma_decode_values_encoded(Seq::empty(), sig, vs, 0, Seq::empty(), Seq::empty());
    assert(vs.skip(0) =~= vs);
    assert(Seq::<u8>::empty() + encode_values(vs) =~= encode_values(vs));
    assert(Seq::<i32>::empty() + values_fds(vs) =~= values_fds(vs));
    assert(Seq::<WireValue>::empty() + vs =~= vs);
}

proof fn lemma_encode_push(vs: Seq<WireValue>, v: WireValue)
    ensures
        encode_values(vs.push(v)) == encode_values(vs) + encode_value(v),
        values_fds(vs.push(v)) == values_fds(vs) + value_fds(v),
    decreases vs.len(),
{
    if vs.len() == 0 {
        assert(vs.push(v).drop_first() =~= Seq::<WireValue>::empty());
        assert(vs.push(v)[0] == v);
        assert(encode_values(vs.push(v).drop_first()) =~= Seq::<u8>::empty());
        assert(values_fds(vs.push(v).drop_first()) =~= Seq::<i32>::empty());
        assert(encode_values(vs) =~= Seq::<u8>::empty());
        assert(values_fds(vs) =~= Seq::<i32>::empty());
        assert(encode_values(vs.push(v)) =~= encode_value(v));
        assert(values_fds(vs.push(v)) =~= value_fds(v));
    } else {
        assert(vs.push(v).drop_first() =~= vs.drop_first().push(v));
        lemma_encode_push(vs.drop_first(), v);
        assert(encode_values(vs.push(v)) =~= encode_values(vs) + encode_value(v));
        assert(values_fds(vs.push(v)) =~= values_fds(vs) + value_fds(v));
    }
}

fn push_word(out: &mut Vec<u8>, w: u32)
    ensures
        final(out)@ == old(out)@ + word(w),
{
    out.push((w & 0xff) as u8);
    out.push(((w >> 8) & 0xff) as u8);
    out.push(((w >> 16) & 0xff) as u8);
    out.push(((w >> 24) & 0xff) as u8);
    assert(final(out)@ =~= old(out)@ + word(w));
}

fn push_bytes(out: &mut Vec<u8>, c: &[u8])
    ensures
        final(out)@ == old(out)@ + c@,
{
    let ghost start = out@;
    let mut i: usize = 0;
    while i < c.len()
        invariant
            i <= c@.len(),
            out@ == start + c@.take(i as int),
        decreases c@.len() - i,
    {
        out.push(c[i]);
        assert(c@.take(i + 1) =~= c@.take(i as int).push(c@[i as int]));
        i = i + 1;
    }
    assert(c@.take(c@.len() as int) =~= c@);
}

fn push_zeros(out: &mut Vec<u8>, n: usize)
    ensures
        final(out)@ == old(out)@ + zeros(n as int),
{
    let ghost start = out@;
    let mut i: usize = 0;
    while i < n
        invariant
            i <= n,
            out@ == start + zeros(i as int),
        decreases n - i,
    {
        out.push(0u8);
        assert(zeros(i + 1) =~= zeros(i as int).push(0u8));
        i = i + 1;
    }
}

fn pad_len(n: usize) -> (r: usize)
    ensures
        r == pad(n as int),
        r < 4,
{
    (4 - n % 4) % 4
}

fn string_fits(c: &Vec<u8>) -> (r: bool)
    ensures
        r == (c@.len() + 1 <= u32::MAX),
{
    c.len() < 0xffff_ffff
}

fn value_fits(v: &ArgValue) -> (r: bool)
    ensures
        r == fits(v@),
{
    match v {
        ArgValue::Str(Some(c)) => string_fits(c),
        ArgValue::UnspecifiedNewId { interface, .. } => string_fits(interface),
        ArgValue::Array(a) => a.len() <= 0xffff_ffff,
        _ => true,
    }
}

/// Whether a value has the type that the signature asks for.
pub fn type_matches(t: &ArgType, v: &ArgValue) -> (r: bool)
    ensures
        r == has_type(*t, v@),
{
    match (t, v) {
        (ArgType::Int, ArgValue::Int(_)) => true,
        (ArgType::UInt, ArgValue::UInt(_)) => true,
        (ArgType::Enum(_), ArgValue::UInt(_)) => true,
        (ArgType::Fixed, ArgValue::Fixed(_)) => true,
        (ArgType::String, ArgValue::Str(_)) => true,
        (ArgType::Object(_), ArgValue::Object(_)) => true,
        (ArgType::NewId(_), ArgValue::NewId(_)) => true,
        (ArgType::UnspecifiedNewId, ArgValue::UnspecifiedNewId { .. }) => true,
        (ArgType::Array, ArgValue::Array(_)) => true,
        (ArgType::Fd, ArgValue::Fd(_)) => true,
        _ => false,
    }
}

fn encode_string_into(s: &Option<Vec<u8>>, out: &mut Vec<u8>)
    requires
        s matches Some(c) ==> c@.len() + 1 <= u32::MAX,
    ensures
        final(out)@ == old(out)@ + encode_string(
            match s {
                Some(c) => Some(c@),
                None => None,
            },
        ),
{
    match s {
        None => push_word(out, 0),
        Some(c) => {
            let n = c.len() + 1;
            push_word(out, n as u32);
            push_bytes(out, c.as_slice());
            out.push(0u8);
            push_zeros(out, pad_len(n));
            assert(final(out)@ =~= old(out)@ + (word(n as u32) + c@ + seq![0u8] + zeros(pad(n as int))));
        },
    }
}

fn encode_value_into(v: &ArgValue, out: &mut Vec<u8>, fds: &mut Vec<i32>)
    requires
        fits(v@),
    ensures
        final(out)@ == old(out)@ + encode_value(v@),
        final(fds)@ == old(fds)@ + value_fds(v@),
{
    match v {
        ArgValue::Int(x) => push_word(out, *x as u32),
        ArgValue::UInt(x) => push_word(out, *x),
        ArgValue::Fixed(f) => push_word(out, f.to_bits() as u32),
        ArgValue::Str(s) => encode_string_into(s, out),
        ArgValue::Object(x) => push_word(out, *x),
        ArgValue::NewId(x) => push_word(out, *x),
        ArgValue::UnspecifiedNewId { interface, version, id } => {
            let ghost start = out@;
            let name = Some(interface.clone());
            encode_string_into(&name, out);
            push_word(out, *version);
            push_word(out, *id);
            assert(final(out)@ =~= start + (encode_string(Some(interface@)) + word(*version) + word(*id)));
        },
        ArgValue::Array(a) => {
            let ghost start = out@;
            push_word(out, a.len() as u32);
            push_bytes(out, a.as_slice());
            push_zeros(out, pad_len(a.len()));
            assert(final(out)@ =~= start + encode_blob(a@));
        },
        ArgValue::Fd(fd) => {
            fds.push(*fd);
            assert(final(fds)@ =~= old(fds)@ + seq![*fd]);
        },
    }
    proof {
        if !(v is Fd) {
            assert(final(fds)@ =~= old(fds)@ + value_fds(v@));
        }
        if v is Fd {
            assert(final(out)@ =~= old(out)@ + encode_value(v@));
        }
    }
}

/// Encodes arguments against their signature: the body bytes, and the
/// descriptors to send beside them in argument order.
pub fn encode_args(sig: &[ArgType], vals: &[ArgValue]) -> (r: Result<(Vec<u8>, Vec<i32>), EncodeError>)
    ensures
        match r {
            Ok((b, f)) => {
                &&& well_typed(sig@, values_view(vals@))
                &&& b@ == encode_values(values_view(vals@))
                &&& f@ == values_fds(values_view(vals@))
            },
            Err(EncodeError::Mismatch) => !(sig@.len() == vals@.len() && forall|k: int|
                0 <= k < vals@.len() ==> has_type(sig@[k], #[trigger] vals@[k]@)),
            Err(EncodeError::TooLarge) => sig@.len() == vals@.len() && (forall|k: int|
                0 <= k < vals@.len() ==> has_type(sig@[k], #[trigger] vals@[k]@)) && exists|k: int|
                0 <= k < vals@.len() && !fits(#[trigger] vals@[k]@),
        },
{
    if sig.len() != vals.len() {
        return Err(EncodeError::Mismatch);
    }
    let mut i: usize = 0;
    while i < vals.len()
        invariant
            sig@.len() == vals@.len(),
            i <= vals@.len(),
            forall|k: int| 0 <= k < i ==> has_type(sig@[k], #[trigger] vals@[k]@),
        decreases vals@.len() - i,
    {
        if !type_matches(&sig[i], &vals[i]) {
            return Err(EncodeError::Mismatch);
        }
        i = i + 1;
    }
    let mut i: usize = 0;
    while i < vals.len()
        invariant
            sig@.len() == vals@.len(),
            i <= vals@.len(),
            forall|k: int| 0 <= k < vals@.len() ==> has_type(sig@[k], #[trigger] vals@[k]@),
            forall|k: int| 0 <= k < i ==> fits(#[trigger] vals@[k]@),
        decreases vals@.len() - i,
    {
        if !value_fits(&vals[i]) {
            return Err(EncodeError::TooLarge);
        }
        i = i + 1;
    }
    let ghost vs = values_view(vals@);
    assert(well_typed(sig@, vs));
    let mut out: Vec<u8> = Vec::new();
    let mut fds: Vec<i32> = Vec::new();
    let mut i: usize = 0;
    while i < vals.len()
        invariant
            vs == values_view(vals@),
            well_typed(sig@, vs),
            i <= vals@.len(),
            out@ == encode_values(vs.take(i as int)),
            fds@ == values_fds(vs.take(i as int)),
        decreases vals@.len() - i,
    {
        assert(fits(vs[i as int]));
        encode_value_into(&vals[i], &mut out, &mut fds);
        proof {
            assert(vs.take(i + 1) =~= vs.take(i as int).push(vs[i as int]));
            lemma_encode_push(vs.take(i as int), vs[i as int]);
        }
        i = i + 1;
    }
    assert(vs.take(vals@.len() as int) =~= vs);
    Ok((out, fds))
}

fn read_word_at(b: &[u8], pos: usize) -> (r: u32)
    requires
        pos + 4 <= b@.len(),
    ensures
        r == read_word(b@, pos as int),
{
    (b[pos] as u32) | ((b[pos + 1] as u32) << 8) | ((b[pos + 2] as u32) << 16) | ((b[pos + 3] as u32)
        << 24)
}

fn copy_range(b: &[u8], from: usize, to: usize) -> (r: Vec<u8>)
    requires
        from <= to <= b@.len(),
    ensures
        r@ == b@.subrange(from as int, to as int),
{
    let mut out: Vec<u8> = Vec::new();
    let mut i: usize = from;
    while i < to
        invariant
            from <= i <= to <= b@.len(),
            out@ == b@.subrange(from as int, i as int),
        decreases to - i,
    {
        out.push(b[i]);
        assert(b@.subrange(from as int, i + 1) =~= b@.subrange(from as int, i as int).push(b@[i as int]));
        i = i + 1;
    }
    out
}

fn decode_string_at(b: &[u8], pos: usize) -> (r: Result<(Option<Vec<u8>>, usize), DecodeError>)
    requires
        pos <= b@.len(),
    ensures
        match decode_string(b@, pos as int) {
            Ok((s, p)) => r matches Ok((s2, p2)) && p2 == p && match s2 {
                Some(c) => s == Some(c@),
                None => s is None,
            },
            Err(e) => r == Err::<(Option<Vec<u8>>, usize), DecodeError>(e),
        },
{
    if b.len() - pos < 4 {
        return Err(DecodeError::Truncated);
    }
    let n = read_word_at(b, pos) as usize;
    if n == 0 {
        return Ok((None, pos + 4));
    }
    let avail = b.len() - pos - 4;
    if n > avail || pad_len(n) > avail - n {
        return Err(DecodeError::Truncated);
    }
    if b[pos + 4 + n - 1] != 0 {
        return Err(DecodeError::BadString);
    }
    let c = copy_range(b, pos + 4, pos + 4 + n - 1);
    Ok((Some(c), pos + 4 + n + pad_len(n)))
}

fn decode_value_at(b: &[u8], pos: usize, t: &ArgType, fds: &[i32], fpos: usize) -> (r: Result<
    (ArgValue, usize, usize),
    DecodeError,
>)
    requires
        pos <= b@.len(),
        fpos <= fds@.len(),
    ensures
        match decode_value(b@, pos as int, *t, fds@, fpos as int) {
            Ok((v, p, f)) => r matches Ok((v2, p2, f2)) && v2@ == v && p2 == p && f2 == f,
            Err(e) => r == Err::<(ArgValue, usize, usize), DecodeError>(e),
        },
{
    match t {
        ArgType::Fd => if fpos < fds.len() {
            Ok((ArgValue::Fd(fds[fpos]), pos, fpos + 1))
        } else {
            Err(DecodeError::MissingFd)
        },
        ArgType::String => match decode_string_at(b, pos) {
            Ok((s, p)) => Ok((ArgValue::Str(s), p, fpos)),
            Err(e) => Err(e),
        },
        ArgType::UnspecifiedNewId => match decode_string_at(b, pos) {
            Ok((Some(name), p)) => if b.len() - p < 8 {
                Err(DecodeError::Truncated)
            } else {
                let version = read_word_at(b, p);
                let id = read_word_at(b, p + 4);
                Ok((ArgValue::UnspecifiedNewId { interface: name, version, id }, p + 8, fpos))
            },
            Ok((None, _)) => Err(DecodeError::BadString),
            Err(e) => Err(e),
        },
        ArgType::Array => {
            if b.len() - pos < 4 {
                return Err(DecodeError::Truncated);
            }
            let n = read_word_at(b, pos) as usize;
            let avail = b.len() - pos - 4;
            if n > avail || pad_len(n) > avail - n {
                return Err(DecodeError::Truncated);
            }
            let a = copy_range(b, pos + 4, pos + 4 + n);
            Ok((ArgValue::Array(a), pos + 4 + n + pad_len(n), fpos))
        },
        _ => {
            if b.len() - pos < 4 {
                return Err(DecodeError::Truncated);
            }
            let w = read_word_at(b, pos);
            let v = match t {
                ArgType::Int => ArgValue::Int(w as i32),
                ArgType::Fixed => ArgValue::Fixed(Fixed::from_bits(w as i32)),
                ArgType::Object(_) => ArgValue::Object(w),
                ArgType::NewId(_) => ArgValue::NewId(w),
                _ => ArgValue::UInt(w),
            };
            Ok((v, pos + 4, fpos))
        },
    }
}

proof fn lemma_decode_values_fd_bound(
    b: Seq<u8>,
    pos: int,
    sig: Seq<ArgType>,
    i: int,
    fds: Seq<i32>,
    fpos: int,
    acc: Seq<WireValue>,
)
    requires
        0 <= fpos <= fds.len(),
    ensures
        decode_values(b, pos, sig, i, fds, fpos, acc) matches Ok((_, f)) ==> fpos <= f <= fds.len(),
    decreases sig.len() - i,
{
    if i < sig.len() {
        match decode_value(b, pos, sig[i], fds, fpos) {
            Ok((v, p, f)) => {
                assert(fpos <= f <= fds.len());
                lemma_decode_values_fd_bound(b, p, sig, i + 1, fds, f, acc.push(v));
            },
            Err(_) => {},
        }
    }
}

/// Decodes a message body against its signature, taking descriptors from
/// the front of `fds`: the values and the number of descriptors taken.
pub fn decode_args(b: &[u8], sig: &[ArgType], fds: &[i32]) -> (r: Result<(Vec<ArgValue>, usize), DecodeError>)
    ensures
        match decode_body(b@, sig@, fds@) {
            Ok((vs, f)) => r matches Ok((v2, f2)) && values_view(v2@) == vs && f2 == f,
            Err(e) => r == Err::<(Vec<ArgValue>, usize), DecodeError>(e),
        },
        r matches Ok((_, f)) ==> f <= fds@.len(),
{
    proof {
        lemma_decode_values_fd_bound(b@, 0, sig@, 0, fds@, 0, Seq::empty());
    }
    let mut out: Vec<ArgValue> = Vec::new();
    let mut pos: usize = 0;
    let mut fpos: usize = 0;
    let mut i: usize = 0;
    assert(values_view(out@) =~= Seq::<WireValue>::empty());
    while i < sig.len()
        invariant
            i <= sig@.len(),
            pos <= b@.len(),
            fpos <= fds@.len(),
            decode_body(b@, sig@, fds@) == decode_values(
                b@,
                pos as int,
                sig@,
                i as int,
                fds@,
                fpos as int,
                values_view(out@),
            ),
        decreases sig@.len() - i,
    {
        match decode_value_at(b, pos, &sig[i], fds, fpos) {
            Ok((v, p, f)) => {
                let ghost before = out@;
                out.push(v);
                assert(values_view(out@) =~= values_view(before).push(v@));
                pos = p;
                fpos = f;
            },
            Err(e) => return Err(e),
        }
        i = i + 1;
    }
    if pos != b.len() {
        return Err(DecodeError::TrailingBytes);
    }
    Ok((out, fpos))
}

/// A message header: the object it concerns, the opcode, and the length
/// of the whole message in bytes, header included.
#[derive(Clone, Copy, Debug, PartialEq, Eq, Structural)]
pub struct Header {
    pub object_id: u32,
    pub opcode: u16,
    pub size: u16,
}

/// The header's second word: the length in the high half, the opcode in
/// the low half.
pub open spec fn size_opcode_word(opcode: u16, size: int) -> u32 {
    (size * 65536 + opcode) as u32
}

/// A whole message: header, then body.
pub open spec fn message_bytes(object_id: u32, opcode: u16, body: Seq<u8>) -> Seq<u8> {
    word(object_id) + word(size_opcode_word(opcode, 8 + body.len() as int)) + body
}

/// The header at the start of some bytes.
pub open spec fn header_of(b: Seq<u8>) -> Header {
    Header {
        object_id: read_word(b, 0),
        opcode: (read_word(b, 4) % 65536) as u16,
        size: (read_word(b, 4) / 65536) as u16,
    }
}

/// The fewest body bytes that an argument of this type takes.
pub open spec fn min_arg_size(t: ArgType) -> int {
    match t {
        ArgType::Fd => 0,
        ArgType::UnspecifiedNewId => 16,
        _ => 4,
    }
}

/// Whether the bytes an argument of this type takes depend on its value.
pub open spec fn is_variable(t: ArgType) -> bool {
    t is String || t is Array || t is UnspecifiedNewId
}

pub open spec fn min_body(sig: Seq<ArgType>) -> int
    decreases sig.len(),
{
    if sig.len() == 0 {
        0
    } else {
        min_arg_size(sig[0]) + min_body(sig.drop_first())
    }
}

/// Whether a declared message length can be that of a message with this
/// signature: whole words, room for every argument, and exactly the fixed
/// size where no argument varies in size.
pub open spec fn frame_fits(size: int, sig: Seq<ArgType>) -> bool {
    &&& size >= 8
    &&& size % 4 == 0
    &&& min_body(sig) <= size - 8
    &&& (forall|k: int| 0 <= k < sig.len() ==> !is_variable(#[trigger] sig[k])) ==> size - 8
        == min_body(sig)
}

proof fn lemma_min_body_suffix(sig: Seq<ArgType>, i: int)
    requires
        0 <= i <= sig.len(),
    ensures
        min_body(sig.skip(i)) <= min_body(sig),
        min_body(sig.skip(i)) >= 0,
    decreases i,
{
    lemma_min_body_nonneg(sig.skip(i));
    if i > 0 {
        lemma_min_body_suffix(sig, i - 1);
        assert(sig.skip(i - 1).drop_first() =~= sig.skip(i));
    } else {
        assert(sig.skip(0) =~= sig);
        lemma_min_body_nonneg(sig);
    }
}

proof fn lemma_min_body_nonneg(sig: Seq<ArgType>)
    ensures
        min_body(sig) >= 0,
    decreases sig.len(),
{
    if sig.len() > 0 {
        lemma_min_body_nonneg(sig.drop_first());
    }
}

proof fn lemma_value_size(t: ArgType, v: WireValue)
    requires
        has_type(t, v),
        fits(v),
    ensures
        encode_value(v).len() % 4 == 0,
        encode_value(v).len() >= min_arg_size(t),
        !is_variable(t) ==> encode_value(v).len() == min_arg_size(t),
{
    match v {
        WireValue::Str(Some(c)) => {
            lemma_pad(c.len() + 1 as int);
        },
        WireValue::UnspecifiedNewId(name, _, _) => {
            lemma_pad(name.len() + 1 as int);
        },
        WireValue::Array(a) => {
            lemma_pad(a.len() as int);
        },
        _ => {},
    }
}

proof fn lemma_body_size(sig: Seq<ArgType>, vs: Seq<WireValue>)
    requires
        well_typed(sig, vs),
    ensures
        encode_values(vs).len() % 4 == 0,
        encode_values(vs).len() >= min_body(sig),
        (forall|k: int| 0 <= k < sig.len() ==> !is_variable(#[trigger] sig[k])) ==> encode_values(
            vs,
        ).len() == min_body(sig),
    decreases vs.len(),
{
    if vs.len() > 0 {
        assert(has_type(sig[0], vs[0]) && fits(vs[0]));
        lemma_value_size(sig[0], vs[0]);
        let s2 = sig.drop_first();
        let v2 = vs.drop_first();
        assert forall|k: int| 0 <= k < v2.len() implies has_type(s2[k], #[trigger] v2[k]) && fits(v2[k]) by {
            assert(has_type(sig[k + 1], vs[k + 1]) && fits(vs[k + 1]));
        }
        lemma_body_size(s2, v2);
        if forall|k: int| 0 <= k < sig.len() ==> !is_variable(#[trigger] sig[k]) {
            assert(!is_variable(sig[0]));
            assert forall|k: int| 0 <= k < s2.len() implies !is_variable(#[trigger] s2[k]) by {
                assert(!is_variable(sig[k + 1]));
            }
        }
    }
}

/// Every message that the codec writes passes the frame check that
/// decoding applies: the check never turns away a well-formed message.
pub proof fn lemma_encoded_frame_fits(sig: Seq<ArgType>, vs: Seq<WireValue>)
    requires
        well_typed(sig, vs),
    ensures
        frame_fits(8 + encode_values(vs).len() as int, sig),
{
    lemma_body_size(sig, vs);
}

/// A message that the codec writes reads back whole: its header gives the
/// object, the opcode and the length; the length passes the frame check;
/// and the body decodes to the arguments, taking all their descriptors.
pub proof fn lemma_message_round_trip(object_id: u32, opcode: u16, sig: Seq<ArgType>, vs: Seq<WireValue>)
    requires
        well_typed(sig, vs),
        8 + encode_values(vs).len() <= 0xffff,
    ensures
        ({
            let b = message_bytes(object_id, opcode, encode_values(vs));
            &&& header_of(b) == Header { object_id, opcode, size: b.len() as u16 }
            &&& frame_fits(b.len() as int, sig)
            &&& decode_body(b.skip(8), sig, values_fds(vs)) == Ok::<(Seq<WireValue>, int), DecodeError>(
                (vs, values_fds(vs).len() as int),
            )
        }),
{
    let body = encode_values(vs);
    let size = 8 + body.len();
    let w = size_opcode_word(opcode, size as int);
    let b = message_bytes(object_id, opcode, body);
    assert(b.subrange(0, 4) =~= word(object_id));
    assert(b.subrange(4, 8) =~= word(w));
    lemma_read_written(b, 0, object_id);
    lemma_read_written(b, 4, w);
    assert(w == size * 65536 + opcode) by (nonlinear_arith)
        requires
            size <= 0xffff,
            w == (size * 65536 + opcode) as u32,
            opcode < 65536,
    ;
    assert(w % 65536 == opcode && w / 65536 == size) by (nonlinear_arith)
        requires
            w == size * 65536 + opcode,
            0 <= opcode < 65536,
    ;
    assert(b.skip(8) =~= body);
    lemma_encoded_frame_fits(sig, vs);
    lemma_round_trip(sig, vs);
}

/// Checks a declared message length against a signature.
pub fn check_frame(size: u16, sig: &[ArgType]) -> (r: bool)
    ensures
        r == frame_fits(size as int, sig@),
{
    if size < 8 || size % 4 != 0 {
        return false;
    }
    let room: u64 = (size - 8) as u64;
    let mut need: u64 = 0;
    let mut fixed_only = true;
    let mut i: usize = sig.len();
    while i > 0
        invariant
            i <= sig@.len(),
            need == min_body(sig@.skip(i as int)),
            room <= 0xffff,
            room == size - 8,
            need <= room,
            fixed_only == forall|k: int| i <= k < sig@.len() ==> !is_variable(#[trigger] sig@[k]),
        decreases i,
    {
        let t = &sig[i - 1];
        let add: u64 = match t {
            ArgType::Fd => 0,
            ArgType::UnspecifiedNewId => 16,
            _ => 4,
        };
        let var = match t {
            ArgType::String | ArgType::Array | ArgType::UnspecifiedNewId => true,
            _ => false,
        };
        assert(sig@.skip(i - 1).drop_first() =~= sig@.skip(i as int));
        assert(sig@.skip(i - 1)[0] == sig@[i - 1]);
        need = need + add;
        if need > room {
            proof {
                lemma_min_body_suffix(sig@, i - 1);
            }
            return false;
        }
        fixed_only = fixed_only && !var;
        i = i - 1;
    }
    assert(sig@.skip(0) =~= sig@);
    if fixed_only {
        need == room
    } else {
        true
    }
}

/// Reads the header at the start of a message.
pub fn decode_header(b: &[u8]) -> (r: Option<Header>)
    ensures
        match r {
            Some(h) => b@.len() >= 8 && h == header_of(b@),
            None => b@.len() < 8,
        },
{
    if b.len() < 8 {
        return None;
    }
    let w = read_word_at(b, 4);
    Some(Header { object_id: read_word_at(b, 0), opcode: (w % 65536) as u16, size: (w / 65536) as u16 })
}

/// Encodes a whole message: header and arguments, and the descriptors to
/// send with it.
pub fn encode_message(object_id: u32, opcode: u16, sig: &[ArgType], vals: &[ArgValue]) -> (r: Result<
    (Vec<u8>, Vec<i32>),
    EncodeError,
>)
    ensures
        match r {
            Ok((b, f)) => {
                &&& well_typed(sig@, values_view(vals@))
                &&& 8 + encode_values(values_view(vals@)).len() <= 0xffff
                &&& b@ == message_bytes(object_id, opcode, encode_values(values_view(vals@)))
                &&& f@ == values_fds(values_view(vals@))
            },
            Err(EncodeError::Mismatch) => !(sig@.len() == vals@.len() && forall|k: int|
                0 <= k < vals@.len() ==> has_type(sig@[k], #[trigger] vals@[k]@)),
            Err(EncodeError::TooLarge) => sig@.len() == vals@.len() && (forall|k: int|
                0 <= k < vals@.len() ==> has_type(sig@[k], #[trigger] vals@[k]@)) && ((exists|k: int|
                0 <= k < vals@.len() && !fits(#[trigger] vals@[k]@)) || 8 + encode_values(
                values_view(vals@),
            ).len() > 0xffff),
        },
{
    let (body, fds) = match encode_args(sig, vals) {
        Ok(x) => x,
        Err(e) => return Err(e),
    };
    if body.len() > 0xffff - 8 {
        assert forall|k: int| 0 <= k < vals@.len() implies has_type(sig@[k], #[trigger] vals@[k]@) by {
            assert(values_view(vals@)[k] == vals@[k]@);
        }
        return Err(EncodeError::TooLarge);
    }
    let size: u32 = 8 + body.len() as u32;
    let mut out: Vec<u8> = Vec::new();
    push_word(&mut out, object_id);
    push_word(&mut out, size * 65536 + opcode as u32);
    push_bytes(&mut out, body.as_slice());
    Ok((out, fds))
}

/// Decodes a whole message against the signature that its header selects.
/// The declared length is held against the signature before any argument
/// is read.
pub fn decode_message(msg: &[u8], sig: &[ArgType], fds: &[i32]) -> (r: Result<(Vec<ArgValue>, usize), DecodeError>)
    ensures
        msg@.len() < 8 ==> r == Err::<(Vec<ArgValue>, usize), DecodeError>(DecodeError::BadFrame),
        msg@.len() >= 8 && (header_of(msg@).size != msg@.len() || !frame_fits(header_of(msg@).size as int, sig@)) ==> r
            == Err::<(Vec<ArgValue>, usize), DecodeError>(DecodeError::BadFrame),
        msg@.len() >= 8 && header_of(msg@).size == msg@.len() && frame_fits(header_of(msg@).size as int, sig@) ==> match decode_body(msg@.skip(8), sig@, fds@) {
            Ok((vs, f)) => r matches Ok((v2, f2)) && values_view(v2@) == vs && f2 == f,
            Err(e) => r == Err::<(Vec<ArgValue>, usize), DecodeError>(e),
        },
        r matches Ok((_, f)) ==> f <= fds@.len(),
{
    let h = match decode_header(msg) {
        Some(h) => h,
        None => return Err(DecodeError::BadFrame),
    };
    if h.size as usize != msg.len() || !check_frame(h.size, sig) {
        return Err(DecodeError::BadFrame);
    }
    let body = copy_range(msg, 8, msg.len());
    assert(body@ =~= msg@.skip(8));
    decode_args(body.as_slice(), sig, fds)
}

} // verus!
