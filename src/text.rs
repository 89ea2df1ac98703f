//! Text helpers for the schema compiler: identifier shaping, numeric
//! literals and comparisons, each with its meaning stated on character
//! sequences.
use vstd::prelude::*;

verus! {

/// Relies on `String::push`: appends one character.
#[verifier::external_body]
pub(crate) fn push_char(s: &mut String, c: char)
    ensures
        final(s)@ == old(s)@.push(c),
{
    s.push(c)
}

/// Whether a character has the Unicode `White_Space` property, as
/// `char::is_whitespace` decides.
pub open spec fn is_white_space(c: char) -> bool {
    ('\t' <= c <= '\r') || c == ' ' || c == '\u{85}' || c == '\u{a0}' || c == '\u{1680}' || (
    '\u{2000}' <= c <= '\u{200a}') || c == '\u{2028}' || c == '\u{2029}' || c == '\u{202f}' || c
        == '\u{205f}' || c == '\u{3000}'
}

pub open spec fn trim_start(s: Seq<char>) -> Seq<char>
    decreases s.len(),
{
    if s.len() > 0 && is_white_space(s[0]) {
        trim_start(s.drop_first())
    } else {
        s
    }
}

pub open spec fn trim_end(s: Seq<char>) -> Seq<char>
    decreases s.len(),
{
    if s.len() > 0 && is_white_space(s.last()) {
        trim_end(s.drop_last())
    } else {
        s
    }
}

/// A text without its leading and trailing white space.
pub open spec fn trimmed(s: Seq<char>) -> Seq<char> {
    trim_end(trim_start(s))
}

fn white_space_char(c: char) -> (r: bool)
    ensures
        r == is_white_space(c),
{
    ('\t' <= c && c <= '\r') || c == ' ' || c == '\u{85}' || c == '\u{a0}' || c == '\u{1680}' || (
    '\u{2000}' <= c && c <= '\u{200a}') || c == '\u{2028}' || c == '\u{2029}' || c == '\u{202f}'
        || c == '\u{205f}' || c == '\u{3000}'
}

/// The text without its leading and trailing white space.
pub fn trim_text(s: &str) -> (r: String)
    ensures
        r@ == trimmed(s@),
{
    let n = s.unicode_len();
    let mut i: usize = 0;
    assert(s@.skip(0) =~= s@);
    while i < n && white_space_char(s.get_char(i))
        invariant
            n == s@.len(),
            i <= n,
            trim_start(s@) == trim_start(s@.skip(i as int)),
        decreases n - i,
    {
        assert(s@.skip(i as int).drop_first() =~= s@.skip(i + 1));
        i = i + 1;
    }
    assert(trim_start(s@.skip(i as int)) == s@.skip(i as int));
    assert(s@.skip(i as int) =~= s@.subrange(i as int, n as int));
    let mut j: usize = n;
    while j > i && white_space_char(s.get_char(j - 1))
        invariant
            n == s@.len(),
            i <= j <= n,
            trim_end(s@.subrange(i as int, n as int)) == trim_end(s@.subrange(i as int, j as int)),
        decreases j,
    {
        assert(s@.subrange(i as int, j as int).drop_last() =~= s@.subrange(i as int, j - 1));
        j = j - 1;
    }
    assert(trim_end(s@.subrange(i as int, j as int)) == s@.subrange(i as int, j as int));
    s.substring_char(i, j).to_owned()
}

/// What `syn::parse_str::<syn::Ident>` decides: whether the text is exactly
/// one Rust identifier that is not a keyword.
pub uninterp spec fn parses_as_ident(s: Seq<char>) -> bool;

pub open spec fn is_ascii_digit(c: char) -> bool {
    '0' <= c <= '9'
}

/// Relies on `syn::parse_str::<syn::Ident>`: empty text and text that
/// starts with a digit (a numeric literal to the lexer) are no identifiers.
#[verifier::external_body]
pub(crate) fn is_identifier(s: &str) -> (r: bool)
    ensures
        r == parses_as_ident(s@),
        s@.len() == 0 ==> !r,
        s@.len() > 0 && is_ascii_digit(s@[0]) ==> !r,
{
    syn::parse_str::<syn::Ident>(s).is_ok()
}

pub open spec fn ascii_upper(c: char) -> char {
    if 'a' <= c <= 'z' {
        ((c as u32) - 32) as char
    } else {
        c
    }
}

pub open spec fn ascii_lower(c: char) -> char {
    if 'A' <= c <= 'Z' {
        ((c as u32) + 32) as char
    } else {
        c
    }
}

/// What the character at `i` contributes to the Pascal-case form: word
/// separators vanish, the first character of each word is upper-cased.
pub open spec fn pascal_piece(s: Seq<char>, i: int) -> Seq<char> {
    if s[i] == '_' {
        Seq::empty()
    } else if i == 0 || s[i - 1] == '_' {
        seq![ascii_upper(s[i])]
    } else {
        seq![s[i]]
    }
}

pub open spec fn pascal_prefix(s: Seq<char>, n: int) -> Seq<char>
    decreases n,
{
    if n <= 0 {
        Seq::empty()
    } else {
        pascal_prefix(s, n - 1) + pascal_piece(s, n - 1)
    }
}

/// The Pascal-case form of a snake-case name: split on `_`, empty words
/// dropped, each word's first character upper-cased, the words joined.
pub open spec fn pascal(s: Seq<char>) -> Seq<char> {
    pascal_prefix(s, s.len() as int)
}

/// The Pascal-case form of a name that starts with a word character starts
/// with that character, upper-cased.
pub proof fn lemma_pascal_first(s: Seq<char>)
    requires
        s.len() > 0,
        s[0] != '_',
    ensures
        pascal(s).len() > 0,
        pascal(s)[0] == ascii_upper(s[0]),
{
    lemma_pascal_prefix_first(s, s.len() as int);
}

proof fn lemma_pascal_prefix_first(s: Seq<char>, n: int)
    requires
        1 <= n <= s.len(),
        s[0] != '_',
    ensures
        pascal_prefix(s, n).len() > 0,
        pascal_prefix(s, n)[0] == ascii_upper(s[0]),
    decreases n,
{
    if n > 1 {
        lemma_pascal_prefix_first(s, n - 1);
    } else {
        assert(pascal_prefix(s, 0) =~= Seq::<char>::empty());
    }
}

fn upper_char(c: char) -> (r: char)
    ensures
        r == ascii_upper(c),
{
    if 'a' <= c && c <= 'z' {
        let b: u8 = c as u8;
        ((b - 32) as char)
    } else {
        c
    }
}

fn lower_char(c: char) -> (r: char)
    ensures
        r == ascii_lower(c),
{
    if 'A' <= c && c <= 'Z' {
        let b: u8 = c as u8;
        ((b + 32) as char)
    } else {
        c
    }
}

/// Converts a snake-case name to Pascal case.
pub fn pascal_case(snake: &str) -> (r: String)
    ensures
        r@ == pascal(snake@),
{
    let n = snake.unicode_len();
    let mut out = String::new();
    let mut at_start = true;
    let mut i: usize = 0;
    while i < n
        invariant
            n == snake@.len(),
            i <= n,
            out@ == pascal_prefix(snake@, i as int),
            at_start == (i == 0 || snake@[i - 1] == '_'),
        decreases n - i,
    {
        let c = snake.get_char(i);
        if c != '_' {
            if at_start {
                push_char(&mut out, upper_char(c));
            } else {
                push_char(&mut out, c);
            }
        }
        at_start = c == '_';
        i = i + 1;
    }
    out
}

/// Whether two texts are the same characters.
pub fn text_eq(a: &str, b: &str) -> (r: bool)
    ensures
        r == (a@ == b@),
{
    let n = a.unicode_len();
    if n != b.unicode_len() {
        return false;
    }
    let mut i: usize = 0;
    while i < n
        invariant
            n == a@.len(),
            n == b@.len(),
            i <= n,
            forall|k: int| 0 <= k < i ==> a@[k] == b@[k],
        decreases n - i,
    {
        if a.get_char(i) != b.get_char(i) {
            return false;
        }
        i = i + 1;
    }
    assert(a@ =~= b@);
    true
}

pub open spec fn eq_ignoring_ascii_case(a: Seq<char>, b: Seq<char>) -> bool {
    a.len() == b.len() && forall|k: int| 0 <= k < a.len() ==> ascii_lower(a[k]) == ascii_lower(b[k])
}

/// Whether two texts are the same up to ASCII letter case.
pub fn text_eq_ignore_ascii_case(a: &str, b: &str) -> (r: bool)
    ensures
        r == eq_ignoring_ascii_case(a@, b@),
{
    let n = a.unicode_len();
    if n != b.unicode_len() {
        return false;
    }
    let mut i: usize = 0;
    while i < n
        invariant
            n == a@.len(),
            n == b@.len(),
            i <= n,
            forall|k: int| 0 <= k < i ==> ascii_lower(a@[k]) == ascii_lower(b@[k]),
        decreases n - i,
    {
        if lower_char(a.get_char(i)) != lower_char(b.get_char(i)) {
            return false;
        }
        i = i + 1;
    }
    true
}

/// The value of a digit in the given radix (10 or 16), if it is one.
pub open spec fn digit_value(c: char, radix: nat) -> Option<nat> {
    if '0' <= c <= '9' {
        Some((c as nat - '0' as nat) as nat)
    } else if radix == 16 && 'a' <= c <= 'f' {
        Some((c as nat - 'a' as nat + 10) as nat)
    } else if radix == 16 && 'A' <= c <= 'F' {
        Some((c as nat - 'A' as nat + 10) as nat)
    } else {
        None
    }
}

pub open spec fn all_digits(s: Seq<char>, radix: nat) -> bool {
    forall|k: int| 0 <= k < s.len() ==> #[trigger] digit_value(s[k], radix) is Some
}

/// The number that a sequence of digits writes, most significant first.
pub open spec fn digits_value(s: Seq<char>, radix: nat) -> nat
    decreases s.len(),
{
    if s.len() == 0 {
        0
    } else {
        digits_value(s.drop_last(), radix) * radix + digit_value(s.last(), radix).unwrap()
    }
}

/// The radix and digits of a numeric literal: `0x` introduces hexadecimal,
/// anything else is decimal.
pub open spec fn literal_digits(s: Seq<char>) -> (Seq<char>, nat) {
    if s.len() >= 2 && s[0] == '0' && s[1] == 'x' {
        (s.skip(2), 16)
    } else {
        (s, 10)
    }
}

/// The value of a numeric literal, if it is one that fits in 32 bits.
pub open spec fn literal_value(s: Seq<char>) -> Option<u32> {
    let (d, radix) = literal_digits(s);
    if d.len() > 0 && all_digits(d, radix) && digits_value(d, radix) <= u32::MAX {
        Some(digits_value(d, radix) as u32)
    } else {
        None
    }
}

proof fn lemma_digits_value_grows(s: Seq<char>, radix: nat, i: int)
    requires
        radix >= 1,
        0 <= i <= s.len(),
        all_digits(s, radix),
    ensures
        digits_value(s.take(i), radix) <= digits_value(s, radix),
    decreases s.len() - i,
{
    if i < s.len() {
        lemma_digits_value_grows(s, radix, i + 1);
        let t = s.take(i + 1);
        assert(t.drop_last() =~= s.take(i));
        assert(digit_value(s[i], radix) is Some);
        let a = digits_value(s.take(i), radix);
        assert(a * radix >= a) by (nonlinear_arith)
            requires
                radix >= 1,
        ;
    } else {
        assert(s.take(i) =~= s);
    }
}

fn digit_of(c: char, radix: u32) -> (r: Option<u32>)
    requires
        radix == 10 || radix == 16,
    ensures
        r is Some <==> digit_value(c, radix as nat) is Some,
        r is Some ==> r.unwrap() == digit_value(c, radix as nat).unwrap(),
        r is Some ==> r.unwrap() < radix,
{
    if '0' <= c && c <= '9' {
        Some((c as u32) - ('0' as u32))
    } else if radix == 16 && 'a' <= c && c <= 'f' {
        Some((c as u32) - ('a' as u32) + 10)
    } else if radix == 16 && 'A' <= c && c <= 'F' {
        Some((c as u32) - ('A' as u32) + 10)
    } else {
        None
    }
}

/// Parses a numeric literal: decimal digits, or hexadecimal digits after
/// `0x`; `None` where the text is no such literal or its value does not fit
/// in 32 bits.
#[verifier::rlimit(40)]
pub fn parse_literal(s: &str) -> (r: Option<u32>)
    ensures
        r == literal_value(s@),
{
    let n = s.unicode_len();
    let hex = n >= 2 && s.get_char(0) == '0' && s.get_char(1) == 'x';
    let start: usize = if hex {
        2
    } else {
        0
    };
    let radix: u32 = if hex {
        16
    } else {
        10
    };
    let ghost d = literal_digits(s@).0;
    assert(d =~= s@.skip(start as int));
    assert(radix as nat == literal_digits(s@).1);
    if start == n {
        return None;
    }
    let mut acc: u64 = 0;
    let mut i: usize = start;
    while i < n
        invariant
            n == s@.len(),
            start <= i <= n,
            d == s@.skip(start as int),
            d == literal_digits(s@).0,
            radix as nat == literal_digits(s@).1,
            d.len() > 0,
            radix == 10 || radix == 16,
            acc <= u32::MAX,
            acc == digits_value(d.take(i - start), radix as nat),
            all_digits(d.take(i - start), radix as nat),
        decreases n - i,
    {
        let c = s.get_char(i);
        let ghost k = i - start;
        assert(d.take(k + 1).drop_last() =~= d.take(k));
        assert(d.take(k + 1).last() == c);
        match digit_of(c, radix) {
            None => {
                assert(!all_digits(d, radix as nat)) by {
                    assert(digit_value(d[k], radix as nat) is None);
                }
                assert(literal_value(s@) is None);
                return None;
            },
            Some(v) => {
                assert(acc * (radix as u64) <= 0xffff_ffff * 16) by (nonlinear_arith)
                    requires
                        acc <= 0xffff_ffff,
                        radix <= 16,
                ;
                acc = acc * (radix as u64) + (v as u64);
                assert(acc == digits_value(d.take(k + 1), radix as nat));
                assert(all_digits(d.take(k + 1), radix as nat)) by {
                    assert forall|j: int| 0 <= j < k + 1 implies #[trigger] digit_value(
                        d.take(k + 1)[j],
                        radix as nat,
                    ) is Some by {
                        if j < k {
                            assert(d.take(k + 1)[j] == d.take(k)[j]);
                        }
                    }
                }
                if acc > 0xffff_ffff {
                    proof {
                        if all_digits(d, radix as nat) {
                            lemma_digits_value_grows(d, radix as nat, k + 1);
                        }
                    }
                    assert(literal_value(s@) is None);
                    return None;
                }
            },
        }
        i = i + 1;
    }
    assert(d.take(n - start) =~= d);
    Some(acc as u32)
}

} // verus!
