//! The polymorphic identifier and its canonical textual form.
//!
//! An identifier is exactly one of: the store's native object id (an
//! opaque 12-byte value), an arbitrary string, or a signed 64-bit
//! integer.  The canonical text is `$oid:` followed by 24 lowercase hex
//! digits, `$i:` followed by a decimal literal, or the raw string.

use crate::error::ServiceError;
use vstd::prelude::*;
use vstd::string::{StrSliceExecFns, StringExecFns};

verus! {

/// Spec-level value of an identifier: the native id as its bytes, the
/// string as its characters, the integer as a mathematical integer.
pub enum IdView {
    ObjectId(Seq<u8>),
    Str(Seq<char>),
    Int64(int),
}

// ---------------------------------------------------------------------
// Decimal digits
// ---------------------------------------------------------------------

/// `c` is an ASCII decimal digit.
pub open spec fn is_dec_digit(c: char) -> bool {
    '0' <= c && c <= '9'
}

/// Numeric value of a decimal digit.
pub open spec fn dec_digit_val(c: char) -> nat {
    (c as int - '0' as int) as nat
}

/// The decimal digit with value `d`.
pub open spec fn dec_digit_char(d: nat) -> char {
    if d == 0 {
        '0'
    } else if d == 1 {
        '1'
    } else if d == 2 {
        '2'
    } else if d == 3 {
        '3'
    } else if d == 4 {
        '4'
    } else if d == 5 {
        '5'
    } else if d == 6 {
        '6'
    } else if d == 7 {
        '7'
    } else if d == 8 {
        '8'
    } else {
        '9'
    }
}

/// Every character of `s` is a decimal digit.
pub open spec fn all_dec_digits(s: Seq<char>) -> bool {
    forall|i: int| 0 <= i < s.len() ==> is_dec_digit(#[trigger] s[i])
}

/// Value of a digit string, most significant digit first.
pub open spec fn dec_value(s: Seq<char>) -> nat
    decreases s.len(),
{
    if s.len() == 0 {
        0
    } else {
        dec_value(s.drop_last()) * 10 + dec_digit_val(s.last())
    }
}

/// The canonical digit string of `n`: no leading zero except for `0`.
pub open spec fn dec_digits_of(n: nat) -> Seq<char>
    decreases n,
{
    if n < 10 {
        seq![dec_digit_char(n)]
    } else {
        dec_digits_of(n / 10).push(dec_digit_char(n % 10))
    }
}

/// The canonical decimal literal of `i`: a minus sign for negative
/// values, then the digits of the magnitude.
pub open spec fn int_literal_of(i: int) -> Seq<char> {
    if i < 0 {
        seq!['-'] + dec_digits_of((-i) as nat)
    } else {
        dec_digits_of(i as nat)
    }
}

/// What parsing a signed 64-bit decimal literal yields: an optional
/// sign, then at least one digit, and a value within the 64-bit range;
/// anything else is rejected.
pub open spec fn parse_i64_spec(s: Seq<char>) -> Option<int> {
    if s.len() == 0 {
        None
    } else {
        let neg = s[0] == '-';
        let ds = if s[0] == '-' || s[0] == '+' {
            s.skip(1)
        } else {
            s
        };
        if ds.len() > 0 && all_dec_digits(ds) {
            let v = if neg {
                -(dec_value(ds) as int)
            } else {
                dec_value(ds) as int
            };
            if crate::i64_min() <= v && v <= crate::i64_max() {
                Some(v)
            } else {
                None
            }
        } else {
            None
        }
    }
}

// ---------------------------------------------------------------------
// Hexadecimal digits
// ---------------------------------------------------------------------

/// `c` is an ASCII hexadecimal digit, either case.
pub open spec fn is_hex_digit(c: char) -> bool {
    ('0' <= c && c <= '9') || ('a' <= c && c <= 'f') || ('A' <= c && c <= 'F')
}

/// Numeric value of a hexadecimal digit.
pub open spec fn hex_digit_val(c: char) -> nat {
    if '0' <= c && c <= '9' {
        (c as int - '0' as int) as nat
    } else if 'a' <= c && c <= 'f' {
        (c as int - 'a' as int + 10) as nat
    } else {
        (c as int - 'A' as int + 10) as nat
    }
}

/// The lowercase hexadecimal digit with value `d`.
pub open spec fn hex_digit_char(d: nat) -> char {
    if d < 10 {
        dec_digit_char(d)
    } else if d == 10 {
        'a'
    } else if d == 11 {
        'b'
    } else if d == 12 {
        'c'
    } else if d == 13 {
        'd'
    } else if d == 14 {
        'e'
    } else {
        'f'
    }
}

/// Every character of `s` is a hexadecimal digit.
pub open spec fn all_hex_digits(s: Seq<char>) -> bool {
    forall|i: int| 0 <= i < s.len() ==> is_hex_digit(#[trigger] s[i])
}

/// The lowercase hex rendering of `b`, two digits per byte.
pub open spec fn hex_of_bytes(b: Seq<u8>) -> Seq<char> {
    Seq::new(
        b.len() * 2,
        |i: int|
            if i % 2 == 0 {
                hex_digit_char((b[i / 2] / 16) as nat)
            } else {
                hex_digit_char((b[i / 2] % 16) as nat)
            },
    )
}

/// The bytes a hex string of even length denotes, two digits per byte.
pub open spec fn bytes_of_hex(s: Seq<char>) -> Seq<u8> {
    Seq::new(
        s.len() / 2,
        |i: int| (hex_digit_val(s[2 * i]) * 16 + hex_digit_val(s[2 * i + 1])) as u8,
    )
}

// ---------------------------------------------------------------------
// The canonical textual form
// ---------------------------------------------------------------------

/// `s` starts with the native-id marker `$oid:`.
pub open spec fn has_oid_prefix(s: Seq<char>) -> bool {
    s.len() >= 5 && s[0] == '$' && s[1] == 'o' && s[2] == 'i' && s[3] == 'd' && s[4] == ':'
}

/// `s` starts with the integer marker `$i:`.
pub open spec fn has_int_prefix(s: Seq<char>) -> bool {
    s.len() >= 3 && s[0] == '$' && s[1] == 'i' && s[2] == ':'
}

/// What decoding canonical text yields.  An `$oid:` form needs exactly
/// 24 hex digits; an `$i:` form needs a signed 64-bit literal; any
/// other text, the empty string included, is the string variant.
pub open spec fn decode_spec(s: Seq<char>) -> Option<IdView> {
    if has_oid_prefix(s) {
        let rest = s.skip(5);
        if rest.len() == 24 && all_hex_digits(rest) {
            Some(IdView::ObjectId(bytes_of_hex(rest)))
        } else {
            None
        }
    } else if has_int_prefix(s) {
        match parse_i64_spec(s.skip(3)) {
            Some(v) => Some(IdView::Int64(v)),
            None => None,
        }
    } else {
        Some(IdView::Str(s))
    }
}

/// The canonical text of an identifier.
pub open spec fn encode_spec(v: IdView) -> Seq<char> {
    match v {
        IdView::ObjectId(b) => seq!['$', 'o', 'i', 'd', ':'] + hex_of_bytes(b),
        IdView::Str(s) => s,
        IdView::Int64(i) => seq!['$', 'i', ':'] + int_literal_of(i),
    }
}

/// A well-formed identifier value: a native id is exactly 12 bytes and
/// an integer id fits in 64 signed bits.  A string id whose text itself
/// carries a marker cannot round-trip through the textual form.
pub open spec fn id_view_wf(v: IdView) -> bool {
    match v {
        IdView::ObjectId(b) => b.len() == 12,
        IdView::Str(s) => !has_oid_prefix(s) && !has_int_prefix(s),
        IdView::Int64(i) => crate::i64_min() <= i && i <= crate::i64_max(),
    }
}

// ---------------------------------------------------------------------
// The identifier
// ---------------------------------------------------------------------

/// A polymorphic identifier: the store's native object id, an arbitrary
/// string, or a signed 64-bit integer.
#[derive(Clone, Debug)]
pub enum ID {
    ObjectId(Vec<u8>),
    Str(String),
    Int64(i64),
}

impl View for ID {
    type V = IdView;

    open spec fn view(&self) -> IdView {
        match self {
            ID::ObjectId(b) => IdView::ObjectId(b@),
            ID::Str(s) => IdView::Str(s@),
            ID::Int64(i) => IdView::Int64(*i as int),
        }
    }
}

impl ID {
    /// The native-id variant holds exactly 12 bytes.
    pub open spec fn wf(&self) -> bool {
        self@ matches IdView::ObjectId(b) ==> b.len() == 12
    }
}

// ---------------------------------------------------------------------
// Parsing
// ---------------------------------------------------------------------

/// The value of a single hexadecimal digit, or nothing for any other
/// character.
fn hex_digit_value(c: char) -> (r: Option<u8>)
    ensures
        is_hex_digit(c) ==> (r matches Some(v) && v as nat == hex_digit_val(c) && v < 16),
        !is_hex_digit(c) ==> r is None,
{
    if c >= '0' && c <= '9' {
        Some((c as u32 - 48) as u8)
    } else if c >= 'a' && c <= 'f' {
        Some((c as u32 - 97 + 10) as u8)
    } else if c >= 'A' && c <= 'F' {
        Some((c as u32 - 65 + 10) as u8)
    } else {
        None
    }
}

/// Reads a 24-digit hex string as the 12 bytes of a native object id.
fn parse_oid_hex(s: &str) -> (r: Option<Vec<u8>>)
    ensures
        s@.len() == 24 && all_hex_digits(s@) ==> (r matches Some(b) && b@ == bytes_of_hex(s@)
            && b@.len() == 12),
        !(s@.len() == 24 && all_hex_digits(s@)) ==> r is None,
{
    let n = s.unicode_len();
    if n != 24 {
        return None;
    }
    let mut out: Vec<u8> = Vec::new();
    let mut j: usize = 0;
    while j < 12
        invariant
            s@.len() == 24,
            j <= 12,
            out@.len() == j as int,
            forall|k: int|
                0 <= k < j as int ==> out@[k] == (hex_digit_val(s@[2 * k]) * 16 + hex_digit_val(
                    s@[2 * k + 1],
                )) as u8,
            forall|k: int| 0 <= k < 2 * (j as int) ==> is_hex_digit(#[trigger] s@[k]),
        decreases 12 - j,
    {
        let c1 = s.get_char(2 * j);
        let c2 = s.get_char(2 * j + 1);
        let v1 = match hex_digit_value(c1) {
            Some(v) => v,
            None => {
                return None;
            },
        };
        let v2 = match hex_digit_value(c2) {
            Some(v) => v,
            None => {
                return None;
            },
        };
        out.push(v1 * 16 + v2);
        j += 1;
    }
    proof {
        assert(out@ =~= bytes_of_hex(s@));
    }
    Some(out)
}

/// Reads a signed 64-bit decimal literal: an optional sign, then at
/// least one digit; rejects anything else and values out of range.
pub fn parse_i64(s: &str) -> (r: Option<i64>)
    ensures
        match parse_i64_spec(s@) {
            Some(v) => r matches Some(x) && x as int == v,
            None => r is None,
        },
{
    let n = s.unicode_len();
    if n == 0 {
        return None;
    }
    let c0 = s.get_char(0);
    let neg = c0 == '-';
    let mut i: usize = if c0 == '-' || c0 == '+' {
        1
    } else {
        0
    };
    if i == n {
        return None;
    }
    let ghost sign_len: int = i as int;
    let ghost ds: Seq<char> = s@.skip(sign_len);
    let mut acc: u128 = 0;
    let mut too_big = false;
    while i < n
        invariant
            s@.len() == n as int,
            0 <= sign_len <= i as int <= n as int,
            sign_len < n as int,
            ds == s@.skip(sign_len),
            sign_len == (if s@[0] == '-' || s@[0] == '+' {
                1int
            } else {
                0int
            }),
            forall|k: int| 0 <= k < i as int - sign_len ==> is_dec_digit(#[trigger] ds[k]),
            !too_big ==> acc as nat == dec_value(ds.take(i as int - sign_len)) && acc
                <= 9223372036854775808u128,
            too_big ==> dec_value(ds.take(i as int - sign_len)) > 9223372036854775808u128,
        decreases n - i,
    {
        let c = s.get_char(i);
        proof {
            assert(ds[i as int - sign_len] == s@[i as int]);
        }
        if c < '0' || c > '9' {
            return None;
        }
        let d: u128 = (c as u32 - 48) as u128;
        proof {
            assert(ds.take(i as int + 1 - sign_len).drop_last() =~= ds.take(i as int - sign_len));
            assert(ds.take(i as int + 1 - sign_len).last() == ds[i as int - sign_len]);
        }
        if too_big {
        } else {
            let next = acc * 10 + d;
            if next > 9223372036854775808u128 {
                too_big = true;
            } else {
                acc = next;
            }
        }
        i += 1;
    }
    proof {
        assert(s@.skip(0) =~= s@);
        assert(ds.take(n as int - sign_len) =~= ds);
        assert(all_dec_digits(ds));
    }
    if too_big {
        return None;
    }
    if neg {
        let x = (-(acc as i128)) as i64;
        proof {
            assert(x as int == -(acc as int));
        }
        Some(x)
    } else {
        if acc > 0x7fff_ffff_ffff_ffff {
            None
        } else {
            Some(acc as i64)
        }
    }
}

impl ID {
    /// Decodes canonical text, checked in order: the `$oid:` form must
    /// carry 24 hex digits, the `$i:` form a signed 64-bit literal, and
    /// any other text is the string variant, which always succeeds.
    pub fn from_string(value: &str) -> (r: Result<ID, ServiceError>)
        ensures
            decode_spec(value@) matches Some(v) ==> (r matches Ok(id) && id@ == v && id.wf()),
            decode_spec(value@) is None ==> (r matches Err(e) && e matches
                ServiceError::ParseError(m) && m@ == (if has_oid_prefix(value@) {
                "Unable to parse object id"@
            } else {
                "Unable to parse integer id"@
            })),
    {
        let n = value.unicode_len();
        if n >= 5 && value.get_char(0) == '$' && value.get_char(1) == 'o' && value.get_char(2)
            == 'i' && value.get_char(3) == 'd' && value.get_char(4) == ':' {
            let rest = value.substring_char(5, n);
            proof {
                assert(rest@ =~= value@.skip(5));
            }
            match parse_oid_hex(rest) {
                Some(bytes) => Ok(ID::ObjectId(bytes)),
                None => Err(
                    ServiceError::ParseError(String::from_str("Unable to parse object id")),
                ),
            }
        } else if n >= 3 && value.get_char(0) == '$' && value.get_char(1) == 'i' && value.get_char(
            2,
        ) == ':' {
            let rest = value.substring_char(3, n);
            proof {
                assert(rest@ =~= value@.skip(3));
            }
            match parse_i64(rest) {
                Some(v) => Ok(ID::Int64(v)),
                None => Err(
                    ServiceError::ParseError(String::from_str("Unable to parse integer id")),
                ),
            }
        } else {
            Ok(ID::Str(String::from_str(value)))
        }
    }
}

// ---------------------------------------------------------------------
// Encoding
// ---------------------------------------------------------------------

/// The one-character string of a decimal digit.
fn dec_digit_str(d: u8) -> (r: &'static str)
    requires
        d < 10,
    ensures
        r@ =~= seq![dec_digit_char(d as nat)],
{
    proof {
        reveal_strlit("0");
        reveal_strlit("1");
        reveal_strlit("2");
        reveal_strlit("3");
        reveal_strlit("4");
        reveal_strlit("5");
        reveal_strlit("6");
        reveal_strlit("7");
        reveal_strlit("8");
        reveal_strlit("9");
    }
    if d == 0 {
        "0"
    } else if d == 1 {
        "1"
    } else if d == 2 {
        "2"
    } else if d == 3 {
        "3"
    } else if d == 4 {
        "4"
    } else if d == 5 {
        "5"
    } else if d == 6 {
        "6"
    } else if d == 7 {
        "7"
    } else if d == 8 {
        "8"
    } else {
        "9"
    }
}

/// The one-character string of a lowercase hexadecimal digit.
fn hex_digit_str(d: u8) -> (r: &'static str)
    requires
        d < 16,
    ensures
        r@ =~= seq![hex_digit_char(d as nat)],
{
    proof {
        reveal_strlit("a");
        reveal_strlit("b");
        reveal_strlit("c");
        reveal_strlit("d");
        reveal_strlit("e");
        reveal_strlit("f");
    }
    if d < 10 {
        dec_digit_str(d)
    } else if d == 10 {
        "a"
    } else if d == 11 {
        "b"
    } else if d == 12 {
        "c"
    } else if d == 13 {
        "d"
    } else if d == 14 {
        "e"
    } else {
        "f"
    }
}

/// The canonical digit string of `n`.
fn dec_string(n: u64) -> (r: String)
    ensures
        r@ == dec_digits_of(n as nat),
    decreases n,
{
    let d = (n % 10) as u8;
    if n < 10 {
        String::from_str(dec_digit_str(d))
    } else {
        let mut prefix = dec_string(n / 10);
        prefix.append(dec_digit_str(d));
        proof {
            assert(prefix@ =~= dec_digits_of(n as nat));
        }
        prefix
    }
}

/// The canonical decimal literal of `i`.
fn int64_string(i: i64) -> (r: String)
    ensures
        r@ == int_literal_of(i as int),
{
    if i < 0 {
        let mag = (-(i as i128)) as u64;
        let mut out = String::from_str("-");
        let digits = dec_string(mag);
        out.append(digits.as_str());
        proof {
            reveal_strlit("-");
            assert(out@ =~= int_literal_of(i as int));
        }
        out
    } else {
        dec_string(i as u64)
    }
}

/// The lowercase hex rendering of a byte string, two digits per byte.
fn hex_string_of(b: &Vec<u8>) -> (r: String)
    ensures
        r@ == hex_of_bytes(b@),
{
    let mut out = String::new();
    let mut i: usize = 0;
    while i < b.len()
        invariant
            i <= b@.len(),
            out@ == hex_of_bytes(b@.take(i as int)),
        decreases b@.len() - i,
    {
        let hi = b[i] / 16;
        let lo = b[i] % 16;
        out.append(hex_digit_str(hi));
        out.append(hex_digit_str(lo));
        proof {
            assert(out@ =~= hex_of_bytes(b@.take(i as int + 1)));
        }
        i += 1;
    }
    proof {
        assert(b@.take(b@.len() as int) =~= b@);
    }
    out
}

impl ID {
    /// Encodes the identifier into its canonical text: `$oid:` with the
    /// lowercase hex of the native id, `$i:` with the decimal literal,
    /// or the raw string.
    pub fn encode(&self) -> (r: String)
        ensures
            r@ == encode_spec(self@),
    {
        match self {
            ID::Str(s) => s.clone(),
            ID::Int64(i) => {
                let mut out = String::from_str("$i:");
                let digits = int64_string(*i);
                out.append(digits.as_str());
                proof {
                    reveal_strlit("$i:");
                    assert(out@ =~= encode_spec(self@));
                }
                out
            },
            ID::ObjectId(b) => {
                let mut out = String::from_str("$oid:");
                let digits = hex_string_of(b);
                out.append(digits.as_str());
                proof {
                    reveal_strlit("$oid:");
                    assert(out@ =~= encode_spec(self@));
                }
                out
            },
        }
    }
}

// ---------------------------------------------------------------------
// The round-trip laws
// ---------------------------------------------------------------------

/// `c` is a digit the encoder itself emits: lowercase hex.
pub open spec fn is_lower_hex_digit(c: char) -> bool {
    ('0' <= c && c <= '9') || ('a' <= c && c <= 'f')
}

/// Canonical text: what the encoder can produce.  Unmarked text is
/// always canonical; an `$oid:` form carries exactly 24 lowercase hex
/// digits; an `$i:` form carries the canonical literal of some value.
pub open spec fn canonical_text(s: Seq<char>) -> bool {
    if has_oid_prefix(s) {
        s.len() == 29 && (forall|i: int| 5 <= i < 29 ==> is_lower_hex_digit(#[trigger] s[i]))
    } else if has_int_prefix(s) {
        exists|i: int|
            crate::i64_min() <= i <= crate::i64_max() && s.skip(3) == int_literal_of(i)
    } else {
        true
    }
}

proof fn lemma_dec_char_val(d: nat)
    requires
        d < 10,
    ensures
        dec_digit_val(dec_digit_char(d)) == d,
        is_dec_digit(dec_digit_char(d)),
{
}

proof fn lemma_hex_char_val(d: nat)
    requires
        d < 16,
    ensures
        hex_digit_val(hex_digit_char(d)) == d,
        is_hex_digit(hex_digit_char(d)),
        is_lower_hex_digit(hex_digit_char(d)),
{
}

proof fn lemma_hex_val_char(c: char)
    requires
        is_lower_hex_digit(c),
    ensures
        hex_digit_val(c) < 16,
        hex_digit_char(hex_digit_val(c)) == c,
{
}

proof fn lemma_digits_value(n: nat)
    ensures
        dec_value(dec_digits_of(n)) == n,
        all_dec_digits(dec_digits_of(n)),
        dec_digits_of(n).len() >= 1,
    decreases n,
{
    if n < 10 {
        lemma_dec_char_val(n);
        let dd = dec_digits_of(n);
        assert(dd =~= seq![dec_digit_char(n)]);
        assert(dd.drop_last() =~= Seq::<char>::empty());
        assert(dd.last() == dec_digit_char(n));
        assert(dec_value(Seq::<char>::empty()) == 0);
        assert(dec_value(dd) == dec_value(dd.drop_last()) * 10 + dec_digit_val(dd.last()));
    } else {
        lemma_digits_value(n / 10);
        lemma_dec_char_val(n % 10);
        let dd = dec_digits_of(n);
        assert(dd == dec_digits_of(n / 10).push(dec_digit_char(n % 10)));
        assert(dd.drop_last() =~= dec_digits_of(n / 10));
        assert(dd.last() == dec_digit_char(n % 10));
        assert(dec_value(dd) == dec_value(dd.drop_last()) * 10 + dec_digit_val(dd.last()));
        assert(dec_value(dd) == (n / 10) * 10 + (n % 10));
        assert(n == (n / 10) * 10 + (n % 10));
        assert forall|i: int| 0 <= i < dd.len() implies is_dec_digit(#[trigger] dd[i]) by {
            if i < dd.len() - 1 {
                assert(dd[i] == dec_digits_of(n / 10)[i]);
            }
        }
    }
}

/// Parsing the canonical literal of an in-range value gives it back.
proof fn lemma_parse_canonical(i: int)
    requires
        crate::i64_min() <= i <= crate::i64_max(),
    ensures
        parse_i64_spec(int_literal_of(i)) == Some(i),
{
    if i < 0 {
        let mag = (-i) as nat;
        lemma_digits_value(mag);
        let lit = int_literal_of(i);
        assert(lit[0] == '-');
        assert(lit.skip(1) =~= dec_digits_of(mag));
    } else {
        lemma_digits_value(i as nat);
        let lit = int_literal_of(i);
        assert(is_dec_digit(lit[0]));
        assert(lit[0] != '-' && lit[0] != '+');
    }
}

proof fn lemma_bytes_of_hex_of(b: Seq<u8>)
    ensures
        hex_of_bytes(b).len() == 2 * b.len(),
        all_hex_digits(hex_of_bytes(b)),
        forall|i: int| 0 <= i < 2 * b.len() ==> is_lower_hex_digit(#[trigger] hex_of_bytes(b)[i]),
        bytes_of_hex(hex_of_bytes(b)) =~= b,
{
    let h = hex_of_bytes(b);
    assert forall|i: int| 0 <= i < h.len() implies is_lower_hex_digit(#[trigger] h[i])
        && is_hex_digit(h[i]) by {
        if i % 2 == 0 {
            lemma_hex_char_val((b[i / 2] / 16) as nat);
        } else {
            lemma_hex_char_val((b[i / 2] % 16) as nat);
        }
    }
    assert forall|k: int| 0 <= k < b.len() implies bytes_of_hex(h)[k] == b[k] by {
        lemma_hex_char_val((b[k] / 16) as nat);
        lemma_hex_char_val((b[k] % 16) as nat);
        assert(h[2 * k] == hex_digit_char((b[k] / 16) as nat));
        assert(h[2 * k + 1] == hex_digit_char((b[k] % 16) as nat));
    }
}

proof fn lemma_hex_of_bytes_of(s: Seq<char>)
    requires
        s.len() % 2 == 0,
        forall|i: int| 0 <= i < s.len() ==> is_lower_hex_digit(#[trigger] s[i]),
    ensures
        hex_of_bytes(bytes_of_hex(s)) =~= s,
{
    let b = bytes_of_hex(s);
    assert forall|i: int| 0 <= i < s.len() implies hex_of_bytes(b)[i] == s[i] by {
        let k = i / 2;
        lemma_hex_val_char(s[2 * k]);
        lemma_hex_val_char(s[2 * k + 1]);
        assert(b[k] == (hex_digit_val(s[2 * k]) * 16 + hex_digit_val(s[2 * k + 1])) as u8);
        if i % 2 == 0 {
            assert(i == 2 * k);
            assert(hex_of_bytes(b)[i] == hex_digit_char((b[k] / 16) as nat));
        } else {
            assert(i == 2 * k + 1);
            assert(hex_of_bytes(b)[i] == hex_digit_char((b[k] % 16) as nat));
        }
    }
}

/// Whatever decoding accepts is a well-formed identifier value.
pub proof fn lemma_decode_wf(s: Seq<char>)
    ensures
        decode_spec(s) matches Some(v) ==> id_view_wf(v),
{
    if has_oid_prefix(s) {
    } else if has_int_prefix(s) {
    } else {
    }
}

/// Round trip, value side: decoding the canonical text of any
/// well-formed identifier yields that identifier again.
pub proof fn lemma_decode_encode(v: IdView)
    requires
        id_view_wf(v),
    ensures
        decode_spec(encode_spec(v)) == Some(v),
{
    match v {
        IdView::ObjectId(b) => {
            let e = encode_spec(v);
            lemma_bytes_of_hex_of(b);
            assert(has_oid_prefix(e));
            assert(e.skip(5) =~= hex_of_bytes(b));
        },
        IdView::Str(s) => {
        },
        IdView::Int64(i) => {
            let e = encode_spec(v);
            lemma_parse_canonical(i);
            assert(has_int_prefix(e));
            assert(!has_oid_prefix(e));
            assert(e.skip(3) =~= int_literal_of(i));
        },
    }
}

/// Round trip, text side: canonical text decodes, and encoding the
/// decoded identifier reproduces the text exactly.
pub proof fn lemma_encode_decode(s: Seq<char>)
    requires
        canonical_text(s),
    ensures
        decode_spec(s) matches Some(v) && encode_spec(v) == s,
{
    if has_oid_prefix(s) {
        let rest = s.skip(5);
        assert forall|i: int| 0 <= i < rest.len() implies is_lower_hex_digit(
            #[trigger] rest[i],
        ) && is_hex_digit(rest[i]) by {
            assert(rest[i] == s[i + 5]);
            assert(is_lower_hex_digit(s[i + 5]));
        }
        lemma_hex_of_bytes_of(rest);
        let v = decode_spec(s)->Some_0;
        assert(encode_spec(v) =~= s);
    } else if has_int_prefix(s) {
        let i = choose|i: int|
            crate::i64_min() <= i <= crate::i64_max() && s.skip(3) == int_literal_of(i);
        lemma_parse_canonical(i);
        let v = decode_spec(s)->Some_0;
        assert(encode_spec(v) =~= s);
    } else {
    }
}

} // verus!
