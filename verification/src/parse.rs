//! Reading user-typed method arguments: the scalar types that can be
//! typed in, decimal integers, booleans, and comma-separated arrays.
use vstd::prelude::*;
use crate::node_id::{node_id_parse, node_id_text, parse_node_id, IdentifierView, NodeId, NodeIdView, Identifier};
use crate::text::{chars_of, decimal, push_char, push_decimal, push_str, string_from_chars, trim, trim_bounds};

verus! {

/// The built-in data types whose values can be typed in.
#[derive(PartialEq, Eq, Structural, Clone, Copy, Debug)]
pub enum ScalarType {
    Boolean,
    SByte,
    Byte,
    Int16,
    UInt16,
    Int32,
    UInt32,
    Int64,
    UInt64,
    Float,
    Double,
    String,
    NodeId,
    Guid,
}

/// The scalar type a data type node id stands for, if it is one that can be typed in.
pub open spec fn scalar_type_of(id: NodeIdView) -> Option<ScalarType> {
    if id.namespace != 0 {
        None
    } else {
        match id.identifier {
            IdentifierView::Numeric(n) => {
                if n == 1 { Some(ScalarType::Boolean) }
                else if n == 2 { Some(ScalarType::SByte) }
                else if n == 3 { Some(ScalarType::Byte) }
                else if n == 4 { Some(ScalarType::Int16) }
                else if n == 5 { Some(ScalarType::UInt16) }
                else if n == 6 { Some(ScalarType::Int32) }
                else if n == 7 { Some(ScalarType::UInt32) }
                else if n == 8 { Some(ScalarType::Int64) }
                else if n == 9 { Some(ScalarType::UInt64) }
                else if n == 10 { Some(ScalarType::Float) }
                else if n == 11 { Some(ScalarType::Double) }
                else if n == 12 { Some(ScalarType::String) }
                else if n == 17 { Some(ScalarType::NodeId) }
                else if n == 14 { Some(ScalarType::Guid) }
                else { None }
            },
            _ => None,
        }
    }
}

/// The scalar type of a data type node id.
pub fn builtin_scalar_type(id: &NodeId) -> (r: Option<ScalarType>)
    ensures
        r == scalar_type_of(id@),
{
    if id.namespace != 0 {
        return None;
    }
    match &id.identifier {
        Identifier::Numeric(n) => {
            let n = *n;
            if n == 1 { Some(ScalarType::Boolean) }
            else if n == 2 { Some(ScalarType::SByte) }
            else if n == 3 { Some(ScalarType::Byte) }
            else if n == 4 { Some(ScalarType::Int16) }
            else if n == 5 { Some(ScalarType::UInt16) }
            else if n == 6 { Some(ScalarType::Int32) }
            else if n == 7 { Some(ScalarType::UInt32) }
            else if n == 8 { Some(ScalarType::Int64) }
            else if n == 9 { Some(ScalarType::UInt64) }
            else if n == 10 { Some(ScalarType::Float) }
            else if n == 11 { Some(ScalarType::Double) }
            else if n == 12 { Some(ScalarType::String) }
            else if n == 17 { Some(ScalarType::NodeId) }
            else if n == 14 { Some(ScalarType::Guid) }
            else { None }
        },
        _ => None,
    }
}

/// The name of a built-in data type (numeric ids 1 to 21 of namespace 0).
pub open spec fn builtin_label_of(id: NodeIdView) -> Option<Seq<char>> {
    if id.namespace != 0 {
        None
    } else {
        match id.identifier {
            IdentifierView::Numeric(n) => {
                if n == 1 { Some("Boolean"@) }
                else if n == 2 { Some("SByte"@) }
                else if n == 3 { Some("Byte"@) }
                else if n == 4 { Some("Int16"@) }
                else if n == 5 { Some("UInt16"@) }
                else if n == 6 { Some("Int32"@) }
                else if n == 7 { Some("UInt32"@) }
                else if n == 8 { Some("Int64"@) }
                else if n == 9 { Some("UInt64"@) }
                else if n == 10 { Some("Float"@) }
                else if n == 11 { Some("Double"@) }
                else if n == 12 { Some("String"@) }
                else if n == 13 { Some("DateTime"@) }
                else if n == 14 { Some("Guid"@) }
                else if n == 15 { Some("ByteString"@) }
                else if n == 17 { Some("NodeId"@) }
                else if n == 18 { Some("ExpandedNodeId"@) }
                else if n == 19 { Some("StatusCode"@) }
                else if n == 20 { Some("QualifiedName"@) }
                else if n == 21 { Some("LocalizedText"@) }
                else { None }
            },
            _ => None,
        }
    }
}

/// The name of a built-in data type, if `id` is one.
pub fn builtin_data_type_label(id: &NodeId) -> (r: Option<&'static str>)
    ensures
        match r {
            Some(s) => builtin_label_of(id@) == Some(s@),
            None => builtin_label_of(id@) is None,
        },
{
    if id.namespace != 0 {
        return None;
    }
    match &id.identifier {
        Identifier::Numeric(n) => {
            let n = *n;
            if n == 1 { Some("Boolean") }
            else if n == 2 { Some("SByte") }
            else if n == 3 { Some("Byte") }
            else if n == 4 { Some("Int16") }
            else if n == 5 { Some("UInt16") }
            else if n == 6 { Some("Int32") }
            else if n == 7 { Some("UInt32") }
            else if n == 8 { Some("Int64") }
            else if n == 9 { Some("UInt64") }
            else if n == 10 { Some("Float") }
            else if n == 11 { Some("Double") }
            else if n == 12 { Some("String") }
            else if n == 13 { Some("DateTime") }
            else if n == 14 { Some("Guid") }
            else if n == 15 { Some("ByteString") }
            else if n == 17 { Some("NodeId") }
            else if n == 18 { Some("ExpandedNodeId") }
            else if n == 19 { Some("StatusCode") }
            else if n == 20 { Some("QualifiedName") }
            else if n == 21 { Some("LocalizedText") }
            else { None }
        },
        _ => None,
    }
}

/// The label of an argument's type: the base name, with `[]` for arrays
/// (value rank 1 or more).
pub fn type_label(base: String, value_rank: i32) -> (r: String)
    ensures
        r@ == if value_rank >= 1 { base@ + "[]"@ } else { base@ },
{
    if value_rank >= 1 {
        let mut r = base;
        push_str(&mut r, "[]");
        r
    } else {
        base
    }
}

/// Why a decimal integer could not be read (`core::num::IntErrorKind`).
#[derive(PartialEq, Eq, Structural, Clone, Copy, Debug)]
pub enum IntError {
    Empty,
    InvalidDigit,
    PosOverflow,
    NegOverflow,
}

/// The message of a `ParseIntError` of this kind.
pub open spec fn int_error_text(e: IntError) -> Seq<char> {
    match e {
        IntError::Empty => "cannot parse integer from empty string"@,
        IntError::InvalidDigit => "invalid digit found in string"@,
        IntError::PosOverflow => "number too large to fit in target type"@,
        IntError::NegOverflow => "number too small to fit in target type"@,
    }
}

pub fn int_error_message(e: IntError) -> (s: &'static str)
    ensures
        s@ == int_error_text(e),
{
    match e {
        IntError::Empty => "cannot parse integer from empty string",
        IntError::InvalidDigit => "invalid digit found in string",
        IntError::PosOverflow => "number too large to fit in target type",
        IntError::NegOverflow => "number too small to fit in target type",
    }
}

pub open spec fn is_digit(c: char) -> bool {
    '0' <= c && c <= '9'
}

pub open spec fn digit_value(c: char) -> int {
    c as int - '0' as int
}

/// Reads the digits `ds` left to right onto `acc`, adding (or, for a
/// negative number, subtracting) each digit; the first character that is
/// not a digit, or the first step that leaves `[lo, hi]`, ends the scan
/// with that error.
pub open spec fn scan_digits(ds: Seq<char>, acc: int, neg: bool, lo: int, hi: int) -> Result<int, IntError>
    decreases ds.len(),
{
    if ds.len() == 0 {
        Ok(acc)
    } else if !is_digit(ds[0]) {
        Err(IntError::InvalidDigit)
    } else {
        let v = if neg { acc * 10 - digit_value(ds[0]) } else { acc * 10 + digit_value(ds[0]) };
        if v > hi {
            Err(IntError::PosOverflow)
        } else if v < lo {
            Err(IntError::NegOverflow)
        } else {
            scan_digits(ds.drop_first(), v, neg, lo, hi)
        }
    }
}

/// `str::parse` for an integer type with range `[lo, hi]`: an optional `+`
/// (or `-` when the type is signed) followed by at least one decimal digit.
pub open spec fn int_parse(s: Seq<char>, lo: int, hi: int) -> Result<int, IntError> {
    if s.len() == 0 {
        Err(IntError::Empty)
    } else if (s[0] == '+' || s[0] == '-') && s.len() == 1 {
        Err(IntError::InvalidDigit)
    } else if s[0] == '+' {
        scan_digits(s.drop_first(), 0, false, lo, hi)
    } else if s[0] == '-' && lo < 0 {
        scan_digits(s.drop_first(), 0, true, lo, hi)
    } else {
        scan_digits(s, 0, false, lo, hi)
    }
}

proof fn lemma_scan_bounds(ds: Seq<char>, acc: int, neg: bool, lo: int, hi: int)
    requires
        lo <= acc <= hi,
    ensures
        scan_digits(ds, acc, neg, lo, hi) matches Ok(v) ==> lo <= v <= hi,
    decreases ds.len(),
{
    if ds.len() > 0 && is_digit(ds[0]) {
        let v = if neg { acc * 10 - digit_value(ds[0]) } else { acc * 10 + digit_value(ds[0]) };
        if lo <= v <= hi {
            lemma_scan_bounds(ds.drop_first(), v, neg, lo, hi);
        }
    }
}

proof fn lemma_int_parse_bounds(s: Seq<char>, lo: int, hi: int)
    requires
        lo <= 0 <= hi,
    ensures
        int_parse(s, lo, hi) matches Ok(v) ==> lo <= v <= hi,
{
    if s.len() > 0 {
        lemma_scan_bounds(s.drop_first(), 0, false, lo, hi);
        lemma_scan_bounds(s.drop_first(), 0, true, lo, hi);
        lemma_scan_bounds(s, 0, false, lo, hi);
    }
}

fn digit_of_char(c: char) -> (r: Option<i128>)
    ensures
        r is Some == is_digit(c),
        r matches Some(d) ==> d == digit_value(c) && 0 <= d <= 9,
{
    if '0' <= c && c <= '9' {
        Some((c as u32 - '0' as u32) as i128)
    } else {
        None
    }
}

/// Reads a decimal integer in `[lo, hi]` (`str::parse` for integer types).
pub fn parse_int(cs: &[char], lo: i128, hi: i128) -> (r: Result<i128, IntError>)
    requires
        -0x1_0000_0000_0000_0000 <= lo <= 0 <= hi <= 0x1_0000_0000_0000_0000,
    ensures
        match r {
            Ok(v) => int_parse(cs@, lo as int, hi as int) == Ok::<int, IntError>(v as int) && lo <= v <= hi,
            Err(e) => int_parse(cs@, lo as int, hi as int) == Err::<int, IntError>(e),
        },
{
    proof {
        lemma_int_parse_bounds(cs@, lo as int, hi as int);
    }
    let n = cs.len();
    if n == 0 {
        return Err(IntError::Empty);
    }
    if (cs[0] == '+' || cs[0] == '-') && n == 1 {
        return Err(IntError::InvalidDigit);
    }
    let mut neg = false;
    let mut start: usize = 0;
    if cs[0] == '+' {
        start = 1;
    } else if cs[0] == '-' && lo < 0 {
        start = 1;
        neg = true;
    }
    let ghost total = int_parse(cs@, lo as int, hi as int);
    assert(total == scan_digits(cs@.skip(start as int), 0, neg, lo as int, hi as int)) by {
        assert(cs@.drop_first() =~= cs@.skip(1));
        assert(cs@ =~= cs@.skip(0));
    }
    let mut acc: i128 = 0;
    let mut i: usize = start;
    while i < n
        invariant
            start <= i <= n == cs@.len(),
            lo <= acc <= hi,
            -0x1_0000_0000_0000_0000 <= lo <= 0 <= hi <= 0x1_0000_0000_0000_0000,
            total == scan_digits(cs@.skip(i as int), acc as int, neg, lo as int, hi as int),
            total == int_parse(cs@, lo as int, hi as int),
        decreases n - i,
    {
        let ghost rest = cs@.skip(i as int);
        assert(rest[0] == cs@[i as int]);
        assert(rest.drop_first() =~= cs@.skip(i + 1));
        assert(rest.len() > 0);
        match digit_of_char(cs[i]) {
            None => {
                assert(total == Err::<int, IntError>(IntError::InvalidDigit));
                return Err(IntError::InvalidDigit);
            },
            Some(d) => {
                let v = if neg { acc * 10 - d } else { acc * 10 + d };
                let ghost sv = if neg { acc * 10 - digit_value(rest[0]) } else { acc * 10 + digit_value(rest[0]) };
                assert(v == sv);
                if v > hi {
                    assert(total == Err::<int, IntError>(IntError::PosOverflow));
                    return Err(IntError::PosOverflow);
                }
                if v < lo {
                    assert(total == Err::<int, IntError>(IntError::NegOverflow));
                    return Err(IntError::NegOverflow);
                }
                acc = v;
            },
        }
        i = i + 1;
    }
    assert(cs@.skip(n as int).len() == 0);
    Ok(acc)
}

/// The message of a `ParseFloatError` for a non-empty text.
pub open spec fn float_error_text() -> Seq<char> {
    "invalid float literal"@
}

/// The message of a `ParseBoolError`.
pub open spec fn bool_error_text() -> Seq<char> {
    "provided string was not `true` or `false`"@
}

/// The result of `opcua::types::Guid::from_str` (a `uuid` parse) on a
/// text: the Guid's bytes, little-endian, or the `Debug` text of the error.
pub uninterp spec fn guid_parse(s: Seq<char>) -> Result<u128, Seq<char>>;

/// Number of leading decimal digits of `s`.
pub open spec fn digit_run(s: Seq<char>) -> nat
    decreases s.len(),
{
    if s.len() > 0 && is_digit(s[0]) { 1 + digit_run(s.drop_first()) } else { 0 }
}

/// ASCII lowercase of one character.
pub open spec fn ascii_lower(c: char) -> char {
    if 'A' <= c && c <= 'Z' { (((c as u8) + 32) as u8) as char } else { c }
}

/// `s` equals `word` (lowercase ASCII) ignoring ASCII case.
pub open spec fn eq_ignore_case(s: Seq<char>, word: Seq<char>) -> bool {
    s.len() == word.len() && forall|i: int| 0 <= i < s.len() ==> ascii_lower(#[trigger] s[i]) == word[i]
}

/// The decimal part of a float literal: digits, an optional `.` and digits,
/// at least one digit in all, then an optional exponent `e`/`E`, an optional
/// sign and at least one digit.
pub open spec fn decimal_literal(s: Seq<char>) -> bool {
    let a = digit_run(s);
    let r1 = s.skip(a as int);
    let (b, r2) = if r1.len() > 0 && r1[0] == '.' {
        (digit_run(r1.drop_first()), r1.drop_first().skip(digit_run(r1.drop_first()) as int))
    } else {
        (0nat, r1)
    };
    &&& a + b > 0
    &&& (r2.len() == 0 || ((r2[0] == 'e' || r2[0] == 'E') && {
        let r3 = r2.drop_first();
        let r4 = if r3.len() > 0 && (r3[0] == '+' || r3[0] == '-') { r3.drop_first() } else { r3 };
        r4.len() > 0 && digit_run(r4) == r4.len()
    }))
}

/// `str::parse::<f32>` and `str::parse::<f64>` accept a text: an optional
/// sign, then `inf`, `infinity` or `nan` in any ASCII case, or a decimal
/// literal.
pub open spec fn float_literal(s: Seq<char>) -> bool {
    let body = if s.len() > 0 && (s[0] == '+' || s[0] == '-') { s.drop_first() } else { s };
    ||| eq_ignore_case(body, "inf"@)
    ||| eq_ignore_case(body, "infinity"@)
    ||| eq_ignore_case(body, "nan"@)
    ||| decimal_literal(body)
}

fn is_digit_exec(c: char) -> (r: bool)
    ensures
        r == is_digit(c),
{
    '0' <= c && c <= '9'
}

/// Length of the run of digits starting at `i`.
fn digit_run_at(cs: &[char], i: usize) -> (r: usize)
    requires
        i <= cs@.len(),
    ensures
        i + r <= cs@.len(),
        r == digit_run(cs@.skip(i as int)),
{
    let mut j: usize = i;
    while j < cs.len() && is_digit_exec(cs[j])
        invariant
            i <= j <= cs@.len(),
            forall|k: int| i <= k < j ==> is_digit(#[trigger] cs@[k]),
            digit_run(cs@.skip(i as int)) == (j - i) + digit_run(cs@.skip(j as int)),
        decreases cs.len() - j,
    {
        assert(cs@.skip(j as int).drop_first() =~= cs@.skip(j + 1));
        j = j + 1;
    }
    if j < cs.len() {
        assert(cs@.skip(j as int)[0] == cs@[j as int]);
    }
    j - i
}

fn lower_exec(c: char) -> (r: char)
    ensures
        r == ascii_lower(c),
{
    if 'A' <= c && c <= 'Z' {
        ((c as u8) + 32) as char
    } else {
        c
    }
}

/// Does `cs[i..]` equal `word` ignoring ASCII case?
pub fn rest_eq_ignore_case(cs: &[char], i: usize, word: &str) -> (r: bool)
    requires
        i <= cs@.len(),
    ensures
        r == eq_ignore_case(cs@.skip(i as int), word@),
{
    let w = chars_of(word);
    let n = cs.len();
    if n - i != w.len() {
        return false;
    }
    let mut k: usize = 0;
    while k < w.len()
        invariant
            0 <= k <= w@.len() == cs@.len() - i,
            i + w@.len() == cs@.len() == n,
            i <= cs@.len(),
            w@ == word@,
            forall|m: int| 0 <= m < k ==> ascii_lower(#[trigger] cs@.skip(i as int)[m]) == w@[m],
        decreases w.len() - k,
    {
        if lower_exec(cs[i + k]) != w[k] {
            assert(cs@.skip(i as int)[k as int] == cs@[i + k]);
            return false;
        }
        k = k + 1;
    }
    true
}

/// Whether `cs[start..]` is a decimal float literal.
#[verifier::rlimit(30)]
fn check_decimal(cs: &[char], start: usize) -> (r: bool)
    requires
        start <= cs@.len(),
    ensures
        r == decimal_literal(cs@.skip(start as int)),
{
    let n = cs.len();
    let ghost body = cs@.skip(start as int);
    let a = digit_run_at(cs, start);
    let mut p = start + a;
    assert(body.skip(a as int) =~= cs@.skip(p as int));
    let mut b: usize = 0;
    if p < n && cs[p] == '.' {
        assert(cs@.skip(p as int)[0] == cs@[p as int]);
        assert(cs@.skip(p as int).drop_first() =~= cs@.skip(p + 1));
        b = digit_run_at(cs, p + 1);
        p = p + 1 + b;
        assert(cs@.skip(p - b).skip(b as int) =~= cs@.skip(p as int));
    } else if p < n {
        assert(cs@.skip(p as int)[0] == cs@[p as int]);
    }
    let ghost r2 = cs@.skip(p as int);
    if a + b == 0 {
        return false;
    }
    if p == n {
        return true;
    }
    assert(r2[0] == cs@[p as int]);
    if cs[p] != 'e' && cs[p] != 'E' {
        return false;
    }
    assert(r2.drop_first() =~= cs@.skip(p + 1));
    exponent_ok(cs, p + 1)
}

/// Whether `cs[q..]` is an optional sign followed by at least one digit and nothing else.
fn exponent_ok(cs: &[char], q: usize) -> (r: bool)
    requires
        q <= cs@.len(),
    ensures
        r == ({
            let r3 = cs@.skip(q as int);
            let r4 = if r3.len() > 0 && (r3[0] == '+' || r3[0] == '-') { r3.drop_first() } else { r3 };
            r4.len() > 0 && digit_run(r4) == r4.len()
        }),
{
    let n = cs.len();
    let mut q = q;
    let ghost r3 = cs@.skip(q as int);
    if q < n && (cs[q] == '+' || cs[q] == '-') {
        assert(r3[0] == cs@[q as int]);
        assert(r3.drop_first() =~= cs@.skip(q + 1));
        q = q + 1;
    } else if q < n {
        assert(r3[0] == cs@[q as int]);
    }
    if q == n {
        return false;
    }
    let c = digit_run_at(cs, q);
    q + c == n
}

/// Whether the text is a float literal that `str::parse::<f32>`/`f64` accept.
pub fn check_float(cs: &[char]) -> (r: bool)
    ensures
        r == float_literal(cs@),
{
    let n = cs.len();
    let start: usize = if n > 0 && (cs[0] == '+' || cs[0] == '-') { 1 } else { 0 };
    let ghost body = if cs@.len() > 0 && (cs@[0] == '+' || cs@[0] == '-') { cs@.drop_first() } else { cs@ };
    assert(body =~= cs@.skip(start as int));
    if rest_eq_ignore_case(cs, start, "inf") || rest_eq_ignore_case(cs, start, "infinity")
        || rest_eq_ignore_case(cs, start, "nan") {
        return true;
    }
    check_decimal(cs, start)
}

/// `opcua::types::Guid::from_str`, giving the Guid's bytes.
#[verifier::external_body]
fn parse_guid(s: &str) -> (r: Result<u128, String>)
    ensures
        match r {
            Ok(g) => guid_parse(s@) == Ok::<u128, Seq<char>>(g),
            Err(e) => guid_parse(s@) == Err::<u128, Seq<char>>(e@),
        },
{
    match <opcua::types::Guid as std::str::FromStr>::from_str(s) {
        Ok(g) => Ok(u128::from_le_bytes(g.to_bytes())),
        Err(e) => Err(format!("{e:?}")),
    }
}

/// A typed-in scalar value. Floating-point values are kept as the text,
/// checked to be a float literal.
pub enum ScalarValue {
    Boolean(bool),
    SByte(i8),
    Byte(u8),
    Int16(i16),
    UInt16(u16),
    Int32(i32),
    UInt32(u32),
    Int64(i64),
    UInt64(u64),
    Float(String),
    Double(String),
    String(String),
    NodeId(NodeId),
    Guid(u128),
}

/// The mathematical view of a scalar value.
pub enum ScalarView {
    Boolean(bool),
    SByte(i8),
    Byte(u8),
    Int16(i16),
    UInt16(u16),
    Int32(i32),
    UInt32(u32),
    Int64(i64),
    UInt64(u64),
    Float(Seq<char>),
    Double(Seq<char>),
    String(Seq<char>),
    NodeId(NodeIdView),
    Guid(u128),
}

impl View for ScalarValue {
    type V = ScalarView;

    open spec fn view(&self) -> ScalarView {
        match self {
            ScalarValue::Boolean(b) => ScalarView::Boolean(*b),
            ScalarValue::SByte(v) => ScalarView::SByte(*v),
            ScalarValue::Byte(v) => ScalarView::Byte(*v),
            ScalarValue::Int16(v) => ScalarView::Int16(*v),
            ScalarValue::UInt16(v) => ScalarView::UInt16(*v),
            ScalarValue::Int32(v) => ScalarView::Int32(*v),
            ScalarValue::UInt32(v) => ScalarView::UInt32(*v),
            ScalarValue::Int64(v) => ScalarView::Int64(*v),
            ScalarValue::UInt64(v) => ScalarView::UInt64(*v),
            ScalarValue::Float(s) => ScalarView::Float(s@),
            ScalarValue::Double(s) => ScalarView::Double(s@),
            ScalarValue::String(s) => ScalarView::String(s@),
            ScalarValue::NodeId(id) => ScalarView::NodeId(id@),
            ScalarValue::Guid(g) => ScalarView::Guid(*g),
        }
    }
}

/// An integer type's reading: the value, or `invalid <Type>: <reason>`.
pub open spec fn int_result(s: Seq<char>, name: Seq<char>, lo: int, hi: int, mk: spec_fn(int) -> ScalarView) -> Result<ScalarView, Seq<char>> {
    match int_parse(s, lo, hi) {
        Ok(v) => Ok(mk(v)),
        Err(e) => Err("invalid "@ + name + ": "@ + int_error_text(e)),
    }
}

/// Reading a scalar of type `t` from the text `s` (already trimmed): a
/// string is taken as it is; any other type needs a non-empty text.
pub open spec fn scalar_parse(s: Seq<char>, t: ScalarType) -> Result<ScalarView, Seq<char>> {
    if t == ScalarType::String {
        Ok(ScalarView::String(s))
    } else if s.len() == 0 {
        Err("value required"@)
    } else {
        match t {
            ScalarType::Boolean => {
                if s == "true"@ {
                    Ok(ScalarView::Boolean(true))
                } else if s == "false"@ {
                    Ok(ScalarView::Boolean(false))
                } else {
                    Err("invalid Boolean: "@ + bool_error_text())
                }
            },
            ScalarType::SByte => int_result(s, "SByte"@, -0x80, 0x7f, |v: int| ScalarView::SByte(v as i8)),
            ScalarType::Byte => int_result(s, "Byte"@, 0, 0xff, |v: int| ScalarView::Byte(v as u8)),
            ScalarType::Int16 => int_result(s, "Int16"@, -0x8000, 0x7fff, |v: int| ScalarView::Int16(v as i16)),
            ScalarType::UInt16 => int_result(s, "UInt16"@, 0, 0xffff, |v: int| ScalarView::UInt16(v as u16)),
            ScalarType::Int32 => int_result(s, "Int32"@, -0x8000_0000, 0x7fff_ffff, |v: int| ScalarView::Int32(v as i32)),
            ScalarType::UInt32 => int_result(s, "UInt32"@, 0, 0xffff_ffff, |v: int| ScalarView::UInt32(v as u32)),
            ScalarType::Int64 => int_result(s, "Int64"@, -0x8000_0000_0000_0000, 0x7fff_ffff_ffff_ffff, |v: int| ScalarView::Int64(v as i64)),
            ScalarType::UInt64 => int_result(s, "UInt64"@, 0, 0xffff_ffff_ffff_ffff, |v: int| ScalarView::UInt64(v as u64)),
            ScalarType::Float => if float_literal(s) {
                Ok(ScalarView::Float(s))
            } else {
                Err("invalid Float: "@ + float_error_text())
            },
            ScalarType::Double => if float_literal(s) {
                Ok(ScalarView::Double(s))
            } else {
                Err("invalid Double: "@ + float_error_text())
            },
            ScalarType::NodeId => match node_id_parse(s) {
                Ok(id) => Ok(ScalarView::NodeId(id)),
                Err(e) => Err("invalid NodeId: "@ + e),
            },
            ScalarType::Guid => match guid_parse(s) {
                Ok(g) => Ok(ScalarView::Guid(g)),
                Err(e) => Err("invalid Guid: "@ + e),
            },
            ScalarType::String => Ok(ScalarView::String(s)),
        }
    }
}

fn int_failure(name: &str, e: IntError) -> (r: String)
    ensures
        r@ == "invalid "@ + name@ + ": "@ + int_error_text(e),
{
    let mut r = String::new();
    push_str(&mut r, "invalid ");
    push_str(&mut r, name);
    push_str(&mut r, ": ");
    push_str(&mut r, int_error_message(e));
    assert(r@ =~= "invalid "@ + name@ + ": "@ + int_error_text(e));
    r
}

fn prefixed(prefix: &str, e: String) -> (r: String)
    ensures
        r@ == prefix@ + e@,
{
    let mut r = prefix.to_owned();
    push_str(&mut r, e.as_str());
    r
}

/// Reads a scalar of type `t` from the (already trimmed) text `s`.
pub fn parse_scalar(s: &str, t: ScalarType) -> (r: Result<ScalarValue, String>)
    ensures
        match r {
            Ok(v) => scalar_parse(s@, t) == Ok::<ScalarView, Seq<char>>(v@),
            Err(e) => scalar_parse(s@, t) == Err::<ScalarView, Seq<char>>(e@),
        },
{
    if t == ScalarType::String {
        return Ok(ScalarValue::String(s.to_owned()));
    }
    let cs = chars_of(s);
    if cs.len() == 0 {
        return Err("value required".to_owned());
    }
    let ghost sv = s@;
    match t {
        ScalarType::Boolean => {
            let st = s.to_owned();
            if st == "true".to_owned() {
                Ok(ScalarValue::Boolean(true))
            } else if st == "false".to_owned() {
                Ok(ScalarValue::Boolean(false))
            } else {
                Err(prefixed("invalid Boolean: ", "provided string was not `true` or `false`".to_owned()))
            }
        },
        ScalarType::SByte => match parse_int(cs.as_slice(), -0x80, 0x7f) {
            Ok(v) => Ok(ScalarValue::SByte(v as i8)),
            Err(e) => Err(int_failure("SByte", e)),
        },
        ScalarType::Byte => match parse_int(cs.as_slice(), 0, 0xff) {
            Ok(v) => Ok(ScalarValue::Byte(v as u8)),
            Err(e) => Err(int_failure("Byte", e)),
        },
        ScalarType::Int16 => match parse_int(cs.as_slice(), -0x8000, 0x7fff) {
            Ok(v) => Ok(ScalarValue::Int16(v as i16)),
            Err(e) => Err(int_failure("Int16", e)),
        },
        ScalarType::UInt16 => match parse_int(cs.as_slice(), 0, 0xffff) {
            Ok(v) => Ok(ScalarValue::UInt16(v as u16)),
            Err(e) => Err(int_failure("UInt16", e)),
        },
        ScalarType::Int32 => match parse_int(cs.as_slice(), -0x8000_0000, 0x7fff_ffff) {
            Ok(v) => Ok(ScalarValue::Int32(v as i32)),
            Err(e) => Err(int_failure("Int32", e)),
        },
        ScalarType::UInt32 => match parse_int(cs.as_slice(), 0, 0xffff_ffff) {
            Ok(v) => Ok(ScalarValue::UInt32(v as u32)),
            Err(e) => Err(int_failure("UInt32", e)),
        },
        ScalarType::Int64 => match parse_int(cs.as_slice(), -0x8000_0000_0000_0000, 0x7fff_ffff_ffff_ffff) {
            Ok(v) => Ok(ScalarValue::Int64(v as i64)),
            Err(e) => Err(int_failure("Int64", e)),
        },
        ScalarType::UInt64 => match parse_int(cs.as_slice(), 0, 0xffff_ffff_ffff_ffff) {
            Ok(v) => Ok(ScalarValue::UInt64(v as u64)),
            Err(e) => Err(int_failure("UInt64", e)),
        },
        ScalarType::Float => if check_float(cs.as_slice()) {
            Ok(ScalarValue::Float(s.to_owned()))
        } else {
            Err(prefixed("invalid Float: ", "invalid float literal".to_owned()))
        },
        ScalarType::Double => if check_float(cs.as_slice()) {
            Ok(ScalarValue::Double(s.to_owned()))
        } else {
            Err(prefixed("invalid Double: ", "invalid float literal".to_owned()))
        },
        ScalarType::NodeId => match parse_node_id(s) {
            Ok(id) => Ok(ScalarValue::NodeId(id)),
            Err(e) => Err(prefixed("invalid NodeId: ", e)),
        },
        ScalarType::Guid => match parse_guid(s) {
            Ok(g) => Ok(ScalarValue::Guid(g)),
            Err(e) => Err(prefixed("invalid Guid: ", e)),
        },
        ScalarType::String => Ok(ScalarValue::String(s.to_owned())),
    }
}

/// Number of leading characters of `s` equal to `c`.
pub open spec fn lead_count(s: Seq<char>, c: char) -> nat
    decreases s.len(),
{
    if s.len() > 0 && s[0] == c { 1 + lead_count(s.drop_first(), c) } else { 0 }
}

/// Number of trailing characters of `s` equal to `c`.
pub open spec fn trail_count(s: Seq<char>, c: char) -> nat
    decreases s.len(),
{
    if s.len() > 0 && s.last() == c { 1 + trail_count(s.drop_last(), c) } else { 0 }
}

/// `trim_start_matches('[')` followed by `trim_end_matches(']')`.
pub open spec fn strip_brackets(s: Seq<char>) -> Seq<char> {
    let a = s.skip(lead_count(s, '[') as int);
    a.take(a.len() - trail_count(a, ']'))
}

/// `str::split` on a character: the pieces between occurrences of `c`
/// (one piece for a text without `c`, empty pieces where `c`s are adjacent).
pub open spec fn split_on(s: Seq<char>, c: char) -> Seq<Seq<char>>
    decreases s.len(),
{
    if s.len() == 0 {
        seq![Seq::<char>::empty()]
    } else {
        let rest = split_on(s.drop_last(), c);
        if s.last() == c {
            rest.push(Seq::<char>::empty())
        } else {
            rest.update(rest.len() - 1, rest.last().push(s.last()))
        }
    }
}

pub(crate) proof fn lemma_split_nonempty(s: Seq<char>, c: char)
    ensures
        split_on(s, c).len() >= 1,
    decreases s.len(),
{
    if s.len() > 0 {
        lemma_split_nonempty(s.drop_last(), c);
    }
}

proof fn lemma_lead_count_step(s: Seq<char>, c: char, i: int)
    requires
        0 <= i <= s.len(),
        forall|j: int| 0 <= j < i ==> #[trigger] s[j] == c,
    ensures
        lead_count(s, c) == i + lead_count(s.skip(i), c),
    decreases i,
{
    if i > 0 {
        lemma_lead_count_step(s.drop_first(), c, i - 1);
        assert(s.drop_first().skip(i - 1) =~= s.skip(i));
    } else {
        assert(s.skip(0) =~= s);
    }
}

proof fn lemma_trail_count_step(s: Seq<char>, c: char, i: int)
    requires
        0 <= i <= s.len(),
        forall|j: int| s.len() - i <= j < s.len() ==> #[trigger] s[j] == c,
    ensures
        trail_count(s, c) == i + trail_count(s.take(s.len() - i), c),
    decreases i,
{
    if i > 0 {
        lemma_trail_count_step(s.drop_last(), c, i - 1);
        assert(s.drop_last().take(s.drop_last().len() - (i - 1)) =~= s.take(s.len() - i));
    } else {
        assert(s.take(s.len() as int) =~= s);
    }
}

/// The bounds of `strip_brackets` on `cs[x..y]`.
fn bracket_bounds(cs: &Vec<char>, x: usize, y: usize) -> (r: (usize, usize))
    requires
        x <= y <= cs@.len(),
    ensures
        x <= r.0 <= r.1 <= y,
        cs@.subrange(r.0 as int, r.1 as int) == strip_brackets(cs@.subrange(x as int, y as int)),
{
    let ghost s = cs@.subrange(x as int, y as int);
    let mut a: usize = x;
    while a < y && cs[a] == '['
        invariant
            x <= a <= y <= cs@.len(),
            s == cs@.subrange(x as int, y as int),
            forall|j: int| 0 <= j < a - x ==> #[trigger] s[j] == '[',
        decreases y - a,
    {
        a = a + 1;
    }
    proof {
        lemma_lead_count_step(s, '[', (a - x) as int);
        let rest = s.skip((a - x) as int);
        if rest.len() > 0 {
            assert(rest[0] == cs@[a as int]);
        }
        assert(lead_count(rest, '[') == 0);
    }
    let ghost t = s.skip((a - x) as int);
    let mut b: usize = y;
    while b > a && cs[b - 1] == ']'
        invariant
            x <= a <= b <= y <= cs@.len(),
            t == cs@.subrange(a as int, y as int),
            forall|j: int| b <= j < y ==> #[trigger] cs@[j] == ']',
        decreases b - a,
    {
        b = b - 1;
    }
    proof {
        assert(t =~= cs@.subrange(a as int, y as int));
        let i = (y - b) as int;
        assert forall|j: int| t.len() - i <= j < t.len() implies #[trigger] t[j] == ']' by {
            assert(t[j] == cs@[a + j]);
        }
        lemma_trail_count_step(t, ']', i);
        let u = t.take(t.len() - i);
        if u.len() > 0 {
            assert(u.last() == cs@[b - 1]);
        }
        assert(trail_count(u, ']') == 0);
        assert(cs@.subrange(a as int, b as int) =~= u);
    }
    (a, b)
}

/// The views of a vector of strings.
pub open spec fn string_views(v: Seq<String>) -> Seq<Seq<char>> {
    v.map_values(|t: String| t@)
}

/// Splits `cs[x..y]` on a separator character.
pub fn split_on_char(cs: &Vec<char>, x: usize, y: usize, sep: char) -> (r: Vec<String>)
    requires
        x <= y <= cs@.len(),
    ensures
        string_views(r@) == split_on(cs@.subrange(x as int, y as int), sep),
{
    let ghost s = cs@.subrange(x as int, y as int);
    let mut tokens: Vec<String> = Vec::new();
    let mut cur = String::new();
    let mut i: usize = x;
    assert(s.take(0) =~= Seq::<char>::empty());
    assert(string_views(tokens@).push(cur@) =~= split_on(s.take(0), sep));
    while i < y
        invariant
            x <= i <= y <= cs@.len(),
            s == cs@.subrange(x as int, y as int),
            string_views(tokens@).push(cur@) == split_on(s.take(i - x), sep),
        decreases y - i,
    {
        let ghost k = (i - x) as int;
        let ghost before = string_views(tokens@).push(cur@);
        assert(s.take(k + 1).drop_last() =~= s.take(k));
        assert(s.take(k + 1).last() == cs@[i as int]);
        let c = cs[i];
        if c == sep {
            tokens.push(cur);
            cur = String::new();
            assert(string_views(tokens@).push(cur@) =~= before.push(Seq::<char>::empty()));
        } else {
            push_char(&mut cur, c);
            assert(string_views(tokens@).push(cur@) =~= before.update(before.len() - 1, before.last().push(c)));
        }
        i = i + 1;
    }
    assert(s.take((y - x) as int) =~= s);
    tokens.push(cur);
    assert(string_views(tokens@) =~= split_on(s, sep));
    tokens
}

/// The items of an array input: the input trimmed, stripped of leading `[`
/// and trailing `]`, split on commas, each item trimmed; no items when
/// nothing is left after stripping.
pub open spec fn array_tokens(input: Seq<char>) -> Seq<Seq<char>> {
    let body = strip_brackets(trim(input));
    if body.len() == 0 {
        Seq::empty()
    } else {
        split_on(body, ',').map_values(|t: Seq<char>| trim(t))
    }
}

/// Reading the first `n` tokens as scalars of type `t`; the first failure
/// is reported as `item <i>: <reason>`.
pub open spec fn parse_tokens(tokens: Seq<Seq<char>>, t: ScalarType, n: nat) -> Result<Seq<ScalarView>, Seq<char>>
    decreases n,
{
    if n == 0 {
        Ok(Seq::empty())
    } else {
        match parse_tokens(tokens, t, (n - 1) as nat) {
            Err(e) => Err(e),
            Ok(vs) => match scalar_parse(tokens[n - 1], t) {
                Ok(v) => Ok(vs.push(v)),
                Err(e) => Err("item "@ + decimal((n - 1) as nat) + ": "@ + e),
            },
        }
    }
}

/// A typed-in method argument: a scalar, or an array of scalars of one type.
pub enum VariantInput {
    Scalar(ScalarValue),
    Array(ScalarType, Vec<ScalarValue>),
}

pub enum VariantView {
    Scalar(ScalarView),
    Array(ScalarType, Seq<ScalarView>),
}

pub open spec fn scalar_views(v: Seq<ScalarValue>) -> Seq<ScalarView> {
    v.map_values(|x: ScalarValue| x@)
}

impl View for VariantInput {
    type V = VariantView;

    open spec fn view(&self) -> VariantView {
        match self {
            VariantInput::Scalar(v) => VariantView::Scalar(v@),
            VariantInput::Array(t, vs) => VariantView::Array(*t, scalar_views(vs@)),
        }
    }
}

/// Reading a user-typed argument of the given data type and value rank:
/// rank 1 or more expects comma-separated items, optionally in brackets.
pub open spec fn variant_parse(input: Seq<char>, data_type: NodeIdView, value_rank: i32) -> Result<VariantView, Seq<char>> {
    match scalar_type_of(data_type) {
        None => Err("unsupported data type: "@ + node_id_text(data_type)),
        Some(t) => if value_rank < 1 {
            match scalar_parse(trim(input), t) {
                Ok(v) => Ok(VariantView::Scalar(v)),
                Err(e) => Err(e),
            }
        } else {
            let toks = array_tokens(input);
            match parse_tokens(toks, t, toks.len()) {
                Ok(vs) => Ok(VariantView::Array(t, vs)),
                Err(e) => Err(e),
            }
        },
    }
}

/// Parse a user-typed string into a value of the expected `data_type`.
/// Honors `value_rank`: rank ≥ 1 expects comma-separated values.
pub fn parse_variant(input: &str, data_type: &NodeId, value_rank: i32) -> (r: Result<VariantInput, String>)
    ensures
        match r {
            Ok(v) => variant_parse(input@, data_type@, value_rank) == Ok::<VariantView, Seq<char>>(v@),
            Err(e) => variant_parse(input@, data_type@, value_rank) == Err::<VariantView, Seq<char>>(e@),
        },
{
    let t = match builtin_scalar_type(data_type) {
        Some(t) => t,
        None => {
            let mut e = "unsupported data type: ".to_owned();
            data_type.write_text(&mut e);
            return Err(e);
        },
    };
    let cs = chars_of(input);
    let (a, b) = trim_bounds(&cs);
    if value_rank < 1 {
        let trimmed = string_from_chars(&cs.as_slice()[a..b]);
        return match parse_scalar(trimmed.as_str(), t) {
            Ok(v) => Ok(VariantInput::Scalar(v)),
            Err(e) => Err(e),
        };
    }
    let (x, y) = bracket_bounds(&cs, a, b);
    let ghost body = cs@.subrange(x as int, y as int);
    assert(body == strip_brackets(trim(input@)));
    let ghost toks = array_tokens(input@);
    let mut values: Vec<ScalarValue> = Vec::new();
    assert(scalar_views(values@) =~= Seq::<ScalarView>::empty());
    if x == y {
        assert(toks.len() == 0);
        assert(scalar_views(values@) =~= Seq::<ScalarView>::empty());
        return Ok(VariantInput::Array(t, values));
    }
    let raw = split_on_char(&cs, x, y, ',');
    assert(toks =~= string_views(raw@).map_values(|s: Seq<char>| trim(s)));
    let mut i: usize = 0;
    while i < raw.len()
        invariant
            0 <= i <= raw@.len() == toks.len(),
            toks == string_views(raw@).map_values(|s: Seq<char>| trim(s)),
            toks == array_tokens(input@),
            scalar_type_of(data_type@) == Some(t),
            value_rank >= 1,
            parse_tokens(toks, t, i as nat) == Ok::<Seq<ScalarView>, Seq<char>>(scalar_views(values@)),
        decreases raw.len() - i,
    {
        let item = crate::text::trim_string(raw[i].as_str());
        assert(item@ == toks[i as int]);
        let ghost prev = scalar_views(values@);
        match parse_scalar(item.as_str(), t) {
            Ok(v) => {
                let ghost vv = v@;
                values.push(v);
                assert(scalar_views(values@) =~= prev.push(vv));
            },
            Err(e) => {
                let mut msg = "item ".to_owned();
                push_decimal(&mut msg, i as u64);
                push_str(&mut msg, ": ");
                push_str(&mut msg, e.as_str());
                assert(parse_tokens(toks, t, (i + 1) as nat) == Err::<Seq<ScalarView>, Seq<char>>(msg@));
                proof {
                    lemma_parse_tokens_err(toks, t, (i + 1) as nat, toks.len());
                }
                return Err(msg);
            },
        }
        i = i + 1;
    }
    Ok(VariantInput::Array(t, values))
}

proof fn lemma_parse_tokens_err(toks: Seq<Seq<char>>, t: ScalarType, n: nat, m: nat)
    requires
        n <= m,
        parse_tokens(toks, t, n) is Err,
    ensures
        parse_tokens(toks, t, m) == parse_tokens(toks, t, n),
    decreases m - n,
{
    if n < m {
        lemma_parse_tokens_err(toks, t, n, (m - 1) as nat);
    }
}

} // verus!
