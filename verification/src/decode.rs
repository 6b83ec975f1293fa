//! The typed value decoder: one raw result cell, tagged with the source
//! database's name for its column type, becomes one canonical value.
//!
//! Decoding is total. Every tag maps to exactly one value variant; a cell
//! whose bytes do not fit the tag's expected text form degrades to `Null`
//! for that cell alone, never to an error — partial data beats a failed
//! result display. Unrecognized tags fall back to a UTF-8 string, and to
//! `Null` when the bytes are not valid UTF-8.

use vstd::prelude::*;

verus! {

use vstd::utf8::{valid_utf8, decode_utf8};
use vstd::slice::slice_subrange;
use crate::text::{string_from_utf8, chars_of, string_of};

/// One decoded cell value.
#[derive(Debug, PartialEq)]
pub enum DecodedValue {
    /// Missing value, or a cell whose bytes do not fit its tag.
    Null,
    Boolean(bool),
    /// A numeric literal, kept as text so decimal precision is never
    /// rounded through a binary float.
    Number(String),
    Text(String),
    /// A structured (JSON-like) document, passed through unmodified.
    Document(String),
}

/// The mathematical content of a decoded value.
#[verifier::ext_equal]
pub enum ValueModel {
    Null,
    Boolean(bool),
    Number(Seq<char>),
    Text(Seq<char>),
    Document(Seq<char>),
}

impl View for DecodedValue {
    type V = ValueModel;

    open spec fn view(&self) -> ValueModel {
        match self {
            DecodedValue::Null => ValueModel::Null,
            DecodedValue::Boolean(b) => ValueModel::Boolean(*b),
            DecodedValue::Number(s) => ValueModel::Number(s@),
            DecodedValue::Text(s) => ValueModel::Text(s@),
            DecodedValue::Document(s) => ValueModel::Document(s@),
        }
    }
}

impl DeepView for DecodedValue {
    type V = ValueModel;

    open spec fn deep_view(&self) -> ValueModel {
        self.view()
    }
}

/// The closed set of recognized type-tag classes, plus the fallback.
#[derive(Clone, Copy, PartialEq, Eq, Structural, Debug)]
pub enum TypeTag {
    Uuid,
    Character,
    Date,
    Timestamp,
    TimestampTz,
    Int2,
    Int4,
    Int8,
    Numeric,
    Document,
    Boolean,
    Other,
}

// ---------------------------------------------------------------------
// Character classes and tag recognition
// ---------------------------------------------------------------------

/// An ASCII decimal digit.
pub open spec fn spec_digit(c: char) -> bool {
    48 <= c as u32 <= 57
}

/// The value of an ASCII decimal digit.
pub open spec fn spec_digit_val(c: char) -> int {
    c as u32 - 48
}

/// An ASCII hexadecimal digit, either case.
pub open spec fn spec_hex(c: char) -> bool {
    spec_digit(c) || (97 <= c as u32 <= 102) || (65 <= c as u32 <= 70)
}

/// Character `a` matches `b` (an upper-case letter or other ASCII
/// character) ignoring ASCII case.
pub open spec fn spec_eq_ci_char(a: char, b: char) -> bool {
    a == b || (97 <= a as u32 <= 122 && a as u32 == b as u32 + 32)
}

/// `s` equals the (upper-case) pattern `p` ignoring ASCII case.
pub open spec fn spec_eq_ci(s: Seq<char>, p: Seq<char>) -> bool {
    s.len() == p.len() && forall|i: int| 0 <= i < s.len() ==> spec_eq_ci_char(s[i], p[i])
}

/// The tag class a source type name selects, matched ignoring ASCII case,
/// with everything unrecognized falling back to `Other`.
pub open spec fn spec_tag_of(tag: Seq<char>) -> TypeTag {
    if spec_eq_ci(tag, "UUID"@) {
        TypeTag::Uuid
    } else if spec_eq_ci(tag, "TEXT"@) || spec_eq_ci(tag, "VARCHAR"@) || spec_eq_ci(tag, "CHAR"@) {
        TypeTag::Character
    } else if spec_eq_ci(tag, "DATE"@) {
        TypeTag::Date
    } else if spec_eq_ci(tag, "TIMESTAMP"@) {
        TypeTag::Timestamp
    } else if spec_eq_ci(tag, "TIMESTAMPTZ"@) {
        TypeTag::TimestampTz
    } else if spec_eq_ci(tag, "INT2"@) {
        TypeTag::Int2
    } else if spec_eq_ci(tag, "INT4"@) {
        TypeTag::Int4
    } else if spec_eq_ci(tag, "INT8"@) {
        TypeTag::Int8
    } else if spec_eq_ci(tag, "FLOAT4"@) || spec_eq_ci(tag, "FLOAT8"@) || spec_eq_ci(
        tag,
        "NUMERIC"@,
    ) {
        TypeTag::Numeric
    } else if spec_eq_ci(tag, "JSON"@) || spec_eq_ci(tag, "JSONB"@) {
        TypeTag::Document
    } else if spec_eq_ci(tag, "BOOL"@) {
        TypeTag::Boolean
    } else {
        TypeTag::Other
    }
}

fn is_digit(c: char) -> (r: bool)
    ensures
        r == spec_digit(c),
{
    let u = c as u32;
    48 <= u && u <= 57
}

fn eq_ci(s: &[char], pat: &str) -> (r: bool)
    ensures
        r == spec_eq_ci(s@, pat@),
{
    let p = chars_of(pat);
    if s.len() != p.len() {
        return false;
    }
    let mut i: usize = 0;
    while i < s.len()
        invariant
            i <= s@.len(),
            s@.len() == p@.len(),
            p@ == pat@,
            forall|k: int| 0 <= k < i ==> spec_eq_ci_char(s@[k], p@[k]),
        decreases s@.len() - i,
    {
        let a = s[i];
        let b = p[i];
        let au = a as u32;
        let bu = b as u32;
        let ok = a == b || (97 <= au && au <= 122 && bu == au - 32);
        if !ok {
            assert(!spec_eq_ci_char(s@[i as int], pat@[i as int]));
            return false;
        }
        i = i + 1;
    }
    true
}

/// Selects the tag class for a source type name.
pub fn tag_of(tag: &str) -> (t: TypeTag)
    ensures
        t == spec_tag_of(tag@),
{
    let cs = chars_of(tag);
    let s = cs.as_slice();
    if eq_ci(s, "UUID") {
        TypeTag::Uuid
    } else if eq_ci(s, "TEXT") || eq_ci(s, "VARCHAR") || eq_ci(s, "CHAR") {
        TypeTag::Character
    } else if eq_ci(s, "DATE") {
        TypeTag::Date
    } else if eq_ci(s, "TIMESTAMP") {
        TypeTag::Timestamp
    } else if eq_ci(s, "TIMESTAMPTZ") {
        TypeTag::TimestampTz
    } else if eq_ci(s, "INT2") {
        TypeTag::Int2
    } else if eq_ci(s, "INT4") {
        TypeTag::Int4
    } else if eq_ci(s, "INT8") {
        TypeTag::Int8
    } else if eq_ci(s, "FLOAT4") || eq_ci(s, "FLOAT8") || eq_ci(s, "NUMERIC") {
        TypeTag::Numeric
    } else if eq_ci(s, "JSON") || eq_ci(s, "JSONB") {
        TypeTag::Document
    } else if eq_ci(s, "BOOL") {
        TypeTag::Boolean
    } else {
        TypeTag::Other
    }
}

fn chars_eq(s: &[char], pat: &str) -> (r: bool)
    ensures
        r == (s@ == pat@),
{
    let p = chars_of(pat);
    if s.len() != p.len() {
        assert(s@ != pat@);
        return false;
    }
    let mut i: usize = 0;
    while i < s.len()
        invariant
            i <= s@.len(),
            s@.len() == p@.len(),
            p@ == pat@,
            forall|k: int| 0 <= k < i ==> s@[k] == p@[k],
        decreases s@.len() - i,
    {
        if s[i] != p[i] {
            assert(s@[i as int] != pat@[i as int]);
            return false;
        }
        i = i + 1;
    }
    proof {
        assert(s@ =~= pat@);
    }
    true
}

// ---------------------------------------------------------------------
// Digit runs and decimal values
// ---------------------------------------------------------------------

/// The end of the run of decimal digits starting at `i`.
pub open spec fn spec_digits_end(s: Seq<char>, i: int) -> int
    decreases s.len() - i,
    when 0 <= i <= s.len()
{
    if i < s.len() && spec_digit(s[i]) {
        spec_digits_end(s, i + 1)
    } else {
        i
    }
}

pub proof fn lemma_digits_end(s: Seq<char>, i: int)
    requires
        0 <= i <= s.len(),
    ensures
        i <= spec_digits_end(s, i) <= s.len(),
        forall|k: int| i <= k < spec_digits_end(s, i) ==> spec_digit(s[k]),
        spec_digits_end(s, i) < s.len() ==> !spec_digit(s[spec_digits_end(s, i)]),
    decreases s.len() - i,
{
    if i < s.len() && spec_digit(s[i]) {
        lemma_digits_end(s, i + 1);
    }
}

fn digits_end(s: &[char], i: usize) -> (e: usize)
    requires
        i <= s@.len(),
    ensures
        e == spec_digits_end(s@, i as int),
{
    let mut e: usize = i;
    while e < s.len() && is_digit(s[e])
        invariant
            i <= e <= s@.len(),
            spec_digits_end(s@, i as int) == spec_digits_end(s@, e as int),
        decreases s@.len() - e,
    {
        e = e + 1;
    }
    e
}

/// The decimal value of a digit string.
pub open spec fn spec_digits_val(s: Seq<char>) -> int
    decreases s.len(),
{
    if s.len() == 0 {
        0
    } else {
        spec_digits_val(s.drop_last()) * 10 + spec_digit_val(s.last())
    }
}

/// All characters are decimal digits.
pub open spec fn spec_all_digits(s: Seq<char>) -> bool {
    forall|i: int| 0 <= i < s.len() ==> spec_digit(s[i])
}

/// Ten to the `n`.
pub open spec fn spec_pow10(n: nat) -> int
    decreases n,
{
    if n == 0 {
        1
    } else {
        10 * spec_pow10((n - 1) as nat)
    }
}

proof fn lemma_pow10_19()
    ensures
        spec_pow10(19) == 10000000000000000000,
{
    reveal_with_fuel(spec_pow10, 20);
}

proof fn lemma_pow10_pos(n: nat)
    ensures
        spec_pow10(n) >= 1,
    decreases n,
{
    if n > 0 {
        lemma_pow10_pos((n - 1) as nat);
    }
}

proof fn lemma_pow10_mono(a: nat, b: nat)
    requires
        a <= b,
    ensures
        spec_pow10(a) <= spec_pow10(b),
        spec_pow10(a) >= 1,
    decreases b,
{
    lemma_pow10_pos(a);
    if a < b {
        lemma_pow10_mono(a, (b - 1) as nat);
        lemma_pow10_pos((b - 1) as nat);
    }
}

proof fn lemma_digits_val_bounds(s: Seq<char>)
    requires
        spec_all_digits(s),
    ensures
        0 <= spec_digits_val(s) < spec_pow10(s.len()),
    decreases s.len(),
{
    if s.len() == 0 {
    } else {
        assert(spec_all_digits(s.drop_last()));
        lemma_digits_val_bounds(s.drop_last());
    }
}

proof fn lemma_digits_val_lower(s: Seq<char>)
    requires
        spec_all_digits(s),
        s.len() >= 1,
        spec_digit_val(s[0]) != 0,
    ensures
        spec_digits_val(s) >= spec_pow10((s.len() - 1) as nat),
    decreases s.len(),
{
    if s.len() == 1 {
        assert(s.last() == s[0]);
        assert(s.drop_last() =~= Seq::<char>::empty());
        assert(spec_digits_val(Seq::<char>::empty()) == 0);
        assert(spec_digits_val(s) == spec_digit_val(s[0]));
        assert(spec_pow10(0) == 1);
    } else {
        assert(s.drop_last()[0] == s[0]);
        assert(spec_all_digits(s.drop_last()));
        lemma_digits_val_lower(s.drop_last());
        assert(spec_digit_val(s.last()) >= 0);
    }
}

fn parse_digits(s: &[char]) -> (v: u64)
    requires
        spec_all_digits(s@),
        s@.len() <= 19,
    ensures
        v == spec_digits_val(s@),
{
    proof {
        lemma_pow10_19();
    }
    let mut v: u64 = 0;
    let mut i: usize = 0;
    while i < s.len()
        invariant
            i <= s@.len() <= 19,
            spec_all_digits(s@),
            v == spec_digits_val(s@.take(i as int)),
            v < spec_pow10(i as nat),
            spec_pow10(19) == 10000000000000000000,
        decreases s@.len() - i,
    {
        let c = s[i];
        assert(spec_digit(s@[i as int]));
        let d = (c as u32) - 48;
        proof {
            lemma_pow10_mono(i as nat, 18);
            lemma_pow10_mono((i + 1) as nat, 19);
            assert(spec_pow10((i + 1) as nat) == 10 * spec_pow10(i as nat));
        }
        v = v * 10 + (d as u64);
        proof {
            assert(s@.take(i + 1).drop_last() =~= s@.take(i as int));
            assert(s@.take(i + 1).last() == s@[i as int]);
            assert(spec_all_digits(s@.take(i + 1)));
            lemma_digits_val_bounds(s@.take(i + 1));
        }
        i = i + 1;
    }
    proof {
        assert(s@.take(s@.len() as int) =~= s@);
    }
    v
}

// ---------------------------------------------------------------------
// Integers
// ---------------------------------------------------------------------

/// The canonical decimal form of an integer: an optional minus sign, then
/// digits with no leading zero digit (a lone `0` stands for zero; `-0` and
/// zero-padded forms are not canonical).
pub open spec fn spec_is_canonical_int(s: Seq<char>) -> bool {
    if s.len() > 0 && s[0] == '-' {
        let d = s.subrange(1, s.len() as int);
        d.len() >= 1 && spec_all_digits(d) && spec_digit_val(d[0]) != 0
    } else {
        s.len() >= 1 && spec_all_digits(s) && (s.len() == 1 || spec_digit_val(s[0]) != 0)
    }
}

/// The value of a canonical integer string.
pub open spec fn spec_int_val(s: Seq<char>) -> int {
    if s.len() > 0 && s[0] == '-' {
        -spec_digits_val(s.subrange(1, s.len() as int))
    } else {
        spec_digits_val(s)
    }
}

/// Decoding under an integer tag whose width admits values in
/// `-neg_max ..= pos_max`: the text is kept as the numeric literal exactly
/// when it is canonical and in range, and the cell is `Null` otherwise.
pub open spec fn spec_decode_int(s: Seq<char>, neg_max: u64, pos_max: u64) -> ValueModel {
    if spec_is_canonical_int(s) && -(neg_max as int) <= spec_int_val(s) <= pos_max as int {
        ValueModel::Number(s)
    } else {
        ValueModel::Null
    }
}

fn decode_int(s: String, neg_max: u64, pos_max: u64) -> (v: DecodedValue)
    requires
        neg_max <= 9223372036854775808,
        pos_max <= 9223372036854775807,
    ensures
        v@ == spec_decode_int(s@, neg_max, pos_max),
{
    let cs = chars_of(s.as_str());
    if cs.len() == 0 {
        return DecodedValue::Null;
    }
    let neg = cs[0] == '-';
    let dstart: usize = if neg {
        1
    } else {
        0
    };
    let ds = slice_subrange(cs.as_slice(), dstart, cs.len());
    proof {
        assert(ds@ =~= cs@.subrange(dstart as int, cs@.len() as int));
        if !neg {
            assert(ds@ =~= cs@);
        }
    }
    if ds.len() == 0 {
        return DecodedValue::Null;
    }
    let e = digits_end(ds, 0);
    proof {
        lemma_digits_end(ds@, 0);
    }
    if e != ds.len() {
        assert(!spec_all_digits(ds@));
        return DecodedValue::Null;
    }
    assert(spec_all_digits(ds@));
    // canonical form: no leading zero digit unless the whole string is "0"
    if digit_val(ds[0]) == 0 && (neg || ds.len() > 1) {
        return DecodedValue::Null;
    }
    assert(spec_is_canonical_int(s@));
    if ds.len() > 19 {
        proof {
            lemma_digits_val_lower(ds@);
            lemma_pow10_mono(19, (ds@.len() - 1) as nat);
            lemma_pow10_19();
        }
        return DecodedValue::Null;
    }
    let mag = parse_digits(ds);
    proof {
        lemma_pow10_19();
    }
    let in_range = if neg {
        mag <= neg_max
    } else {
        mag <= pos_max
    };
    if in_range {
        DecodedValue::Number(s)
    } else {
        proof {
            lemma_digits_val_bounds(ds@);
        }
        DecodedValue::Null
    }
}

// ---------------------------------------------------------------------
// Numeric literals (floating and arbitrary-precision decimal)
// ---------------------------------------------------------------------

/// An unsigned decimal literal: digits with no leading zero digit (a lone
/// `0` or a `0.`-prefixed fraction is allowed), optionally followed by a
/// point and at least one digit.
pub open spec fn spec_is_unsigned_numeric(u: Seq<char>) -> bool {
    let e = spec_digits_end(u, 0);
    &&& e >= 1
    &&& (spec_digit_val(u[0]) != 0 || e == 1)
    &&& (e == u.len() || (u[e] == '.' && e + 1 < u.len() && spec_digits_end(u, e + 1) == u.len()))
}

/// A decimal numeric literal, optionally signed.
pub open spec fn spec_is_numeric_literal(s: Seq<char>) -> bool {
    if s.len() > 0 && s[0] == '-' {
        spec_is_unsigned_numeric(s.subrange(1, s.len() as int))
    } else {
        s.len() > 0 && spec_is_unsigned_numeric(s)
    }
}

fn unsigned_numeric_check(u: &[char]) -> (r: bool)
    requires
        u@.len() >= 1,
    ensures
        r == spec_is_unsigned_numeric(u@),
{
    let e = digits_end(u, 0);
    proof {
        lemma_digits_end(u@, 0);
    }
    if e == 0 {
        return false;
    }
    if digit_val(u[0]) == 0 && e != 1 {
        return false;
    }
    if e == u.len() {
        return true;
    }
    if u[e] == '.' && e + 1 < u.len() {
        let e2 = digits_end(u, e + 1);
        e2 == u.len()
    } else {
        false
    }
}

fn decode_numeric(s: String) -> (v: DecodedValue)
    ensures
        v@ == (if spec_is_numeric_literal(s@) {
            ValueModel::Number(s@)
        } else {
            ValueModel::Null
        }),
{
    let cs = chars_of(s.as_str());
    if cs.len() == 0 {
        return DecodedValue::Null;
    }
    let ok = if cs[0] == '-' {
        if cs.len() >= 2 {
            let u = slice_subrange(cs.as_slice(), 1, cs.len());
            proof {
                assert(u@ =~= cs@.subrange(1, cs@.len() as int));
            }
            unsigned_numeric_check(u)
        } else {
            proof {
                assert(cs@.subrange(1, cs@.len() as int) =~= Seq::<char>::empty());
                assert(spec_digits_end(cs@.subrange(1, cs@.len() as int), 0) == 0);
            }
            false
        }
    } else {
        unsigned_numeric_check(cs.as_slice())
    };
    if ok {
        DecodedValue::Number(s)
    } else {
        DecodedValue::Null
    }
}

// ---------------------------------------------------------------------
// Booleans
// ---------------------------------------------------------------------

/// The boolean text forms: `t`/`true` and `f`/`false`; anything else
/// degrades to `Null`.
pub open spec fn spec_decode_bool(s: Seq<char>) -> ValueModel {
    if s == "t"@ || s == "true"@ {
        ValueModel::Boolean(true)
    } else if s == "f"@ || s == "false"@ {
        ValueModel::Boolean(false)
    } else {
        ValueModel::Null
    }
}

fn decode_bool(s: String) -> (v: DecodedValue)
    ensures
        v@ == spec_decode_bool(s@),
{
    let cs = chars_of(s.as_str());
    let sl = cs.as_slice();
    if chars_eq(sl, "t") || chars_eq(sl, "true") {
        DecodedValue::Boolean(true)
    } else if chars_eq(sl, "f") || chars_eq(sl, "false") {
        DecodedValue::Boolean(false)
    } else {
        DecodedValue::Null
    }
}

// ---------------------------------------------------------------------
// Unique identifiers
// ---------------------------------------------------------------------

/// What the character at position `k` of a hyphenated identifier must be.
pub open spec fn spec_uuid_pos_ok(k: int, c: char) -> bool {
    if k == 8 || k == 13 || k == 18 || k == 23 {
        c == '-'
    } else {
        spec_hex(c)
    }
}

/// The canonical hyphenated identifier shape: 36 characters, hyphens at
/// the four fixed positions, hexadecimal digits elsewhere.
pub open spec fn spec_is_uuid(s: Seq<char>) -> bool {
    s.len() == 36 && forall|k: int| 0 <= k < 36 ==> spec_uuid_pos_ok(k, s[k])
}

/// Upper-case hexadecimal digits lowered; everything else unchanged.
pub open spec fn spec_lower_hex_char(c: char) -> char {
    if c == 'A' {
        'a'
    } else if c == 'B' {
        'b'
    } else if c == 'C' {
        'c'
    } else if c == 'D' {
        'd'
    } else if c == 'E' {
        'e'
    } else if c == 'F' {
        'f'
    } else {
        c
    }
}

/// Decoding under the unique-identifier tag: the canonical (lower-case)
/// string form of a well-shaped identifier, `Null` otherwise.
pub open spec fn spec_decode_uuid(s: Seq<char>) -> ValueModel {
    if spec_is_uuid(s) {
        ValueModel::Text(s.map_values(|c: char| spec_lower_hex_char(c)))
    } else {
        ValueModel::Null
    }
}

fn lower_hex_char(c: char) -> (r: char)
    ensures
        r == spec_lower_hex_char(c),
{
    if c == 'A' {
        'a'
    } else if c == 'B' {
        'b'
    } else if c == 'C' {
        'c'
    } else if c == 'D' {
        'd'
    } else if c == 'E' {
        'e'
    } else if c == 'F' {
        'f'
    } else {
        c
    }
}

fn decode_uuid(s: String) -> (v: DecodedValue)
    ensures
        v@ == spec_decode_uuid(s@),
{
    let cs = chars_of(s.as_str());
    if cs.len() != 36 {
        return DecodedValue::Null;
    }
    let mut out: Vec<char> = Vec::new();
    let mut i: usize = 0;
    while i < 36
        invariant
            i <= 36,
            cs@.len() == 36,
            cs@ == s@,
            out@.len() == i,
            forall|k: int| 0 <= k < i ==> spec_uuid_pos_ok(k, cs@[k]),
            forall|k: int| 0 <= k < i ==> out@[k] == spec_lower_hex_char(cs@[k]),
        decreases 36 - i,
    {
        let c = cs[i];
        let ok = if i == 8 || i == 13 || i == 18 || i == 23 {
            c == '-'
        } else {
            let u = c as u32;
            (48 <= u && u <= 57) || (97 <= u && u <= 102) || (65 <= u && u <= 70)
        };
        if !ok {
            assert(!spec_uuid_pos_ok(i as int, s@[i as int]));
            return DecodedValue::Null;
        }
        out.push(lower_hex_char(c));
        i = i + 1;
    }
    proof {
        assert(spec_is_uuid(s@));
        assert(out@ =~= s@.map_values(|c: char| spec_lower_hex_char(c)));
    }
    DecodedValue::Text(string_of(&out))
}

// ---------------------------------------------------------------------
// Dates and timestamps
// ---------------------------------------------------------------------

/// A leap year in the proleptic Gregorian calendar.
pub open spec fn spec_leap_year(y: int) -> bool {
    y % 4 == 0 && (y % 100 != 0 || y % 400 == 0)
}

/// Days in a month.
pub open spec fn spec_days_in_month(y: int, m: int) -> int {
    if m == 2 {
        if spec_leap_year(y) {
            29
        } else {
            28
        }
    } else if m == 4 || m == 6 || m == 9 || m == 11 {
        30
    } else {
        31
    }
}

/// The digits-and-hyphens shape of a `YYYY-MM-DD` date.
pub open spec fn spec_date_shape(s: Seq<char>) -> bool {
    &&& s.len() == 10
    &&& spec_digit(s[0])
    &&& spec_digit(s[1])
    &&& spec_digit(s[2])
    &&& spec_digit(s[3])
    &&& s[4] == '-'
    &&& spec_digit(s[5])
    &&& spec_digit(s[6])
    &&& s[7] == '-'
    &&& spec_digit(s[8])
    &&& spec_digit(s[9])
}

pub open spec fn spec_date_y(s: Seq<char>) -> int {
    spec_digit_val(s[0]) * 1000 + spec_digit_val(s[1]) * 100 + spec_digit_val(s[2]) * 10
        + spec_digit_val(s[3])
}

pub open spec fn spec_date_m(s: Seq<char>) -> int {
    spec_digit_val(s[5]) * 10 + spec_digit_val(s[6])
}

pub open spec fn spec_date_d(s: Seq<char>) -> int {
    spec_digit_val(s[8]) * 10 + spec_digit_val(s[9])
}

/// A well-formed `YYYY-MM-DD` calendar date.
pub open spec fn spec_is_date(s: Seq<char>) -> bool {
    &&& spec_date_shape(s)
    &&& 1 <= spec_date_m(s) <= 12
    &&& 1 <= spec_date_d(s) <= spec_days_in_month(spec_date_y(s), spec_date_m(s))
}

fn digit_val(c: char) -> (v: u32)
    requires
        spec_digit(c),
    ensures
        v == spec_digit_val(c),
{
    (c as u32) - 48
}

fn date_check(s: &[char]) -> (r: bool)
    ensures
        r == spec_is_date(s@),
{
    if s.len() != 10 {
        return false;
    }
    let shape = is_digit(s[0]) && is_digit(s[1]) && is_digit(s[2]) && is_digit(s[3]) && s[4] == '-'
        && is_digit(s[5]) && is_digit(s[6]) && s[7] == '-' && is_digit(s[8]) && is_digit(s[9]);
    if !shape {
        return false;
    }
    let y = digit_val(s[0]) * 1000 + digit_val(s[1]) * 100 + digit_val(s[2]) * 10 + digit_val(
        s[3],
    );
    let m = digit_val(s[5]) * 10 + digit_val(s[6]);
    let d = digit_val(s[8]) * 10 + digit_val(s[9]);
    if m < 1 || m > 12 {
        return false;
    }
    let dim: u32 = if m == 2 {
        if y % 4 == 0 && (y % 100 != 0 || y % 400 == 0) {
            29
        } else {
            28
        }
    } else if m == 4 || m == 6 || m == 9 || m == 11 {
        30
    } else {
        31
    };
    1 <= d && d <= dim
}

/// The time-of-day shape and ranges at positions 11..19 plus the date and
/// separator: the head of a timestamp, fractional seconds not included.
pub open spec fn spec_ts_head_ok(s: Seq<char>) -> bool {
    &&& s.len() >= 19
    &&& spec_is_date(s.take(10))
    &&& (s[10] == ' ' || s[10] == 'T')
    &&& spec_digit(s[11])
    &&& spec_digit(s[12])
    &&& s[13] == ':'
    &&& spec_digit(s[14])
    &&& spec_digit(s[15])
    &&& s[16] == ':'
    &&& spec_digit(s[17])
    &&& spec_digit(s[18])
    &&& spec_digit_val(s[11]) * 10 + spec_digit_val(s[12]) < 24
    &&& spec_digit_val(s[14]) * 10 + spec_digit_val(s[15]) < 60
    &&& spec_digit_val(s[17]) * 10 + spec_digit_val(s[18]) < 60
}

/// From position `e` to the end: either nothing, or a point followed by at
/// least one digit running to the end.
pub open spec fn spec_frac_to_end(s: Seq<char>, e: int) -> bool {
    s.len() == e || (s[e] == '.' && e + 1 < s.len() && spec_digits_end(s, e + 1) == s.len())
}

/// A timestamp without zone: date, separator, time, optional fractional
/// seconds.
pub open spec fn spec_is_ts(s: Seq<char>) -> bool {
    spec_ts_head_ok(s) && spec_frac_to_end(s, 19)
}

/// The canonical form kept for a timestamp: the `T` separator, fractional
/// seconds dropped.
pub open spec fn spec_canon_ts(s: Seq<char>) -> Seq<char> {
    s.take(10) + seq!['T'] + s.subrange(11, 19)
}

fn ts_head_check(s: &[char]) -> (r: bool)
    ensures
        r == spec_ts_head_ok(s@),
{
    if s.len() < 19 {
        return false;
    }
    let date = slice_subrange(s, 0, 10);
    proof {
        assert(date@ =~= s@.take(10));
    }
    if !date_check(date) {
        return false;
    }
    if !(s[10] == ' ' || s[10] == 'T') {
        return false;
    }
    let shape = is_digit(s[11]) && is_digit(s[12]) && s[13] == ':' && is_digit(s[14]) && is_digit(
        s[15],
    ) && s[16] == ':' && is_digit(s[17]) && is_digit(s[18]);
    if !shape {
        return false;
    }
    let hh = digit_val(s[11]) * 10 + digit_val(s[12]);
    let mm = digit_val(s[14]) * 10 + digit_val(s[15]);
    let ss = digit_val(s[17]) * 10 + digit_val(s[18]);
    hh < 24 && mm < 60 && ss < 60
}

fn push_canon_ts(out: &mut Vec<char>, s: &[char])
    requires
        s@.len() >= 19,
    ensures
        final(out)@ == old(out)@ + spec_canon_ts(s@),
{
    let mut i: usize = 0;
    while i < 10
        invariant
            i <= 10,
            s@.len() >= 19,
            out@ == old(out)@ + s@.take(i as int),
        decreases 10 - i,
    {
        out.push(s[i]);
        proof {
            assert(out@ =~= old(out)@ + s@.take(i + 1));
        }
        i = i + 1;
    }
    out.push('T');
    let mut j: usize = 11;
    while j < 19
        invariant
            11 <= j <= 19,
            s@.len() >= 19,
            out@ == old(out)@ + s@.take(10) + seq!['T'] + s@.subrange(11, j as int),
        decreases 19 - j,
    {
        out.push(s[j]);
        proof {
            assert(out@ =~= old(out)@ + s@.take(10) + seq!['T'] + s@.subrange(11, j + 1));
        }
        j = j + 1;
    }
    proof {
        assert(out@ =~= old(out)@ + spec_canon_ts(s@));
    }
}

fn decode_timestamp(s: String) -> (v: DecodedValue)
    ensures
        v@ == (if spec_is_ts(s@) {
            ValueModel::Text(spec_canon_ts(s@))
        } else {
            ValueModel::Null
        }),
{
    let cs = chars_of(s.as_str());
    let sl = cs.as_slice();
    if !ts_head_check(sl) {
        return DecodedValue::Null;
    }
    if cs.len() > 19 {
        if !(sl[19] == '.' && cs.len() >= 21) {
            return DecodedValue::Null;
        }
        let e2 = digits_end(sl, 20);
        if e2 != cs.len() {
            return DecodedValue::Null;
        }
        proof {
            assert(spec_digits_end(s@, 20) == s@.len());
        }
    }
    let mut out: Vec<char> = Vec::new();
    push_canon_ts(&mut out, sl);
    proof {
        assert(spec_is_ts(s@));
        assert(out@ =~= spec_canon_ts(s@));
    }
    DecodedValue::Text(string_of(&out))
}

// ---------------------------------------------------------------------
// Timestamps with zone
// ---------------------------------------------------------------------

/// Where the zone offset starts: after the optional fractional seconds.
pub open spec fn spec_off_start(s: Seq<char>) -> int {
    if s.len() > 19 && s[19] == '.' {
        spec_digits_end(s, 20)
    } else {
        19
    }
}

/// A zone offset: `Z` (either case), a signed two-digit hour, or a signed
/// `HH:MM` pair, within the clock's ranges.
pub open spec fn spec_is_offset(o: Seq<char>) -> bool {
    if o.len() == 1 {
        o[0] == 'Z' || o[0] == 'z'
    } else if o.len() == 3 {
        &&& (o[0] == '+' || o[0] == '-')
        &&& spec_digit(o[1])
        &&& spec_digit(o[2])
        &&& spec_digit_val(o[1]) * 10 + spec_digit_val(o[2]) < 24
    } else if o.len() == 6 {
        &&& (o[0] == '+' || o[0] == '-')
        &&& spec_digit(o[1])
        &&& spec_digit(o[2])
        &&& o[3] == ':'
        &&& spec_digit(o[4])
        &&& spec_digit(o[5])
        &&& spec_digit_val(o[1]) * 10 + spec_digit_val(o[2]) < 24
        &&& spec_digit_val(o[4]) * 10 + spec_digit_val(o[5]) < 60
    } else {
        false
    }
}

/// The canonical `±HH:MM` form of an offset: `Z` becomes `+00:00`, a bare
/// hour gains `:00`, a full pair stays as written.
pub open spec fn spec_canon_offset(o: Seq<char>) -> Seq<char> {
    if o.len() == 1 {
        "+00:00"@
    } else if o.len() == 3 {
        o + seq![':', '0', '0']
    } else {
        o
    }
}

/// A timestamp with zone: a timestamp head, optional fractional seconds,
/// then an offset.
pub open spec fn spec_is_tstz(s: Seq<char>) -> bool {
    &&& spec_ts_head_ok(s)
    &&& (s.len() > 19 && s[19] == '.' ==> spec_off_start(s) > 20)
    &&& spec_is_offset(s.subrange(spec_off_start(s), s.len() as int))
}

/// The canonical RFC3339 form kept for a timestamp with zone: `T`
/// separator, fractional seconds dropped, offset normalized to `±HH:MM`.
pub open spec fn spec_canon_tstz(s: Seq<char>) -> Seq<char> {
    spec_canon_ts(s) + spec_canon_offset(s.subrange(spec_off_start(s), s.len() as int))
}

fn offset_check(o: &[char]) -> (r: bool)
    ensures
        r == spec_is_offset(o@),
{
    if o.len() == 1 {
        o[0] == 'Z' || o[0] == 'z'
    } else if o.len() == 3 {
        if (o[0] == '+' || o[0] == '-') && is_digit(o[1]) && is_digit(o[2]) {
            digit_val(o[1]) * 10 + digit_val(o[2]) < 24
        } else {
            false
        }
    } else if o.len() == 6 {
        if (o[0] == '+' || o[0] == '-') && is_digit(o[1]) && is_digit(o[2]) && o[3] == ':'
            && is_digit(o[4]) && is_digit(o[5]) {
            digit_val(o[1]) * 10 + digit_val(o[2]) < 24 && digit_val(o[4]) * 10 + digit_val(o[5])
                < 60
        } else {
            false
        }
    } else {
        false
    }
}

fn decode_timestamptz(s: String) -> (v: DecodedValue)
    ensures
        v@ == (if spec_is_tstz(s@) {
            ValueModel::Text(spec_canon_tstz(s@))
        } else {
            ValueModel::Null
        }),
{
    let cs = chars_of(s.as_str());
    let sl = cs.as_slice();
    if !ts_head_check(sl) {
        return DecodedValue::Null;
    }
    let off_start: usize = if cs.len() > 19 && sl[19] == '.' {
        let e = digits_end(sl, 20);
        if e <= 20 {
            return DecodedValue::Null;
        }
        e
    } else {
        19
    };
    assert(off_start as int == spec_off_start(s@));
    proof {
        lemma_digits_end(s@, if s@.len() > 19 && s@[19] == '.' {
            20
        } else {
            19
        });
    }
    let off = slice_subrange(sl, off_start, cs.len());
    proof {
        assert(off@ =~= s@.subrange(spec_off_start(s@), s@.len() as int));
    }
    if !offset_check(off) {
        return DecodedValue::Null;
    }
    let mut out: Vec<char> = Vec::new();
    push_canon_ts(&mut out, sl);
    if off.len() == 1 {
        let mut z = chars_of("+00:00");
        out.append(&mut z);
        proof {
            assert(out@ =~= spec_canon_tstz(s@));
        }
    } else if off.len() == 3 {
        out.push(off[0]);
        out.push(off[1]);
        out.push(off[2]);
        out.push(':');
        out.push('0');
        out.push('0');
        proof {
            assert(out@ =~= spec_canon_tstz(s@));
        }
    } else {
        let mut k: usize = 0;
        while k < off.len()
            invariant
                k <= off@.len(),
                out@ == spec_canon_ts(s@) + off@.take(k as int),
                spec_is_tstz(s@),
                off@ == s@.subrange(spec_off_start(s@), s@.len() as int),
                off@.len() == 6,
            decreases off@.len() - k,
        {
            out.push(off[k]);
            proof {
                assert(out@ =~= spec_canon_ts(s@) + off@.take(k + 1));
            }
            k = k + 1;
        }
        proof {
            assert(off@.take(off@.len() as int) =~= off@);
            assert(out@ =~= spec_canon_tstz(s@));
        }
    }
    DecodedValue::Text(string_of(&out))
}

// ---------------------------------------------------------------------
// The decoder
// ---------------------------------------------------------------------

/// The value a tag class and a cell's text decode to.
pub open spec fn spec_decode_text(t: TypeTag, s: Seq<char>) -> ValueModel {
    match t {
        TypeTag::Character => ValueModel::Text(s),
        TypeTag::Document => ValueModel::Document(s),
        TypeTag::Other => ValueModel::Text(s),
        TypeTag::Boolean => spec_decode_bool(s),
        TypeTag::Uuid => spec_decode_uuid(s),
        TypeTag::Date => if spec_is_date(s) {
            ValueModel::Text(s)
        } else {
            ValueModel::Null
        },
        TypeTag::Timestamp => if spec_is_ts(s) {
            ValueModel::Text(spec_canon_ts(s))
        } else {
            ValueModel::Null
        },
        TypeTag::TimestampTz => if spec_is_tstz(s) {
            ValueModel::Text(spec_canon_tstz(s))
        } else {
            ValueModel::Null
        },
        TypeTag::Int2 => spec_decode_int(s, 32768, 32767),
        TypeTag::Int4 => spec_decode_int(s, 2147483648, 2147483647),
        TypeTag::Int8 => spec_decode_int(s, 9223372036854775808, 9223372036854775807),
        TypeTag::Numeric => if spec_is_numeric_literal(s) {
            ValueModel::Number(s)
        } else {
            ValueModel::Null
        },
    }
}

/// The value a tag and a raw cell decode to: a missing cell is `Null`,
/// bytes that are not valid UTF-8 are `Null`, and valid text is decoded by
/// the tag's class.
pub open spec fn spec_decode(tag: Seq<char>, cell: Option<Seq<u8>>) -> ValueModel {
    match cell {
        Option::None => ValueModel::Null,
        Option::Some(b) => if valid_utf8(b) {
            spec_decode_text(spec_tag_of(tag), decode_utf8(b))
        } else {
            ValueModel::Null
        },
    }
}

fn decode_text(t: TypeTag, s: String) -> (v: DecodedValue)
    ensures
        v@ == spec_decode_text(t, s@),
{
    match t {
        TypeTag::Character => DecodedValue::Text(s),
        TypeTag::Document => DecodedValue::Document(s),
        TypeTag::Other => DecodedValue::Text(s),
        TypeTag::Boolean => decode_bool(s),
        TypeTag::Uuid => decode_uuid(s),
        TypeTag::Date => {
            let cs = chars_of(s.as_str());
            if date_check(cs.as_slice()) {
                DecodedValue::Text(s)
            } else {
                DecodedValue::Null
            }
        },
        TypeTag::Timestamp => decode_timestamp(s),
        TypeTag::TimestampTz => decode_timestamptz(s),
        TypeTag::Int2 => decode_int(s, 32768, 32767),
        TypeTag::Int4 => decode_int(s, 2147483648, 2147483647),
        TypeTag::Int8 => {
            proof {
                lemma_pow10_19();
            }
            decode_int(s, 9223372036854775808, 9223372036854775807)
        },
        TypeTag::Numeric => decode_numeric(s),
    }
}

/// Decodes one raw cell of a known source type tag into its canonical
/// value. Total: every tag and every byte sequence map to exactly one
/// value, with `Null` for anything that does not fit — a bad cell never
/// aborts its row.
pub fn decode(source_type_tag: &str, raw_cell: &Option<Vec<u8>>) -> (v: DecodedValue)
    ensures
        v@ == spec_decode(source_type_tag@, raw_cell.deep_view()),
{
    match raw_cell {
        Option::None => DecodedValue::Null,
        Option::Some(bytes) => {
            proof {
                assert(bytes.deep_view() =~= bytes@);
            }
            match string_from_utf8(bytes.as_slice()) {
                Option::None => DecodedValue::Null,
                Option::Some(s) => {
                    let t = tag_of(source_type_tag);
                    decode_text(t, s)
                },
            }
        },
    }
}

} // verus!
