//! The level file format: a compact JSON-shaped text of ASCII bytes, with a
//! serializer and parser whose behaviours are stated exactly and whose
//! composition is proved to be the identity on well-formed levels.
//!
//! Numbers are written as signed decimals with exactly six fraction digits,
//! carrying the fixed-point micro-unit values of the data model: the value
//! `1_500_000` is written `1.500000`.  Names are written between double
//! quotes and restricted to printable ASCII without quote or backslash.

use vstd::prelude::*;

use crate::types::Colour;
use crate::types::ColliderDefinition;
use crate::types::ColliderType;
use crate::types::Extent;
use crate::types::FIXED_LIMIT;
use crate::types::LevelDefinition;
use crate::types::LevelModel;
use crate::types::LevelPrimitiveDefinition;
use crate::types::PrimitiveDefinition;
use crate::types::PrimitiveModel;
use crate::types::LevelPrimitiveModel;
use crate::types::Vec3;
use crate::types::level_ok;
use crate::types::name_char_ok;
use crate::types::name_ok;
use crate::types::record_ok;

verus! {

/// The double-quote byte.
pub const QUOTE: u8 = 34;

/// The minus-sign byte.
pub const MINUS: u8 = 45;

/// The decimal-point byte.
pub const DOT: u8 = 46;

/// A decimal digit byte.
pub open spec fn is_digit(b: u8) -> bool {
    48 <= b <= 57
}

/// The byte of a single decimal digit.
pub open spec fn digit_byte(n: int) -> u8 {
    (48 + n) as u8
}

/// The value of a decimal digit byte.
pub open spec fn digit_val(b: u8) -> int {
    b - 48
}

/// A byte that may appear inside a quoted name.
pub open spec fn is_name_byte(b: u8) -> bool {
    32 <= b <= 126 && b != QUOTE && b != 92
}

/// A sequence of characters as file bytes; the identity on ASCII text.
pub open spec fn spec_ser_chars(s: Seq<char>) -> Seq<u8> {
    s.map_values(|c: char| c as u8)
}

/// The bytes of a literal piece of the format.
pub open spec fn lit_bytes(s: &str) -> Seq<u8> {
    spec_ser_chars(s@)
}

/// A non-negative integer in decimal, most significant digit first, no
/// leading zeros (a lone zero for zero).
pub open spec fn spec_ser_nat(n: nat) -> Seq<u8>
    decreases n,
{
    if n < 10 {
        seq![digit_byte(n as int)]
    } else {
        spec_ser_nat(n / 10).push(digit_byte((n % 10) as int))
    }
}

/// A non-negative integer in exactly `width` decimal digits, zero-padded.
pub open spec fn spec_ser_digits(n: nat, width: nat) -> Seq<u8>
    decreases width,
{
    if width == 0 {
        Seq::empty()
    } else {
        spec_ser_digits(n / 10, (width - 1) as nat).push(digit_byte((n % 10) as int))
    }
}

/// A non-negative fixed-point value: whole part, point, six fraction digits.
pub open spec fn spec_ser_fixed_nonneg(m: nat) -> Seq<u8> {
    spec_ser_nat(m / 1_000_000) + seq![DOT] + spec_ser_digits(m % 1_000_000, 6)
}

/// A fixed-point value, with a leading minus sign when negative.
pub open spec fn spec_ser_fixed(v: int) -> Seq<u8> {
    if v < 0 {
        seq![MINUS] + spec_ser_fixed_nonneg((-v) as nat)
    } else {
        spec_ser_fixed_nonneg(v as nat)
    }
}

/// A name between double quotes.
pub open spec fn spec_ser_string(s: Seq<char>) -> Seq<u8> {
    seq![QUOTE] + spec_ser_chars(s) + seq![QUOTE]
}

/// A boolean, written `true` or `false`.
pub open spec fn spec_ser_bool(b: bool) -> Seq<u8> {
    if b {
        lit_bytes("true")
    } else {
        lit_bytes("false")
    }
}

/// Three fixed-point values separated by commas.
pub open spec fn spec_ser_vec3(v: Vec3) -> Seq<u8> {
    spec_ser_fixed(v.x as int) + lit_bytes(",") + spec_ser_fixed(v.y as int) + lit_bytes(",")
        + spec_ser_fixed(v.z as int)
}

/// One placed-primitive record.
pub open spec fn spec_ser_record(r: LevelPrimitiveModel) -> Seq<u8> {
    lit_bytes("{\"name\":") + spec_ser_string(r.name) + lit_bytes(",\"position\":[")
        + spec_ser_vec3(r.position) + lit_bytes("],\"rotation\":[") + spec_ser_vec3(r.rotation)
        + lit_bytes("],\"is_static\":") + spec_ser_bool(r.is_static) + lit_bytes("}")
}

/// The record list, comma-separated, without the surrounding brackets.
pub open spec fn spec_ser_records(rs: Seq<LevelPrimitiveModel>) -> Seq<u8>
    decreases rs.len(),
{
    if rs.len() == 0 {
        Seq::empty()
    } else if rs.len() == 1 {
        spec_ser_record(rs.first())
    } else {
        spec_ser_record(rs.first()) + lit_bytes(",") + spec_ser_records(rs.drop_first())
    }
}

/// A whole level document.
pub open spec fn spec_ser_level(l: LevelModel) -> Seq<u8> {
    lit_bytes("{\"name\":") + spec_ser_string(l.name) + lit_bytes(",\"ground_dimensions\":[")
        + spec_ser_fixed(l.ground_dimensions.width as int) + lit_bytes(",") + spec_ser_fixed(
        l.ground_dimensions.depth as int,
    ) + lit_bytes("],\"ground_colour\":[") + spec_ser_colour(l.ground_colour) + lit_bytes(
        "],\"background_colour\":[",
    ) + spec_ser_colour(l.background_colour) + lit_bytes("],\"primitives\":[") + spec_ser_records(
        l.primitives,
    ) + lit_bytes("]}")
}

/// Three colour channels separated by commas.
pub open spec fn spec_ser_colour(c: Colour) -> Seq<u8> {
    spec_ser_fixed(c.r as int) + lit_bytes(",") + spec_ser_fixed(c.g as int) + lit_bytes(",")
        + spec_ser_fixed(c.b as int)
}

/// Consuming a literal: succeeds exactly when the bytes at `i` are `lit`,
/// leaving the position after it.
pub open spec fn spec_parse_lit(s: Seq<u8>, i: int, lit: Seq<u8>) -> Option<int> {
    if 0 <= i && i + lit.len() <= s.len() && s.subrange(i, i + lit.len()) == lit {
        Some(i + lit.len())
    } else {
        None
    }
}

/// The length of the run of decimal digits starting at `i`.
pub open spec fn spec_digit_count(s: Seq<u8>, i: int) -> int
    decreases s.len() - i,
    when 0 <= i <= s.len()
{
    if i < s.len() && is_digit(s[i]) {
        1 + spec_digit_count(s, i + 1)
    } else {
        0
    }
}

/// The value of a sequence of decimal digit bytes.
pub open spec fn spec_digits_val(ds: Seq<u8>) -> int
    decreases ds.len(),
{
    if ds.len() == 0 {
        0
    } else {
        spec_digits_val(ds.drop_last()) * 10 + digit_val(ds.last())
    }
}

/// Every byte is a decimal digit.
pub open spec fn all_digits(ds: Seq<u8>) -> bool {
    forall|k: int| 0 <= k < ds.len() ==> is_digit(#[trigger] ds[k])
}

/// Parsing a non-negative fixed-point value: a run of at most twelve whole
/// digits, a point, and exactly six fraction digits.
pub open spec fn spec_parse_fixed_nonneg(s: Seq<u8>, i: int) -> Option<(int, int)> {
    if !(0 <= i <= s.len()) {
        None
    } else {
        let k = spec_digit_count(s, i);
        if k == 0 || k > 12 {
            None
        } else {
            let whole = spec_digits_val(s.subrange(i, i + k));
            let j = i + k;
            if j + 7 <= s.len() && s[j] == DOT && all_digits(s.subrange(j + 1, j + 7)) {
                let frac = spec_digits_val(s.subrange(j + 1, j + 7));
                Some((whole * 1_000_000 + frac, j + 7))
            } else {
                None
            }
        }
    }
}

/// Parsing a fixed-point value, with an optional leading minus sign.
pub open spec fn spec_parse_fixed(s: Seq<u8>, i: int) -> Option<(int, int)> {
    if 0 <= i && i < s.len() && s[i] == MINUS {
        match spec_parse_fixed_nonneg(s, i + 1) {
            Some((v, j)) => Some((-v, j)),
            None => None,
        }
    } else {
        spec_parse_fixed_nonneg(s, i)
    }
}

/// The length of the run of name bytes starting at `i`.
pub open spec fn spec_scan_name(s: Seq<u8>, i: int) -> int
    decreases s.len() - i,
    when 0 <= i <= s.len()
{
    if i < s.len() && is_name_byte(s[i]) {
        1 + spec_scan_name(s, i + 1)
    } else {
        0
    }
}

/// Parsing a quoted name: an opening quote, a run of name bytes, and a
/// closing quote.
pub open spec fn spec_parse_string(s: Seq<u8>, i: int) -> Option<(Seq<char>, int)> {
    if 0 <= i && i < s.len() && s[i] == QUOTE {
        let k = spec_scan_name(s, i + 1);
        let j = i + 1 + k;
        if j < s.len() && s[j] == QUOTE {
            Some((s.subrange(i + 1, j).map_values(|b: u8| b as char), j + 1))
        } else {
            None
        }
    } else {
        None
    }
}

/// Parsing a boolean: the literal `true` or the literal `false`.
pub open spec fn spec_parse_bool(s: Seq<u8>, i: int) -> Option<(bool, int)> {
    match spec_parse_lit(s, i, lit_bytes("true")) {
        Some(j) => Some((true, j)),
        None => match spec_parse_lit(s, i, lit_bytes("false")) {
            Some(j) => Some((false, j)),
            None => None,
        },
    }
}

/// A parsed fixed-point value small enough for the data model.
pub open spec fn fixed_in_range(v: int) -> bool {
    -(FIXED_LIMIT as int) < v < FIXED_LIMIT as int
}

/// Parsing three comma-separated fixed-point values.
pub open spec fn spec_parse_vec3(s: Seq<u8>, i: int) -> Option<(Vec3, int)> {
    match spec_parse_fixed(s, i) {
        None => None,
        Some((x, j1)) => match spec_parse_lit(s, j1, lit_bytes(",")) {
            None => None,
            Some(j2) => match spec_parse_fixed(s, j2) {
                None => None,
                Some((y, j3)) => match spec_parse_lit(s, j3, lit_bytes(",")) {
                    None => None,
                    Some(j4) => match spec_parse_fixed(s, j4) {
                        None => None,
                        Some((z, j5)) => if fixed_in_range(x) && fixed_in_range(y)
                            && fixed_in_range(z) {
                            Some((Vec3 { x: x as i64, y: y as i64, z: z as i64 }, j5))
                        } else {
                            None
                        },
                    },
                },
            },
        },
    }
}

/// Parsing one placed-primitive record.
pub open spec fn spec_parse_record(s: Seq<u8>, i: int) -> Option<(LevelPrimitiveModel, int)> {
    match spec_parse_lit(s, i, lit_bytes("{\"name\":")) {
        None => None,
        Some(j1) => match spec_parse_string(s, j1) {
            None => None,
            Some((name, j2)) => match spec_parse_lit(s, j2, lit_bytes(",\"position\":[")) {
                None => None,
                Some(j3) => match spec_parse_vec3(s, j3) {
                    None => None,
                    Some((position, j4)) => match spec_parse_lit(
                        s,
                        j4,
                        lit_bytes("],\"rotation\":["),
                    ) {
                        None => None,
                        Some(j5) => match spec_parse_vec3(s, j5) {
                            None => None,
                            Some((rotation, j6)) => match spec_parse_lit(
                                s,
                                j6,
                                lit_bytes("],\"is_static\":"),
                            ) {
                                None => None,
                                Some(j7) => match spec_parse_bool(s, j7) {
                                    None => None,
                                    Some((is_static, j8)) => match spec_parse_lit(
                                        s,
                                        j8,
                                        lit_bytes("}"),
                                    ) {
                                        None => None,
                                        Some(j9) => Some(
                                            (
                                                LevelPrimitiveModel {
                                                    name,
                                                    position,
                                                    rotation,
                                                    is_static,
                                                },
                                                j9,
                                            ),
                                        ),
                                    },
                                },
                            },
                        },
                    },
                },
            },
        },
    }
}

/// Parsing a non-empty comma-separated record list; stops before a byte
/// that is not a comma.
pub open spec fn spec_parse_records(s: Seq<u8>, i: int) -> Option<
    (Seq<LevelPrimitiveModel>, int),
>
    decreases s.len() - i,
    when 0 <= i <= s.len()
{
    match spec_parse_record(s, i) {
        None => None,
        Some((r, j)) => if !(i < j <= s.len()) {
            None
        } else {
            if j < s.len() && s[j] == 44 {
                match spec_parse_records(s, j + 1) {
                    None => None,
                    Some((rest, e)) => Some((seq![r] + rest, e)),
                }
            } else {
                Some((seq![r], j))
            }
        },
    }
}

/// Parsing a possibly empty record list: empty exactly when the next byte
/// is the closing bracket.
pub open spec fn spec_parse_records_or_empty(s: Seq<u8>, i: int) -> Option<
    (Seq<LevelPrimitiveModel>, int),
> {
    if 0 <= i && i < s.len() && s[i] == 93 {
        Some((Seq::empty(), i))
    } else {
        spec_parse_records(s, i)
    }
}

/// Parsing a whole level document from position `i`.
pub open spec fn spec_parse_level(s: Seq<u8>, i: int) -> Option<(LevelModel, int)> {
    match spec_parse_lit(s, i, lit_bytes("{\"name\":")) {
        None => None,
        Some(j1) => match spec_parse_string(s, j1) {
            None => None,
            Some((name, j2)) => match spec_parse_lit(
                s,
                j2,
                lit_bytes(",\"ground_dimensions\":["),
            ) {
                None => None,
                Some(j3) => match spec_parse_fixed(s, j3) {
                    None => None,
                    Some((width, j4)) => match spec_parse_lit(s, j4, lit_bytes(",")) {
                        None => None,
                        Some(j5) => match spec_parse_fixed(s, j5) {
                            None => None,
                            Some((depth, j6)) => match spec_parse_lit(
                                s,
                                j6,
                                lit_bytes("],\"ground_colour\":["),
                            ) {
                                None => None,
                                Some(j7) => match spec_parse_vec3(s, j7) {
                                    None => None,
                                    Some((gc, j8)) => match spec_parse_lit(
                                        s,
                                        j8,
                                        lit_bytes("],\"background_colour\":["),
                                    ) {
                                        None => None,
                                        Some(j9) => match spec_parse_vec3(s, j9) {
                                            None => None,
                                            Some((bc, j10)) => match spec_parse_lit(
                                                s,
                                                j10,
                                                lit_bytes("],\"primitives\":["),
                                            ) {
                                                None => None,
                                                Some(j11) => match spec_parse_records_or_empty(
                                                    s,
                                                    j11,
                                                ) {
                                                    None => None,
                                                    Some((prims, j12)) => match spec_parse_lit(
                                                        s,
                                                        j12,
                                                        lit_bytes("]}"),
                                                    ) {
                                                        None => None,
                                                        Some(j13) => if fixed_in_range(width)
                                                            && fixed_in_range(depth) {
                                                            Some(
                                                                (
                                                                    LevelModel {
                                                                        name,
                                                                        ground_dimensions: Extent {
                                                                            width: width as i64,
                                                                            depth: depth as i64,
                                                                        },
                                                                        ground_colour: Colour {
                                                                            r: gc.x,
                                                                            g: gc.y,
                                                                            b: gc.z,
                                                                        },
                                                                        background_colour: Colour {
                                                                            r: bc.x,
                                                                            g: bc.y,
                                                                            b: bc.z,
                                                                        },
                                                                        primitives: prims,
                                                                    },
                                                                    j13,
                                                                ),
                                                            )
                                                        } else {
                                                            None
                                                        },
                                                    },
                                                },
                                            },
                                        },
                                    },
                                },
                            },
                        },
                    },
                },
            },
        },
    }
}

/// Parsing a whole level file: the document must cover every byte.
pub open spec fn spec_parse_level_doc(s: Seq<u8>) -> Option<LevelModel> {
    match spec_parse_level(s, 0) {
        None => None,
        Some((l, j)) => if j == s.len() {
            Some(l)
        } else {
            None
        },
    }
}

/// Powers of ten.
pub open spec fn pow10(n: nat) -> int
    decreases n,
{
    if n == 0 {
        1
    } else {
        10 * pow10((n - 1) as nat)
    }
}

/// Powers of ten are positive.
proof fn lemma_pow10_pos(n: nat)
    ensures
        1 <= pow10(n),
    decreases n,
{
    if n > 0 {
        lemma_pow10_pos((n - 1) as nat);
    }
}

/// A serialized integer is a non-empty run of digits carrying its value.
proof fn lemma_ser_nat_props(n: nat)
    ensures
        spec_ser_nat(n).len() >= 1,
        all_digits(spec_ser_nat(n)),
        spec_digits_val(spec_ser_nat(n)) == n,
    decreases n,
{
    if n < 10 {
        assert(spec_ser_nat(n) =~= seq![digit_byte(n as int)]);
        assert(spec_digits_val(spec_ser_nat(n)) == spec_digits_val(
            spec_ser_nat(n).drop_last(),
        ) * 10 + digit_val(spec_ser_nat(n).last()));
        assert(spec_ser_nat(n).drop_last() =~= Seq::<u8>::empty());
    } else {
        lemma_ser_nat_props(n / 10);
        let prefix = spec_ser_nat(n / 10);
        let whole = spec_ser_nat(n);
        assert(whole == prefix.push(digit_byte((n % 10) as int)));
        assert(whole.drop_last() =~= prefix);
        assert(whole.last() == digit_byte((n % 10) as int));
        assert forall|k: int| 0 <= k < whole.len() implies is_digit(#[trigger] whole[k]) by {
            if k < prefix.len() {
                assert(whole[k] == prefix[k]);
            }
        }
        assert(spec_digits_val(whole) == (n / 10) * 10 + (n % 10));
    }
}

/// A value below the `k`-th power of ten serializes to at most `k` digits.
proof fn lemma_ser_nat_len(n: nat, k: nat)
    requires
        1 <= k,
        n < pow10(k),
    ensures
        spec_ser_nat(n).len() <= k,
    decreases n,
{
    if n < 10 {
    } else {
        lemma_pow10_pos((k - 1) as nat);
        assert(pow10(k) == 10 * pow10((k - 1) as nat));
        assert(n / 10 < pow10((k - 1) as nat));
        assert(k >= 2) by {
            if k == 1 {
                assert(pow10(1nat) == 10);
            }
        }
        lemma_ser_nat_len(n / 10, (k - 1) as nat);
    }
}

/// A zero-padded run of `w` digits has length `w` and carries its value.
proof fn lemma_ser_digits_props(n: nat, w: nat)
    requires
        n < pow10(w),
    ensures
        spec_ser_digits(n, w).len() == w,
        all_digits(spec_ser_digits(n, w)),
        spec_digits_val(spec_ser_digits(n, w)) == n,
    decreases w,
{
    if w == 0 {
    } else {
        lemma_pow10_pos((w - 1) as nat);
        assert(pow10(w) == 10 * pow10((w - 1) as nat));
        assert(n / 10 < pow10((w - 1) as nat));
        lemma_ser_digits_props(n / 10, (w - 1) as nat);
        let prefix = spec_ser_digits(n / 10, (w - 1) as nat);
        let whole = spec_ser_digits(n, w);
        assert(whole == prefix.push(digit_byte((n % 10) as int)));
        assert(whole.drop_last() =~= prefix);
        assert forall|k: int| 0 <= k < whole.len() implies is_digit(#[trigger] whole[k]) by {
            if k < prefix.len() {
                assert(whole[k] == prefix[k]);
            }
        }
        assert(spec_digits_val(whole) == (n / 10) * 10 + (n % 10));
    }
}

/// The digit run starting at `i` is exactly `d` when the bytes there are
/// `d` and the byte after them (if any) is not a digit.
proof fn lemma_digit_count_over(s: Seq<u8>, i: int, d: Seq<u8>)
    requires
        0 <= i,
        i + d.len() <= s.len(),
        s.subrange(i, i + d.len()) == d,
        all_digits(d),
        i + d.len() == s.len() || !is_digit(s[i + d.len()]),
    ensures
        spec_digit_count(s, i) == d.len(),
    decreases d.len(),
{
    if d.len() == 0 {
    } else {
        assert(s[i] == d[0]);
        let rest = d.subrange(1, d.len() as int);
        assert(s.subrange(i + 1, i + 1 + rest.len()) =~= rest);
        lemma_digit_count_over(s, i + 1, rest);
    }
}

/// The name-byte run starting at `i` is exactly `d` when the bytes there
/// are `d` and the byte after them (if any) is not a name byte.
proof fn lemma_scan_name_over(s: Seq<u8>, i: int, d: Seq<u8>)
    requires
        0 <= i,
        i + d.len() <= s.len(),
        s.subrange(i, i + d.len()) == d,
        forall|k: int| 0 <= k < d.len() ==> is_name_byte(#[trigger] d[k]),
        i + d.len() == s.len() || !is_name_byte(s[i + d.len()]),
    ensures
        spec_scan_name(s, i) == d.len(),
    decreases d.len(),
{
    if d.len() == 0 {
    } else {
        assert(s[i] == d[0]);
        let rest = d.subrange(1, d.len() as int);
        assert(s.subrange(i + 1, i + 1 + rest.len()) =~= rest);
        lemma_scan_name_over(s, i + 1, rest);
    }
}

/// The bytes at offset `p` inside a matched stretch of `s` are the piece
/// that stands there in the stretch's decomposition.
proof fn lemma_subrange_extract(s: Seq<u8>, i: int, t: Seq<u8>, p: int, u: Seq<u8>)
    requires
        0 <= i,
        i + t.len() <= s.len(),
        s.subrange(i, i + t.len()) == t,
        0 <= p,
        p + u.len() <= t.len(),
        t.subrange(p, p + u.len()) == u,
    ensures
        s.subrange(i + p, i + p + u.len()) == u,
{
    assert forall|k: int| 0 <= k < u.len() implies s.subrange(i + p, i + p + u.len())[k]
        == u[k] by {
        assert(s.subrange(i, i + t.len())[p + k] == t[p + k]);
        assert(t.subrange(p, p + u.len())[k] == u[k]);
    }
    assert(s.subrange(i + p, i + p + u.len()) =~= u);
}

/// The byte at offset `p` inside a matched stretch of `s` is the stretch's
/// byte there.
proof fn lemma_byte_at(s: Seq<u8>, i: int, t: Seq<u8>, p: int)
    requires
        0 <= i,
        i + t.len() <= s.len(),
        s.subrange(i, i + t.len()) == t,
        0 <= p < t.len(),
    ensures
        s[i + p] == t[p],
{
    assert(s.subrange(i, i + t.len())[p] == t[p]);
}

/// Parsing reads back exactly the non-negative fixed-point value the
/// serializer wrote.
proof fn lemma_parse_fixed_nonneg_exact(s: Seq<u8>, i: int, m: nat)
    requires
        0 <= i,
        m < FIXED_LIMIT as nat,
        i + spec_ser_fixed_nonneg(m).len() <= s.len(),
        s.subrange(i, i + spec_ser_fixed_nonneg(m).len()) == spec_ser_fixed_nonneg(m),
    ensures
        spec_parse_fixed_nonneg(s, i) == Some(
            (m as int, i + spec_ser_fixed_nonneg(m).len()),
        ),
{
    let whole = m / 1_000_000;
    let frac = m % 1_000_000;
    let wd = spec_ser_nat(whole);
    let fd = spec_ser_digits(frac, 6);
    let t = spec_ser_fixed_nonneg(m);
    lemma_ser_nat_props(whole);
    proof_pow10_constants();
    lemma_ser_nat_len(whole, 12);
    lemma_ser_digits_props(frac, 6);
    assert(t =~= wd + seq![DOT] + fd);
    assert(t.len() == wd.len() + 1 + 6);
    let k = wd.len() as int;
    assert(t.subrange(0, k) =~= wd);
    lemma_subrange_extract(s, i, t, 0, wd);
    assert(s.subrange(i, i + k) == wd);
    lemma_byte_at(s, i, t, k);
    assert(s[i + k] == DOT);
    assert(!is_digit(DOT));
    lemma_digit_count_over(s, i, wd);
    assert(spec_digit_count(s, i) == k);
    assert(1 <= k <= 12);
    assert(t.subrange(k + 1, k + 7) =~= fd);
    lemma_subrange_extract(s, i, t, k + 1, fd);
    assert(s.subrange(i + k + 1, i + k + 7) == fd);
    assert(spec_digits_val(s.subrange(i, i + k)) == whole);
    assert(whole * 1_000_000 + frac == m);
}

/// Evaluates the powers of ten the format's digit widths rely on.
proof fn proof_pow10_constants()
    ensures
        pow10(6) == 1_000_000,
        pow10(12) == 1_000_000_000_000,
{
    reveal_with_fuel(pow10, 13);
}

/// Parsing reads back exactly the fixed-point value the serializer wrote.
proof fn lemma_parse_fixed_exact(s: Seq<u8>, i: int, v: int)
    requires
        0 <= i,
        -(FIXED_LIMIT as int) < v < FIXED_LIMIT as int,
        i + spec_ser_fixed(v).len() <= s.len(),
        s.subrange(i, i + spec_ser_fixed(v).len()) == spec_ser_fixed(v),
    ensures
        spec_parse_fixed(s, i) == Some((v, i + spec_ser_fixed(v).len())),
{
    if v < 0 {
        let t = spec_ser_fixed(v);
        let body = spec_ser_fixed_nonneg((-v) as nat);
        assert(t =~= seq![MINUS] + body);
        lemma_byte_at(s, i, t, 0);
        assert(s[i] == MINUS);
        assert(t.subrange(1, 1 + body.len() as int) =~= body);
        lemma_subrange_extract(s, i, t, 1, body);
        lemma_parse_fixed_nonneg_exact(s, i + 1, (-v) as nat);
    } else {
        assert(spec_ser_fixed(v) == spec_ser_fixed_nonneg(v as nat));
        lemma_parse_fixed_nonneg_exact(s, i, v as nat);
        let t = spec_ser_fixed_nonneg(v as nat);
        let wd = spec_ser_nat((v as nat) / 1_000_000);
        lemma_ser_nat_props((v as nat) / 1_000_000);
        assert(t =~= wd + seq![DOT] + spec_ser_digits((v as nat) % 1_000_000, 6));
        lemma_byte_at(s, i, t, 0);
        assert(s[i] == wd[0]);
        assert(is_digit(wd[0]));
        assert(s[i] != MINUS);
    }
}

/// Parsing reads back exactly the name the serializer wrote.
proof fn lemma_parse_string_exact(s: Seq<u8>, i: int, name: Seq<char>)
    requires
        0 <= i,
        name_ok(name),
        i + name.len() + 2 <= s.len(),
        s.subrange(i, i + name.len() + 2) == spec_ser_string(name),
    ensures
        spec_parse_string(s, i) == Some((name, i + name.len() + 2)),
{
    let t = spec_ser_string(name);
    let body = spec_ser_chars(name);
    assert(t =~= seq![QUOTE] + body + seq![QUOTE]);
    lemma_byte_at(s, i, t, 0);
    assert(s[i] == QUOTE);
    assert(t.subrange(1, 1 + body.len() as int) =~= body);
    lemma_subrange_extract(s, i, t, 1, body);
    assert(s.subrange(i + 1, i + 1 + body.len()) == body);
    assert forall|k: int| 0 <= k < body.len() implies is_name_byte(#[trigger] body[k]) by {
        assert(name_char_ok(name[k]));
        assert(body[k] == name[k] as u8);
    }
    let j = i + 1 + body.len();
    lemma_byte_at(s, i, t, 1 + body.len() as int);
    assert(s[j] == QUOTE);
    assert(!is_name_byte(QUOTE));
    lemma_scan_name_over(s, i + 1, body);
    assert(spec_scan_name(s, i + 1) == name.len());
    let read = s.subrange(i + 1, j).map_values(|b: u8| b as char);
    assert(read =~= name) by {
        assert(s.subrange(i + 1, j) == body);
        assert forall|k: int| 0 <= k < name.len() implies read[k] == name[k] by {
            assert(name_char_ok(name[k]));
            assert(body[k] == name[k] as u8);
            assert(read[k] == (name[k] as u8) as char);
        }
    }
}

/// Parsing reads back exactly the boolean the serializer wrote.
proof fn lemma_parse_bool_exact(s: Seq<u8>, i: int, b: bool)
    requires
        0 <= i,
        i + spec_ser_bool(b).len() <= s.len(),
        s.subrange(i, i + spec_ser_bool(b).len()) == spec_ser_bool(b),
    ensures
        spec_parse_bool(s, i) == Some((b, i + spec_ser_bool(b).len())),
{
    reveal_strlit("true");
    reveal_strlit("false");
    if b {
        assert(spec_parse_lit(s, i, lit_bytes("true")) == Some(i + 4));
    } else {
        assert(lit_bytes("false").len() == 5);
        assert(s.subrange(i, i + 5) == lit_bytes("false"));
        if i + 4 <= s.len() && s.subrange(i, i + 4) == lit_bytes("true") {
            assert(s[i] == lit_bytes("true")[0]);
            assert(s[i] == lit_bytes("false")[0]);
            assert(('t' as u8) != ('f' as u8));
            assert(false);
        }
        assert(spec_parse_lit(s, i, lit_bytes("true")) is None);
        assert(spec_parse_lit(s, i, lit_bytes("false")) == Some(i + 5));
    }
}

/// Parsing reads back exactly the vector the serializer wrote.
proof fn lemma_parse_vec3_exact(s: Seq<u8>, i: int, v: Vec3)
    requires
        0 <= i,
        v.in_bounds(FIXED_LIMIT as int),
        i + spec_ser_vec3(v).len() <= s.len(),
        s.subrange(i, i + spec_ser_vec3(v).len()) == spec_ser_vec3(v),
    ensures
        spec_parse_vec3(s, i) == Some((v, i + spec_ser_vec3(v).len())),
{
    let tx = spec_ser_fixed(v.x as int);
    let ty = spec_ser_fixed(v.y as int);
    let tz = spec_ser_fixed(v.z as int);
    let c = lit_bytes(",");
    let t = spec_ser_vec3(v);
    assert(t =~= tx + c + ty + c + tz);
    let q1 = tx.len() as int;
    let q2 = q1 + c.len();
    let q3 = q2 + ty.len();
    let q4 = q3 + c.len();
    assert(t.subrange(0, q1) =~= tx);
    assert(t.subrange(q1, q2) =~= c);
    assert(t.subrange(q2, q3) =~= ty);
    assert(t.subrange(q3, q4) =~= c);
    assert(t.subrange(q4, t.len() as int) =~= tz);
    lemma_subrange_extract(s, i, t, 0, tx);
    lemma_subrange_extract(s, i, t, q1, c);
    lemma_subrange_extract(s, i, t, q2, ty);
    lemma_subrange_extract(s, i, t, q3, c);
    lemma_subrange_extract(s, i, t, q4, tz);
    lemma_parse_fixed_exact(s, i, v.x as int);
    lemma_parse_fixed_exact(s, i + q2, v.y as int);
    lemma_parse_fixed_exact(s, i + q4, v.z as int);
    assert(spec_parse_lit(s, i + q1, c) == Some(i + q2));
    assert(spec_parse_lit(s, i + q3, c) == Some(i + q4));
}

/// The serialized record splits at cumulative offsets into its pieces.
#[verifier::rlimit(100)]
proof fn lemma_record_layout(s: Seq<u8>, i: int, r: LevelPrimitiveModel)
    requires
        0 <= i,
        i + spec_ser_record(r).len() <= s.len(),
        s.subrange(i, i + spec_ser_record(r).len()) == spec_ser_record(r),
    ensures
        ({
            let l1 = lit_bytes("{\"name\":");
            let st = spec_ser_string(r.name);
            let l2 = lit_bytes(",\"position\":[");
            let v1 = spec_ser_vec3(r.position);
            let l3 = lit_bytes("],\"rotation\":[");
            let v2 = spec_ser_vec3(r.rotation);
            let l4 = lit_bytes("],\"is_static\":");
            let bo = spec_ser_bool(r.is_static);
            let l5 = lit_bytes("}");
            let t = spec_ser_record(r);
            let q1 = l1.len() as int;
            let q2 = q1 + st.len();
            let q3 = q2 + l2.len();
            let q4 = q3 + v1.len();
            let q5 = q4 + l3.len();
            let q6 = q5 + v2.len();
            let q7 = q6 + l4.len();
            let q8 = q7 + bo.len();
            let q9 = q8 + l5.len();
            &&& t.len() == q9
            &&& st.len() == r.name.len() + 2
            &&& s.subrange(i, i + q1) == l1
            &&& s.subrange(i + q1, i + q2) == st
            &&& s.subrange(i + q2, i + q3) == l2
            &&& s.subrange(i + q3, i + q4) == v1
            &&& s.subrange(i + q4, i + q5) == l3
            &&& s.subrange(i + q5, i + q6) == v2
            &&& s.subrange(i + q6, i + q7) == l4
            &&& s.subrange(i + q7, i + q8) == bo
            &&& s.subrange(i + q8, i + q9) == l5
        }),
{
    let l1 = lit_bytes("{\"name\":");
    let st = spec_ser_string(r.name);
    let l2 = lit_bytes(",\"position\":[");
    let v1 = spec_ser_vec3(r.position);
    let l3 = lit_bytes("],\"rotation\":[");
    let v2 = spec_ser_vec3(r.rotation);
    let l4 = lit_bytes("],\"is_static\":");
    let bo = spec_ser_bool(r.is_static);
    let l5 = lit_bytes("}");
    let t = spec_ser_record(r);
    let q1 = l1.len() as int;
    let q2 = q1 + st.len();
    let q3 = q2 + l2.len();
    let q4 = q3 + v1.len();
    let q5 = q4 + l3.len();
    let q6 = q5 + v2.len();
    let q7 = q6 + l4.len();
    let q8 = q7 + bo.len();
    let q9 = q8 + l5.len();
    assert(t == l1 + st + l2 + v1 + l3 + v2 + l4 + bo + l5);
    assert(st.len() == r.name.len() + 2) by {
        assert(st =~= seq![QUOTE] + spec_ser_chars(r.name) + seq![QUOTE]);
    }
    let a8 = l1 + st + l2 + v1 + l3 + v2 + l4 + bo;
    let a7 = l1 + st + l2 + v1 + l3 + v2 + l4;
    let a6 = l1 + st + l2 + v1 + l3 + v2;
    let a5 = l1 + st + l2 + v1 + l3;
    let a4 = l1 + st + l2 + v1;
    let a3 = l1 + st + l2;
    let a2 = l1 + st;
    lemma_split_match(s, i, a8, l5);
    lemma_split_match(s, i, a7, bo);
    lemma_split_match(s, i, a6, l4);
    lemma_split_match(s, i, a5, v2);
    lemma_split_match(s, i, a4, l3);
    lemma_split_match(s, i, a3, v1);
    lemma_split_match(s, i, a2, l2);
    lemma_split_match(s, i, l1, st);
}

/// Parsing reads back exactly the record the serializer wrote.
#[verifier::rlimit(100)]
proof fn lemma_parse_record_exact(s: Seq<u8>, i: int, r: LevelPrimitiveModel)
    requires
        0 <= i,
        record_ok(r),
        i + spec_ser_record(r).len() <= s.len(),
        s.subrange(i, i + spec_ser_record(r).len()) == spec_ser_record(r),
    ensures
        spec_parse_record(s, i) == Some((r, i + spec_ser_record(r).len())),
        spec_ser_record(r).len() >= 2,
{
    let l1 = lit_bytes("{\"name\":");
    let st = spec_ser_string(r.name);
    let l2 = lit_bytes(",\"position\":[");
    let v1 = spec_ser_vec3(r.position);
    let l3 = lit_bytes("],\"rotation\":[");
    let v2 = spec_ser_vec3(r.rotation);
    let l4 = lit_bytes("],\"is_static\":");
    let bo = spec_ser_bool(r.is_static);
    let l5 = lit_bytes("}");
    let t = spec_ser_record(r);
    let q1 = l1.len() as int;
    let q2 = q1 + st.len();
    let q3 = q2 + l2.len();
    let q4 = q3 + v1.len();
    let q5 = q4 + l3.len();
    let q6 = q5 + v2.len();
    let q7 = q6 + l4.len();
    let q8 = q7 + bo.len();
    let q9 = q8 + l5.len();
    lemma_record_layout(s, i, r);
    assert(spec_parse_lit(s, i, l1) == Some(i + q1));
    lemma_parse_string_exact(s, i + q1, r.name);
    assert(spec_parse_lit(s, i + q2, l2) == Some(i + q3));
    lemma_parse_vec3_exact(s, i + q3, r.position);
    assert(spec_parse_lit(s, i + q4, l3) == Some(i + q5));
    lemma_parse_vec3_exact(s, i + q5, r.rotation);
    assert(spec_parse_lit(s, i + q6, l4) == Some(i + q7));
    lemma_parse_bool_exact(s, i + q7, r.is_static);
    assert(spec_parse_lit(s, i + q8, l5) == Some(i + q9));
    assert(spec_parse_record(s, i) == Some(
        (
            LevelPrimitiveModel {
                name: r.name,
                position: r.position,
                rotation: r.rotation,
                is_static: r.is_static,
            },
            i + q9,
        ),
    ));
    assert(r == (LevelPrimitiveModel {
        name: r.name,
        position: r.position,
        rotation: r.rotation,
        is_static: r.is_static,
    }));
}

/// Parsing reads back exactly the non-empty record list the serializer
/// wrote, stopping at the closing bracket that follows it.
#[verifier::rlimit(100)]
proof fn lemma_parse_records_exact(s: Seq<u8>, i: int, rs: Seq<LevelPrimitiveModel>)
    requires
        0 <= i,
        rs.len() >= 1,
        forall|k: int| 0 <= k < rs.len() ==> record_ok(#[trigger] rs[k]),
        i + spec_ser_records(rs).len() < s.len(),
        s.subrange(i, i + spec_ser_records(rs).len()) == spec_ser_records(rs),
        s[i + spec_ser_records(rs).len()] == 93,
    ensures
        spec_parse_records(s, i) == Some((rs, i + spec_ser_records(rs).len())),
    decreases rs.len(),
{
    let t = spec_ser_records(rs);
    let first = spec_ser_record(rs.first());
    assert(record_ok(rs[0]));
    if rs.len() == 1 {
        assert(t == first);
        lemma_parse_record_exact(s, i, rs.first());
        let j = i + first.len();
        assert(s[j] == 93);
        assert(spec_parse_records(s, i) == Some((seq![rs.first()], j)));
        assert(seq![rs.first()] =~= rs);
    } else {
        let c = lit_bytes(",");
        let rest = spec_ser_records(rs.drop_first());
        assert(t == first + c + rest);
        let q1 = first.len() as int;
        let q2 = q1 + c.len();
        let q3 = q2 + rest.len();
        lemma_split_match(s, i, first + c, rest);
        lemma_split_match(s, i, first, c);
        lemma_parse_record_exact(s, i, rs.first());
        let j = i + q1;
        reveal_strlit(",");
        assert(c.len() == 1);
        assert((',' as u8) == 44);
        lemma_byte_at(s, i, t, q1);
        assert(s[j] == 44);
        assert forall|k: int| 0 <= k < rs.drop_first().len() implies record_ok(
            #[trigger] rs.drop_first()[k],
        ) by {
            assert(rs.drop_first()[k] == rs[k + 1]);
        }
        lemma_parse_records_exact(s, i + q2, rs.drop_first());
        assert(spec_parse_records(s, i + q2) == Some((rs.drop_first(), i + q3)));
        assert(spec_parse_records(s, i) == Some((seq![rs.first()] + rs.drop_first(), i + q3)));
        assert(seq![rs.first()] + rs.drop_first() =~= rs);
    }
}

/// A stretch of `s` that matches a concatenation splits into a stretch
/// matching each part.
proof fn lemma_split_match(s: Seq<u8>, i: int, a: Seq<u8>, b: Seq<u8>)
    requires
        0 <= i,
        i + a.len() + b.len() <= s.len(),
        s.subrange(i, i + a.len() + b.len()) == a + b,
    ensures
        s.subrange(i, i + a.len()) == a,
        s.subrange(i + a.len(), i + a.len() + b.len()) == b,
{
    assert forall|k: int| 0 <= k < a.len() implies s.subrange(i, i + a.len())[k] == a[k] by {
        assert(s.subrange(i, i + a.len() + b.len())[k] == (a + b)[k]);
    }
    assert(s.subrange(i, i + a.len()) =~= a);
    assert forall|k: int| 0 <= k < b.len() implies s.subrange(
        i + a.len(),
        i + a.len() + b.len(),
    )[k] == b[k] by {
        assert(s.subrange(i, i + a.len() + b.len())[a.len() + k] == (a + b)[a.len() + k]);
        assert(s.subrange(i + a.len(), i + a.len() + b.len())[k] == s[i + a.len() + k]);
        assert(s[i + (a.len() + k)] == (a + b)[a.len() + k]);
    }
    assert(s.subrange(i + a.len(), i + a.len() + b.len()) =~= b);
}

/// The serialized level splits at cumulative offsets into its pieces.
#[verifier::rlimit(100)]
proof fn lemma_level_layout(l: LevelModel)
    ensures
        ({
            let s = spec_ser_level(l);
            let l1 = lit_bytes("{\"name\":");
            let st = spec_ser_string(l.name);
            let l2 = lit_bytes(",\"ground_dimensions\":[");
            let fw = spec_ser_fixed(l.ground_dimensions.width as int);
            let c = lit_bytes(",");
            let fd = spec_ser_fixed(l.ground_dimensions.depth as int);
            let l3 = lit_bytes("],\"ground_colour\":[");
            let gc = spec_ser_colour(l.ground_colour);
            let l4 = lit_bytes("],\"background_colour\":[");
            let bc = spec_ser_colour(l.background_colour);
            let l5 = lit_bytes("],\"primitives\":[");
            let pr = spec_ser_records(l.primitives);
            let l6 = lit_bytes("]}");
            let q1 = l1.len() as int;
            let q2 = q1 + st.len();
            let q3 = q2 + l2.len();
            let q4 = q3 + fw.len();
            let q5 = q4 + c.len();
            let q6 = q5 + fd.len();
            let q7 = q6 + l3.len();
            let q8 = q7 + gc.len();
            let q9 = q8 + l4.len();
            let q10 = q9 + bc.len();
            let q11 = q10 + l5.len();
            let q12 = q11 + pr.len();
            let q13 = q12 + l6.len();
            &&& s.len() == q13
            &&& st.len() == l.name.len() + 2
            &&& s.subrange(0, q1) == l1
            &&& s.subrange(q1, q2) == st
            &&& s.subrange(q2, q3) == l2
            &&& s.subrange(q3, q4) == fw
            &&& s.subrange(q4, q5) == c
            &&& s.subrange(q5, q6) == fd
            &&& s.subrange(q6, q7) == l3
            &&& s.subrange(q7, q8) == gc
            &&& s.subrange(q8, q9) == l4
            &&& s.subrange(q9, q10) == bc
            &&& s.subrange(q10, q11) == l5
            &&& s.subrange(q11, q12) == pr
            &&& s.subrange(q12, q13) == l6
        }),
{
    let s = spec_ser_level(l);
    let l1 = lit_bytes("{\"name\":");
    let st = spec_ser_string(l.name);
    let l2 = lit_bytes(",\"ground_dimensions\":[");
    let fw = spec_ser_fixed(l.ground_dimensions.width as int);
    let c = lit_bytes(",");
    let fd = spec_ser_fixed(l.ground_dimensions.depth as int);
    let l3 = lit_bytes("],\"ground_colour\":[");
    let gc = spec_ser_colour(l.ground_colour);
    let l4 = lit_bytes("],\"background_colour\":[");
    let bc = spec_ser_colour(l.background_colour);
    let l5 = lit_bytes("],\"primitives\":[");
    let pr = spec_ser_records(l.primitives);
    let l6 = lit_bytes("]}");
    assert(s == l1 + st + l2 + fw + c + fd + l3 + gc + l4 + bc + l5 + pr + l6);
    assert(st.len() == l.name.len() + 2) by {
        assert(st =~= seq![QUOTE] + spec_ser_chars(l.name) + seq![QUOTE]);
    }
    assert(s.subrange(0, s.len() as int) =~= s);
    let a12 = l1 + st + l2 + fw + c + fd + l3 + gc + l4 + bc + l5 + pr;
    let a11 = l1 + st + l2 + fw + c + fd + l3 + gc + l4 + bc + l5;
    let a10 = l1 + st + l2 + fw + c + fd + l3 + gc + l4 + bc;
    let a9 = l1 + st + l2 + fw + c + fd + l3 + gc + l4;
    let a8 = l1 + st + l2 + fw + c + fd + l3 + gc;
    let a7 = l1 + st + l2 + fw + c + fd + l3;
    let a6 = l1 + st + l2 + fw + c + fd;
    let a5 = l1 + st + l2 + fw + c;
    let a4 = l1 + st + l2 + fw;
    let a3 = l1 + st + l2;
    let a2 = l1 + st;
    lemma_split_match(s, 0, a12, l6);
    lemma_split_match(s, 0, a11, pr);
    lemma_split_match(s, 0, a10, l5);
    lemma_split_match(s, 0, a9, bc);
    lemma_split_match(s, 0, a8, l4);
    lemma_split_match(s, 0, a7, gc);
    lemma_split_match(s, 0, a6, l3);
    lemma_split_match(s, 0, a5, fd);
    lemma_split_match(s, 0, a4, c);
    lemma_split_match(s, 0, a3, fw);
    lemma_split_match(s, 0, a2, l2);
    lemma_split_match(s, 0, l1, st);
}

/// The record list of a serialized level parses back to its records.
#[verifier::rlimit(100)]
proof fn lemma_level_records_part(l: LevelModel, s: Seq<u8>, i: int, j: int)
    requires
        level_ok(l),
        0 <= i <= j,
        j < s.len(),
        j == i + spec_ser_records(l.primitives).len(),
        s.subrange(i, j) == spec_ser_records(l.primitives),
        s[j] == 93,
    ensures
        spec_parse_records_or_empty(s, i) == Some((l.primitives, j)),
{
    let pr = spec_ser_records(l.primitives);
    if l.primitives.len() == 0 {
        assert(pr.len() == 0);
        assert(i == j);
        assert(spec_parse_records_or_empty(s, i) == Some(
            (Seq::<LevelPrimitiveModel>::empty(), i),
        ));
        assert(Seq::<LevelPrimitiveModel>::empty() =~= l.primitives);
    } else {
        assert(record_ok(l.primitives[0]));
        let head = spec_ser_record(l.primitives.first());
        lemma_ser_record_starts_with_brace(l.primitives.first());
        assert(pr[0] == head[0]) by {
            if l.primitives.len() > 1 {
                assert(pr =~= head + lit_bytes(",") + spec_ser_records(
                    l.primitives.drop_first(),
                ));
            }
        }
        lemma_byte_at(s, i, pr, 0);
        assert(s[i] == 123);
        assert(s[i] != 93);
        lemma_parse_records_exact(s, i, l.primitives);
    }
}

/// Gluing the parsed tokens of a level document back together.
#[verifier::rlimit(100)]
proof fn lemma_level_assemble(
    l: LevelModel,
    s: Seq<u8>,
    q1: int,
    q2: int,
    q3: int,
    q4: int,
    q5: int,
    q6: int,
    q7: int,
    q8: int,
    q9: int,
    q10: int,
    q11: int,
    q12: int,
    q13: int,
)
    requires
        level_ok(l),
        s.len() == q13,
        spec_parse_lit(s, 0, lit_bytes("{\"name\":")) == Some(q1),
        spec_parse_string(s, q1) == Some((l.name, q2)),
        spec_parse_lit(s, q2, lit_bytes(",\"ground_dimensions\":[")) == Some(q3),
        spec_parse_fixed(s, q3) == Some((l.ground_dimensions.width as int, q4)),
        spec_parse_lit(s, q4, lit_bytes(",")) == Some(q5),
        spec_parse_fixed(s, q5) == Some((l.ground_dimensions.depth as int, q6)),
        spec_parse_lit(s, q6, lit_bytes("],\"ground_colour\":[")) == Some(q7),
        spec_parse_vec3(s, q7) == Some(
            (Vec3 { x: l.ground_colour.r, y: l.ground_colour.g, z: l.ground_colour.b }, q8),
        ),
        spec_parse_lit(s, q8, lit_bytes("],\"background_colour\":[")) == Some(q9),
        spec_parse_vec3(s, q9) == Some(
            (
                Vec3 {
                    x: l.background_colour.r,
                    y: l.background_colour.g,
                    z: l.background_colour.b,
                },
                q10,
            ),
        ),
        spec_parse_lit(s, q10, lit_bytes("],\"primitives\":[")) == Some(q11),
        spec_parse_records_or_empty(s, q11) == Some((l.primitives, q12)),
        spec_parse_lit(s, q12, lit_bytes("]}")) == Some(q13),
    ensures
        spec_parse_level_doc(s) == Some(l),
{
    assert(spec_parse_level(s, 0) == Some(
        (
            LevelModel {
                name: l.name,
                ground_dimensions: Extent {
                    width: l.ground_dimensions.width,
                    depth: l.ground_dimensions.depth,
                },
                ground_colour: Colour {
                    r: l.ground_colour.r,
                    g: l.ground_colour.g,
                    b: l.ground_colour.b,
                },
                background_colour: Colour {
                    r: l.background_colour.r,
                    g: l.background_colour.g,
                    b: l.background_colour.b,
                },
                primitives: l.primitives,
            },
            q13,
        ),
    ));
    assert(l == (LevelModel {
        name: l.name,
        ground_dimensions: Extent {
            width: l.ground_dimensions.width,
            depth: l.ground_dimensions.depth,
        },
        ground_colour: Colour {
            r: l.ground_colour.r,
            g: l.ground_colour.g,
            b: l.ground_colour.b,
        },
        background_colour: Colour {
            r: l.background_colour.r,
            g: l.background_colour.g,
            b: l.background_colour.b,
        },
        primitives: l.primitives,
    }));
}

/// The opening tokens of a serialized level parse back to its header
/// fields.
#[verifier::rlimit(100)]
proof fn lemma_level_tokens_front(l: LevelModel)
    requires
        level_ok(l),
    ensures
        ({
            let s = spec_ser_level(l);
                    let l1 = lit_bytes("{\"name\":");
                    let st = spec_ser_string(l.name);
                    let l2 = lit_bytes(",\"ground_dimensions\":[");
                    let fw = spec_ser_fixed(l.ground_dimensions.width as int);
                    let c = lit_bytes(",");
                    let fd = spec_ser_fixed(l.ground_dimensions.depth as int);
                    let l3 = lit_bytes("],\"ground_colour\":[");
                    let gv = Vec3 { x: l.ground_colour.r, y: l.ground_colour.g, z: l.ground_colour.b };
                    let gc = spec_ser_colour(l.ground_colour);
                    let l4 = lit_bytes("],\"background_colour\":[");
                    let bv = Vec3 {
                x: l.background_colour.r,
                y: l.background_colour.g,
                z: l.background_colour.b,
            };
                    let bc = spec_ser_colour(l.background_colour);
                    let l5 = lit_bytes("],\"primitives\":[");
                    let pr = spec_ser_records(l.primitives);
                    let l6 = lit_bytes("]}");
                    let q1 = l1.len() as int;
                    let q2 = q1 + st.len();
                    let q3 = q2 + l2.len();
                    let q4 = q3 + fw.len();
                    let q5 = q4 + c.len();
                    let q6 = q5 + fd.len();
                    let q7 = q6 + l3.len();
                    let q8 = q7 + gc.len();
                    let q9 = q8 + l4.len();
                    let q10 = q9 + bc.len();
                    let q11 = q10 + l5.len();
                    let q12 = q11 + pr.len();
                    let q13 = q12 + l6.len();
            &&& spec_parse_lit(s, 0, l1) == Some(q1)
            &&& spec_parse_string(s, q1) == Some((l.name, q2))
            &&& spec_parse_lit(s, q2, l2) == Some(q3)
            &&& spec_parse_fixed(s, q3) == Some((l.ground_dimensions.width as int, q4))
            &&& spec_parse_lit(s, q4, c) == Some(q5)
            &&& spec_parse_fixed(s, q5) == Some((l.ground_dimensions.depth as int, q6))
            &&& spec_parse_lit(s, q6, l3) == Some(q7)
        }),
{
    let s = spec_ser_level(l);
    let l1 = lit_bytes("{\"name\":");
    let st = spec_ser_string(l.name);
    let l2 = lit_bytes(",\"ground_dimensions\":[");
    let fw = spec_ser_fixed(l.ground_dimensions.width as int);
    let c = lit_bytes(",");
    let fd = spec_ser_fixed(l.ground_dimensions.depth as int);
    let l3 = lit_bytes("],\"ground_colour\":[");
    let gv = Vec3 { x: l.ground_colour.r, y: l.ground_colour.g, z: l.ground_colour.b };
    let gc = spec_ser_colour(l.ground_colour);
    let l4 = lit_bytes("],\"background_colour\":[");
    let bv = Vec3 {
        x: l.background_colour.r,
        y: l.background_colour.g,
        z: l.background_colour.b,
    };
    let bc = spec_ser_colour(l.background_colour);
    let l5 = lit_bytes("],\"primitives\":[");
    let pr = spec_ser_records(l.primitives);
    let l6 = lit_bytes("]}");
    let q1 = l1.len() as int;
    let q2 = q1 + st.len();
    let q3 = q2 + l2.len();
    let q4 = q3 + fw.len();
    let q5 = q4 + c.len();
    let q6 = q5 + fd.len();
    let q7 = q6 + l3.len();
    let q8 = q7 + gc.len();
    let q9 = q8 + l4.len();
    let q10 = q9 + bc.len();
    let q11 = q10 + l5.len();
    let q12 = q11 + pr.len();
    let q13 = q12 + l6.len();
    lemma_level_layout(l);
    assert(spec_parse_lit(s, 0, l1) == Some(q1));
    lemma_parse_string_exact(s, q1, l.name);
    assert(spec_parse_lit(s, q2, l2) == Some(q3));
    lemma_parse_fixed_exact(s, q3, l.ground_dimensions.width as int);
    assert(spec_parse_lit(s, q4, c) == Some(q5));
    lemma_parse_fixed_exact(s, q5, l.ground_dimensions.depth as int);
    assert(spec_parse_lit(s, q6, l3) == Some(q7));
}

/// The closing tokens of a serialized level parse back to its colours and
/// records.
#[verifier::rlimit(100)]
proof fn lemma_level_tokens_back(l: LevelModel)
    requires
        level_ok(l),
    ensures
        ({
            let s = spec_ser_level(l);
                    let l1 = lit_bytes("{\"name\":");
                    let st = spec_ser_string(l.name);
                    let l2 = lit_bytes(",\"ground_dimensions\":[");
                    let fw = spec_ser_fixed(l.ground_dimensions.width as int);
                    let c = lit_bytes(",");
                    let fd = spec_ser_fixed(l.ground_dimensions.depth as int);
                    let l3 = lit_bytes("],\"ground_colour\":[");
                    let gv = Vec3 { x: l.ground_colour.r, y: l.ground_colour.g, z: l.ground_colour.b };
                    let gc = spec_ser_colour(l.ground_colour);
                    let l4 = lit_bytes("],\"background_colour\":[");
                    let bv = Vec3 {
                x: l.background_colour.r,
                y: l.background_colour.g,
                z: l.background_colour.b,
            };
                    let bc = spec_ser_colour(l.background_colour);
                    let l5 = lit_bytes("],\"primitives\":[");
                    let pr = spec_ser_records(l.primitives);
                    let l6 = lit_bytes("]}");
                    let q1 = l1.len() as int;
                    let q2 = q1 + st.len();
                    let q3 = q2 + l2.len();
                    let q4 = q3 + fw.len();
                    let q5 = q4 + c.len();
                    let q6 = q5 + fd.len();
                    let q7 = q6 + l3.len();
                    let q8 = q7 + gc.len();
                    let q9 = q8 + l4.len();
                    let q10 = q9 + bc.len();
                    let q11 = q10 + l5.len();
                    let q12 = q11 + pr.len();
                    let q13 = q12 + l6.len();
            &&& spec_parse_vec3(s, q7) == Some((gv, q8))
            &&& spec_parse_lit(s, q8, l4) == Some(q9)
            &&& spec_parse_vec3(s, q9) == Some((bv, q10))
            &&& spec_parse_lit(s, q10, l5) == Some(q11)
            &&& spec_parse_records_or_empty(s, q11) == Some((l.primitives, q12))
            &&& spec_parse_lit(s, q12, l6) == Some(q13)
            &&& s.len() == q13
        }),
{
    let s = spec_ser_level(l);
    let l1 = lit_bytes("{\"name\":");
    let st = spec_ser_string(l.name);
    let l2 = lit_bytes(",\"ground_dimensions\":[");
    let fw = spec_ser_fixed(l.ground_dimensions.width as int);
    let c = lit_bytes(",");
    let fd = spec_ser_fixed(l.ground_dimensions.depth as int);
    let l3 = lit_bytes("],\"ground_colour\":[");
    let gv = Vec3 { x: l.ground_colour.r, y: l.ground_colour.g, z: l.ground_colour.b };
    let gc = spec_ser_colour(l.ground_colour);
    let l4 = lit_bytes("],\"background_colour\":[");
    let bv = Vec3 {
        x: l.background_colour.r,
        y: l.background_colour.g,
        z: l.background_colour.b,
    };
    let bc = spec_ser_colour(l.background_colour);
    let l5 = lit_bytes("],\"primitives\":[");
    let pr = spec_ser_records(l.primitives);
    let l6 = lit_bytes("]}");
    let q1 = l1.len() as int;
    let q2 = q1 + st.len();
    let q3 = q2 + l2.len();
    let q4 = q3 + fw.len();
    let q5 = q4 + c.len();
    let q6 = q5 + fd.len();
    let q7 = q6 + l3.len();
    let q8 = q7 + gc.len();
    let q9 = q8 + l4.len();
    let q10 = q9 + bc.len();
    let q11 = q10 + l5.len();
    let q12 = q11 + pr.len();
    let q13 = q12 + l6.len();
    lemma_level_layout(l);
    assert(gc == spec_ser_vec3(gv));
    assert(bc == spec_ser_vec3(bv));
    lemma_parse_vec3_exact(s, q7, gv);
    assert(spec_parse_lit(s, q8, l4) == Some(q9));
    lemma_parse_vec3_exact(s, q9, bv);
    assert(spec_parse_lit(s, q10, l5) == Some(q11));
    reveal_strlit("]}");
    assert(l6.len() == 2);
    assert((']' as u8) == 93);
    lemma_byte_at(s, q12, l6, 0);
    assert(s[q12] == 93);
    lemma_level_records_part(l, s, q11, q12);
    assert(spec_parse_lit(s, q12, l6) == Some(q13));
}

/// Parsing reads back exactly the level the serializer wrote: the round
/// trip of a save and a load is the identity on well-formed levels.
#[verifier::rlimit(100)]
pub proof fn lemma_level_round_trip(l: LevelModel)
    requires
        level_ok(l),
    ensures
        spec_parse_level_doc(spec_ser_level(l)) == Some(l),
{
    let s = spec_ser_level(l);
    let l1 = lit_bytes("{\"name\":");
    let st = spec_ser_string(l.name);
    let l2 = lit_bytes(",\"ground_dimensions\":[");
    let fw = spec_ser_fixed(l.ground_dimensions.width as int);
    let c = lit_bytes(",");
    let fd = spec_ser_fixed(l.ground_dimensions.depth as int);
    let l3 = lit_bytes("],\"ground_colour\":[");
    let gv = Vec3 { x: l.ground_colour.r, y: l.ground_colour.g, z: l.ground_colour.b };
    let gc = spec_ser_colour(l.ground_colour);
    let l4 = lit_bytes("],\"background_colour\":[");
    let bv = Vec3 {
        x: l.background_colour.r,
        y: l.background_colour.g,
        z: l.background_colour.b,
    };
    let bc = spec_ser_colour(l.background_colour);
    let l5 = lit_bytes("],\"primitives\":[");
    let pr = spec_ser_records(l.primitives);
    let l6 = lit_bytes("]}");
    let q1 = l1.len() as int;
    let q2 = q1 + st.len();
    let q3 = q2 + l2.len();
    let q4 = q3 + fw.len();
    let q5 = q4 + c.len();
    let q6 = q5 + fd.len();
    let q7 = q6 + l3.len();
    let q8 = q7 + gc.len();
    let q9 = q8 + l4.len();
    let q10 = q9 + bc.len();
    let q11 = q10 + l5.len();
    let q12 = q11 + pr.len();
    let q13 = q12 + l6.len();
    lemma_level_tokens_front(l);
    lemma_level_tokens_back(l);
    lemma_level_assemble(
        l,
        s,
        q1,
        q2,
        q3,
        q4,
        q5,
        q6,
        q7,
        q8,
        q9,
        q10,
        q11,
        q12,
        q13,
    );
}

/// A serialized record begins with an opening brace.
proof fn lemma_ser_record_starts_with_brace(r: LevelPrimitiveModel)
    ensures
        spec_ser_record(r).len() >= 1,
        spec_ser_record(r)[0] == 123,
{
    let l1 = lit_bytes("{\"name\":");
    reveal_strlit("{\"name\":");
    assert(('{' as u8) == 123);
    assert(spec_ser_record(r)[0] == l1[0]);
}

/// Appending one record to a serialized list appends a comma (except to an
/// empty list) and the record's bytes.
proof fn lemma_ser_records_snoc(rs: Seq<LevelPrimitiveModel>, r: LevelPrimitiveModel)
    ensures
        spec_ser_records(rs.push(r)) == if rs.len() == 0 {
            spec_ser_record(r)
        } else {
            spec_ser_records(rs) + lit_bytes(",") + spec_ser_record(r)
        },
    decreases rs.len(),
{
    let grown = rs.push(r);
    if rs.len() == 0 {
        assert(grown.len() == 1);
        assert(grown.first() == r);
    } else {
        assert(grown.first() == rs.first());
        assert(grown.drop_first() =~= rs.drop_first().push(r));
        lemma_ser_records_snoc(rs.drop_first(), r);
        if rs.len() == 1 {
            assert(rs.drop_first().len() == 0);
            assert(spec_ser_records(grown) == spec_ser_record(rs.first()) + lit_bytes(",")
                + spec_ser_record(r));
            assert(spec_ser_records(rs) == spec_ser_record(rs.first()));
        } else {
            assert(spec_ser_records(grown) == spec_ser_record(rs.first()) + lit_bytes(",") + (
            spec_ser_records(rs.drop_first()) + lit_bytes(",") + spec_ser_record(r)));
            assert(spec_ser_records(rs) == spec_ser_record(rs.first()) + lit_bytes(",")
                + spec_ser_records(rs.drop_first()));
            assert(spec_ser_record(rs.first()) + lit_bytes(",") + (spec_ser_records(
                rs.drop_first(),
            ) + lit_bytes(",") + spec_ser_record(r)) =~= spec_ser_records(rs) + lit_bytes(",")
                + spec_ser_record(r));
        }
    }
}

/// Appends the one-byte encodings of a text's characters.
fn emit_str_bytes(out: &mut Vec<u8>, text: &str)
    ensures
        final(out)@ == old(out)@ + spec_ser_chars(text@),
{
    let n = text.unicode_len();
    let mut i: usize = 0;
    proof {
        assert(old(out)@ + spec_ser_chars(text@.subrange(0, 0)) =~= old(out)@);
    }
    while i < n
        invariant
            n == text@.len(),
            0 <= i <= n,
            out@ == old(out)@ + spec_ser_chars(text@.subrange(0, i as int)),
        decreases n - i,
    {
        let c = text.get_char(i);
        out.push(c as u8);
        proof {
            assert(text@.subrange(0, i as int + 1).drop_last() =~= text@.subrange(0, i as int));
            assert(spec_ser_chars(text@.subrange(0, i as int + 1)) =~= spec_ser_chars(
                text@.subrange(0, i as int),
            ).push(c as u8));
            assert(out@ =~= old(out)@ + spec_ser_chars(text@.subrange(0, i as int + 1)));
        }
        i = i + 1;
    }
    proof {
        assert(text@.subrange(0, n as int) =~= text@);
    }
}

/// Appends a non-negative integer in decimal.
fn emit_nat(out: &mut Vec<u8>, n: u64)
    ensures
        final(out)@ == old(out)@ + spec_ser_nat(n as nat),
    decreases n,
{
    if n < 10 {
        out.push(48 + n as u8);
        proof {
            assert(old(out)@.push(digit_byte(n as int)) =~= old(out)@ + seq![digit_byte(n as int)]);
            assert(48 + n as u8 == digit_byte(n as int));
        }
    } else {
        emit_nat(out, n / 10);
        out.push(48 + (n % 10) as u8);
        proof {
            assert(old(out)@ + spec_ser_nat((n / 10) as nat) + seq![
                digit_byte((n % 10) as int),
            ] =~= old(out)@ + spec_ser_nat(n as nat));
            assert(48 + (n % 10) as u8 == digit_byte((n % 10) as int));
            assert((old(out)@ + spec_ser_nat((n / 10) as nat)).push(
                digit_byte((n % 10) as int),
            ) =~= old(out)@ + spec_ser_nat((n / 10) as nat) + seq![digit_byte((n % 10) as int)]);
        }
    }
}

/// Appends a non-negative integer in exactly `width` decimal digits,
/// zero-padded.
fn emit_digits(out: &mut Vec<u8>, n: u64, width: usize)
    ensures
        final(out)@ == old(out)@ + spec_ser_digits(n as nat, width as nat),
    decreases width,
{
    if width == 0 {
        proof {
            assert(old(out)@ + spec_ser_digits(n as nat, 0) =~= old(out)@);
        }
    } else {
        emit_digits(out, n / 10, width - 1);
        out.push(48 + (n % 10) as u8);
        proof {
            assert(48 + (n % 10) as u8 == digit_byte((n % 10) as int));
            assert((old(out)@ + spec_ser_digits((n / 10) as nat, (width - 1) as nat)).push(
                digit_byte((n % 10) as int),
            ) =~= old(out)@ + spec_ser_digits(n as nat, width as nat));
        }
    }
}

/// Appends a fixed-point value as a signed decimal with six fraction
/// digits.
fn emit_fixed(out: &mut Vec<u8>, v: i64)
    requires
        -FIXED_LIMIT < v < FIXED_LIMIT,
    ensures
        final(out)@ == old(out)@ + spec_ser_fixed(v as int),
{
    let ghost entry = out@;
    let m: u64 = if v < 0 {
        out.push(MINUS);
        (-v) as u64
    } else {
        v as u64
    };
    let ghost signed = out@;
    emit_nat(out, m / 1_000_000);
    out.push(DOT);
    emit_digits(out, m % 1_000_000, 6);
    proof {
        assert((m as nat) / 1_000_000 == (m / 1_000_000) as nat);
        assert((m as nat) % 1_000_000 == (m % 1_000_000) as nat);
        assert(out@ =~= signed + spec_ser_fixed_nonneg(m as nat));
        if v < 0 {
            assert(signed =~= entry.push(MINUS));
            assert(entry.push(MINUS) + spec_ser_fixed_nonneg(m as nat) =~= entry + (seq![
                MINUS,
            ] + spec_ser_fixed_nonneg(m as nat)));
            assert(out@ =~= entry + spec_ser_fixed(v as int));
        } else {
            assert(out@ =~= entry + spec_ser_fixed(v as int));
        }
    }
}

/// Appends a name between double quotes.
fn emit_string(out: &mut Vec<u8>, text: &str)
    ensures
        final(out)@ == old(out)@ + spec_ser_string(text@),
{
    let ghost entry = out@;
    out.push(QUOTE);
    emit_str_bytes(out, text);
    out.push(QUOTE);
    proof {
        assert(out@ =~= entry + spec_ser_string(text@));
    }
}

/// Appends `true` or `false`.
fn emit_bool(out: &mut Vec<u8>, b: bool)
    ensures
        final(out)@ == old(out)@ + spec_ser_bool(b),
{
    if b {
        emit_str_bytes(out, "true");
    } else {
        emit_str_bytes(out, "false");
    }
}

/// Appends three comma-separated fixed-point values.
fn emit_vec3(out: &mut Vec<u8>, v: &Vec3)
    requires
        v.in_bounds(FIXED_LIMIT as int),
    ensures
        final(out)@ == old(out)@ + spec_ser_vec3(*v),
{
    let ghost entry = out@;
    emit_fixed(out, v.x);
    emit_str_bytes(out, ",");
    emit_fixed(out, v.y);
    emit_str_bytes(out, ",");
    emit_fixed(out, v.z);
    proof {
        assert(out@ =~= entry + spec_ser_vec3(*v));
    }
}

/// Appends one placed-primitive record.
fn emit_record(out: &mut Vec<u8>, r: &LevelPrimitiveDefinition)
    requires
        record_ok(r@),
    ensures
        final(out)@ == old(out)@ + spec_ser_record(r@),
{
    let ghost entry = out@;
    emit_str_bytes(out, "{\"name\":");
    emit_string(out, r.name.as_str());
    emit_str_bytes(out, ",\"position\":[");
    emit_vec3(out, &r.position);
    emit_str_bytes(out, "],\"rotation\":[");
    emit_vec3(out, &r.rotation);
    emit_str_bytes(out, "],\"is_static\":");
    emit_bool(out, r.is_static);
    emit_str_bytes(out, "}");
    proof {
        assert(out@ =~= entry + spec_ser_record(r@));
    }
}

/// Writes a level document as its file bytes, exactly as
/// [`spec_ser_level`] states.
#[verifier::rlimit(100)]
pub fn save_level_definition(level: &LevelDefinition) -> (out: Vec<u8>)
    requires
        level_ok(level@),
    ensures
        out@ == spec_ser_level(level@),
{
    let mut out: Vec<u8> = Vec::new();
    emit_str_bytes(&mut out, "{\"name\":");
    emit_string(&mut out, level.name.as_str());
    emit_str_bytes(&mut out, ",\"ground_dimensions\":[");
    emit_fixed(&mut out, level.ground_dimensions.width);
    emit_str_bytes(&mut out, ",");
    emit_fixed(&mut out, level.ground_dimensions.depth);
    emit_str_bytes(&mut out, "],\"ground_colour\":[");
    emit_fixed(&mut out, level.ground_colour.r);
    emit_str_bytes(&mut out, ",");
    emit_fixed(&mut out, level.ground_colour.g);
    emit_str_bytes(&mut out, ",");
    emit_fixed(&mut out, level.ground_colour.b);
    emit_str_bytes(&mut out, "],\"background_colour\":[");
    emit_fixed(&mut out, level.background_colour.r);
    emit_str_bytes(&mut out, ",");
    emit_fixed(&mut out, level.background_colour.g);
    emit_str_bytes(&mut out, ",");
    emit_fixed(&mut out, level.background_colour.b);
    emit_str_bytes(&mut out, "],\"primitives\":[");
    let ghost prefix = out@;
    let n = level.primitives.len();
    let mut i: usize = 0;
    proof {
        assert(level@.primitives.take(0) =~= Seq::<LevelPrimitiveModel>::empty());
        assert(prefix + spec_ser_records(level@.primitives.take(0)) =~= prefix);
    }
    while i < n
        invariant
            level_ok(level@),
            n == level.primitives.len(),
            level@.primitives.len() == n,
            0 <= i <= n,
            out@ == prefix + spec_ser_records(level@.primitives.take(i as int)),
        decreases n - i,
    {
        if i > 0 {
            emit_str_bytes(&mut out, ",");
        }
        let ghost taken = level@.primitives.take(i as int);
        proof {
            assert(level@.primitives[i as int] == level.primitives[i as int]@);
            assert(record_ok(level@.primitives[i as int]));
        }
        emit_record(&mut out, &level.primitives[i]);
        proof {
            assert(level@.primitives.take(i as int + 1) =~= taken.push(
                level@.primitives[i as int],
            ));
            lemma_ser_records_snoc(taken, level@.primitives[i as int]);
            if i > 0 {
                assert(taken.len() > 0);
                assert(out@ =~= prefix + spec_ser_records(level@.primitives.take(i as int + 1)));
            } else {
                assert(out@ =~= prefix + spec_ser_records(level@.primitives.take(i as int + 1)));
            }
        }
        i = i + 1;
    }
    proof {
        assert(level@.primitives.take(n as int) =~= level@.primitives);
    }
    emit_str_bytes(&mut out, "]}");
    proof {
        assert(out@ =~= spec_ser_level(level@));
    }
    out
}

/// Builds the text of an all-ASCII byte sequence.
///
/// Relies on `String::from_utf8`: ASCII bytes decode to the characters with
/// the same codes.  The input is ASCII by the precondition, so the decoding
/// cannot fail.
#[verifier::external_body]
fn bytes_to_string(v: Vec<u8>) -> (r: String)
    requires
        forall|i: int| 0 <= i < v@.len() ==> v@[i] < 128,
    ensures
        r@.len() == v@.len(),
        forall|i: int| 0 <= i < v@.len() ==> r@[i] == (#[trigger] v@[i]) as char,
{
    String::from_utf8(v).unwrap()
}

/// The run of digits starting at `i` has length `k` when the `k` bytes
/// there are digits and the byte after them (if any) is not.
proof fn lemma_digit_count_is(s: Seq<u8>, i: int, k: int)
    requires
        0 <= i,
        0 <= k,
        i + k <= s.len(),
        forall|j: int| i <= j < i + k ==> is_digit(#[trigger] s[j]),
        i + k == s.len() || !is_digit(s[i + k]),
    ensures
        spec_digit_count(s, i) == k,
    decreases k,
{
    if k > 0 {
        lemma_digit_count_is(s, i + 1, k - 1);
    }
}

/// The run of name bytes starting at `i` has length `k` when the `k` bytes
/// there are name bytes and the byte after them (if any) is not.
proof fn lemma_scan_name_is(s: Seq<u8>, i: int, k: int)
    requires
        0 <= i,
        0 <= k,
        i + k <= s.len(),
        forall|j: int| i <= j < i + k ==> is_name_byte(#[trigger] s[j]),
        i + k == s.len() || !is_name_byte(s[i + k]),
    ensures
        spec_scan_name(s, i) == k,
    decreases k,
{
    if k > 0 {
        lemma_scan_name_is(s, i + 1, k - 1);
    }
}

/// Powers of ten do not shrink as the exponent grows.
proof fn lemma_pow10_increases(a: nat, b: nat)
    requires
        a <= b,
    ensures
        pow10(a) <= pow10(b),
    decreases b,
{
    if a < b {
        lemma_pow10_increases(a, (b - 1) as nat);
        lemma_pow10_pos((b - 1) as nat);
    }
}

/// Reads a run of `width` digits as a zero-padded value.
fn parse_digits(s: &Vec<u8>, pos: usize, width: usize) -> (r: Option<u64>)
    requires
        pos + width <= s@.len(),
        width <= 6,
    ensures
        match r {
            Some(v) => {
                &&& all_digits(s@.subrange(pos as int, pos as int + width as int))
                &&& v == spec_digits_val(s@.subrange(pos as int, pos as int + width as int))
                &&& v < pow10(width as nat)
            },
            None => !all_digits(s@.subrange(pos as int, pos as int + width as int)),
        },
{
    let slen = s.len();
    let mut value: u64 = 0;
    let mut t: usize = 0;
    proof {
        assert(s@.subrange(pos as int, pos as int) =~= Seq::<u8>::empty());
    }
    while t < width
        invariant
            slen == s@.len(),
            pos + width <= s@.len(),
            width <= 6,
            0 <= t <= width,
            forall|j: int| pos <= j < pos + t ==> is_digit(#[trigger] s@[j]),
            value == spec_digits_val(s@.subrange(pos as int, pos as int + t as int)),
            value < pow10(t as nat),
        decreases width - t,
    {
        let b = s[pos + t];
        if !(48 <= b && b <= 57) {
            proof {
                assert(s@.subrange(pos as int, pos as int + width as int)[t as int] == s@[pos
                    + t]);
            }
            return None;
        }
        proof {
            let prefix_next = s@.subrange(pos as int, pos as int + t as int + 1);
            assert(prefix_next.drop_last() =~= s@.subrange(pos as int, pos as int + t as int));
            assert(prefix_next.last() == s@[pos + t]);
            assert(pow10((t + 1) as nat) == 10 * pow10(t as nat));
            lemma_pow10_increases((t + 1) as nat, 6);
            proof_pow10_constants();
        }
        value = value * 10 + ((b - 48) as u64);
        t = t + 1;
    }
    proof {
        proof_pow10_constants();
        lemma_pow10_increases(width as nat, 6);
    }
    Some(value)
}

/// Reads a non-negative fixed-point value, exactly as
/// [`spec_parse_fixed_nonneg`] states.
#[verifier::rlimit(100)]
fn parse_fixed_nonneg(s: &Vec<u8>, pos: usize) -> (r: Option<(i64, usize)>)
    requires
        pos <= s@.len(),
    ensures
        match r {
            Some((v, p)) => {
                &&& spec_parse_fixed_nonneg(s@, pos as int) == Some((v as int, p as int))
                &&& 0 <= v < FIXED_LIMIT
                &&& pos < p <= s@.len()
            },
            None => spec_parse_fixed_nonneg(s@, pos as int) is None,
        },
{
    let n = s.len();
    let mut k: usize = 0;
    while pos + k < n && 48 <= s[pos + k] && s[pos + k] <= 57
        invariant
            n == s@.len(),
            pos + k <= n,
            forall|j: int| pos <= j < pos + k ==> is_digit(#[trigger] s@[j]),
        decreases n - pos - k,
    {
        k = k + 1;
    }
    proof {
        lemma_digit_count_is(s@, pos as int, k as int);
    }
    if k == 0 || k > 12 {
        return None;
    }
    let whole = match parse_whole_digits(s, pos, k) {
        Some(w) => w,
        None => {
            proof {
                assert(false);
            }
            return None;
        },
    };
    let j = pos + k;
    if n - j < 7 {
        return None;
    }
    if s[j] != DOT {
        return None;
    }
    let frac = match parse_digits(s, j + 1, 6) {
        Some(f) => f,
        None => {
            return None;
        },
    };
    proof {
        proof_pow10_constants();
        assert(whole < 1_000_000_000_000);
        assert(frac < 1_000_000);
    }
    let value: u64 = whole * 1_000_000 + frac;
    Some((value as i64, j + 7))
}

/// Reads the whole-number digit run that a digit count has already
/// measured.
fn parse_whole_digits(s: &Vec<u8>, pos: usize, k: usize) -> (r: Option<u64>)
    requires
        pos + k <= s@.len(),
        1 <= k <= 12,
        forall|j: int| pos <= j < pos + k ==> is_digit(#[trigger] s@[j]),
    ensures
        match r {
            Some(v) => {
                &&& v == spec_digits_val(s@.subrange(pos as int, pos as int + k as int))
                &&& v < 1_000_000_000_000
            },
            None => false,
        },
{
    let slen = s.len();
    let mut value: u64 = 0;
    let mut t: usize = 0;
    proof {
        assert(s@.subrange(pos as int, pos as int) =~= Seq::<u8>::empty());
    }
    while t < k
        invariant
            slen == s@.len(),
            pos + k <= s@.len(),
            k <= 12,
            0 <= t <= k,
            forall|j: int| pos <= j < pos + k ==> is_digit(#[trigger] s@[j]),
            value == spec_digits_val(s@.subrange(pos as int, pos as int + t as int)),
            value < pow10(t as nat),
        decreases k - t,
    {
        let b = s[pos + t];
        proof {
            assert(is_digit(s@[pos + t as int]));
            let prefix_next = s@.subrange(pos as int, pos as int + t as int + 1);
            assert(prefix_next.drop_last() =~= s@.subrange(pos as int, pos as int + t as int));
            assert(prefix_next.last() == s@[pos + t]);
            assert(pow10((t + 1) as nat) == 10 * pow10(t as nat));
            lemma_pow10_increases((t + 1) as nat, 12);
            proof_pow10_constants();
        }
        value = value * 10 + ((b - 48) as u64);
        t = t + 1;
    }
    proof {
        lemma_pow10_increases(k as nat, 12);
        proof_pow10_constants();
    }
    Some(value)
}

/// Reads a fixed-point value, exactly as [`spec_parse_fixed`] states.
pub(crate) fn parse_fixed(s: &Vec<u8>, pos: usize) -> (r: Option<(i64, usize)>)
    requires
        pos <= s@.len(),
    ensures
        match r {
            Some((v, p)) => {
                &&& spec_parse_fixed(s@, pos as int) == Some((v as int, p as int))
                &&& -FIXED_LIMIT < v < FIXED_LIMIT
                &&& pos < p <= s@.len()
            },
            None => spec_parse_fixed(s@, pos as int) is None,
        },
{
    if pos < s.len() && s[pos] == MINUS {
        match parse_fixed_nonneg(s, pos + 1) {
            Some((v, p)) => Some((-v, p)),
            None => None,
        }
    } else {
        parse_fixed_nonneg(s, pos)
    }
}

/// Consumes a literal, exactly as [`spec_parse_lit`] states.
pub(crate) fn parse_lit(s: &Vec<u8>, pos: usize, lit: &str) -> (r: Option<usize>)
    requires
        pos <= s@.len(),
    ensures
        match r {
            Some(p) => {
                &&& spec_parse_lit(s@, pos as int, lit_bytes(lit)) == Some(p as int)
                &&& p == pos + lit@.len()
                &&& p <= s@.len()
            },
            None => spec_parse_lit(s@, pos as int, lit_bytes(lit)) is None,
        },
{
    let n = lit.unicode_len();
    let slen = s.len();
    if n > slen - pos {
        return None;
    }
    let mut k: usize = 0;
    while k < n
        invariant
            n == lit@.len(),
            slen == s@.len(),
            pos + n <= slen,
            0 <= k <= n,
            forall|j: int| 0 <= j < k ==> s@[pos + j] == lit_bytes(lit)[j],
        decreases n - k,
    {
        let c = lit.get_char(k);
        if s[pos + k] != c as u8 {
            proof {
                if s@.subrange(pos as int, pos as int + n as int) == lit_bytes(lit) {
                    assert(s@.subrange(pos as int, pos as int + n as int)[k as int]
                        == lit_bytes(lit)[k as int]);
                }
            }
            return None;
        }
        k = k + 1;
    }
    proof {
        assert(s@.subrange(pos as int, pos as int + n as int) =~= lit_bytes(lit));
    }
    Some(pos + n)
}

/// Reads a quoted name, exactly as [`spec_parse_string`] states; the name
/// read back is always well formed.
#[verifier::rlimit(100)]
pub(crate) fn parse_string(s: &Vec<u8>, pos: usize) -> (r: Option<(String, usize)>)
    requires
        pos <= s@.len(),
    ensures
        match r {
            Some((name, p)) => {
                &&& spec_parse_string(s@, pos as int) == Some((name@, p as int))
                &&& name_ok(name@)
                &&& pos < p <= s@.len()
            },
            None => spec_parse_string(s@, pos as int) is None,
        },
{
    let n = s.len();
    if pos >= n {
        return None;
    }
    if s[pos] != QUOTE {
        return None;
    }
    let mut k: usize = 0;
    let mut buf: Vec<u8> = Vec::new();
    proof {
        assert(buf@ =~= s@.subrange(pos as int + 1, pos as int + 1));
    }
    while pos + 1 + k < n && 32 <= s[pos + 1 + k] && s[pos + 1 + k] <= 126 && s[pos + 1 + k]
        != QUOTE && s[pos + 1 + k] != 92
        invariant
            n == s@.len(),
            pos < n,
            pos + 1 + k <= n,
            forall|j: int| pos + 1 <= j < pos + 1 + k ==> is_name_byte(#[trigger] s@[j]),
            buf@ == s@.subrange(pos as int + 1, pos as int + 1 + k as int),
        decreases n - pos - 1 - k,
    {
        buf.push(s[pos + 1 + k]);
        proof {
            assert(buf@ =~= s@.subrange(pos as int + 1, pos as int + 1 + k as int + 1));
        }
        k = k + 1;
    }
    proof {
        lemma_scan_name_is(s@, pos as int + 1, k as int);
    }
    let j = pos + 1 + k;
    if j >= n {
        return None;
    }
    if s[j] != QUOTE {
        return None;
    }
    let ghost body = s@.subrange(pos as int + 1, j as int);
    let name = bytes_to_string(buf);
    proof {
        let read = body.map_values(|b: u8| b as char);
        assert(name@ =~= read);
        assert forall|m: int| 0 <= m < name@.len() implies name_char_ok(#[trigger] name@[m]) by {
            assert(is_name_byte(body[m]));
            assert(name@[m] == body[m] as char);
        }
    }
    Some((name, j + 1))
}

/// Reads a boolean, exactly as [`spec_parse_bool`] states.
fn parse_bool(s: &Vec<u8>, pos: usize) -> (r: Option<(bool, usize)>)
    requires
        pos <= s@.len(),
    ensures
        match r {
            Some((b, p)) => {
                &&& spec_parse_bool(s@, pos as int) == Some((b, p as int))
                &&& pos < p <= s@.len()
            },
            None => spec_parse_bool(s@, pos as int) is None,
        },
{
    match parse_lit(s, pos, "true") {
        Some(p) => {
            proof {
                reveal_strlit("true");
            }
            Some((true, p))
        },
        None => match parse_lit(s, pos, "false") {
            Some(p) => {
                proof {
                    reveal_strlit("false");
                }
                Some((false, p))
            },
            None => None,
        },
    }
}

/// Reads three comma-separated fixed-point values, exactly as
/// [`spec_parse_vec3`] states.
#[verifier::rlimit(100)]
pub(crate) fn parse_vec3(s: &Vec<u8>, pos: usize) -> (r: Option<(Vec3, usize)>)
    requires
        pos <= s@.len(),
    ensures
        match r {
            Some((v, p)) => {
                &&& spec_parse_vec3(s@, pos as int) == Some((v, p as int))
                &&& v.in_bounds(FIXED_LIMIT as int)
                &&& pos < p <= s@.len()
            },
            None => spec_parse_vec3(s@, pos as int) is None,
        },
{
    let (x, j1) = match parse_fixed(s, pos) {
        Some(t) => t,
        None => {
            return None;
        },
    };
    let j2 = match parse_lit(s, j1, ",") {
        Some(p) => p,
        None => {
            return None;
        },
    };
    let (y, j3) = match parse_fixed(s, j2) {
        Some(t) => t,
        None => {
            return None;
        },
    };
    let j4 = match parse_lit(s, j3, ",") {
        Some(p) => p,
        None => {
            return None;
        },
    };
    let (z, j5) = match parse_fixed(s, j4) {
        Some(t) => t,
        None => {
            return None;
        },
    };
    Some((Vec3 { x, y, z }, j5))
}

/// Reads one placed-primitive record, exactly as [`spec_parse_record`]
/// states; the record read back is always well formed.
#[verifier::rlimit(100)]
fn parse_record(s: &Vec<u8>, pos: usize) -> (r: Option<(LevelPrimitiveDefinition, usize)>)
    requires
        pos <= s@.len(),
    ensures
        match r {
            Some((rec, p)) => {
                &&& spec_parse_record(s@, pos as int) == Some((rec@, p as int))
                &&& record_ok(rec@)
                &&& pos < p <= s@.len()
            },
            None => spec_parse_record(s@, pos as int) is None,
        },
{
    let j1 = match parse_lit(s, pos, "{\"name\":") {
        Some(p) => p,
        None => {
            return None;
        },
    };
    let (name, j2) = match parse_string(s, j1) {
        Some(t) => t,
        None => {
            return None;
        },
    };
    let j3 = match parse_lit(s, j2, ",\"position\":[") {
        Some(p) => p,
        None => {
            return None;
        },
    };
    let (position, j4) = match parse_vec3(s, j3) {
        Some(t) => t,
        None => {
            return None;
        },
    };
    let j5 = match parse_lit(s, j4, "],\"rotation\":[") {
        Some(p) => p,
        None => {
            return None;
        },
    };
    let (rotation, j6) = match parse_vec3(s, j5) {
        Some(t) => t,
        None => {
            return None;
        },
    };
    let j7 = match parse_lit(s, j6, "],\"is_static\":") {
        Some(p) => p,
        None => {
            return None;
        },
    };
    let (is_static, j8) = match parse_bool(s, j7) {
        Some(t) => t,
        None => {
            return None;
        },
    };
    let j9 = match parse_lit(s, j8, "}") {
        Some(p) => p,
        None => {
            return None;
        },
    };
    Some((LevelPrimitiveDefinition { name, position, rotation, is_static }, j9))
}

/// Reads a non-empty comma-separated record list, exactly as
/// [`spec_parse_records`] states; every record read back is well formed.
#[verifier::rlimit(100)]
fn parse_records(s: &Vec<u8>, pos: usize) -> (r: Option<(Vec<LevelPrimitiveDefinition>, usize)>)
    requires
        pos <= s@.len(),
    ensures
        match r {
            Some((v, p)) => {
                &&& spec_parse_records(s@, pos as int) == Some(
                    (v@.map_values(|x: LevelPrimitiveDefinition| x@), p as int),
                )
                &&& forall|m: int|
                    0 <= m < v@.len() ==> record_ok(#[trigger] v@[m]@)
                &&& pos < p <= s@.len()
            },
            None => spec_parse_records(s@, pos as int) is None,
        },
    decreases s@.len() - pos,
{
    let (rec, j) = match parse_record(s, pos) {
        Some(t) => t,
        None => {
            return None;
        },
    };
    if j < s.len() && s[j] == 44 {
        match parse_records(s, j + 1) {
            None => None,
            Some((mut v, e)) => {
                let ghost rest = v@.map_values(|x: LevelPrimitiveDefinition| x@);
                v.insert(0, rec);
                proof {
                    assert(v@.map_values(|x: LevelPrimitiveDefinition| x@) =~= seq![rec@]
                        + rest);
                }
                Some((v, e))
            },
        }
    } else {
        let mut v: Vec<LevelPrimitiveDefinition> = Vec::new();
        v.push(rec);
        proof {
            assert(v@.map_values(|x: LevelPrimitiveDefinition| x@) =~= seq![rec@]);
        }
        Some((v, j))
    }
}

/// Reads a whole level file, exactly as [`spec_parse_level_doc`] states:
/// `None` on any malformed or incomplete document, and a well-formed level
/// otherwise.
#[verifier::rlimit(100)]
pub fn load_level_definition(bytes: &Vec<u8>) -> (r: Option<LevelDefinition>)
    ensures
        match r {
            Some(l) => {
                &&& spec_parse_level_doc(bytes@) == Some(l@)
                &&& level_ok(l@)
            },
            None => spec_parse_level_doc(bytes@) is None,
        },
{
    let s = bytes;
    let j1 = match parse_lit(s, 0, "{\"name\":") {
        Some(p) => p,
        None => {
            return None;
        },
    };
    let (name, j2) = match parse_string(s, j1) {
        Some(t) => t,
        None => {
            return None;
        },
    };
    let j3 = match parse_lit(s, j2, ",\"ground_dimensions\":[") {
        Some(p) => p,
        None => {
            return None;
        },
    };
    let (width, j4) = match parse_fixed(s, j3) {
        Some(t) => t,
        None => {
            return None;
        },
    };
    let j5 = match parse_lit(s, j4, ",") {
        Some(p) => p,
        None => {
            return None;
        },
    };
    let (depth, j6) = match parse_fixed(s, j5) {
        Some(t) => t,
        None => {
            return None;
        },
    };
    let j7 = match parse_lit(s, j6, "],\"ground_colour\":[") {
        Some(p) => p,
        None => {
            return None;
        },
    };
    let (gc, j8) = match parse_vec3(s, j7) {
        Some(t) => t,
        None => {
            return None;
        },
    };
    let j9 = match parse_lit(s, j8, "],\"background_colour\":[") {
        Some(p) => p,
        None => {
            return None;
        },
    };
    let (bc, j10) = match parse_vec3(s, j9) {
        Some(t) => t,
        None => {
            return None;
        },
    };
    let j11 = match parse_lit(s, j10, "],\"primitives\":[") {
        Some(p) => p,
        None => {
            return None;
        },
    };
    let (prims, j12) = if j11 < s.len() && s[j11] == 93 {
        (Vec::new(), j11)
    } else {
        match parse_records(s, j11) {
            Some(t) => t,
            None => {
                return None;
            },
        }
    };
    let j13 = match parse_lit(s, j12, "]}") {
        Some(p) => p,
        None => {
            return None;
        },
    };
    if j13 != s.len() {
        return None;
    }
    let level = LevelDefinition {
        name,
        ground_dimensions: Extent { width, depth },
        ground_colour: Colour { r: gc.x, g: gc.y, b: gc.z },
        background_colour: Colour { r: bc.x, g: bc.y, b: bc.z },
        primitives: prims,
    };
    proof {
        if j11 < s@.len() && s@[j11 as int] == 93 {
            assert(level@.primitives =~= Seq::<LevelPrimitiveModel>::empty());
        }
    }
    Some(level)
}

} // verus!
