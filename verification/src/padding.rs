//! Room around a lifted vector image.
//!
//! The compiler draws a little outside the box of an image, so the box is
//! made higher before the image is measured: the height grows at the top,
//! and the view box at the top and the bottom. Lengths are decimal numbers,
//! and are computed with exactly.

use vstd::prelude::*;
use crate::date::{pad_decimal, padded, pow10};
use crate::image::{decimal, decimal_chars, PADDING_BOTTOM, PADDING_TOP};
use crate::markup::{attr_views, render_start, start_markup, Attr};
use crate::rewrite::RawSvg;
use vstd::string::*;
use crate::publish::{fields, fields_of};
use crate::size::{all_digits, digits_value, is_digit};
use crate::text::{
    append_chars, chars_of, find_char, has_suffix, join, join_chars, position, slice_chars,
    string_of, views,
};

verus! {

/// The most digits a length may have to be padded.
pub const MAX_DIGITS: usize = 15;

/// A decimal number: whether it is negative, its digits without the point,
/// and how many of them stand behind the point.
#[derive(Debug, Clone, Copy, PartialEq, Eq, Structural)]
pub struct Decimal {
    /// Whether the number is below zero.
    pub negative: bool,
    /// The number without its sign, times ten to the power of `places`.
    pub scaled: u64,
    /// The number of digits behind the point.
    pub places: u8,
}

/// The text of a number without its sign.
pub open spec fn unsigned_text(s: Seq<char>) -> Seq<char> {
    if s.len() > 0 && (s[0] == '-' || s[0] == '+') {
        s.drop_first()
    } else {
        s
    }
}

/// The digits in front of the point.
pub open spec fn whole_digits(s: Seq<char>) -> Seq<char> {
    unsigned_text(s).subrange(0, position(unsigned_text(s), '.'))
}

/// The digits behind the point; none where there is no point.
pub open spec fn fraction_digits(s: Seq<char>) -> Seq<char> {
    let body = unsigned_text(s);
    let dot = position(body, '.');
    if dot < body.len() {
        body.subrange(dot + 1, body.len() as int)
    } else {
        Seq::<char>::empty()
    }
}

/// Tells whether a text writes a decimal number that can be padded: an
/// optional sign, digits, and at most one point among them; at least one
/// digit and at most fifteen.
pub open spec fn is_decimal(s: Seq<char>) -> bool {
    &&& all_digits(whole_digits(s))
    &&& all_digits(fraction_digits(s))
    &&& 1 <= whole_digits(s).len() + fraction_digits(s).len() <= MAX_DIGITS
}

/// The number a text writes.
pub open spec fn decimal_of(s: Seq<char>) -> Decimal {
    Decimal {
        negative: s.len() > 0 && s[0] == '-',
        scaled: digits_value(whole_digits(s) + fraction_digits(s)) as u64,
        places: fraction_digits(s).len() as u8,
    }
}

/// The value of a number, times ten to the power of its places.
pub open spec fn signed_value(d: Decimal) -> int {
    if d.negative {
        -(d.scaled as int)
    } else {
        d.scaled as int
    }
}

/// The digits behind the point of a number with `places` places whose
/// fraction, times ten to the power of `places`, is `fraction`: the digits
/// up to the last that is not zero.
pub open spec fn fraction_text(fraction: nat, places: nat) -> Seq<char>
    decreases places,
{
    if places == 0 {
        Seq::<char>::empty()
    } else if fraction % 10 == 0 {
        fraction_text(fraction / 10, (places - 1) as nat)
    } else {
        padded(fraction, places)
    }
}

/// The text of the number `value` divided by ten to the power of `places`:
/// a `-` where it is below zero, the whole part, and the fraction after a
/// point where there is one.
pub open spec fn decimal_text(value: int, places: nat) -> Seq<char> {
    let size = if value < 0 {
        (-value) as nat
    } else {
        value as nat
    };
    let sign = if value < 0 {
        seq!['-']
    } else {
        Seq::<char>::empty()
    };
    let fraction = fraction_text(size % pow10(places), places);
    sign + decimal(size / pow10(places)) + if fraction.len() > 0 {
        seq!['.'] + fraction
    } else {
        Seq::<char>::empty()
    }
}

/// The text of a number after `amount` whole units were added to it.
pub open spec fn raised(s: Seq<char>, amount: int) -> Seq<char> {
    let d = decimal_of(s);
    decimal_text(signed_value(d) + amount * pow10(d.places as nat), d.places as nat)
}

/// Ten to the power of `n`, for up to fifteen places.
fn power_of_ten(n: u8) -> (p: u64)
    requires
        n <= MAX_DIGITS,
    ensures
        p == pow10(n as nat),
        1 <= p <= 1_000_000_000_000_000,
{
    let mut p: u64 = 1;
    let mut i: u8 = 0;
    while i < n
        invariant
            i <= n <= MAX_DIGITS,
            p == pow10(i as nat),
            i == 0 ==> p == 1,
            i == 1 ==> p == 10,
            i == 2 ==> p == 100,
            i == 3 ==> p == 1_000,
            i == 4 ==> p == 10_000,
            i == 5 ==> p == 100_000,
            i == 6 ==> p == 1_000_000,
            i == 7 ==> p == 10_000_000,
            i == 8 ==> p == 100_000_000,
            i == 9 ==> p == 1_000_000_000,
            i == 10 ==> p == 10_000_000_000,
            i == 11 ==> p == 100_000_000_000,
            i == 12 ==> p == 1_000_000_000_000,
            i == 13 ==> p == 10_000_000_000_000,
            i == 14 ==> p == 100_000_000_000_000,
            i == 15 ==> p == 1_000_000_000_000_000,
        decreases n - i,
    {
        p = p * 10;
        i = i + 1;
    }
    p
}

/// The number written by at most fifteen digits is below ten to the power
/// of their count.
pub proof fn lemma_digits_value_bound(s: Seq<char>)
    requires
        all_digits(s),
    ensures
        digits_value(s) < pow10(s.len()),
    decreases s.len(),
{
    if s.len() > 0 {
        assert(all_digits(s.drop_last())) by {
            assert forall|i: int| 0 <= i < s.drop_last().len() implies is_digit(
                #[trigger] s.drop_last()[i],
            ) by {
                assert(s.drop_last()[i] == s[i]);
            }
        }
        lemma_digits_value_bound(s.drop_last());
        assert(is_digit(s[s.len() - 1]));
    }
}

/// Reads the digits of `v`: their number, where all are digits and there
/// are at most fifteen.
fn read_digits(v: &Vec<char>) -> (r: Option<u64>)
    ensures
        match r {
            Some(n) => all_digits(v@) && v.len() <= MAX_DIGITS && n == digits_value(v@) && n
                < 1_000_000_000_000_000,
            None => !all_digits(v@) || v.len() > MAX_DIGITS,
        },
{
    if v.len() > MAX_DIGITS {
        return None;
    }
    let mut value: u64 = 0;
    let mut i: usize = 0;
    assert(v@.subrange(0, 0) =~= Seq::<char>::empty());
    while i < v.len()
        invariant
            i <= v.len() <= MAX_DIGITS,
            all_digits(v@.subrange(0, i as int)),
            value == digits_value(v@.subrange(0, i as int)),
            value < pow10(i as nat),
        decreases v.len() - i,
    {
        let c = v[i];
        if !('0' <= c && c <= '9') {
            assert(!is_digit(v@[i as int]));
            return None;
        }
        let d: u64 = (c as u32 - '0' as u32) as u64;
        proof {
            let next = v@.subrange(0, i + 1);
            assert(next.drop_last() =~= v@.subrange(0, i as int));
            assert(next.last() == c);
            assert forall|k: int| 0 <= k < next.len() implies is_digit(#[trigger] next[k]) by {
                if k < i {
                    assert(v@.subrange(0, i as int)[k] == next[k]);
                }
            }
            lemma_pow10_bound(i as nat);
        }
        value = value * 10 + d;
        i = i + 1;
    }
    assert(v@.subrange(0, v.len() as int) =~= v@);
    proof {
        lemma_pow10_bound(v.len() as nat);
        lemma_pow10_grows(v.len() as nat, MAX_DIGITS as nat);
    }
    Some(value)
}

/// Ten to the power of at most fifteen is at most ten to the power of
/// fifteen.
pub proof fn lemma_pow10_bound(n: nat)
    requires
        n <= MAX_DIGITS,
    ensures
        pow10(n) <= 1_000_000_000_000_000,
        pow10(n) >= 1,
{
    reveal_with_fuel(pow10, 16);
}

/// Powers of ten grow with the exponent.
pub proof fn lemma_pow10_grows(a: nat, b: nat)
    requires
        a <= b,
    ensures
        pow10(a) <= pow10(b),
    decreases b,
{
    if a < b {
        lemma_pow10_grows(a, (b - 1) as nat);
    }
}

/// Reads a decimal number.
pub fn read_decimal(text: &Vec<char>) -> (r: Option<Decimal>)
    ensures
        is_decimal(text@) ==> r == Some(decimal_of(text@)),
        !is_decimal(text@) ==> r is None,
        r matches Some(d) ==> d.places <= MAX_DIGITS && d.scaled < 1_000_000_000_000_000,
{
    let signed = text.len() > 0 && (text[0] == '-' || text[0] == '+');
    let negative = text.len() > 0 && text[0] == '-';
    let body = if signed {
        slice_chars(text, 1, text.len())
    } else {
        slice_chars(text, 0, text.len())
    };
    assert(body@ =~= unsigned_text(text@));
    let dot = find_char(&body, '.');
    let whole = slice_chars(&body, 0, dot);
    let fraction = if dot < body.len() {
        slice_chars(&body, dot + 1, body.len())
    } else {
        Vec::new()
    };
    assert(whole@ == whole_digits(text@));
    assert(fraction@ =~= fraction_digits(text@));
    if whole.len() + fraction.len() < 1 || whole.len() + fraction.len() > MAX_DIGITS {
        return None;
    }
    let mut digits = slice_chars(&whole, 0, whole.len());
    append_chars(&mut digits, &fraction);
    assert(digits@ =~= whole@ + fraction@);
    proof {
        if all_digits(whole@) && all_digits(fraction@) {
            assert forall|i: int| 0 <= i < digits@.len() implies is_digit(#[trigger] digits@[i]) by {
                if i < whole@.len() {
                    assert(digits@[i] == whole@[i]);
                } else {
                    assert(digits@[i] == fraction@[i - whole@.len()]);
                }
            }
        }
        if all_digits(digits@) {
            assert forall|i: int| 0 <= i < whole@.len() implies is_digit(#[trigger] whole@[i]) by {
                assert(digits@[i] == whole@[i]);
            }
            assert forall|i: int| 0 <= i < fraction@.len() implies is_digit(
                #[trigger] fraction@[i],
            ) by {
                assert(digits@[i + whole@.len()] == fraction@[i]);
            }
        }
    }
    match read_digits(&digits) {
        None => None,
        Some(scaled) => Some(Decimal { negative, scaled, places: fraction.len() as u8 }),
    }
}

/// Writes the number `size` divided by ten to the power of `places`, with a
/// `-` in front where `negative` is set.
fn write_decimal(negative: bool, size: u64, places: u8) -> (out: Vec<char>)
    requires
        places <= MAX_DIGITS,
        negative ==> size > 0,
    ensures
        out@ == decimal_text(
            if negative {
                -(size as int)
            } else {
                size as int
            },
            places as nat,
        ),
{
    let power = power_of_ten(places);
    let mut out: Vec<char> = Vec::new();
    if negative {
        out.push('-');
    }
    let ghost sign = out@;
    append_chars(&mut out, &decimal_chars(size / power));
    let mut fraction: u64 = size % power;
    let mut left: u8 = places;
    while left > 0 && fraction % 10 == 0
        invariant
            left <= places,
            fraction_text((size % power) as nat, places as nat) == fraction_text(
                fraction as nat,
                left as nat,
            ),
        decreases left,
    {
        fraction = fraction / 10;
        left = left - 1;
    }
    if left > 0 {
        out.push('.');
        let digits = pad_decimal(fraction, left as usize);
        append_chars(&mut out, &digits);
        assert(decimal(fraction as nat).len() >= 1);
        assert(padded(fraction as nat, left as nat).len() > 0);
        assert(out@ =~= sign + decimal((size / power) as nat) + (seq!['.'] + padded(
            fraction as nat,
            left as nat,
        )));
    } else {
        assert(out@ =~= sign + decimal((size / power) as nat) + Seq::<char>::empty());
    }
    out
}

/// Adds whole units to a number and writes the sum.
pub fn raise(d: Decimal, amount: i64) -> (out: Vec<char>)
    requires
        d.places <= MAX_DIGITS,
        d.scaled < 1_000_000_000_000_000,
        -1000 <= amount <= 1000,
    ensures
        out@ == decimal_text(
            signed_value(d) + amount * pow10(d.places as nat),
            d.places as nat,
        ),
{
    let power = power_of_ten(d.places);
    let value: i64 = if d.negative {
        -(d.scaled as i64)
    } else {
        d.scaled as i64
    };
    assert(-1000 * 1_000_000_000_000_000 <= amount * power <= 1000 * 1_000_000_000_000_000)
        by (nonlinear_arith)
        requires
            -1000 <= amount <= 1000,
            0 <= power <= 1_000_000_000_000_000,
    ;
    let sum: i64 = value + amount * (power as i64);
    if sum < 0 {
        write_decimal(true, (-sum) as u64, d.places)
    } else {
        write_decimal(false, sum as u64, d.places)
    }
}

/// `s` without every trailing copy of `suffix`.
pub open spec fn without_trailing(s: Seq<char>, suffix: Seq<char>) -> Seq<char>
    decreases s.len(),
{
    if suffix.len() > 0 && suffix.is_suffix_of(s) {
        without_trailing(s.subrange(0, s.len() - suffix.len()), suffix)
    } else {
        s
    }
}

/// The height of a padded image: a height in points grows by the padding
/// at the top; any other value stays as it is.
pub open spec fn padded_height(value: Seq<char>) -> Seq<char> {
    let number = without_trailing(value, "pt"@);
    if is_decimal(number) {
        raised(number, PADDING_TOP as int) + "pt"@
    } else {
        value
    }
}

/// The view box of a padded image: a view box of four numbers starts
/// higher by the padding at the top, and is higher by the padding at the
/// top and at the bottom; any other value stays as it is.
pub open spec fn padded_view_box(value: Seq<char>) -> Seq<char> {
    let parts = fields(value);
    if parts.len() == 4 && is_decimal(parts[0]) && is_decimal(parts[1]) && is_decimal(parts[2])
        && is_decimal(parts[3]) {
        join(
            seq![
                raised(parts[0], 0),
                raised(parts[1], -(PADDING_TOP as int)),
                raised(parts[2], 0),
                raised(parts[3], PADDING_TOP as int + PADDING_BOTTOM as int),
            ],
            ' ',
        )
    } else {
        value
    }
}

/// An attribute of a padded image.
pub open spec fn padded_attr(a: (Seq<char>, Seq<char>)) -> (Seq<char>, Seq<char>) {
    if a.0 == "height"@ {
        (a.0, padded_height(a.1))
    } else if a.0 == "viewBox"@ {
        (a.0, padded_view_box(a.1))
    } else {
        a
    }
}

/// The characters of `v` without every trailing copy of `suffix`.
fn strip_trailing(v: &Vec<char>, suffix: &Vec<char>) -> (out: Vec<char>)
    ensures
        out@ == without_trailing(v@, suffix@),
{
    if suffix.len() == 0 {
        return slice_chars(v, 0, v.len());
    }
    let mut end: usize = v.len();
    assert(v@.subrange(0, v.len() as int) =~= v@);
    loop
        invariant
            end <= v.len(),
            suffix.len() > 0,
            without_trailing(v@, suffix@) == without_trailing(v@.subrange(0, end as int), suffix@),
        decreases end,
    {
        let rest = slice_chars(v, 0, end);
        if !has_suffix(&rest, suffix) {
            return rest;
        }
        assert(rest@.subrange(0, rest.len() - suffix.len()) =~= v@.subrange(
            0,
            end - suffix.len(),
        ));
        end = end - suffix.len();
    }
}

/// Pads the height of an image.
pub fn pad_height(value: &str) -> (out: String)
    ensures
        out@ == padded_height(value@),
{
    let number = strip_trailing(&chars_of(value), &chars_of("pt"));
    match read_decimal(&number) {
        None => value.to_owned(),
        Some(d) => {
            let mut out = raise(d, 5);
            append_chars(&mut out, &chars_of("pt"));
            string_of(&out)
        },
    }
}

/// Pads the view box of an image.
pub fn pad_view_box(value: &str) -> (out: String)
    ensures
        out@ == padded_view_box(value@),
{
    let parts = fields_of(&chars_of(value));
    if parts.len() != 4 {
        return value.to_owned();
    }
    assert(views(parts@)[0] == parts@[0]@);
    assert(views(parts@)[1] == parts@[1]@);
    assert(views(parts@)[2] == parts@[2]@);
    assert(views(parts@)[3] == parts@[3]@);
    match (
        read_decimal(&parts[0]),
        read_decimal(&parts[1]),
        read_decimal(&parts[2]),
        read_decimal(&parts[3]),
    ) {
        (Some(x), Some(y), Some(width), Some(height)) => {
            let mut raised_parts: Vec<Vec<char>> = Vec::new();
            raised_parts.push(raise(x, 0));
            raised_parts.push(raise(y, -5));
            raised_parts.push(raise(width, 0));
            raised_parts.push(raise(height, 9));
            assert(views(raised_parts@) =~= seq![
                raised(parts@[0]@, 0),
                raised(parts@[1]@, -5),
                raised(parts@[2]@, 0),
                raised(parts@[3]@, 9),
            ]);
            string_of(&join_chars(&raised_parts, ' '))
        },
        _ => value.to_owned(),
    }
}

/// Pads the attributes of the start tag of an image: its height and its
/// view box.
pub fn pad_attrs(attrs: &Vec<Attr>) -> (out: Vec<Attr>)
    ensures
        attr_views(out@) == attr_views(attrs@).map_values(
            |a: (Seq<char>, Seq<char>)| padded_attr(a),
        ),
{
    let ghost want = attr_views(attrs@).map_values(|a: (Seq<char>, Seq<char>)| padded_attr(a));
    let mut out: Vec<Attr> = Vec::new();
    let mut i: usize = 0;
    while i < attrs.len()
        invariant
            i <= attrs.len(),
            want == attr_views(attrs@).map_values(|a: (Seq<char>, Seq<char>)| padded_attr(a)),
            attr_views(out@) == want.subrange(0, i as int),
        decreases attrs.len() - i,
    {
        let attr = &attrs[i];
        let value = if crate::text::same_text(attr.key.as_str(), "height") {
            pad_height(attr.value.as_str())
        } else if crate::text::same_text(attr.key.as_str(), "viewBox") {
            pad_view_box(attr.value.as_str())
        } else {
            attr.value.clone()
        };
        let ghost before = attr_views(out@);
        let changed = Attr { key: attr.key.clone(), value };
        assert(changed@ == want[i as int]);
        out.push(changed);
        assert(attr_views(out@) =~= before.push(want[i as int]));
        i = i + 1;
        assert(attr_views(out@) =~= want.subrange(0, i as int));
    }
    assert(want.subrange(0, attrs.len() as int) =~= want);
    out
}

/// The text of a lifted image as it is measured and stored: its start tag
/// with the padded attributes, and what followed it.
pub open spec fn padded_svg(attrs: Seq<(Seq<char>, Seq<char>)>, inner: Seq<char>) -> Seq<char> {
    start_markup("svg"@, attrs.map_values(|a: (Seq<char>, Seq<char>)| padded_attr(a))) + inner
}

/// Writes a lifted image with room around it.
pub fn pad_svg(svg: &RawSvg) -> (out: String)
    ensures
        out@ == padded_svg(attr_views(svg.attrs@), svg.inner@),
{
    let attrs = pad_attrs(&svg.attrs);
    let mut out = render_start("svg", &attrs);
    out.append(svg.inner.as_str());
    out
}

} // verus!
