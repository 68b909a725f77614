//! Badge rendering: human-readable sizes and download counts, character
//! widths of the badge font, the skins, and the SVG document itself.
//!
//! The widths and the decimal renderings follow binary64 arithmetic exactly
//! (see `binary64`), so the output matches a renderer that computes them with
//! double-precision values.
use vstd::prelude::*;

use crate::binary64::{
    lemma_msb_bounds, lemma_p2_add, lemma_p2_mono, lemma_p2_pos, lemma_p2_values, lemma_rhe_bounds,
    lemma_round53_at_least, lemma_round53_le_double, lemma_sum_stays_bounded, msb, p2,
    pow2, quotient, quotient_of, round53, round53_of, round_half_even,
};
use crate::text::{chars_of, decimal, padded, push_char, push_decimal, push_padded, push_str, str_eq};

verus! {

/// 10 to the power `k`.
pub open spec fn pow10(k: nat) -> nat
    decreases k,
{
    if k == 0 {
        1
    } else {
        10 * pow10((k - 1) as nat)
    }
}

/// A binary64 value `(m, s)` (see `quotient`) as a fraction `numer / denom`.
pub open spec fn numer(v: (nat, int)) -> nat {
    if v.1 >= 0 {
        v.0
    } else {
        v.0 * p2((-v.1) as nat)
    }
}

pub open spec fn denom(v: (nat, int)) -> nat {
    if v.1 >= 0 {
        p2(v.1 as nat)
    } else {
        1
    }
}

/// The value `v` is strictly below the integer `c`.
pub open spec fn below(v: (nat, int), c: nat) -> bool {
    numer(v) < c * denom(v)
}

/// The binary64 value nearest the integer `n`.
pub open spec fn from_int(n: nat) -> (nat, int) {
    (round53(n), 0)
}

/// The binary64 quotient of `v` by the integer `c`.
pub open spec fn div_int(v: (nat, int), c: nat) -> (nat, int) {
    quotient(numer(v), denom(v) * c)
}

/// `v * 10^k` rounded half to even: the digits of `v` printed with `k`
/// decimals.
pub open spec fn fixed_digits(v: (nat, int), k: nat) -> nat {
    round_half_even(numer(v) * pow10(k), denom(v))
}

/// `v` printed with exactly `k` decimals.
pub open spec fn fixed(v: (nat, int), k: nat) -> Seq<char> {
    let d = fixed_digits(v, k);
    if k == 0 {
        decimal(d)
    } else {
        decimal(d / pow10(k)) + seq!['.'] + padded(d % pow10(k), k)
    }
}

/// Human-readable size: bytes below 1000, then kB with 2, 1 or 0 decimals,
/// then MB with 1 or 0 decimals (decimal units).
pub open spec fn format_bytes_spec(bytes: nat) -> Seq<char> {
    if bytes < 1000 {
        decimal(bytes) + " B"@
    } else {
        let kb = div_int(from_int(bytes), 1000);
        if below(kb, 1000) {
            if below(kb, 10) {
                fixed(kb, 2) + " kB"@
            } else if below(kb, 100) {
                fixed(kb, 1) + " kB"@
            } else {
                fixed(kb, 0) + " kB"@
            }
        } else {
            let mb = div_int(kb, 1000);
            if below(mb, 100) {
                fixed(mb, 1) + " MB"@
            } else {
                fixed(mb, 0) + " MB"@
            }
        }
    }
}

/// Human-readable download count: millions with one decimal, thousands with
/// none, plain below a thousand.
pub open spec fn format_downloads_spec(count: nat) -> Seq<char> {
    if count >= 1_000_000 {
        fixed(div_int(from_int(count), 1_000_000), 1) + "M"@
    } else if count >= 1000 {
        fixed(div_int(from_int(count), 1000), 0) + "K"@
    } else {
        decimal(count)
    }
}

/// The values that the exec helpers below accept.
pub open spec fn small_value(v: (nat, int)) -> bool {
    v.0 <= p2(53) && -4 <= v.1 <= 52
}

fn numer_denom(v: (u64, i32)) -> (r: (u128, u128))
    requires
        small_value((v.0 as nat, v.1 as int)),
    ensures
        r.0 == numer((v.0 as nat, v.1 as int)),
        r.1 == denom((v.0 as nat, v.1 as int)),
        r.0 <= 0x200_0000_0000_0000,
        1 <= r.1 <= 0x10_0000_0000_0000,
{
    proof {
        lemma_p2_values();
    }
    if v.1 >= 0 {
        let d = pow2(v.1 as u32);
        proof {
            lemma_p2_pos(v.1 as nat);
            lemma_p2_mono(v.1 as nat, 52);
        }
        (v.0 as u128, d)
    } else {
        let k = (-v.1) as u32;
        let f = pow2(k);
        proof {
            lemma_p2_pos(k as nat);
            lemma_p2_mono(k as nat, 4);
            assert(v.0 * f <= 0x20_0000_0000_0000 * 16) by (nonlinear_arith)
                requires
                    v.0 <= 0x20_0000_0000_0000,
                    f <= 16,
            ;
        }
        ((v.0 as u128) * f, 1)
    }
}

fn below_int(v: (u64, i32), c: u128) -> (b: bool)
    requires
        small_value((v.0 as nat, v.1 as int)),
        c <= 1_000_000,
    ensures
        b == below((v.0 as nat, v.1 as int), c as nat),
{
    let (n, d) = numer_denom(v);
    assert(c * d <= 1_000_000 * 0x10_0000_0000_0000) by (nonlinear_arith)
        requires
            c <= 1_000_000,
            d <= 0x10_0000_0000_0000,
    ;
    n < c * d
}

fn div_int_of(v: (u64, i32), c: u128) -> (r: (u64, i32))
    requires
        small_value((v.0 as nat, v.1 as int)),
        1000 <= c <= 1_000_000,
        !below((v.0 as nat, v.1 as int), c as nat),
    ensures
        (r.0 as nat, r.1 as int) == div_int((v.0 as nat, v.1 as int), c as nat),
        small_value((r.0 as nat, r.1 as int)),
{
    let (n, d) = numer_denom(v);
    assert(d * c <= 0x10_0000_0000_0000 * 1_000_000 && d * c >= 1000) by (nonlinear_arith)
        requires
            1000 <= c <= 1_000_000,
            1 <= d <= 0x10_0000_0000_0000,
    ;
    proof {
        lemma_p2_values();
    }
    assert(d * c == c * d) by (nonlinear_arith);
    quotient_of(n, d * c)
}

fn from_int_div(n: u64, c: u128) -> (r: (u64, i32))
    requires
        1000 <= c <= 1_000_000,
        n >= c,
    ensures
        (r.0 as nat, r.1 as int) == div_int(from_int(n as nat), c as nat),
        small_value((r.0 as nat, r.1 as int)),
{
    let x = round53_of(n as u128);
    proof {
        lemma_p2_values();
        lemma_round53_at_least(n as nat, c as nat);
        assert(p2(0) == 1);
        assert(denom(from_int(n as nat)) == 1);
        assert(1 * c == c);
    }
    quotient_of(x, c)
}

/// Appends `v` printed with `k` decimals.
fn push_fixed(out: &mut String, v: (u64, i32), k: u32)
    requires
        small_value((v.0 as nat, v.1 as int)),
        k <= 2,
    ensures
        final(out)@ == old(out)@ + fixed((v.0 as nat, v.1 as int), k as nat),
{
    let (n, d) = numer_denom(v);
    let scale: u128 = if k == 0 {
        1
    } else if k == 1 {
        10
    } else {
        100
    };
    assert(scale == pow10(k as nat)) by {
        reveal_with_fuel(pow10, 3);
    }
    let digits = crate::binary64::round_half_even_of(n * scale, d);
    if k == 0 {
        push_decimal(out, digits);
    } else {
        proof {
            lemma_rhe_bounds((n * scale) as nat, d as nat);
        }
        push_decimal(out, digits / scale);
        push_char(out, '.');
        push_padded(out, (digits % scale) as u64, k as usize);
    }
    assert(final(out)@ =~= old(out)@ + fixed((v.0 as nat, v.1 as int), k as nat));
}

/// Human-readable size of `bytes` (see `format_bytes_spec`).
pub fn format_bytes(bytes: u64) -> (s: String)
    ensures
        s@ == format_bytes_spec(bytes as nat),
{
    let mut out = String::new();
    if bytes < 1000 {
        push_decimal(&mut out, bytes as u128);
        push_str(&mut out, " B");
        return out;
    }
    let kb = from_int_div(bytes, 1000);
    if below_int(kb, 1000) {
        if below_int(kb, 10) {
            push_fixed(&mut out, kb, 2);
        } else if below_int(kb, 100) {
            push_fixed(&mut out, kb, 1);
        } else {
            push_fixed(&mut out, kb, 0);
        }
        push_str(&mut out, " kB");
    } else {
        let mb = div_int_of(kb, 1000);
        if below_int(mb, 100) {
            push_fixed(&mut out, mb, 1);
        } else {
            push_fixed(&mut out, mb, 0);
        }
        push_str(&mut out, " MB");
    }
    out
}

/// Human-readable download count (see `format_downloads_spec`).
pub fn format_downloads(count: u64) -> (s: String)
    ensures
        s@ == format_downloads_spec(count as nat),
{
    let mut out = String::new();
    if count >= 1_000_000 {
        let v = from_int_div(count, 1_000_000);
        push_fixed(&mut out, v, 1);
        push_str(&mut out, "M");
    } else if count >= 1000 {
        let v = from_int_div(count, 1000);
        push_fixed(&mut out, v, 0);
        push_str(&mut out, "K");
    } else {
        push_decimal(&mut out, count as u128);
    }
    out
}


// ---------------------------------------------------------------------------
// Character widths of the badge font (Verdana 11px), in tenths of a pixel.
// ---------------------------------------------------------------------------

/// Width of `c` in tenths of a pixel.
pub open spec fn char_tenths(c: char) -> nat {
    if c == ' ' {
        33
    } else if c == 'f' || c == 'i' || c == 'j' || c == 'l' || c == 't' {
        40
    } else if c == 'r' {
        44
    } else if c == '!' || c == '(' || c == ')' || c == '[' || c == ']' || c == '{' || c == '}'
        || c == '|' {
        36
    } else if c == '1' {
        55
    } else if c == '.' || c == ',' || c == ':' || c == ';' {
        33
    } else if c == '-' {
        44
    } else if c == 'a' || c == 'c' || c == 'e' || c == 'g' || c == 'o' || c == 's' || c == 'z' {
        62
    } else if c == 'b' || c == 'd' || c == 'h' || c == 'k' || c == 'n' || c == 'p' || c == 'q'
        || c == 'u' || c == 'v' || c == 'x' || c == 'y' {
        65
    } else if c == 'w' {
        91
    } else if c == 'm' {
        97
    } else if c == '0' || ('2' <= c && c <= '9') {
        65
    } else if ('A' <= c && c <= 'N') || ('P' <= c && c <= 'V') || ('X' <= c && c <= 'Z') {
        75
    } else if c == 'W' {
        104
    } else {
        70
    }
}

/// Width of `c` in tenths of a pixel (see `char_tenths`).
pub fn char_width_tenths(c: char) -> (t: u8)
    ensures
        t == char_tenths(c),
{
    match c {
        ' ' => 33,
        'f' | 'i' | 'j' | 'l' | 't' => 40,
        'r' => 44,
        '!' | '(' | ')' | '[' | ']' | '{' | '}' | '|' => 36,
        '1' => 55,
        '.' | ',' | ':' | ';' => 33,
        '-' => 44,
        'a' | 'c' | 'e' | 'g' | 'o' | 's' | 'z' => 62,
        'b' | 'd' | 'h' | 'k' | 'n' | 'p' | 'q' | 'u' | 'v' | 'x' | 'y' => 65,
        'w' => 91,
        'm' => 97,
        '0' | '2'..='9' => 65,
        'A'..='N' | 'P'..='V' | 'X'..='Z' => 75,
        'W' => 104,
        _ => 70,
    }
}

/// The binary64 width of `c` (the double nearest `char_tenths(c) / 10`),
/// counted in units of `2^-51` pixel.
pub open spec fn char_units(c: char) -> nat {
    let v = quotient(char_tenths(c), 10);
    v.0 * p2((51 - v.1) as nat)
}

/// Running binary64 sum of the character widths of `s`, left to right,
/// in units of `2^-51` pixel.
pub open spec fn width_sum(s: Seq<char>) -> nat
    decreases s.len(),
{
    if s.len() == 0 {
        0
    } else {
        round53(width_sum(s.drop_last()) + char_units(s.last()))
    }
}

/// Width in pixels of the box around text `s`: its text width plus 10px
/// padding on each side, rounded up to a whole pixel.
pub open spec fn box_width(s: Seq<char>) -> nat {
    let w = round53(width_sum(s) + 20 * p2(51));
    ((w + p2(51) - 1) as nat) / p2(51)
}

fn char_units_of(c: char) -> (u: u128)
    ensures
        u == char_units(c),
        u <= p2(55),
{
    let t = char_width_tenths(c);
    let v = quotient_of(t as u128, 10);
    proof {
        let d = (t / 10) as nat;
        assert(3 <= d <= 10);
        lemma_msb_bounds(d);
        lemma_p2_values();
        if msb(d) == 0 {
        }
        if msb(d) >= 4 {
            lemma_p2_mono(4, msb(d));
        }
        assert(1 <= msb(d) <= 3);
    }
    let f = pow2((51 - v.1) as u32);
    proof {
        lemma_p2_mono((51 - v.1) as nat, 2);
        lemma_p2_values();
        assert(v.0 * f <= 0x20_0000_0000_0000 * 4) by (nonlinear_arith)
            requires
                v.0 <= 0x20_0000_0000_0000,
                f <= 4,
        ;
    }
    (v.0 as u128) * f
}

/// `width_sum` of `v[0..n]`, kept below `2^111` by `lemma_sum_stays_bounded`.
fn width_sum_of(v: &Vec<char>) -> (w: u128)
    ensures
        w == width_sum(v@),
        w <= p2(111),
{
    let mut w: u128 = 0;
    let mut i: usize = 0;
    proof {
        lemma_p2_values();
        lemma_p2_add(110, 1);
        assert(v@.take(0) =~= Seq::<char>::empty());
    }
    while i < v.len()
        invariant
            i <= v.len(),
            w == width_sum(v@.take(i as int)),
            w <= p2(111),
            round53(w as nat) == w,
            p2(111) == 0x8000_0000_0000_0000_0000_0000_0000,
            p2(55) == 0x80_0000_0000_0000,
        decreases v.len() - i,
    {
        let u = char_units_of(v[i]);
        proof {
            lemma_sum_stays_bounded(w as nat, u as nat, 111, 55);
            assert(v@.take(i + 1).drop_last() =~= v@.take(i as int));
            lemma_round53_le_double((w + u) as nat);
        }
        w = round53_of(w + u);
        i = i + 1;
    }
    assert(v@.take(v.len() as int) =~= v@);
    w
}

/// `box_width` of the characters `v`.
pub fn box_width_of(v: &Vec<char>) -> (b: u64)
    ensures
        b == box_width(v@),
        b <= 0x8000_0000_0000_0000,
{
    let w = width_sum_of(v);
    let unit = pow2(51);
    proof {
        lemma_p2_values();
        lemma_p2_add(110, 1);
        lemma_round53_le_double((w + 20 * unit) as nat);
    }
    let r = round53_of(w + 20 * unit);
    let b = (r + unit - 1) / unit;
    assert(b <= 0x8000_0000_0000_0000);
    b as u64
}


// ---------------------------------------------------------------------------
// XML escaping
// ---------------------------------------------------------------------------

/// The escape of one character: the four markup characters become entities.
pub open spec fn escape_char(c: char) -> Seq<char> {
    if c == '&' {
        seq!['&', 'a', 'm', 'p', ';']
    } else if c == '<' {
        seq!['&', 'l', 't', ';']
    } else if c == '>' {
        seq!['&', 'g', 't', ';']
    } else if c == '"' {
        seq!['&', 'q', 'u', 'o', 't', ';']
    } else {
        seq![c]
    }
}

/// `s` with `&`, `<`, `>` and `"` replaced by their XML entities.
pub open spec fn xml_escape_spec(s: Seq<char>) -> Seq<char>
    decreases s.len(),
{
    if s.len() == 0 {
        Seq::empty()
    } else {
        xml_escape_spec(s.drop_last()) + escape_char(s.last())
    }
}

/// Appends the escape of `v`.
fn push_escaped(out: &mut String, v: &Vec<char>)
    ensures
        final(out)@ == old(out)@ + xml_escape_spec(v@),
{
    let mut i: usize = 0;
    assert(v@.take(0) =~= Seq::<char>::empty());
    while i < v.len()
        invariant
            i <= v.len(),
            out@ == old(out)@ + xml_escape_spec(v@.take(i as int)),
        decreases v.len() - i,
    {
        let c = v[i];
        let ghost before = out@;
        if c == '&' {
            push_char(out, '&');
            push_char(out, 'a');
            push_char(out, 'm');
            push_char(out, 'p');
            push_char(out, ';');
        } else if c == '<' {
            push_char(out, '&');
            push_char(out, 'l');
            push_char(out, 't');
            push_char(out, ';');
        } else if c == '>' {
            push_char(out, '&');
            push_char(out, 'g');
            push_char(out, 't');
            push_char(out, ';');
        } else if c == '"' {
            push_char(out, '&');
            push_char(out, 'q');
            push_char(out, 'u');
            push_char(out, 'o');
            push_char(out, 't');
            push_char(out, ';');
        } else {
            push_char(out, c);
        }
        assert(out@ =~= before + escape_char(c));
        assert(v@.take(i + 1).drop_last() =~= v@.take(i as int));
        i = i + 1;
    }
    assert(v@.take(v.len() as int) =~= v@);
}

/// `s` with the XML markup characters `&`, `<`, `>`, `"` escaped.
pub fn xml_escape(s: &str) -> (r: String)
    ensures
        r@ == xml_escape_spec(s@),
{
    let v = chars_of(s);
    let mut out = String::new();
    push_escaped(&mut out, &v);
    out
}


// ---------------------------------------------------------------------------
// Skins
// ---------------------------------------------------------------------------

/// Colours, font and geometry of a badge style.
pub struct Skin {
    pub label_bg: &'static str,
    pub label_fg: &'static str,
    pub value_fg: &'static str,
    pub font: &'static str,
    pub font_size: u32,
    pub height: u32,
    pub radius: u32,
    pub shadow: bool,
}

/// A `Skin` with its texts as character sequences.
pub struct SkinView {
    pub label_bg: Seq<char>,
    pub label_fg: Seq<char>,
    pub value_fg: Seq<char>,
    pub font: Seq<char>,
    pub font_size: u32,
    pub height: u32,
    pub radius: u32,
    pub shadow: bool,
}

impl View for Skin {
    type V = SkinView;

    open spec fn view(&self) -> SkinView {
        SkinView {
            label_bg: self.label_bg@,
            label_fg: self.label_fg@,
            value_fg: self.value_fg@,
            font: self.font@,
            font_size: self.font_size,
            height: self.height,
            radius: self.radius,
            shadow: self.shadow,
        }
    }
}

/// The skin named `name`; any unknown name is the default "flat" skin.
pub open spec fn skin_spec(name: Seq<char>) -> SkinView {
    if name == "flat-square"@ {
        SkinView {
            label_bg: "#555"@,
            label_fg: "#fff"@,
            value_fg: "#fff"@,
            font: "Verdana,Geneva,DejaVu Sans,sans-serif"@,
            font_size: 11,
            height: 20,
            radius: 0,
            shadow: false,
        }
    } else if name == "neon"@ {
        SkinView {
            label_bg: "#0d0d0d"@,
            label_fg: "#aaa"@,
            value_fg: "#fff"@,
            font: "Verdana,Geneva,DejaVu Sans,sans-serif"@,
            font_size: 11,
            height: 20,
            radius: 4,
            shadow: true,
        }
    } else if name == "terminal"@ {
        SkinView {
            label_bg: "#0a0a0a"@,
            label_fg: "#33ff33"@,
            value_fg: "#33ff33"@,
            font: "'Courier New',Courier,monospace"@,
            font_size: 11,
            height: 20,
            radius: 0,
            shadow: false,
        }
    } else if name == "minimal"@ {
        SkinView {
            label_bg: "#eee"@,
            label_fg: "#555"@,
            value_fg: "#333"@,
            font: "Verdana,Geneva,DejaVu Sans,sans-serif"@,
            font_size: 10,
            height: 18,
            radius: 2,
            shadow: false,
        }
    } else if name == "retro"@ {
        SkinView {
            label_bg: "#888"@,
            label_fg: "#fff"@,
            value_fg: "#fff"@,
            font: "Verdana,Geneva,DejaVu Sans,sans-serif"@,
            font_size: 11,
            height: 20,
            radius: 2,
            shadow: false,
        }
    } else {
        SkinView {
            label_bg: "#555"@,
            label_fg: "#fff"@,
            value_fg: "#fff"@,
            font: "Verdana,Geneva,DejaVu Sans,sans-serif"@,
            font_size: 11,
            height: 20,
            radius: 3,
            shadow: true,
        }
    }
}

/// The skin named `name` (see `skin_spec`).
pub fn skin(name: &str) -> (s: Skin)
    ensures
        s@ == skin_spec(name@),
        s.height <= 20,
{
    if str_eq(name, "flat-square") {
        Skin {
            label_bg: "#555",
            label_fg: "#fff",
            value_fg: "#fff",
            font: "Verdana,Geneva,DejaVu Sans,sans-serif",
            font_size: 11,
            height: 20,
            radius: 0,
            shadow: false,
        }
    } else if str_eq(name, "neon") {
        Skin {
            label_bg: "#0d0d0d",
            label_fg: "#aaa",
            value_fg: "#fff",
            font: "Verdana,Geneva,DejaVu Sans,sans-serif",
            font_size: 11,
            height: 20,
            radius: 4,
            shadow: true,
        }
    } else if str_eq(name, "terminal") {
        Skin {
            label_bg: "#0a0a0a",
            label_fg: "#33ff33",
            value_fg: "#33ff33",
            font: "'Courier New',Courier,monospace",
            font_size: 11,
            height: 20,
            radius: 0,
            shadow: false,
        }
    } else if str_eq(name, "minimal") {
        Skin {
            label_bg: "#eee",
            label_fg: "#555",
            value_fg: "#333",
            font: "Verdana,Geneva,DejaVu Sans,sans-serif",
            font_size: 10,
            height: 18,
            radius: 2,
            shadow: false,
        }
    } else if str_eq(name, "retro") {
        Skin {
            label_bg: "#888",
            label_fg: "#fff",
            value_fg: "#fff",
            font: "Verdana,Geneva,DejaVu Sans,sans-serif",
            font_size: 11,
            height: 20,
            radius: 2,
            shadow: false,
        }
    } else {
        Skin {
            label_bg: "#555",
            label_fg: "#fff",
            value_fg: "#fff",
            font: "Verdana,Geneva,DejaVu Sans,sans-serif",
            font_size: 11,
            height: 20,
            radius: 3,
            shadow: true,
        }
    }
}


// ---------------------------------------------------------------------------
// Renderer
// ---------------------------------------------------------------------------

/// One label/value pair of a badge and the colour of its value box.
pub struct BadgeSegment<'a> {
    pub label: &'a str,
    pub value: &'a str,
    pub color: &'a str,
}

/// A badge segment as character sequences.
pub struct SegmentView {
    pub label: Seq<char>,
    pub value: Seq<char>,
    pub color: Seq<char>,
}

impl<'a> View for BadgeSegment<'a> {
    type V = SegmentView;

    open spec fn view(&self) -> SegmentView {
        SegmentView { label: self.label@, value: self.value@, color: self.color@ }
    }
}

/// The views of a sequence of segments.
pub open spec fn seg_views(segs: Seq<BadgeSegment>) -> Seq<SegmentView> {
    segs.map_values(|b: BadgeSegment| b@)
}

/// A non-negative whole number converted to `u32` the way a saturating
/// float-to-int cast does.
pub open spec fn sat32(v: nat) -> nat {
    if v > 0xffff_ffff {
        0xffff_ffff
    } else {
        v
    }
}

/// The text baseline: `height * 0.7` in binary64 (the double nearest 0.7 is
/// `6305039478318694 / 2^53`), rounded half away from zero.
pub open spec fn text_baseline(height: nat) -> nat {
    (round53(height * 6305039478318694) + p2(52)) / p2(53)
}

/// Width of the label box of `seg`.
pub open spec fn label_width(seg: SegmentView) -> nat {
    box_width(seg.label)
}

/// Width of the value box of `seg`.
pub open spec fn value_width(seg: SegmentView) -> nat {
    box_width(seg.value)
}

/// Horizontal space that `seg` takes.
pub open spec fn advance(seg: SegmentView) -> nat {
    round53(label_width(seg) + value_width(seg))
}

/// Left edge of segment `i`: the running binary64 sum of the advances of
/// the segments before it.  `offset(segs, segs.len())` is the badge width.
pub open spec fn offset(segs: Seq<SegmentView>, i: nat) -> nat
    decreases i,
{
    if i == 0 {
        0
    } else {
        round53(offset(segs, (i - 1) as nat) + advance(segs[i - 1]))
    }
}

/// Left edge of the value box of a segment at `x` with label width `lw`.
pub open spec fn value_start(x: nat, lw: nat) -> nat {
    round53(x + lw)
}

/// Centre of the label text: `x + lw / 2` in binary64 (counted in half
/// pixels), rounded half away from zero.
pub open spec fn label_center(x: nat, lw: nat) -> nat {
    sat32((round53(2 * x + lw) + 1) / 2)
}

/// Centre of the value text.
pub open spec fn value_center(x: nat, lw: nat, vw: nat) -> nat {
    sat32((round53(2 * value_start(x, lw) + vw) + 1) / 2)
}

/// `<rect x=".." width=".." height=".." fill=".."/>`
pub open spec fn rect_el(x: nat, width: nat, height: nat, fill: Seq<char>) -> Seq<char> {
    "<rect x=\""@ + decimal(x) + "\" width=\""@ + decimal(width) + "\" height=\""@ + decimal(height)
        + "\" fill=\""@ + fill + "\"/>"@
}

/// The paint of a drop-shadow text.
pub open spec fn shadow_paint() -> Seq<char> {
    "fill=\"#010101\" fill-opacity=\".3\""@
}

/// The paint of a foreground text of colour `fg`.
pub open spec fn fg_paint(fg: Seq<char>) -> Seq<char> {
    "fill=\""@ + fg + "\""@
}

/// `<text x=".." y=".." PAINT>BODY</text>`
pub open spec fn text_el(x: nat, y: nat, paint: Seq<char>, body: Seq<char>) -> Seq<char> {
    "<text x=\""@ + decimal(x) + "\" y=\""@ + decimal(y) + "\" "@ + paint + ">"@ + body + "</text>"@
}

/// The boxes of segment `i`: label box, value box, and a separator line
/// before every segment but the first.
#[verifier::opaque]
pub open spec fn seg_rects(segs: Seq<SegmentView>, i: nat, sk: SkinView) -> Seq<char> {
    let seg = segs[i as int];
    let x = offset(segs, i);
    let lw = label_width(seg);
    let vw = value_width(seg);
    let h = sk.height as nat;
    rect_el(sat32(x), sat32(lw), h, sk.label_bg) + rect_el(
        sat32(value_start(x, lw)),
        sat32(vw),
        h,
        seg.color,
    ) + if i > 0 {
        rect_el(sat32(x), 1, h, "#ffffff22"@)
    } else {
        Seq::empty()
    }
}

/// The texts of segment `i`: shadows when the skin has them, then the
/// label and the value, both escaped.
#[verifier::opaque]
pub open spec fn seg_texts(segs: Seq<SegmentView>, i: nat, sk: SkinView) -> Seq<char> {
    let seg = segs[i as int];
    let x = offset(segs, i);
    let lw = label_width(seg);
    let vw = value_width(seg);
    let lx = label_center(x, lw);
    let vx = value_center(x, lw, vw);
    let ty = text_baseline(sk.height as nat);
    let label = xml_escape_spec(seg.label);
    let value = xml_escape_spec(seg.value);
    (if sk.shadow {
        text_el(lx, ty + 1, shadow_paint(), label) + text_el(vx, ty + 1, shadow_paint(), value)
    } else {
        Seq::empty()
    }) + text_el(lx, ty, fg_paint(sk.label_fg), label) + text_el(vx, ty, fg_paint(sk.value_fg), value)
}

pub open spec fn rects_upto(segs: Seq<SegmentView>, n: nat, sk: SkinView) -> Seq<char>
    decreases n,
{
    if n == 0 {
        Seq::empty()
    } else {
        rects_upto(segs, (n - 1) as nat, sk) + seg_rects(segs, (n - 1) as nat, sk)
    }
}

pub open spec fn texts_upto(segs: Seq<SegmentView>, n: nat, sk: SkinView) -> Seq<char>
    decreases n,
{
    if n == 0 {
        Seq::empty()
    } else {
        texts_upto(segs, (n - 1) as nat, sk) + seg_texts(segs, (n - 1) as nat, sk)
    }
}

/// `label: value` of one segment.
pub open spec fn aria_item(seg: SegmentView) -> Seq<char> {
    seg.label + ": "@ + seg.value
}

/// The items of the first `n` segments joined by `", "`.
pub open spec fn aria_upto(segs: Seq<SegmentView>, n: nat) -> Seq<char>
    decreases n,
{
    if n == 0 {
        Seq::empty()
    } else if n == 1 {
        aria_item(segs[0])
    } else {
        aria_upto(segs, (n - 1) as nat) + ", "@ + aria_item(segs[n - 1])
    }
}

pub open spec fn glow_filter() -> Seq<char> {
    "<filter id=\"glow\"><feGaussianBlur stdDeviation=\"1.5\" result=\"blur\"/><feMerge><feMergeNode in=\"blur\"/><feMergeNode in=\"SourceGraphic\"/></feMerge></filter>"@
}

pub open spec fn shine_gradient() -> Seq<char> {
    "<linearGradient id=\"s\" x2=\"0\" y2=\"100%\"><stop offset=\"0\" stop-color=\"#bbb\" stop-opacity=\".1\"/><stop offset=\"1\" stop-opacity=\".1\"/></linearGradient>"@
}

/// The rounded-corner clip path, for skins with a radius.
pub open spec fn clip_def(width: nat, sk: SkinView) -> Seq<char> {
    if sk.radius > 0 {
        "<clipPath id=\"r\"><rect width=\""@ + decimal(width) + "\" height=\""@ + decimal(
            sk.height as nat,
        ) + "\" rx=\""@ + decimal(sk.radius as nat) + "\" fill=\"#fff\"/></clipPath>"@
    } else {
        Seq::empty()
    }
}

pub open spec fn clip_attr(sk: SkinView) -> Seq<char> {
    if sk.radius > 0 {
        " clip-path=\"url(#r)\""@
    } else {
        Seq::empty()
    }
}

/// The glow filter, for the neon skin.
pub open spec fn filter_def(neon: bool) -> Seq<char> {
    if neon {
        glow_filter()
    } else {
        Seq::empty()
    }
}

pub open spec fn filter_attr(neon: bool) -> Seq<char> {
    if neon {
        " filter=\"url(#glow)\""@
    } else {
        Seq::empty()
    }
}

/// The gradient overlay, for skins with a shadow.
pub open spec fn gradient_def(sk: SkinView) -> Seq<char> {
    if sk.shadow {
        shine_gradient()
    } else {
        Seq::empty()
    }
}

pub open spec fn gradient_rect(width: nat, sk: SkinView) -> Seq<char> {
    if sk.shadow {
        "<rect width=\""@ + decimal(width) + "\" height=\""@ + decimal(sk.height as nat)
            + "\" fill=\"url(#s)\"/>"@
    } else {
        Seq::empty()
    }
}

/// The opening `svg` tag and the title.
pub open spec fn svg_head(width: nat, sk: SkinView, aria: Seq<char>) -> Seq<char> {
    "<svg xmlns=\"http://www.w3.org/2000/svg\" width=\""@ + decimal(width) + "\" height=\""@
        + decimal(sk.height as nat) + "\" role=\"img\" aria-label=\""@ + aria + "\"><title>"@
        + aria + "</title>"@
}

/// The attributes of the text group.
pub open spec fn text_group_attrs(sk: SkinView) -> Seq<char> {
    " text-anchor=\"middle\" font-family=\""@ + sk.font
        + "\" text-rendering=\"geometricPrecision\" font-size=\""@ + decimal(sk.font_size as nat)
        + "\">"@
}

/// The SVG document of a badge `width` pixels wide in skin `sk`, with the
/// glow filter when `neon`, the escaped accessible label `aria`, and the
/// boxes `rects` and texts `texts` of its segments.
#[verifier::opaque]
pub open spec fn document(
    width: nat,
    sk: SkinView,
    neon: bool,
    aria: Seq<char>,
    rects: Seq<char>,
    texts: Seq<char>,
) -> Seq<char> {
    svg_head(width, sk, aria) + "<defs>"@ + gradient_def(sk) + clip_def(width, sk) + filter_def(neon)
        + "</defs><g"@ + clip_attr(sk) + ">"@ + rects + gradient_rect(width, sk) + "</g><g"@
        + filter_attr(neon) + text_group_attrs(sk) + texts + "</g></svg>"@
}

/// The SVG document of a badge made of `segs` in the skin `name`.
pub open spec fn render_spec(segs: Seq<SegmentView>, name: Seq<char>) -> Seq<char> {
    let sk = skin_spec(name);
    document(
        sat32(offset(segs, segs.len())),
        sk,
        name == "neon"@,
        xml_escape_spec(aria_upto(segs, segs.len())),
        rects_upto(segs, segs.len(), sk),
        texts_upto(segs, segs.len(), sk),
    )
}

fn sat32_of(v: u128) -> (r: u32)
    ensures
        r == sat32(v as nat),
{
    if v > 0xffff_ffff {
        0xffff_ffff
    } else {
        v as u32
    }
}

fn push_rect(out: &mut String, x: u32, width: u32, height: u32, fill: &str)
    ensures
        final(out)@ == old(out)@ + rect_el(x as nat, width as nat, height as nat, fill@),
{
    push_str(out, "<rect x=\"");
    push_decimal(out, x as u128);
    push_str(out, "\" width=\"");
    push_decimal(out, width as u128);
    push_str(out, "\" height=\"");
    push_decimal(out, height as u128);
    push_str(out, "\" fill=\"");
    push_str(out, fill);
    push_str(out, "\"/>");
    assert(final(out)@ =~= old(out)@ + rect_el(x as nat, width as nat, height as nat, fill@));
}

fn push_text(out: &mut String, x: u32, y: u32, fg: Option<&str>, body: &str)
    ensures
        final(out)@ == old(out)@ + text_el(
            x as nat,
            y as nat,
            match fg {
                Some(c) => fg_paint(c@),
                None => shadow_paint(),
            },
            body@,
        ),
{
    push_str(out, "<text x=\"");
    push_decimal(out, x as u128);
    push_str(out, "\" y=\"");
    push_decimal(out, y as u128);
    push_str(out, "\" ");
    match fg {
        Some(c) => {
            push_str(out, "fill=\"");
            push_str(out, c);
            push_str(out, "\"");
        },
        None => {
            push_str(out, "fill=\"#010101\" fill-opacity=\".3\"");
        },
    }
    push_str(out, ">");
    push_str(out, body);
    push_str(out, "</text>");
    assert(final(out)@ =~= old(out)@ + text_el(
        x as nat,
        y as nat,
        match fg {
            Some(c) => fg_paint(c@),
            None => shadow_paint(),
        },
        body@,
    ));
}

fn baseline_of(height: u32) -> (r: u32)
    requires
        height <= 100,
    ensures
        r == text_baseline(height as nat),
        r <= 200,
{
    proof {
        lemma_p2_values();
        lemma_round53_le_double(height as nat * 6305039478318694);
    }
    let t = round53_of(height as u128 * 6305039478318694);
    let r = (t + 0x10_0000_0000_0000) / 0x20_0000_0000_0000;
    assert(r <= 200);
    r as u32
}

fn push_svg_head(out: &mut String, tw: u32, s: &Skin, aria: &str)
    ensures
        final(out)@ == old(out)@ + svg_head(tw as nat, s@, aria@),
{
    push_str(out, "<svg xmlns=\"http://www.w3.org/2000/svg\" width=\"");
    push_decimal(out, tw as u128);
    push_str(out, "\" height=\"");
    push_decimal(out, s.height as u128);
    push_str(out, "\" role=\"img\" aria-label=\"");
    push_str(out, aria);
    push_str(out, "\"><title>");
    push_str(out, aria);
    push_str(out, "</title>");
    assert(final(out)@ =~= old(out)@ + svg_head(tw as nat, s@, aria@));
}

fn push_defs(out: &mut String, tw: u32, s: &Skin, neon: bool)
    ensures
        final(out)@ == old(out)@ + gradient_def(s@) + clip_def(tw as nat, s@) + filter_def(neon),
{
    if s.shadow {
        push_str(out, "<linearGradient id=\"s\" x2=\"0\" y2=\"100%\"><stop offset=\"0\" stop-color=\"#bbb\" stop-opacity=\".1\"/><stop offset=\"1\" stop-opacity=\".1\"/></linearGradient>");
    }
    let ghost mid = out@;
    if s.radius > 0 {
        push_str(out, "<clipPath id=\"r\"><rect width=\"");
        push_decimal(out, tw as u128);
        push_str(out, "\" height=\"");
        push_decimal(out, s.height as u128);
        push_str(out, "\" rx=\"");
        push_decimal(out, s.radius as u128);
        push_str(out, "\" fill=\"#fff\"/></clipPath>");
    }
    assert(out@ =~= mid + clip_def(tw as nat, s@));
    if neon {
        push_str(out, "<filter id=\"glow\"><feGaussianBlur stdDeviation=\"1.5\" result=\"blur\"/><feMerge><feMergeNode in=\"blur\"/><feMergeNode in=\"SourceGraphic\"/></feMerge></filter>");
    }
    assert(final(out)@ =~= old(out)@ + gradient_def(s@) + clip_def(tw as nat, s@) + filter_def(neon));
}

fn push_gradient_rect(out: &mut String, tw: u32, s: &Skin)
    ensures
        final(out)@ == old(out)@ + gradient_rect(tw as nat, s@),
{
    if s.shadow {
        push_str(out, "<rect width=\"");
        push_decimal(out, tw as u128);
        push_str(out, "\" height=\"");
        push_decimal(out, s.height as u128);
        push_str(out, "\" fill=\"url(#s)\"/>");
    }
    assert(final(out)@ =~= old(out)@ + gradient_rect(tw as nat, s@));
}

fn push_text_group_attrs(out: &mut String, s: &Skin)
    ensures
        final(out)@ == old(out)@ + text_group_attrs(s@),
{
    push_str(out, " text-anchor=\"middle\" font-family=\"");
    push_str(out, s.font);
    push_str(out, "\" text-rendering=\"geometricPrecision\" font-size=\"");
    push_decimal(out, s.font_size as u128);
    push_str(out, "\">");
    assert(final(out)@ =~= old(out)@ + text_group_attrs(s@));
}

/// The whole document around the segment boxes and texts.
fn assemble(tw: u32, s: &Skin, neon: bool, aria: &str, rects: &str, texts: &str) -> (out: String)
    ensures
        out@ == document(tw as nat, s@, neon, aria@, rects@, texts@),
{
    let mut out = String::new();
    push_svg_head(&mut out, tw, s, aria);
    push_str(&mut out, "<defs>");
    push_defs(&mut out, tw, s, neon);
    push_str(&mut out, "</defs><g");
    if s.radius > 0 {
        push_str(&mut out, " clip-path=\"url(#r)\"");
    }
    push_str(&mut out, ">");
    push_str(&mut out, rects);
    push_gradient_rect(&mut out, tw, s);
    push_str(&mut out, "</g><g");
    if neon {
        push_str(&mut out, " filter=\"url(#glow)\"");
    }
    push_text_group_attrs(&mut out, s);
    push_str(&mut out, texts);
    push_str(&mut out, "</g></svg>");
    assert(out@ =~= document(tw as nat, s@, neon, aria@, rects@, texts@)) by {
        reveal(document);
    }
    out
}

/// Appends the boxes and texts of segment `i`, which starts at `x`.
fn push_segment(
    rects: &mut String,
    texts: &mut String,
    segments: &[BadgeSegment<'_>],
    i: usize,
    x: u128,
    s: &Skin,
    text_y: u32,
) -> (adv: u128)
    requires
        i < segments.len(),
        x == offset(seg_views(segments@), i as nat),
        x <= p2(121),
        p2(121) == 0x200_0000_0000_0000_0000_0000_0000_0000,
        s.height <= 20,
        text_y == text_baseline(s.height as nat),
        text_y <= 200,
    ensures
        final(rects)@ == old(rects)@ + seg_rects(seg_views(segments@), i as nat, s@),
        final(texts)@ == old(texts)@ + seg_texts(seg_views(segments@), i as nat, s@),
        adv == advance(seg_views(segments@)[i as int]),
        adv <= 0x2_0000_0000_0000_0000,
{
    let seg = &segments[i];
    let lw = box_width_of(&chars_of(seg.label)) as u128;
    let vw = box_width_of(&chars_of(seg.value)) as u128;
    proof {
        lemma_round53_le_double((x + lw) as nat);
        lemma_round53_le_double((2 * x + lw) as nat);
    }
    let vs = round53_of(x + lw);
    proof {
        lemma_round53_le_double((2 * vs + vw) as nat);
    }
    let lx = sat32_of((round53_of(2 * x + lw) + 1) / 2);
    let vx = sat32_of((round53_of(2 * vs + vw) + 1) / 2);
    let xs = sat32_of(x);
    let h = s.height;
    push_rect(rects, xs, sat32_of(lw), h, s.label_bg);
    push_rect(rects, sat32_of(vs), sat32_of(vw), h, seg.color);
    if i > 0 {
        push_rect(rects, xs, 1, h, "#ffffff22");
    }
    assert(final(rects)@ =~= old(rects)@ + seg_rects(seg_views(segments@), i as nat, s@)) by {
        reveal(seg_rects);
    }
    let label = xml_escape(seg.label);
    let value = xml_escape(seg.value);
    if s.shadow {
        push_text(texts, lx, text_y + 1, None, label.as_str());
        push_text(texts, vx, text_y + 1, None, value.as_str());
    }
    push_text(texts, lx, text_y, Some(s.label_fg), label.as_str());
    push_text(texts, vx, text_y, Some(s.value_fg), value.as_str());
    assert(final(texts)@ =~= old(texts)@ + seg_texts(seg_views(segments@), i as nat, s@)) by {
        reveal(seg_texts);
    }
    proof {
        lemma_round53_le_double((lw + vw) as nat);
    }
    round53_of(lw + vw)
}

/// The SVG document of a badge made of `segments` in the skin `skin_name`
/// (see `render_spec`).
pub fn render(segments: &[BadgeSegment<'_>], skin_name: &str) -> (svg: String)
    ensures
        svg@ == render_spec(seg_views(segments@), skin_name@),
{
    let s = skin(skin_name);
    let h = s.height;
    let text_y = baseline_of(h);
    let mut rects = String::new();
    let mut texts = String::new();
    let mut aria = String::new();
    let mut x: u128 = 0;
    let mut i: usize = 0;
    proof {
        lemma_p2_values();
        lemma_p2_add(64, 57);
        lemma_p2_add(64, 1);
    }
    while i < segments.len()
        invariant
            i <= segments.len(),
            s@ == skin_spec(skin_name@),
            h == s.height,
            h <= 20,
            text_y == text_baseline(h as nat),
            text_y <= 200,
            x == offset(seg_views(segments@), i as nat),
            x <= p2(121),
            round53(x as nat) == x,
            p2(121) == 0x200_0000_0000_0000_0000_0000_0000_0000,
            p2(65) == 0x2_0000_0000_0000_0000,
            rects@ == rects_upto(seg_views(segments@), i as nat, s@),
            texts@ == texts_upto(seg_views(segments@), i as nat, s@),
            aria@ == aria_upto(seg_views(segments@), i as nat),
        decreases segments.len() - i,
    {
        let adv = push_segment(&mut rects, &mut texts, segments, i, x, &s, text_y);
        let seg = &segments[i];
        if i > 0 {
            push_str(&mut aria, ", ");
        }
        push_str(&mut aria, seg.label);
        push_str(&mut aria, ": ");
        push_str(&mut aria, seg.value);
        proof {
            lemma_sum_stays_bounded(x as nat, adv as nat, 121, 65);
        }
        assert(aria@ =~= aria_upto(seg_views(segments@), (i + 1) as nat));
        x = round53_of(x + adv);
        i = i + 1;
    }
    let tw = sat32_of(x);
    let aria_esc = xml_escape(aria.as_str());
    let neon = str_eq(skin_name, "neon");
    assemble(tw, &s, neon, aria_esc.as_str(), rects.as_str(), texts.as_str())
}



/// The binary64 sum of the character widths of `s` (the text width the
/// badge uses before padding), counted in units of `2^-51` pixel; the
/// value has at most 53 significant bits.
pub fn text_width_units(s: &str) -> (w: u128)
    ensures
        w == width_sum(s@),
{
    let v = chars_of(s);
    width_sum_of(&v)
}

} // verus!
