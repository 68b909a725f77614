//! Badge content: which label, value and colour a metric shows, colour
//! sanitising, and the badge answered for a package path.
use vstd::prelude::*;

use crate::svg::{
    format_bytes, format_bytes_spec, format_downloads, format_downloads_spec, render, render_spec,
    seg_views, BadgeSegment, SegmentView,
};
use crate::text::{chars_of, decimal, push_decimal, push_str, str_eq, string_of};
use crate::types::{module_format_name, SizeResult};

verus! {

/// Query parameters of a badge request.
pub struct BadgeParams {
    pub metric: Option<String>,
    pub style: Option<String>,
    pub color: Option<String>,
    pub label: Option<String>,
}

/// Colour for a size in bytes: green up to 5 kB, yellow up to 25 kB,
/// orange up to 100 kB, red above.
pub open spec fn size_color_spec(bytes: nat) -> Seq<char> {
    if bytes <= 5_000 {
        "#44cc11"@
    } else if bytes <= 25_000 {
        "#dfb317"@
    } else if bytes <= 100_000 {
        "#fe7d37"@
    } else {
        "#e05d44"@
    }
}

/// Colour for a size in bytes (see `size_color_spec`).
pub fn size_color(bytes: u64) -> (c: String)
    ensures
        c@ == size_color_spec(bytes as nat),
{
    let mut c = String::new();
    if bytes <= 5_000 {
        push_str(&mut c, "#44cc11");
    } else if bytes <= 25_000 {
        push_str(&mut c, "#dfb317");
    } else if bytes <= 100_000 {
        push_str(&mut c, "#fe7d37");
    } else {
        push_str(&mut c, "#e05d44");
    }
    c
}

/// Colour for a dependency count.
pub open spec fn deps_color_spec(n: nat) -> Seq<char> {
    if n == 0 {
        "#44cc11"@
    } else if n <= 5 {
        "#007ec6"@
    } else if n <= 20 {
        "#dfb317"@
    } else {
        "#e05d44"@
    }
}

/// Colour for a module format name.
pub open spec fn module_color_spec(name: Seq<char>) -> Seq<char> {
    if name == "esm"@ {
        "#44cc11"@
    } else if name == "dual"@ {
        "#007ec6"@
    } else {
        "#dfb317"@
    }
}

/// Label, value and default colour of `metric` for the package `r`;
/// unknown metrics show the gzip size.
pub open spec fn metric_spec(metric: Seq<char>, r: SizeResult) -> (Seq<char>, Seq<char>, Seq<char>) {
    if metric == "size"@ || metric == "minified"@ {
        ("minified"@, format_bytes_spec(r.size as nat), size_color_spec(r.size as nat))
    } else if metric == "brotli"@ {
        ("brotli"@, format_bytes_spec(r.brotli as nat), size_color_spec(r.brotli as nat))
    } else if metric == "treeshakeable"@ || metric == "tree-shaking"@ {
        if r.treeshakeable {
            ("tree-shaking"@, "\u{2713}"@, "#44cc11"@)
        } else {
            ("tree-shaking"@, "\u{2717}"@, "#9f9f9f"@)
        }
    } else if metric == "side-effects"@ || metric == "sideEffects"@ {
        if r.side_effects {
            ("side effects"@, "yes"@, "#dfb317"@)
        } else {
            ("side effects"@, "none"@, "#44cc11"@)
        }
    } else if metric == "module"@ || metric == "moduleFormat"@ {
        let v = module_format_name(r.module_format);
        ("module"@, v, module_color_spec(v))
    } else if metric == "dependencies"@ || metric == "deps"@ {
        ("deps"@, decimal(r.dependency_count as nat), deps_color_spec(r.dependency_count as nat))
    } else if metric == "types"@ {
        if r.has_types {
            ("types"@, "included"@, "#44cc11"@)
        } else {
            ("types"@, "missing"@, "#9f9f9f"@)
        }
    } else if metric == "license"@ {
        ("license"@, if r.license@.len() == 0 {
            "unknown"@
        } else {
            r.license@
        }, "#007ec6"@)
    } else if metric == "downloads"@ {
        ("downloads"@, format_downloads_spec(r.monthly_downloads as nat) + "/month"@, "#007ec6"@)
    } else if metric == "version"@ {
        ("version"@, r.version@, "#007ec6"@)
    } else {
        ("gzip"@, format_bytes_spec(r.gzip as nat), size_color_spec(r.gzip as nat))
    }
}

fn lit(s: &str) -> (r: String)
    ensures
        r@ == s@,
{
    let mut r = String::new();
    push_str(&mut r, s);
    r
}

/// Label, value and default colour of `metric` for `r` (see `metric_spec`).
pub fn metric_label_value(metric: &str, r: &SizeResult) -> (t: (String, String, String))
    ensures
        (t.0@, t.1@, t.2@) == metric_spec(metric@, *r),
{
    if str_eq(metric, "size") || str_eq(metric, "minified") {
        (lit("minified"), format_bytes(r.size), size_color(r.size))
    } else if str_eq(metric, "brotli") {
        (lit("brotli"), format_bytes(r.brotli), size_color(r.brotli))
    } else if str_eq(metric, "treeshakeable") || str_eq(metric, "tree-shaking") {
        if r.treeshakeable {
            (lit("tree-shaking"), lit("\u{2713}"), lit("#44cc11"))
        } else {
            (lit("tree-shaking"), lit("\u{2717}"), lit("#9f9f9f"))
        }
    } else if str_eq(metric, "side-effects") || str_eq(metric, "sideEffects") {
        if r.side_effects {
            (lit("side effects"), lit("yes"), lit("#dfb317"))
        } else {
            (lit("side effects"), lit("none"), lit("#44cc11"))
        }
    } else if str_eq(metric, "module") || str_eq(metric, "moduleFormat") {
        let v = r.module_format.as_str();
        let c = if str_eq(v, "esm") {
            "#44cc11"
        } else if str_eq(v, "dual") {
            "#007ec6"
        } else {
            "#dfb317"
        };
        (lit("module"), lit(v), lit(c))
    } else if str_eq(metric, "dependencies") || str_eq(metric, "deps") {
        let n = r.dependency_count;
        let mut v = String::new();
        push_decimal(&mut v, n as u128);
        let c = if n == 0 {
            "#44cc11"
        } else if n <= 5 {
            "#007ec6"
        } else if n <= 20 {
            "#dfb317"
        } else {
            "#e05d44"
        };
        (lit("deps"), v, lit(c))
    } else if str_eq(metric, "types") {
        if r.has_types {
            (lit("types"), lit("included"), lit("#44cc11"))
        } else {
            (lit("types"), lit("missing"), lit("#9f9f9f"))
        }
    } else if str_eq(metric, "license") {
        let v = if r.license.as_str().is_empty() {
            lit("unknown")
        } else {
            lit(r.license.as_str())
        };
        (lit("license"), v, lit("#007ec6"))
    } else if str_eq(metric, "downloads") {
        let mut v = format_downloads(r.monthly_downloads);
        push_str(&mut v, "/month");
        (lit("downloads"), v, lit("#007ec6"))
    } else if str_eq(metric, "version") {
        (lit("version"), lit(r.version.as_str()), lit("#007ec6"))
    } else {
        (lit("gzip"), format_bytes(r.gzip), size_color(r.gzip))
    }
}


// ---------------------------------------------------------------------------
// Colours
// ---------------------------------------------------------------------------

/// Unicode white space, as `char::is_whitespace` and `str::trim` see it.
pub open spec fn is_white(c: char) -> bool {
    c == '\t' || c == '\n' || c == '\u{0B}' || c == '\u{0C}' || c == '\r' || c == ' '
        || c == '\u{85}' || c == '\u{A0}' || c == '\u{1680}' || ('\u{2000}' <= c && c
        <= '\u{200A}') || c == '\u{2028}' || c == '\u{2029}' || c == '\u{202F}' || c
        == '\u{205F}' || c == '\u{3000}'
}

fn is_white_char(c: char) -> (b: bool)
    ensures
        b == is_white(c),
{
    c == '\t' || c == '\n' || c == '\u{0B}' || c == '\u{0C}' || c == '\r' || c == ' '
        || c == '\u{85}' || c == '\u{A0}' || c == '\u{1680}' || ('\u{2000}' <= c && c
        <= '\u{200A}') || c == '\u{2028}' || c == '\u{2029}' || c == '\u{202F}' || c
        == '\u{205F}' || c == '\u{3000}'
}

/// Index of the first non-white character at or after `i` (or the length).
pub open spec fn first_non_white(s: Seq<char>, i: int) -> int
    decreases s.len() - i,
{
    if i < 0 || i >= s.len() {
        s.len() as int
    } else if is_white(s[i]) {
        first_non_white(s, i + 1)
    } else {
        i
    }
}

/// One past the last non-white character before `j` (or 0).
pub open spec fn end_non_white(s: Seq<char>, j: int) -> int
    decreases j,
{
    if j <= 0 || j > s.len() {
        0
    } else if is_white(s[j - 1]) {
        end_non_white(s, j - 1)
    } else {
        j
    }
}

/// `s` without leading and trailing white space.
pub open spec fn trim_spec(s: Seq<char>) -> Seq<char> {
    let a = first_non_white(s, 0);
    let b = end_non_white(s, s.len() as int);
    if a < b {
        s.subrange(a, b)
    } else {
        Seq::empty()
    }
}

/// Bounds of the trimmed part of `v`.
fn trim_bounds(v: &Vec<char>) -> (r: (usize, usize))
    ensures
        r.0 <= r.1 <= v.len(),
        v@.subrange(r.0 as int, r.1 as int) == trim_spec(v@),
{
    let mut a: usize = 0;
    while a < v.len() && is_white_char(v[a])
        invariant
            a <= v.len(),
            first_non_white(v@, 0) == first_non_white(v@, a as int),
        decreases v.len() - a,
    {
        a = a + 1;
    }
    let mut b: usize = v.len();
    while b > 0 && is_white_char(v[b - 1])
        invariant
            b <= v.len(),
            end_non_white(v@, v.len() as int) == end_non_white(v@, b as int),
        decreases b,
    {
        b = b - 1;
    }
    if a < b {
        (a, b)
    } else {
        assert(v@.subrange(b as int, b as int) =~= Seq::<char>::empty());
        (b, b)
    }
}

/// An ASCII hexadecimal digit.
pub open spec fn is_hex_digit(c: char) -> bool {
    ('0' <= c && c <= '9') || ('a' <= c && c <= 'f') || ('A' <= c && c <= 'F')
}

/// `#` followed by 3, 4, 6 or 8 hexadecimal digits.
pub open spec fn hex_color_ok(t: Seq<char>) -> bool {
    &&& t.len() == 4 || t.len() == 5 || t.len() == 7 || t.len() == 9
    &&& t[0] == '#'
    &&& forall|i: int| 1 <= i < t.len() ==> is_hex_digit(#[trigger] t[i])
}

/// The accepted colour names and their hex values.
pub open spec fn named_color(name: Seq<char>) -> Option<Seq<char>> {
    if name == "green"@ {
        Some("#44cc11"@)
    } else if name == "blue"@ {
        Some("#007ec6"@)
    } else if name == "red"@ {
        Some("#e05d44"@)
    } else if name == "orange"@ {
        Some("#fe7d37"@)
    } else if name == "yellow"@ {
        Some("#dfb317"@)
    } else if name == "grey"@ {
        Some("#9f9f9f"@)
    } else if name == "gray"@ {
        Some("#9f9f9f"@)
    } else if name == "brightgreen"@ {
        Some("#44cc11"@)
    } else if name == "yellowgreen"@ {
        Some("#a4a61d"@)
    } else if name == "lightgrey"@ {
        Some("#9f9f9f"@)
    } else if name == "success"@ {
        Some("#44cc11"@)
    } else if name == "important"@ {
        Some("#fe7d37"@)
    } else if name == "critical"@ {
        Some("#e05d44"@)
    } else if name == "informational"@ {
        Some("#007ec6"@)
    } else if name == "inactive"@ {
        Some("#9f9f9f"@)
    } else {
        None
    }
}

fn named_color_of(name: &str) -> (r: Option<&'static str>)
    ensures
        match r {
            Some(h) => named_color(name@) == Some(h@),
            None => named_color(name@) is None,
        },
{
    if str_eq(name, "green") {
        Some("#44cc11")
    } else if str_eq(name, "blue") {
        Some("#007ec6")
    } else if str_eq(name, "red") {
        Some("#e05d44")
    } else if str_eq(name, "orange") {
        Some("#fe7d37")
    } else if str_eq(name, "yellow") {
        Some("#dfb317")
    } else if str_eq(name, "grey") {
        Some("#9f9f9f")
    } else if str_eq(name, "gray") {
        Some("#9f9f9f")
    } else if str_eq(name, "brightgreen") {
        Some("#44cc11")
    } else if str_eq(name, "yellowgreen") {
        Some("#a4a61d")
    } else if str_eq(name, "lightgrey") {
        Some("#9f9f9f")
    } else if str_eq(name, "success") {
        Some("#44cc11")
    } else if str_eq(name, "important") {
        Some("#fe7d37")
    } else if str_eq(name, "critical") {
        Some("#e05d44")
    } else if str_eq(name, "informational") {
        Some("#007ec6")
    } else if str_eq(name, "inactive") {
        Some("#9f9f9f")
    } else {
        None
    }
}

/// Hex value of a named colour; unknown names are blue.
pub open spec fn named_to_hex_spec(name: Seq<char>) -> Seq<char> {
    if name == "green"@ || name == "success"@ || name == "brightgreen"@ {
        "#44cc11"@
    } else if name == "yellowgreen"@ {
        "#a4a61d"@
    } else if name == "yellow"@ {
        "#dfb317"@
    } else if name == "orange"@ || name == "important"@ {
        "#fe7d37"@
    } else if name == "red"@ || name == "critical"@ {
        "#e05d44"@
    } else if name == "blue"@ || name == "informational"@ {
        "#007ec6"@
    } else if name == "grey"@ || name == "gray"@ || name == "lightgrey"@ || name == "inactive"@ {
        "#9f9f9f"@
    } else {
        "#007ec6"@
    }
}

/// Hex value of a named colour (see `named_to_hex_spec`).
pub fn named_to_hex(name: &str) -> (h: &'static str)
    ensures
        h@ == named_to_hex_spec(name@),
{
    if str_eq(name, "green") || str_eq(name, "success") || str_eq(name, "brightgreen") {
        "#44cc11"
    } else if str_eq(name, "yellowgreen") {
        "#a4a61d"
    } else if str_eq(name, "yellow") {
        "#dfb317"
    } else if str_eq(name, "orange") || str_eq(name, "important") {
        "#fe7d37"
    } else if str_eq(name, "red") || str_eq(name, "critical") {
        "#e05d44"
    } else if str_eq(name, "blue") || str_eq(name, "informational") {
        "#007ec6"
    } else if str_eq(name, "grey") || str_eq(name, "gray") || str_eq(name, "lightgrey") || str_eq(name, "inactive") {
        "#9f9f9f"
    } else {
        "#007ec6"
    }
}

/// The colour put in the badge for a requested `color`: a trimmed
/// `#`-hex colour is kept, a known colour name becomes its hex value, and
/// anything else becomes the default blue.
pub open spec fn sanitize_color_spec(color: Seq<char>) -> Seq<char> {
    let t = trim_spec(color);
    if hex_color_ok(t) {
        t
    } else {
        match named_color(t) {
            Some(h) => h,
            None => "#007ec6"@,
        }
    }
}

/// Only valid CSS colour values pass (see `sanitize_color_spec`).
pub fn sanitize_color(color: &str) -> (r: String)
    ensures
        r@ == sanitize_color_spec(color@),
{
    let v = chars_of(color);
    let (a, b) = trim_bounds(&v);
    let t = string_of(&v, a, b);
    let n = b - a;
    if (n == 4 || n == 5 || n == 7 || n == 9) && v[a] == '#' {
        let mut i = a + 1;
        let mut ok = true;
        while i < b
            invariant
                a < i <= b <= v.len(),
                ok ==> forall|k: int| a < k < i ==> is_hex_digit(#[trigger] v@[k]),
                !ok ==> exists|k: int| a < k < b && !is_hex_digit(#[trigger] v@[k]),
            decreases b - i,
        {
            let c = v[i];
            if !(('0' <= c && c <= '9') || ('a' <= c && c <= 'f') || ('A' <= c && c <= 'F')) {
                ok = false;
                assert(!is_hex_digit(v@[i as int]));
            }
            i = i + 1;
        }
        if ok {
            assert forall|k: int| 1 <= k < t@.len() implies is_hex_digit(#[trigger] t@[k]) by {
                assert(t@[k] == v@[a + k]);
            }
            return t;
        }
        proof {
            let k = choose|k: int| a < k < b && !is_hex_digit(#[trigger] v@[k]);
            assert(t@[k - a] == v@[k]);
        }
    }
    match named_color_of(t.as_str()) {
        Some(h) => lit(h),
        None => lit("#007ec6"),
    }
}

// ---------------------------------------------------------------------------
// Badge for a package path
// ---------------------------------------------------------------------------

/// The package named by a badge path `rest` ("react.svg",
/// "@scope/package.svg"): `rest` without its ".svg" suffix, when that
/// suffix is there and something precedes it.
pub open spec fn badge_package_spec(rest: Seq<char>) -> Option<Seq<char>> {
    if rest.len() > 4 && rest.subrange(rest.len() - 4, rest.len() as int) == seq!['.', 's', 'v', 'g'] {
        Some(rest.take(rest.len() - 4))
    } else {
        None
    }
}

/// The package named by a badge path (see `badge_package_spec`).
pub fn badge_package(rest: &str) -> (r: Option<String>)
    ensures
        match r {
            Some(p) => badge_package_spec(rest@) == Some(p@),
            None => badge_package_spec(rest@) is None,
        },
{
    let v = chars_of(rest);
    let n = v.len();
    if n > 4 && v[n - 4] == '.' && v[n - 3] == 's' && v[n - 2] == 'v' && v[n - 1] == 'g' {
        assert(v@.subrange(n - 4, n as int) =~= seq!['.', 's', 'v', 'g']);
        Some(string_of(&v, 0, n - 4))
    } else {
        if n > 4 {
            assert(v@.subrange(n - 4, n as int) != seq!['.', 's', 'v', 'g']) by {
                if v@.subrange(n - 4, n as int) == seq!['.', 's', 'v', 'g'] {
                    assert(v@.subrange(n - 4, n as int)[0] == v@[n - 4]);
                    assert(v@.subrange(n - 4, n as int)[1] == v@[n - 3]);
                    assert(v@.subrange(n - 4, n as int)[2] == v@[n - 2]);
                    assert(v@.subrange(n - 4, n as int)[3] == v@[n - 1]);
                }
            }
        }
        None
    }
}


/// `o`'s text, or `d` when absent.
pub open spec fn text_or(o: Option<String>, d: Seq<char>) -> Seq<char> {
    match o {
        Some(s) => s@,
        None => d,
    }
}

fn str_or<'a>(o: &'a Option<String>, d: &'a str) -> (r: &'a str)
    ensures
        r@ == text_or(*o, d@),
{
    match o {
        Some(s) => s.as_str(),
        None => d,
    }
}

/// The badge of package `r`: the requested metric (gzip size by default),
/// label and colour (the metric's own by default, the colour sanitised), in
/// the requested style ("flat" by default).
pub open spec fn badge_svg_spec(params: BadgeParams, r: SizeResult) -> Seq<char> {
    let m = metric_spec(text_or(params.metric, "gzip"@), r);
    let seg = SegmentView {
        label: text_or(params.label, m.0),
        value: m.1,
        color: sanitize_color_spec(text_or(params.color, m.2)),
    };
    render_spec(seq![seg], text_or(params.style, "flat"@))
}

/// The badge of package `r` (see `badge_svg_spec`).
pub fn badge_svg(params: &BadgeParams, r: &SizeResult) -> (svg: String)
    ensures
        svg@ == badge_svg_spec(*params, *r),
{
    let style = str_or(&params.style, "flat");
    let metric = str_or(&params.metric, "gzip");
    let (lbl, val, default_color) = metric_label_value(metric, r);
    let label = str_or(&params.label, lbl.as_str());
    let color = sanitize_color(str_or(&params.color, default_color.as_str()));
    let segs = [BadgeSegment { label, value: val.as_str(), color: color.as_str() }];
    let svg = render(&segs, style);
    assert(seg_views(segs@) =~= seq![SegmentView { label: label@, value: val@, color: color@ }]);
    svg
}

/// The grey error badge showing `text`.
pub open spec fn badge_error_spec(text: Seq<char>, style: Seq<char>) -> Seq<char> {
    render_spec(seq![SegmentView { label: "shipweight"@, value: text, color: "#9f9f9f"@ }], style)
}

/// The grey error badge showing `text` (see `badge_error_spec`).
pub fn badge_error(text: &str, style: &str) -> (svg: String)
    ensures
        svg@ == badge_error_spec(text@, style@),
{
    let segs = [BadgeSegment { label: "shipweight", value: text, color: "#9f9f9f" }];
    let svg = render(&segs, style);
    assert(seg_views(segs@) =~= seq![SegmentView { label: "shipweight"@, value: text@, color: "#9f9f9f"@ }]);
    svg
}

/// What the latest-version lookup of a badge's package gave.
pub enum BadgeLookup {
    Found(SizeResult),
    Missing,
    Failed,
}

/// The badge to answer and whether the request counts as a hit.
pub struct BadgeReply {
    pub svg: String,
    pub track: bool,
}

/// The badge answered after the lookup: the package's badge (a tracked
/// hit), "not found" when it is unknown, "error" when the lookup failed.
pub open spec fn badge_reply_spec(params: BadgeParams, lookup: BadgeLookup) -> (Seq<char>, bool) {
    let style = text_or(params.style, "flat"@);
    match lookup {
        BadgeLookup::Found(r) => (badge_svg_spec(params, r), true),
        BadgeLookup::Missing => (badge_error_spec("not found"@, style), false),
        BadgeLookup::Failed => (badge_error_spec("error"@, style), false),
    }
}

/// The badge answered after the lookup (see `badge_reply_spec`).
pub fn badge_reply(params: &BadgeParams, lookup: BadgeLookup) -> (r: BadgeReply)
    ensures
        (r.svg@, r.track) == badge_reply_spec(*params, lookup),
{
    let style = str_or(&params.style, "flat");
    match lookup {
        BadgeLookup::Found(result) => BadgeReply { svg: badge_svg(params, &result), track: true },
        BadgeLookup::Missing => BadgeReply { svg: badge_error("not found", style), track: false },
        BadgeLookup::Failed => BadgeReply { svg: badge_error("error", style), track: false },
    }
}

} // verus!
