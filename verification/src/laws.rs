//! Properties of the library as a whole, stated over the specifications
//! that the functions' contracts use.
use vstd::prelude::*;

use crate::badge::{badge_svg_spec, metric_spec, hex_color_ok, is_hex_digit, sanitize_color_spec, text_or, BadgeParams};
use crate::compat::{compat_next_spec, parse_package_spec_spec, CompatAction, CompatEvent, CompatState};
use crate::response::BundlephobiaResponse;
use crate::svg::{aria_upto, escape_char, render_spec, xml_escape_spec, SegmentView};
use crate::text::{find_from, lemma_find_from_bounds};
use crate::validate::{invalid_npm_name_spec, is_spam_spec, npm_char_ok};
use vstd::utf8::encode_utf8;
use crate::types::SizeResult;
use crate::store::{nonzero_counts, result_of_row, row_of_result, search_sql_spec, sort_col_spec, RowValues};
use crate::v1::{size_next_spec, SizeEvent, SizeState};
use crate::types::{
    ecosystem_name, module_format_name, parse_ecosystem, parse_module_format, Ecosystem, ModuleFormat,
};

verus! {

/// Every sort key orders by one of the whitelisted columns.
pub proof fn law_sort_column_whitelisted(sort: Seq<char>)
    ensures
        ({
            let c = sort_col_spec(sort);
            c == "size"@ || c == "brotli"@ || c == "total_gzip"@ || c == "total_size"@ || c == "name"@
                || c == "monthly_downloads"@ || c == "gzip"@
        }),
{
}

/// The text of a search query depends on the sort key and the order only
/// through the whitelisted column and the direction: no user text is
/// interpolated into it.
pub proof fn law_search_text_independent_of_user_input(
    table: Seq<char>,
    has_query: bool,
    has_keyword: bool,
    has_treeshakeable: bool,
    has_types: bool,
    sort1: Seq<char>,
    order1: Seq<char>,
    sort2: Seq<char>,
    order2: Seq<char>,
)
    requires
        sort_col_spec(sort1) == sort_col_spec(sort2),
        (order1 == "desc"@) == (order2 == "desc"@),
    ensures
        search_sql_spec(table, has_query, has_keyword, has_treeshakeable, has_types, sort1, order1)
            == search_sql_spec(table, has_query, has_keyword, has_treeshakeable, has_types, sort2, order2),
{
}

/// Parsing an ecosystem's name gives the ecosystem back, and only its own
/// name parses to it.
pub proof fn law_ecosystem_name_round_trip(e: Ecosystem, s: Seq<char>)
    ensures
        parse_ecosystem(ecosystem_name(e)) == Some(e),
        parse_ecosystem(s) == Some(e) ==> s == ecosystem_name(e),
{
    reveal_strlit("npm");
    assert("npm"@.len() == 3 && "npm"@[0] == 'n' && "npm"@[1] == 'p');
    reveal_strlit("maven");
    assert("maven"@.len() == 5 && "maven"@[0] == 'm' && "maven"@[1] == 'a');
    reveal_strlit("composer");
    assert("composer"@.len() == 8 && "composer"@[0] == 'c' && "composer"@[1] == 'o');
    reveal_strlit("pypi");
    assert("pypi"@.len() == 4 && "pypi"@[0] == 'p' && "pypi"@[1] == 'y');
    reveal_strlit("cargo");
    assert("cargo"@.len() == 5 && "cargo"@[0] == 'c' && "cargo"@[1] == 'a');
}

/// Parsing a module format's name gives the format back.
pub proof fn law_module_format_round_trip(m: ModuleFormat)
    ensures
        parse_module_format(module_format_name(m)) == m,
{
    reveal_strlit("esm");
    assert("esm"@.len() == 3 && "esm"@[0] == 'e' && "esm"@[1] == 's');
    reveal_strlit("cjs");
    assert("cjs"@.len() == 3 && "cjs"@[0] == 'c' && "cjs"@[1] == 'j');
    reveal_strlit("dual");
    assert("dual"@.len() == 4 && "dual"@[0] == 'd' && "dual"@[1] == 'u');
    reveal_strlit("umd");
    assert("umd"@.len() == 3 && "umd"@[0] == 'u' && "umd"@[1] == 'm');
    reveal_strlit("unknown");
    assert("unknown"@.len() == 7 && "unknown"@[0] == 'u' && "unknown"@[1] == 'n');
}


/// The compatible endpoint has enqueued its job (or answered).
pub open spec fn compat_enqueued(s: CompatState) -> bool {
    match s {
        CompatState::AwaitTick => true,
        CompatState::AwaitCache { polling } => polling,
        CompatState::AwaitFailure { polling } => polling,
        CompatState::Done => true,
        CompatState::AwaitEnqueue => false,
    }
}

/// Once its job is enqueued, a compatible request never asks to enqueue
/// again, whatever happens.
pub proof fn law_compat_enqueues_at_most_once(s: CompatState, e: CompatEvent)
    requires
        compat_enqueued(s),
    ensures
        !(compat_next_spec(s, e).1 is Enqueue),
        compat_enqueued(compat_next_spec(s, e).0),
{
}

/// A compatible request asks to enqueue only when neither the size cache
/// nor the failure cache knew the package (or while that enqueue is still
/// pending).
pub proof fn law_compat_enqueue_only_after_misses(s: CompatState, e: CompatEvent)
    ensures
        compat_next_spec(s, e).1 is Enqueue ==> (s == CompatState::AwaitFailure { polling: false }
            && e matches CompatEvent::FailureKnown(None)) || s == CompatState::AwaitEnqueue,
{
}

/// A compatible request times out only on a tick past the deadline.
pub proof fn law_compat_times_out_only_at_deadline(s: CompatState, e: CompatEvent)
    ensures
        compat_next_spec(s, e).1 is TimedOut ==> s == CompatState::AwaitTick && e matches CompatEvent::Tick { expired: true },
{
}

/// An answered compatible request stays answered and does nothing more.
pub proof fn law_compat_done_is_final(e: CompatEvent)
    ensures
        compat_next_spec(CompatState::Done, e).0 == CompatState::Done,
        compat_next_spec(CompatState::Done, e).1 is Idle,
{
}

/// How far a size request has got.
pub open spec fn size_stage(s: SizeState) -> nat {
    match s {
        SizeState::AwaitCache => 0,
        SizeState::AwaitFailure => 1,
        SizeState::AwaitEnqueue => 2,
        SizeState::Done => 3,
    }
}

/// Every event a size request accepts moves it forward, so a request does
/// at most three pieces of outside work before it is answered.
pub proof fn law_size_request_progresses(s: SizeState, e: SizeEvent, package: Seq<char>, version: Seq<char>)
    ensures
        ({
            let n = size_next_spec(s, e, package, version).0;
            n == s || size_stage(n) > size_stage(s)
        }),
{
}

/// A size request enqueues a job only after a cache miss and no known
/// failure, and answers "processing" only after the enqueue.
pub proof fn law_size_enqueue_only_after_misses(s: SizeState, e: SizeEvent, package: Seq<char>, version: Seq<char>)
    ensures
        size_next_spec(s, e, package, version).1 is Enqueue ==> (s == SizeState::AwaitFailure
            && e matches SizeEvent::FailureKnown(None)) || s == SizeState::AwaitEnqueue,
        size_next_spec(s, e, package, version).1 is Queued ==> s == SizeState::AwaitEnqueue
            && e is Enqueued,
        size_next_spec(s, e, package, version).1 is Ready ==> s == SizeState::AwaitCache,
{
}

/// Total of the counts of a sequence of `(ecosystem, package, count)`.
pub open spec fn total_count(entries: Seq<(String, String, u64)>) -> nat
    decreases entries.len(),
{
    if entries.len() == 0 {
        0
    } else {
        total_count(entries.drop_last()) + entries.last().2 as nat
    }
}

/// Flushing the request counts loses no request: the entries written hold
/// all of the counted requests, and none of them is zero.
pub proof fn law_flush_loses_no_request(entries: Seq<(String, String, u64)>)
    ensures
        total_count(nonzero_counts(entries)) == total_count(entries),
        forall|i: int| 0 <= i < nonzero_counts(entries).len() ==> #[trigger] nonzero_counts(entries)[i].2 > 0,
    decreases entries.len(),
{
    if entries.len() > 0 {
        law_flush_loses_no_request(entries.drop_last());
        let rest = nonzero_counts(entries.drop_last());
        if entries.last().2 > 0 {
            assert(rest.push(entries.last()).drop_last() =~= rest);
        }
    }
}


// ---------------------------------------------------------------------------
// Escaping
// ---------------------------------------------------------------------------

/// Escaped text holds no `<`, `>` or `"`, so it cannot open or close markup
/// or an attribute.
pub proof fn law_escape_has_no_markup(s: Seq<char>)
    ensures
        forall|i: int|
            0 <= i < xml_escape_spec(s).len() ==> {
                let c = #[trigger] xml_escape_spec(s)[i];
                c != '<' && c != '>' && c != '"'
            },
    decreases s.len(),
{
    if s.len() > 0 {
        law_escape_has_no_markup(s.drop_last());
        let a = xml_escape_spec(s.drop_last());
        let b = escape_char(s.last());
        assert forall|i: int| 0 <= i < xml_escape_spec(s).len() implies {
            let c = #[trigger] xml_escape_spec(s)[i];
            c != '<' && c != '>' && c != '"'
        } by {
            if i >= a.len() {
                assert(xml_escape_spec(s)[i] == b[i - a.len()]);
            } else {
                assert(xml_escape_spec(s)[i] == a[i]);
            }
        }
    }
}

/// Escaping a concatenation is concatenating the escapes.
pub proof fn law_escape_concat(a: Seq<char>, b: Seq<char>)
    ensures
        xml_escape_spec(a + b) == xml_escape_spec(a) + xml_escape_spec(b),
    decreases b.len(),
{
    if b.len() == 0 {
        assert(a + b =~= a);
        assert(xml_escape_spec(a) + xml_escape_spec(b) =~= xml_escape_spec(a));
    } else {
        law_escape_concat(a, b.drop_last());
        assert((a + b).drop_last() =~= a + b.drop_last());
        assert((a + b).last() == b.last());
        assert(xml_escape_spec(a + b) =~= xml_escape_spec(a) + xml_escape_spec(b));
    }
}

pub open spec fn amp_entity() -> Seq<char> {
    seq!['&', 'a', 'm', 'p', ';']
}

pub open spec fn lt_entity() -> Seq<char> {
    seq!['&', 'l', 't', ';']
}

pub open spec fn gt_entity() -> Seq<char> {
    seq!['&', 'g', 't', ';']
}

pub open spec fn quot_entity() -> Seq<char> {
    seq!['&', 'q', 'u', 'o', 't', ';']
}

/// Reading escaped text back: the four entities become their characters.
pub open spec fn xml_unescape(s: Seq<char>) -> Seq<char>
    decreases s.len(),
{
    if s.len() == 0 {
        Seq::empty()
    } else if s.len() >= 5 && s.take(5) == amp_entity() {
        seq!['&'] + xml_unescape(s.skip(5))
    } else if s.len() >= 4 && s.take(4) == lt_entity() {
        seq!['<'] + xml_unescape(s.skip(4))
    } else if s.len() >= 4 && s.take(4) == gt_entity() {
        seq!['>'] + xml_unescape(s.skip(4))
    } else if s.len() >= 6 && s.take(6) == quot_entity() {
        seq!['"'] + xml_unescape(s.skip(6))
    } else {
        seq![s[0]] + xml_unescape(s.skip(1))
    }
}

/// Escaping loses nothing: reading the escape back gives the text.
pub proof fn law_escape_round_trip(s: Seq<char>)
    ensures
        xml_unescape(xml_escape_spec(s)) == s,
    decreases s.len(),
{
    if s.len() > 0 {
        let c = s[0];
        let rest = s.skip(1);
        assert(s =~= seq![c] + rest);
        law_escape_concat(seq![c], rest);
        law_escape_round_trip(rest);
        let e = escape_char(c);
        assert(xml_escape_spec(seq![c]) =~= e) by {
            assert(seq![c].drop_last() =~= Seq::<char>::empty());
            assert(seq![c].last() == c);
            assert(xml_escape_spec(Seq::<char>::empty()) =~= Seq::<char>::empty());
            assert(Seq::<char>::empty() + e =~= e);
        }
        let t = e + xml_escape_spec(rest);
        assert(xml_escape_spec(s) == t);
        assert(t.skip(e.len() as int) =~= xml_escape_spec(rest));
        if c == '&' {
            assert(t.take(5) =~= amp_entity());
        } else if c == '<' {
            if t.len() >= 5 {
                assert(t.take(5) != amp_entity()) by {
                    assert(t.take(5)[1] != amp_entity()[1]);
                }
            }
            assert(t.take(4) =~= lt_entity());
        } else if c == '>' {
            if t.len() >= 5 {
                assert(t.take(5) != amp_entity()) by {
                    assert(t.take(5)[1] != amp_entity()[1]);
                }
            }
            if t.len() >= 4 {
                assert(t.take(4) != lt_entity()) by {
                    assert(t.take(4)[1] != lt_entity()[1]);
                }
            }
            assert(t.take(4) =~= gt_entity());
        } else if c == '"' {
            if t.len() >= 5 {
                assert(t.take(5) != amp_entity()) by {
                    assert(t.take(5)[1] != amp_entity()[1]);
                }
            }
            if t.len() >= 4 {
                assert(t.take(4) != lt_entity()) by {
                    assert(t.take(4)[1] != lt_entity()[1]);
                }
            }
            if t.len() >= 4 {
                assert(t.take(4) != gt_entity()) by {
                    assert(t.take(4)[1] != gt_entity()[1]);
                }
            }
            assert(t.take(6) =~= quot_entity());
        } else {
            assert(t[0] == c);
            if t.len() >= 5 {
                assert(t.take(5) != amp_entity()) by {
                    assert(t.take(5)[0] != amp_entity()[0]);
                }
            }
            if t.len() >= 4 {
                assert(t.take(4) != lt_entity()) by {
                    assert(t.take(4)[0] != lt_entity()[0]);
                }
                assert(t.take(4) != gt_entity()) by {
                    assert(t.take(4)[0] != gt_entity()[0]);
                }
            }
            if t.len() >= 6 {
                assert(t.take(6) != quot_entity()) by {
                    assert(t.take(6)[0] != quot_entity()[0]);
                }
            }
        }
        assert(xml_unescape(t) =~= s);
    }
}

// ---------------------------------------------------------------------------
// Colours
// ---------------------------------------------------------------------------

proof fn lemma_hex_literal(h: Seq<char>)
    requires
        h.len() == 7,
        h[0] == '#',
        is_hex_digit(h[1]),
        is_hex_digit(h[2]),
        is_hex_digit(h[3]),
        is_hex_digit(h[4]),
        is_hex_digit(h[5]),
        is_hex_digit(h[6]),
    ensures
        hex_color_ok(h),
{
    assert forall|i: int| 1 <= i < h.len() implies is_hex_digit(#[trigger] h[i]) by {
        if i == 1 {
        } else if i == 2 {
        } else if i == 3 {
        } else if i == 4 {
        } else if i == 5 {
        } else {
        }
    }
}

/// Every colour of the palette is a 6-digit hex colour.
proof fn lemma_palette_is_hex()
    ensures
        hex_color_ok("#44cc11"@),
        hex_color_ok("#007ec6"@),
        hex_color_ok("#e05d44"@),
        hex_color_ok("#fe7d37"@),
        hex_color_ok("#dfb317"@),
        hex_color_ok("#9f9f9f"@),
        hex_color_ok("#a4a61d"@),
{
    reveal_strlit("#44cc11");
    lemma_hex_literal("#44cc11"@);
    reveal_strlit("#007ec6");
    lemma_hex_literal("#007ec6"@);
    reveal_strlit("#e05d44");
    lemma_hex_literal("#e05d44"@);
    reveal_strlit("#fe7d37");
    lemma_hex_literal("#fe7d37"@);
    reveal_strlit("#dfb317");
    lemma_hex_literal("#dfb317"@);
    reveal_strlit("#9f9f9f");
    lemma_hex_literal("#9f9f9f"@);
    reveal_strlit("#a4a61d");
    lemma_hex_literal("#a4a61d"@);
}


/// Whatever is asked for, the badge colour is `#` and 3, 4, 6 or 8
/// hexadecimal digits: nothing but a hex colour reaches the document.
pub proof fn law_sanitized_color_is_safe(color: Seq<char>)
    ensures
        hex_color_ok(sanitize_color_spec(color)),
{
    lemma_palette_is_hex();
}

// ---------------------------------------------------------------------------
// Package specifiers
// ---------------------------------------------------------------------------

proof fn lemma_find_first(s: Seq<char>, c: char, from: int, k: int)
    requires
        0 <= from <= k < s.len(),
        s[k] == c,
        forall|i: int| from <= i < k ==> s[i] != c,
    ensures
        find_from(s, c, from) == Some(k),
    decreases k - from,
{
    if from < k {
        lemma_find_first(s, c, from + 1, k);
    }
}

/// Splitting `name@version` gives the name and version back, for a
/// non-empty version and a name with no `@` but possibly its first
/// character (the scope marker).
pub proof fn law_package_spec_round_trip(name: Seq<char>, version: Seq<char>)
    requires
        name.len() > 0,
        version.len() > 0,
        forall|i: int| 1 <= i < name.len() ==> name[i] != '@',
    ensures
        parse_package_spec_spec(name + seq!['@'] + version) == Ok::<(Seq<char>, Seq<char>), Seq<char>>((name, version)),
{
    let s = name + seq!['@'] + version;
    let start: int = if s[0] == '@' {
        1
    } else {
        0
    };
    assert(s[name.len() as int] == '@');
    assert forall|i: int| start <= i < name.len() implies s[i] != '@' by {
        assert(s[i] == name[i]);
    }
    lemma_find_first(s, '@', start, name.len() as int);
    assert(s.take(name.len() as int) =~= name);
    assert(s.skip(name.len() as int + 1) =~= version);
}


// ---------------------------------------------------------------------------
// npm names
// ---------------------------------------------------------------------------

/// A name accepted as valid is non-empty, at most 214 bytes, does not start
/// with `.` or `_`, is not spam, and is made of lowercase letters, digits,
/// `-`, `.`, `_`, with at most a leading `@` and one `/` after the scope.
pub proof fn law_valid_npm_name_is_well_formed(name: Seq<char>)
    requires
        invalid_npm_name_spec(name) is None,
    ensures
        0 < name.len(),
        encode_utf8(name).len() <= 214,
        name[0] != '.' && name[0] != '_',
        !is_spam_spec(name),
        forall|i: int| 0 <= i < name.len() ==> npm_char_ok(#[trigger] name[i]) || (i == 0 && name[i] == '@')
            || name[i] == '/',
{
    if name[0] == '@' {
        let rest = name.drop_first();
        lemma_find_from_bounds(rest, '/', 0);
        let k = find_from(rest, '/', 0)->Some_0;
        assert forall|i: int| 0 <= i < name.len() implies npm_char_ok(#[trigger] name[i]) || (i == 0
            && name[i] == '@') || name[i] == '/' by {
            if i >= 1 && i - 1 < k {
                assert(name[i] == rest.take(k)[i - 1]);
            } else if i - 1 > k {
                assert(name[i] == rest.skip(k + 1)[i - 1 - k - 1]);
            }
        }
    }
}


// ---------------------------------------------------------------------------
// Badge metrics
// ---------------------------------------------------------------------------

/// The metric names a badge understands.
pub open spec fn known_metric(metric: Seq<char>) -> bool {
    metric == "size"@ || metric == "minified"@ || metric == "brotli"@ || metric == "treeshakeable"@ || metric == "tree-shaking"@ || metric == "side-effects"@ || metric == "sideEffects"@ || metric == "module"@ || metric == "moduleFormat"@ || metric == "dependencies"@ || metric == "deps"@ || metric == "types"@ || metric == "license"@ || metric == "downloads"@ || metric == "version"@ || metric == "gzip"@
}

/// A badge for a metric it does not know shows the gzip size.
pub proof fn law_unknown_metric_is_gzip(metric: Seq<char>, r: SizeResult)
    requires
        !known_metric(metric),
    ensures
        metric_spec(metric, r) == metric_spec("gzip"@, r),
{
    reveal_strlit("size");
    reveal_strlit("minified");
    reveal_strlit("brotli");
    reveal_strlit("treeshakeable");
    reveal_strlit("tree-shaking");
    reveal_strlit("side-effects");
    reveal_strlit("sideEffects");
    reveal_strlit("module");
    reveal_strlit("moduleFormat");
    reveal_strlit("dependencies");
    reveal_strlit("deps");
    reveal_strlit("types");
    reveal_strlit("license");
    reveal_strlit("downloads");
    reveal_strlit("version");
    reveal_strlit("gzip");
    assert("gzip"@.len() == 4 && "gzip"@[0] == 'g' && "gzip"@[1] == 'z');
}


// ---------------------------------------------------------------------------
// Answers each operation owes
// ---------------------------------------------------------------------------

/// A size-cache read that finds the result ends a compatible request, before
/// and after the job was enqueued alike: the answer is the result's name,
/// version, minified and gzip sizes.
pub proof fn law_compat_found_result_is_answered(polling: bool, r: SizeResult)
    ensures
        compat_next_spec(CompatState::AwaitCache { polling }, CompatEvent::Cached(Some(r))) == (
            CompatState::Done,
            CompatAction::Found(
                BundlephobiaResponse { name: r.name, version: r.version, size: r.size, gzip: r.gzip },
            ),
        ),
{
}

/// A badge carries the requested label when one is given, and the metric's
/// own label only when none is: the badge is the one segment with that
/// label, the metric's value and the (sanitised) colour, and its accessible
/// name reads "label: value".
pub proof fn law_badge_label_is_the_requested_one(params: BadgeParams, r: SizeResult)
    ensures
        ({
            let m = metric_spec(text_or(params.metric, "gzip"@), r);
            let label = match params.label {
                Some(l) => l@,
                None => m.0,
            };
            let seg = SegmentView {
                label,
                value: m.1,
                color: sanitize_color_spec(text_or(params.color, m.2)),
            };
            &&& badge_svg_spec(params, r) == render_spec(seq![seg], text_or(params.style, "flat"@))
            &&& aria_upto(seq![seg], 1) == label + ": "@ + m.1
        }),
{
}

/// The columns a listing can be ordered by.
pub open spec fn sortable_column(c: Seq<char>) -> bool {
    c == "size"@ || c == "gzip"@ || c == "brotli"@ || c == "total_gzip"@ || c == "total_size"@
        || c == "name"@ || c == "monthly_downloads"@
}

/// Asking to sort by a sortable column sorts by that very column; the short
/// key "downloads" sorts by the monthly downloads.
pub proof fn law_sort_column_is_the_requested_one(col: Seq<char>)
    requires
        sortable_column(col),
    ensures
        sort_col_spec(col) == col,
        sort_col_spec("downloads"@) == "monthly_downloads"@,
{
    reveal_strlit("size");
    reveal_strlit("gzip");
    reveal_strlit("brotli");
    reveal_strlit("total_gzip");
    reveal_strlit("total_size");
    reveal_strlit("name");
    reveal_strlit("downloads");
    reveal_strlit("monthly_downloads");
}

proof fn lemma_i64_cast_round_trip(x: i64)
    by (bit_vector)
    ensures
        (x as u64) as i64 == x,
{
}

proof fn lemma_i32_cast_round_trip(x: i32)
    by (bit_vector)
    ensures
        (x as u32) as i32 == x,
{
}

/// Every column of a row reaches the result under its own name (sizes and
/// counts reinterpreted as unsigned), and storing the result gives back the
/// row's own columns.
pub proof fn law_row_columns_keep_their_names(row: RowValues, e: Ecosystem)
    ensures
        ({
            let res = result_of_row(row, e);
            &&& res.size == row.size as u64
            &&& res.gzip == row.gzip as u64
            &&& res.brotli == row.brotli as u64
            &&& res.total_size == row.total_size as u64
            &&& res.total_gzip == row.total_gzip as u64
            &&& res.total_brotli == row.total_brotli as u64
            &&& res.dependency_count == row.dependency_count as u32
            &&& res.unpacked_size == row.unpacked_size as u64
            &&& res.monthly_downloads == row.monthly_downloads as u64
            &&& res.name == row.name && res.version == row.version
            &&& res.ecosystem == e
            &&& row_of_result(res) == (RowValues { module_format: row_of_result(res).module_format, ..row })
        }),
{
    lemma_i64_cast_round_trip(row.size);
    lemma_i64_cast_round_trip(row.gzip);
    lemma_i64_cast_round_trip(row.brotli);
    lemma_i64_cast_round_trip(row.total_size);
    lemma_i64_cast_round_trip(row.total_gzip);
    lemma_i64_cast_round_trip(row.total_brotli);
    lemma_i64_cast_round_trip(row.unpacked_size);
    lemma_i64_cast_round_trip(row.monthly_downloads);
    lemma_i32_cast_round_trip(row.dependency_count);
}

/// The characters of npm names, written out.
pub open spec fn plain_npm_char(c: char) -> bool {
    ('a' <= c && c <= 'z') || ('0' <= c && c <= '9') || c == '-' || c == '.' || c == '_'
}

/// An unscoped name of at most 214 bytes, made of lowercase letters, digits,
/// `-`, `.` and `_`, not starting with `.` or `_` and not spam, is valid.
pub proof fn law_well_formed_plain_name_is_valid(name: Seq<char>)
    requires
        0 < name.len(),
        encode_utf8(name).len() <= 214,
        name[0] != '.' && name[0] != '_',
        !is_spam_spec(name),
        forall|i: int| 0 <= i < name.len() ==> plain_npm_char(#[trigger] name[i]),
    ensures
        invalid_npm_name_spec(name) is None,
{
    assert(plain_npm_char(name[0]));
    assert forall|i: int| 0 <= i < name.len() implies npm_char_ok(#[trigger] name[i]) by {
        assert(plain_npm_char(name[i]));
    }
}

/// `@scope/package`, with both parts non-empty and made of lowercase
/// letters, digits, `-`, `.` and `_`, of at most 214 bytes and not spam,
/// is valid.
pub proof fn law_well_formed_scoped_name_is_valid(scope: Seq<char>, package: Seq<char>)
    requires
        0 < scope.len(),
        0 < package.len(),
        forall|i: int| 0 <= i < scope.len() ==> plain_npm_char(#[trigger] scope[i]),
        forall|i: int| 0 <= i < package.len() ==> plain_npm_char(#[trigger] package[i]),
        encode_utf8(seq!['@'] + scope + seq!['/'] + package).len() <= 214,
        !is_spam_spec(seq!['@'] + scope + seq!['/'] + package),
    ensures
        invalid_npm_name_spec(seq!['@'] + scope + seq!['/'] + package) is None,
{
    let name = seq!['@'] + scope + seq!['/'] + package;
    let rest = name.drop_first();
    let k = scope.len() as int;
    assert(rest =~= scope + seq!['/'] + package);
    assert forall|i: int| 0 <= i < k implies rest[i] != '/' by {
        assert(rest[i] == scope[i]);
        assert(plain_npm_char(scope[i]));
    }
    lemma_find_first(rest, '/', 0, k);
    assert(rest.take(k) =~= scope);
    assert(rest.skip(k + 1) =~= package);
    assert forall|i: int| 0 <= i < scope.len() implies npm_char_ok(#[trigger] scope[i]) by {
        assert(plain_npm_char(scope[i]));
    }
    assert forall|i: int| 0 <= i < package.len() implies npm_char_ok(#[trigger] package[i]) by {
        assert(plain_npm_char(package[i]));
    }
}

} // verus!
