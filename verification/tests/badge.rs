use shipweight::badge::{
    badge_error, badge_package, badge_reply, badge_svg, metric_label_value, named_to_hex,
    sanitize_color, size_color, BadgeLookup, BadgeParams,
};
use shipweight::svg::{skin, text_width_units, xml_escape};
use shipweight::types::{Ecosystem, ModuleFormat, SizeResult, Timestamp};

pub fn sample() -> SizeResult {
    SizeResult {
        name: "react".to_string(),
        version: "18.2.0".to_string(),
        description: "UI library".to_string(),
        keywords: vec!["ui".to_string(), "react".to_string()],
        ecosystem: Ecosystem::Npm,
        size: 2500,
        gzip: 1200,
        brotli: 30000,
        total_size: 9000,
        total_gzip: 4000,
        total_brotli: 3500,
        dependency_count: 12,
        dependency_names: vec!["loose-envify".to_string()],
        treeshakeable: true,
        side_effects: false,
        module_format: ModuleFormat::Dual,
        repository_url: "https://github.com/facebook/react".to_string(),
        homepage: "https://react.dev".to_string(),
        license: "MIT".to_string(),
        unpacked_size: 316000,
        has_types: false,
        monthly_downloads: 1_234_567,
        node_engine: ">=0.10.0".to_string(),
        maintainers: vec!["gaearon".to_string()],
        cached_at: Timestamp { secs: 1_700_000_000, nanos: 5 },
    }
}

fn mlv(metric: &str, r: &SizeResult) -> (String, String, String) {
    metric_label_value(metric, r)
}

fn t(a: &str, b: &str, c: &str) -> (String, String, String) {
    (a.to_string(), b.to_string(), c.to_string())
}

#[test]
fn metric_values_per_metric() {
    let r = sample();
    assert_eq!(mlv("size", &r), t("minified", "2.50 kB", "#44cc11"));
    assert_eq!(mlv("minified", &r), t("minified", "2.50 kB", "#44cc11"));
    assert_eq!(mlv("gzip", &r), t("gzip", "1.20 kB", "#44cc11"));
    assert_eq!(mlv("brotli", &r), t("brotli", "30.0 kB", "#fe7d37"));
    assert_eq!(mlv("treeshakeable", &r), t("tree-shaking", "\u{2713}", "#44cc11"));
    assert_eq!(mlv("sideEffects", &r), t("side effects", "none", "#44cc11"));
    assert_eq!(mlv("module", &r), t("module", "dual", "#007ec6"));
    assert_eq!(mlv("deps", &r), t("deps", "12", "#dfb317"));
    assert_eq!(mlv("types", &r), t("types", "missing", "#9f9f9f"));
    assert_eq!(mlv("license", &r), t("license", "MIT", "#007ec6"));
    assert_eq!(mlv("downloads", &r), t("downloads", "1.2M/month", "#007ec6"));
    assert_eq!(mlv("version", &r), t("version", "18.2.0", "#007ec6"));
    assert_eq!(mlv("nonsense", &r), t("gzip", "1.20 kB", "#44cc11"));
}

#[test]
fn metric_values_other_branches() {
    let mut r = sample();
    r.treeshakeable = false;
    r.side_effects = true;
    r.module_format = ModuleFormat::Esm;
    r.has_types = true;
    r.license = String::new();
    r.dependency_count = 0;
    assert_eq!(mlv("tree-shaking", &r), t("tree-shaking", "\u{2717}", "#9f9f9f"));
    assert_eq!(mlv("side-effects", &r), t("side effects", "yes", "#dfb317"));
    assert_eq!(mlv("moduleFormat", &r), t("module", "esm", "#44cc11"));
    assert_eq!(mlv("types", &r), t("types", "included", "#44cc11"));
    assert_eq!(mlv("license", &r), t("license", "unknown", "#007ec6"));
    assert_eq!(mlv("dependencies", &r), t("deps", "0", "#44cc11"));
    r.dependency_count = 5;
    assert_eq!(mlv("deps", &r).2, "#007ec6");
    r.dependency_count = 21;
    assert_eq!(mlv("deps", &r).2, "#e05d44");
    r.module_format = ModuleFormat::Cjs;
    assert_eq!(mlv("module", &r), t("module", "cjs", "#dfb317"));
}

#[test]
fn size_color_thresholds() {
    assert_eq!(size_color(0), "#44cc11");
    assert_eq!(size_color(5_000), "#44cc11");
    assert_eq!(size_color(5_001), "#dfb317");
    assert_eq!(size_color(25_000), "#dfb317");
    assert_eq!(size_color(25_001), "#fe7d37");
    assert_eq!(size_color(100_000), "#fe7d37");
    assert_eq!(size_color(100_001), "#e05d44");
}

#[test]
fn sanitize_color_keeps_hex_and_maps_names() {
    assert_eq!(sanitize_color("  #FFF  "), "#FFF");
    assert_eq!(sanitize_color("#1234"), "#1234");
    assert_eq!(sanitize_color("#abcdef"), "#abcdef");
    assert_eq!(sanitize_color("#abcdef12"), "#abcdef12");
    assert_eq!(sanitize_color("red"), "#e05d44");
    assert_eq!(sanitize_color(" lightgrey\n"), "#9f9f9f");
    assert_eq!(sanitize_color("yellowgreen"), "#a4a61d");
    assert_eq!(sanitize_color("important"), "#fe7d37");
}

#[test]
fn sanitize_color_refuses_everything_else() {
    assert_eq!(sanitize_color("purple"), "#007ec6");
    assert_eq!(sanitize_color("#zzz"), "#007ec6");
    assert_eq!(sanitize_color("#12345"), "#007ec6");
    assert_eq!(sanitize_color("#abcdef123"), "#007ec6");
    assert_eq!(sanitize_color("\"/><script>"), "#007ec6");
    assert_eq!(sanitize_color(""), "#007ec6");
    assert_eq!(sanitize_color("#"), "#007ec6");
}

#[test]
fn named_colors() {
    assert_eq!(named_to_hex("success"), "#44cc11");
    assert_eq!(named_to_hex("gray"), "#9f9f9f");
    assert_eq!(named_to_hex("critical"), "#e05d44");
    assert_eq!(named_to_hex("xyz"), "#007ec6");
}

#[test]
fn badge_paths() {
    assert_eq!(badge_package("react.svg"), Some("react".to_string()));
    assert_eq!(badge_package("@scope/pkg.svg"), Some("@scope/pkg".to_string()));
    assert_eq!(badge_package(".svg"), None);
    assert_eq!(badge_package("react"), None);
    assert_eq!(badge_package("react.SVG"), None);
}

#[test]
fn badge_for_lookups() {
    let params = BadgeParams { metric: None, style: None, color: None, label: None };
    let missing = badge_reply(&params, BadgeLookup::Missing);
    assert!(!missing.track);
    assert_eq!(missing.svg, r##"<svg xmlns="http://www.w3.org/2000/svg" width="150" height="20" role="img" aria-label="shipweight: not found"><title>shipweight: not found</title><defs><linearGradient id="s" x2="0" y2="100%"><stop offset="0" stop-color="#bbb" stop-opacity=".1"/><stop offset="1" stop-opacity=".1"/></linearGradient><clipPath id="r"><rect width="150" height="20" rx="3" fill="#fff"/></clipPath></defs><g clip-path="url(#r)"><rect x="0" width="80" height="20" fill="#555"/><rect x="80" width="70" height="20" fill="#9f9f9f"/><rect width="150" height="20" fill="url(#s)"/></g><g text-anchor="middle" font-family="Verdana,Geneva,DejaVu Sans,sans-serif" text-rendering="geometricPrecision" font-size="11"><text x="40" y="15" fill="#010101" fill-opacity=".3">shipweight</text><text x="115" y="15" fill="#010101" fill-opacity=".3">not found</text><text x="40" y="14" fill="#fff">shipweight</text><text x="115" y="14" fill="#fff">not found</text></g></svg>"##);
    let neon = BadgeParams { metric: None, style: Some("neon".to_string()), color: None, label: None };
    let failed = badge_reply(&neon, BadgeLookup::Failed);
    assert!(!failed.track);
    assert_eq!(failed.svg, r##"<svg xmlns="http://www.w3.org/2000/svg" width="126" height="20" role="img" aria-label="shipweight: error"><title>shipweight: error</title><defs><linearGradient id="s" x2="0" y2="100%"><stop offset="0" stop-color="#bbb" stop-opacity=".1"/><stop offset="1" stop-opacity=".1"/></linearGradient><clipPath id="r"><rect width="126" height="20" rx="4" fill="#fff"/></clipPath><filter id="glow"><feGaussianBlur stdDeviation="1.5" result="blur"/><feMerge><feMergeNode in="blur"/><feMergeNode in="SourceGraphic"/></feMerge></filter></defs><g clip-path="url(#r)"><rect x="0" width="80" height="20" fill="#0d0d0d"/><rect x="80" width="46" height="20" fill="#9f9f9f"/><rect width="126" height="20" fill="url(#s)"/></g><g filter="url(#glow)" text-anchor="middle" font-family="Verdana,Geneva,DejaVu Sans,sans-serif" text-rendering="geometricPrecision" font-size="11"><text x="40" y="15" fill="#010101" fill-opacity=".3">shipweight</text><text x="103" y="15" fill="#010101" fill-opacity=".3">error</text><text x="40" y="14" fill="#aaa">shipweight</text><text x="103" y="14" fill="#fff">error</text></g></svg>"##);
    let deps = BadgeParams { metric: Some("deps".to_string()), style: None, color: None, label: None };
    let found = badge_reply(&deps, BadgeLookup::Found(sample()));
    assert!(found.track);
    assert_eq!(found.svg, r##"<svg xmlns="http://www.w3.org/2000/svg" width="78" height="20" role="img" aria-label="deps: 12"><title>deps: 12</title><defs><linearGradient id="s" x2="0" y2="100%"><stop offset="0" stop-color="#bbb" stop-opacity=".1"/><stop offset="1" stop-opacity=".1"/></linearGradient><clipPath id="r"><rect width="78" height="20" rx="3" fill="#fff"/></clipPath></defs><g clip-path="url(#r)"><rect x="0" width="46" height="20" fill="#555"/><rect x="46" width="32" height="20" fill="#dfb317"/><rect width="78" height="20" fill="url(#s)"/></g><g text-anchor="middle" font-family="Verdana,Geneva,DejaVu Sans,sans-serif" text-rendering="geometricPrecision" font-size="11"><text x="23" y="15" fill="#010101" fill-opacity=".3">deps</text><text x="62" y="15" fill="#010101" fill-opacity=".3">12</text><text x="23" y="14" fill="#fff">deps</text><text x="62" y="14" fill="#fff">12</text></g></svg>"##);
}

#[test]
fn badge_with_overrides() {
    let params = BadgeParams {
        metric: Some("size".to_string()),
        style: Some("neon".to_string()),
        color: Some("red".to_string()),
        label: None,
    };
    assert_eq!(badge_svg(&params, &sample()), r##"<svg xmlns="http://www.w3.org/2000/svg" width="126" height="20" role="img" aria-label="minified: 2.50 kB"><title>minified: 2.50 kB</title><defs><linearGradient id="s" x2="0" y2="100%"><stop offset="0" stop-color="#bbb" stop-opacity=".1"/><stop offset="1" stop-opacity=".1"/></linearGradient><clipPath id="r"><rect width="126" height="20" rx="4" fill="#fff"/></clipPath><filter id="glow"><feGaussianBlur stdDeviation="1.5" result="blur"/><feMerge><feMergeNode in="blur"/><feMergeNode in="SourceGraphic"/></feMerge></filter></defs><g clip-path="url(#r)"><rect x="0" width="65" height="20" fill="#0d0d0d"/><rect x="65" width="61" height="20" fill="#e05d44"/><rect width="126" height="20" fill="url(#s)"/></g><g filter="url(#glow)" text-anchor="middle" font-family="Verdana,Geneva,DejaVu Sans,sans-serif" text-rendering="geometricPrecision" font-size="11"><text x="33" y="15" fill="#010101" fill-opacity=".3">minified</text><text x="96" y="15" fill="#010101" fill-opacity=".3">2.50 kB</text><text x="33" y="14" fill="#aaa">minified</text><text x="96" y="14" fill="#fff">2.50 kB</text></g></svg>"##);
    assert_eq!(badge_error("not found", "flat"), r##"<svg xmlns="http://www.w3.org/2000/svg" width="150" height="20" role="img" aria-label="shipweight: not found"><title>shipweight: not found</title><defs><linearGradient id="s" x2="0" y2="100%"><stop offset="0" stop-color="#bbb" stop-opacity=".1"/><stop offset="1" stop-opacity=".1"/></linearGradient><clipPath id="r"><rect width="150" height="20" rx="3" fill="#fff"/></clipPath></defs><g clip-path="url(#r)"><rect x="0" width="80" height="20" fill="#555"/><rect x="80" width="70" height="20" fill="#9f9f9f"/><rect width="150" height="20" fill="url(#s)"/></g><g text-anchor="middle" font-family="Verdana,Geneva,DejaVu Sans,sans-serif" text-rendering="geometricPrecision" font-size="11"><text x="40" y="15" fill="#010101" fill-opacity=".3">shipweight</text><text x="115" y="15" fill="#010101" fill-opacity=".3">not found</text><text x="40" y="14" fill="#fff">shipweight</text><text x="115" y="14" fill="#fff">not found</text></g></svg>"##);
}

#[test]
fn escaping() {
    assert_eq!(xml_escape(r#"<a href="x">&</a>"#), "&lt;a href=&quot;x&quot;&gt;&amp;&lt;/a&gt;");
    assert_eq!(xml_escape("plain"), "plain");
    assert_eq!(xml_escape("&amp;"), "&amp;amp;");
}

#[test]
fn skins() {
    let s = skin("terminal");
    assert_eq!(s.label_fg, "#33ff33");
    assert_eq!(s.font, "'Courier New',Courier,monospace");
    assert_eq!(s.radius, 0);
    let m = skin("minimal");
    assert_eq!((m.font_size, m.height, m.radius, m.shadow), (10, 18, 2, false));
    let d = skin("anything");
    assert_eq!((d.label_bg, d.radius, d.shadow), ("#555", 3, true));
    let n = skin("neon");
    assert_eq!((n.label_bg, n.label_fg, n.radius, n.shadow), ("#0d0d0d", "#aaa", 4, true));
    assert_eq!(skin("flat-square").radius, 0);
    assert_eq!(skin("retro").label_bg, "#888");
}

#[test]
fn text_widths_are_binary64_sums() {
    assert_eq!(text_width_units(""), 0);
    assert_eq!(text_width_units("a"), 13961158844848538u128);
    assert_eq!(text_width_units(" a"), 21392098230009856u128);
}
