use shipweight::svg::{render, BadgeSegment};

#[test]
fn render_single_segment_flat() {
    let segs = [
        BadgeSegment { label: r#"gzip"#, value: r#"2.50 kB"#, color: r#"#44cc11"# },
    ];
    let expected = r##"<svg xmlns="http://www.w3.org/2000/svg" width="104" height="20" role="img" aria-label="gzip: 2.50 kB"><title>gzip: 2.50 kB</title><defs><linearGradient id="s" x2="0" y2="100%"><stop offset="0" stop-color="#bbb" stop-opacity=".1"/><stop offset="1" stop-opacity=".1"/></linearGradient><clipPath id="r"><rect width="104" height="20" rx="3" fill="#fff"/></clipPath></defs><g clip-path="url(#r)"><rect x="0" width="43" height="20" fill="#555"/><rect x="43" width="61" height="20" fill="#44cc11"/><rect width="104" height="20" fill="url(#s)"/></g><g text-anchor="middle" font-family="Verdana,Geneva,DejaVu Sans,sans-serif" text-rendering="geometricPrecision" font-size="11"><text x="22" y="15" fill="#010101" fill-opacity=".3">gzip</text><text x="74" y="15" fill="#010101" fill-opacity=".3">2.50 kB</text><text x="22" y="14" fill="#fff">gzip</text><text x="74" y="14" fill="#fff">2.50 kB</text></g></svg>"##;
    assert_eq!(render(&segs, "flat"), expected);
}

#[test]
fn render_two_segments_neon_escaped() {
    let segs = [
        BadgeSegment { label: r#"a<b"#, value: r#""x" & y"#, color: r#"#fff"# },
        BadgeSegment { label: r#"size"#, value: r#"9"#, color: r#"red"# },
    ];
    let expected = r##"<svg xmlns="http://www.w3.org/2000/svg" width="171" height="20" role="img" aria-label="a&lt;b: &quot;x&quot; &amp; y, size: 9"><title>a&lt;b: &quot;x&quot; &amp; y, size: 9</title><defs><linearGradient id="s" x2="0" y2="100%"><stop offset="0" stop-color="#bbb" stop-opacity=".1"/><stop offset="1" stop-opacity=".1"/></linearGradient><clipPath id="r"><rect width="171" height="20" rx="4" fill="#fff"/></clipPath><filter id="glow"><feGaussianBlur stdDeviation="1.5" result="blur"/><feMerge><feMergeNode in="blur"/><feMergeNode in="SourceGraphic"/></feMerge></filter></defs><g clip-path="url(#r)"><rect x="0" width="40" height="20" fill="#0d0d0d"/><rect x="40" width="61" height="20" fill="#fff"/><rect x="101" width="43" height="20" fill="#0d0d0d"/><rect x="144" width="27" height="20" fill="red"/><rect x="101" width="1" height="20" fill="#ffffff22"/><rect width="171" height="20" fill="url(#s)"/></g><g filter="url(#glow)" text-anchor="middle" font-family="Verdana,Geneva,DejaVu Sans,sans-serif" text-rendering="geometricPrecision" font-size="11"><text x="20" y="15" fill="#010101" fill-opacity=".3">a&lt;b</text><text x="71" y="15" fill="#010101" fill-opacity=".3">&quot;x&quot; &amp; y</text><text x="20" y="14" fill="#aaa">a&lt;b</text><text x="71" y="14" fill="#fff">&quot;x&quot; &amp; y</text><text x="123" y="15" fill="#010101" fill-opacity=".3">size</text><text x="158" y="15" fill="#010101" fill-opacity=".3">9</text><text x="123" y="14" fill="#aaa">size</text><text x="158" y="14" fill="#fff">9</text></g></svg>"##;
    assert_eq!(render(&segs, "neon"), expected);
}

#[test]
fn render_no_segments_minimal() {
    let segs: [BadgeSegment<'static>; 0] = [];
    let expected = r##"<svg xmlns="http://www.w3.org/2000/svg" width="0" height="18" role="img" aria-label=""><title></title><defs><clipPath id="r"><rect width="0" height="18" rx="2" fill="#fff"/></clipPath></defs><g clip-path="url(#r)"></g><g text-anchor="middle" font-family="Verdana,Geneva,DejaVu Sans,sans-serif" text-rendering="geometricPrecision" font-size="10"></g></svg>"##;
    assert_eq!(render(&segs, "minimal"), expected);
}

#[test]
fn render_terminal_wide_letters() {
    let segs = [
        BadgeSegment { label: r#"WWW Mm"#, value: r#"12.3 MB"#, color: r#"#e05d44"# },
    ];
    let expected = r##"<svg xmlns="http://www.w3.org/2000/svg" width="133" height="20" role="img" aria-label="WWW Mm: 12.3 MB"><title>WWW Mm: 12.3 MB</title><defs></defs><g><rect x="0" width="72" height="20" fill="#0a0a0a"/><rect x="72" width="61" height="20" fill="#e05d44"/></g><g text-anchor="middle" font-family="'Courier New',Courier,monospace" text-rendering="geometricPrecision" font-size="11"><text x="36" y="14" fill="#33ff33">WWW Mm</text><text x="103" y="14" fill="#33ff33">12.3 MB</text></g></svg>"##;
    assert_eq!(render(&segs, "terminal"), expected);
}

#[test]
fn render_flat_square_and_retro() {
    let segs = [
        BadgeSegment { label: r#"deps"#, value: r#"12"#, color: r#"#dfb317"# },
    ];
    let expected = r##"<svg xmlns="http://www.w3.org/2000/svg" width="78" height="20" role="img" aria-label="deps: 12"><title>deps: 12</title><defs></defs><g><rect x="0" width="46" height="20" fill="#555"/><rect x="46" width="32" height="20" fill="#dfb317"/></g><g text-anchor="middle" font-family="Verdana,Geneva,DejaVu Sans,sans-serif" text-rendering="geometricPrecision" font-size="11"><text x="23" y="14" fill="#fff">deps</text><text x="62" y="14" fill="#fff">12</text></g></svg>"##;
    assert_eq!(render(&segs, "flat-square"), expected);
}

#[test]
fn render_retro_spaces() {
    let segs = [
        BadgeSegment { label: r#"   "#, value: r#"   "#, color: r#"#888"# },
    ];
    let expected = r##"<svg xmlns="http://www.w3.org/2000/svg" width="60" height="20" role="img" aria-label="   :    "><title>   :    </title><defs><clipPath id="r"><rect width="60" height="20" rx="2" fill="#fff"/></clipPath></defs><g clip-path="url(#r)"><rect x="0" width="30" height="20" fill="#888"/><rect x="30" width="30" height="20" fill="#888"/></g><g text-anchor="middle" font-family="Verdana,Geneva,DejaVu Sans,sans-serif" text-rendering="geometricPrecision" font-size="11"><text x="15" y="14" fill="#fff">   </text><text x="45" y="14" fill="#fff">   </text></g></svg>"##;
    assert_eq!(render(&segs, "retro"), expected);
}

#[test]
fn render_long_label() {
    let segs = [
        BadgeSegment { label: r#"xxxxxxxxxxxxxxxxxxxxxxxxxxxxxxxxxxxxxxxxxxxxxxxxxxxxxxxxxxxxxxxxxxxxxxxxxxxxxxxxxxxxxxxxxxxxxxxxxxxxxxxxxxxxxxxxxxxxxxxxxxxxxxxxxxxxxxxxxxxxxxxxxxxxxxxxxxxxxxxxxxxxxxxxxxxxxxxxxxxxxxxxxxxxxxxxxxxxxxxxxxxxxxxxxxxxxxxxxxxxxxxxxxxxxxxxxxxxxxxxxxxxxxxxxxxxxxxxxxxxxxxxxxxxxxxxxxxxxxxxxxxxxxxxxxxxxxxxxxxxxxxxxxxxxxxxxxxxxxxxxxxxxxxxxxxxxxxxxxxxxxxxxxxxxxxxxxxxxxxxxxxxxxxxxxxxxxxxxxxxxxxxxxxxxxxxxxxxxxxxxxxxxxxxxxxxxxxxxxxxxxxxxxxxxxxxxxxxxxxxxxxxxxxxxxxxxxxxxxxxxxxxxxxxxxxxxxxxxxxxxxxxxxxxxxxxxxxxxxxx                                                                                                                                                                                                                                                                                                            "#, value: r#"1"#, color: r#"#000"# },
    ];
    let expected = r##"<svg xmlns="http://www.w3.org/2000/svg" width="4287" height="20" role="img" aria-label="xxxxxxxxxxxxxxxxxxxxxxxxxxxxxxxxxxxxxxxxxxxxxxxxxxxxxxxxxxxxxxxxxxxxxxxxxxxxxxxxxxxxxxxxxxxxxxxxxxxxxxxxxxxxxxxxxxxxxxxxxxxxxxxxxxxxxxxxxxxxxxxxxxxxxxxxxxxxxxxxxxxxxxxxxxxxxxxxxxxxxxxxxxxxxxxxxxxxxxxxxxxxxxxxxxxxxxxxxxxxxxxxxxxxxxxxxxxxxxxxxxxxxxxxxxxxxxxxxxxxxxxxxxxxxxxxxxxxxxxxxxxxxxxxxxxxxxxxxxxxxxxxxxxxxxxxxxxxxxxxxxxxxxxxxxxxxxxxxxxxxxxxxxxxxxxxxxxxxxxxxxxxxxxxxxxxxxxxxxxxxxxxxxxxxxxxxxxxxxxxxxxxxxxxxxxxxxxxxxxxxxxxxxxxxxxxxxxxxxxxxxxxxxxxxxxxxxxxxxxxxxxxxxxxxxxxxxxxxxxxxxxxxxxxxxxxxxxxxxxx                                                                                                                                                                                                                                                                                                            : 1"><title>xxxxxxxxxxxxxxxxxxxxxxxxxxxxxxxxxxxxxxxxxxxxxxxxxxxxxxxxxxxxxxxxxxxxxxxxxxxxxxxxxxxxxxxxxxxxxxxxxxxxxxxxxxxxxxxxxxxxxxxxxxxxxxxxxxxxxxxxxxxxxxxxxxxxxxxxxxxxxxxxxxxxxxxxxxxxxxxxxxxxxxxxxxxxxxxxxxxxxxxxxxxxxxxxxxxxxxxxxxxxxxxxxxxxxxxxxxxxxxxxxxxxxxxxxxxxxxxxxxxxxxxxxxxxxxxxxxxxxxxxxxxxxxxxxxxxxxxxxxxxxxxxxxxxxxxxxxxxxxxxxxxxxxxxxxxxxxxxxxxxxxxxxxxxxxxxxxxxxxxxxxxxxxxxxxxxxxxxxxxxxxxxxxxxxxxxxxxxxxxxxxxxxxxxxxxxxxxxxxxxxxxxxxxxxxxxxxxxxxxxxxxxxxxxxxxxxxxxxxxxxxxxxxxxxxxxxxxxxxxxxxxxxxxxxxxxxxxxxxxx                                                                                                                                                                                                                                                                                                            : 1</title><defs><linearGradient id="s" x2="0" y2="100%"><stop offset="0" stop-color="#bbb" stop-opacity=".1"/><stop offset="1" stop-opacity=".1"/></linearGradient><clipPath id="r"><rect width="4287" height="20" rx="3" fill="#fff"/></clipPath></defs><g clip-path="url(#r)"><rect x="0" width="4261" height="20" fill="#555"/><rect x="4261" width="26" height="20" fill="#000"/><rect width="4287" height="20" fill="url(#s)"/></g><g text-anchor="middle" font-family="Verdana,Geneva,DejaVu Sans,sans-serif" text-rendering="geometricPrecision" font-size="11"><text x="2131" y="15" fill="#010101" fill-opacity=".3">xxxxxxxxxxxxxxxxxxxxxxxxxxxxxxxxxxxxxxxxxxxxxxxxxxxxxxxxxxxxxxxxxxxxxxxxxxxxxxxxxxxxxxxxxxxxxxxxxxxxxxxxxxxxxxxxxxxxxxxxxxxxxxxxxxxxxxxxxxxxxxxxxxxxxxxxxxxxxxxxxxxxxxxxxxxxxxxxxxxxxxxxxxxxxxxxxxxxxxxxxxxxxxxxxxxxxxxxxxxxxxxxxxxxxxxxxxxxxxxxxxxxxxxxxxxxxxxxxxxxxxxxxxxxxxxxxxxxxxxxxxxxxxxxxxxxxxxxxxxxxxxxxxxxxxxxxxxxxxxxxxxxxxxxxxxxxxxxxxxxxxxxxxxxxxxxxxxxxxxxxxxxxxxxxxxxxxxxxxxxxxxxxxxxxxxxxxxxxxxxxxxxxxxxxxxxxxxxxxxxxxxxxxxxxxxxxxxxxxxxxxxxxxxxxxxxxxxxxxxxxxxxxxxxxxxxxxxxxxxxxxxxxxxxxxxxxxxxxxxx                                                                                                                                                                                                                                                                                                            </text><text x="4274" y="15" fill="#010101" fill-opacity=".3">1</text><text x="2131" y="14" fill="#fff">xxxxxxxxxxxxxxxxxxxxxxxxxxxxxxxxxxxxxxxxxxxxxxxxxxxxxxxxxxxxxxxxxxxxxxxxxxxxxxxxxxxxxxxxxxxxxxxxxxxxxxxxxxxxxxxxxxxxxxxxxxxxxxxxxxxxxxxxxxxxxxxxxxxxxxxxxxxxxxxxxxxxxxxxxxxxxxxxxxxxxxxxxxxxxxxxxxxxxxxxxxxxxxxxxxxxxxxxxxxxxxxxxxxxxxxxxxxxxxxxxxxxxxxxxxxxxxxxxxxxxxxxxxxxxxxxxxxxxxxxxxxxxxxxxxxxxxxxxxxxxxxxxxxxxxxxxxxxxxxxxxxxxxxxxxxxxxxxxxxxxxxxxxxxxxxxxxxxxxxxxxxxxxxxxxxxxxxxxxxxxxxxxxxxxxxxxxxxxxxxxxxxxxxxxxxxxxxxxxxxxxxxxxxxxxxxxxxxxxxxxxxxxxxxxxxxxxxxxxxxxxxxxxxxxxxxxxxxxxxxxxxxxxxxxxxxxxxxxxxx                                                                                                                                                                                                                                                                                                            </text><text x="4274" y="14" fill="#fff">1</text></g></svg>"##;
    assert_eq!(render(&segs, "unknown-style"), expected);
}
