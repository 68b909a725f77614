use shipweight::compat::{compat_next, compat_start, parse_package_spec, CompatAction, CompatEvent, CompatState};
use shipweight::types::{AppError, Ecosystem, ModuleFormat, SizeResult, Timestamp};
use shipweight::v1::{
    alternatives_limit, internal_error, latest_reply, scoped_name, search_request, size_next, size_start, store_error,
    top_request, validate_name, LatestReply, SearchParams, SizeAction, SizeEvent, SizeState, TopParams,
};

fn result() -> SizeResult {
    SizeResult {
        name: "react".to_string(),
        version: "18.2.0".to_string(),
        description: String::new(),
        keywords: vec![],
        ecosystem: Ecosystem::Npm,
        size: 10,
        gzip: 5,
        brotli: 4,
        total_size: 10,
        total_gzip: 5,
        total_brotli: 4,
        dependency_count: 0,
        dependency_names: vec![],
        treeshakeable: true,
        side_effects: false,
        module_format: ModuleFormat::Esm,
        repository_url: String::new(),
        homepage: String::new(),
        license: String::new(),
        unpacked_size: 0,
        has_types: true,
        monthly_downloads: 0,
        node_engine: String::new(),
        maintainers: vec![],
        cached_at: Timestamp { secs: 0, nanos: 0 },
    }
}

fn spec(s: &str) -> Result<(String, String), String> {
    match parse_package_spec(s) {
        Ok(p) => Ok(p),
        Err(AppError::NotFound(m)) => Err(m),
        Err(AppError::Internal(_)) => panic!("unexpected internal error"),
    }
}

fn pair(a: &str, b: &str) -> Result<(String, String), String> {
    Ok((a.to_string(), b.to_string()))
}

#[test]
fn package_specifiers() {
    assert_eq!(spec("react@18.2.0"), pair("react", "18.2.0"));
    assert_eq!(spec("@babel/core@7.0.0"), pair("@babel/core", "7.0.0"));
    assert_eq!(spec("a@b@c"), pair("a", "b@c"));
    let format = Err("package specifier must be in format name@version".to_string());
    let invalid = Err("invalid package specifier".to_string());
    assert_eq!(spec("react"), format);
    assert_eq!(spec("@babel/core"), format);
    assert_eq!(spec("@1.0"), format);
    assert_eq!(spec("@"), format);
    assert_eq!(spec(""), format);
    assert_eq!(spec("react@"), invalid);
    assert_eq!(spec("@react@"), invalid);
    assert_eq!(spec("@18"), format);
    assert_eq!(spec("@x"), format);
    assert_eq!(spec("@1.0.0"), format);
    assert_eq!(spec("@v"), format);
    assert_eq!(spec("@@1"), pair("@", "1"));
}

#[test]
fn compat_cache_hit_answers_at_once() {
    let (s, a) = compat_start();
    assert!(matches!(a, CompatAction::QueryCache));
    let (s, a) = compat_next(s, CompatEvent::Cached(Some(result())));
    assert!(s == CompatState::Done);
    match a {
        CompatAction::Found(b) => {
            assert_eq!((b.name.as_str(), b.version.as_str(), b.size, b.gzip), ("react", "18.2.0", 10, 5));
        },
        _ => panic!("expected a result"),
    }
}

#[test]
fn compat_known_failure_is_not_enqueued() {
    let (s, _) = compat_start();
    let (s, a) = compat_next(s, CompatEvent::Cached(None));
    assert!(matches!(a, CompatAction::QueryFailure));
    let (s, a) = compat_next(s, CompatEvent::FailureKnown(Some("build failed".to_string())));
    assert!(s == CompatState::Done);
    assert!(matches!(a, CompatAction::Failed(ref e) if e == "build failed"));
}

#[test]
fn compat_enqueues_once_then_polls_until_deadline() {
    let (s, _) = compat_start();
    let (s, _) = compat_next(s, CompatEvent::Cached(None));
    let (s, a) = compat_next(s, CompatEvent::FailureKnown(None));
    assert!(matches!(a, CompatAction::Enqueue));
    let (mut s, a) = compat_next(s, CompatEvent::Enqueued);
    assert!(matches!(a, CompatAction::WaitTick));
    for _ in 0..3 {
        let (s1, a) = compat_next(s, CompatEvent::Tick { expired: false });
        assert!(matches!(a, CompatAction::QueryCache));
        let (s2, a) = compat_next(s1, CompatEvent::Cached(None));
        assert!(matches!(a, CompatAction::QueryFailure));
        let (s3, a) = compat_next(s2, CompatEvent::FailureKnown(None));
        assert!(matches!(a, CompatAction::WaitTick));
        s = s3;
    }
    let (s, a) = compat_next(s, CompatEvent::Tick { expired: true });
    assert!(s == CompatState::Done);
    assert!(matches!(a, CompatAction::TimedOut));
}

#[test]
fn compat_unexpected_event_changes_nothing() {
    let (s, _) = compat_start();
    let (s2, a) = compat_next(s, CompatEvent::Enqueued);
    assert!(s2 == s);
    assert!(matches!(a, CompatAction::QueryCache));
    let (s3, a) = compat_next(CompatState::Done, CompatEvent::Tick { expired: true });
    assert!(s3 == CompatState::Done);
    assert!(matches!(a, CompatAction::Idle));
}

#[test]
fn name_validation() {
    assert!(validate_name("npm", "react").is_none());
    let e = validate_name("npm", "React").unwrap();
    assert_eq!((e.status, e.message.as_str()), (400, "invalid package name: invalid characters"));
    let e = validate_name("maven", "x").unwrap();
    assert_eq!((e.status, e.message.as_str()), (400, "unknown ecosystem: maven"));
    assert_eq!(scoped_name("babel", "core"), "@babel/core");
    let e = internal_error(&AppError::Internal("boom".to_string()));
    assert_eq!((e.status, e.message.as_str()), (500, "boom"));
}

#[test]
fn size_request_flows() {
    let e = size_start("npm", ".bad").err().unwrap();
    assert_eq!((e.status, e.message.as_str()), (400, "invalid package name: invalid prefix"));
    let (s, a) = size_start("npm", "react").ok().unwrap();
    assert!(s == SizeState::AwaitCache && matches!(a, SizeAction::QueryCache));
    let (d, a) = size_next(s, SizeEvent::Cached(Ok(Some(result()))), "react", "18.2.0");
    assert!(d == SizeState::Done);
    assert!(matches!(a, SizeAction::Ready(ref r) if r.status == "ready" && r.result.name == "react"));
    let (d, a) = size_next(s, SizeEvent::Cached(Err(AppError::Internal("db down".to_string()))), "react", "1");
    assert!(d == SizeState::Done);
    assert!(matches!(a, SizeAction::ServerError(ref m) if m == "db down"));
    let (s, a) = size_next(s, SizeEvent::Cached(Ok(None)), "react", "1");
    assert!(s == SizeState::AwaitFailure && matches!(a, SizeAction::QueryFailure));
    let (d, a) = size_next(s, SizeEvent::FailureKnown(Some("oops".to_string())), "react", "1");
    assert!(d == SizeState::Done);
    assert!(matches!(a, SizeAction::Failed(ref f) if f.status == "failed" && f.name == "react" && f.version == "1" && f.error == "oops"));
    let (s, a) = size_next(s, SizeEvent::FailureKnown(None), "react", "1");
    assert!(s == SizeState::AwaitEnqueue && matches!(a, SizeAction::Enqueue));
    let (d, a) = size_next(s, SizeEvent::Enqueued, "react", "1");
    assert!(d == SizeState::Done);
    assert!(matches!(a, SizeAction::Queued(ref q) if q.status == "processing" && q.name == "react" && q.version == "1" && q.retry_after == 2));
}

#[test]
fn latest_replies() {
    assert!(matches!(latest_reply(Ok(Some(result()))), LatestReply::Found(_)));
    assert!(matches!(latest_reply(Ok(None)), LatestReply::NotFound));
    match latest_reply(Err(AppError::NotFound("unknown ecosystem: x".to_string()))) {
        LatestReply::Error(e) => assert_eq!((e.status, e.message.as_str()), (500, "unknown ecosystem: x")),
        _ => panic!("expected an error"),
    }
}

#[test]
fn listing_defaults() {
    let none = SearchParams {
        q: None,
        keyword: None,
        treeshakeable: None,
        has_types: None,
        sort: None,
        order: None,
        limit: None,
        offset: None,
    };
    let r = search_request("npm", none).ok().unwrap();
    assert_eq!((r.sort.as_str(), r.order.as_str(), r.limit, r.offset), ("gzip", "asc", 20, 0));
    let p = SearchParams {
        q: Some("rea".to_string()),
        keyword: Some("ui".to_string()),
        treeshakeable: Some(true),
        has_types: Some(false),
        sort: Some("size".to_string()),
        order: Some("desc".to_string()),
        limit: Some(500),
        offset: Some(-5),
    };
    let r = search_request("pypi", p).ok().unwrap();
    assert_eq!((r.limit, r.offset, r.sort.as_str(), r.order.as_str()), (100, 0, "size", "desc"));
    assert_eq!((r.query.as_deref(), r.keyword.as_deref(), r.treeshakeable, r.has_types), (Some("rea"), Some("ui"), Some(true), Some(false)));
    let low = SearchParams { limit: Some(0), offset: Some(7), ..SearchParams { q: None, keyword: None, treeshakeable: None, has_types: None, sort: None, order: None, limit: None, offset: None } };
    let r = search_request("npm", low).ok().unwrap();
    assert_eq!((r.limit, r.offset), (1, 7));
    let e = search_request("rubygems", SearchParams { q: None, keyword: None, treeshakeable: None, has_types: None, sort: None, order: None, limit: None, offset: None }).err().unwrap();
    assert_eq!((e.status, e.message.as_str()), (400, "unknown ecosystem: rubygems"));
    let t = top_request("npm", TopParams { sort: None, limit: None, offset: None }).ok().unwrap();
    assert_eq!((t.sort.as_str(), t.limit, t.offset), ("downloads", 20, 0));
    let t = top_request("cargo", TopParams { sort: Some("name".to_string()), limit: Some(101), offset: Some(3) }).ok().unwrap();
    assert_eq!((t.sort.as_str(), t.limit, t.offset), ("name", 100, 3));
    assert!(top_request("NPM", TopParams { sort: None, limit: None, offset: None }).is_err());
    assert_eq!(alternatives_limit(None), 10);
    assert_eq!(alternatives_limit(Some(100)), 50);
    assert_eq!(alternatives_limit(Some(-1)), 1);
    assert_eq!(alternatives_limit(Some(25)), 25);
}

#[test]
fn ecosystems_and_formats() {
    assert_eq!(Ecosystem::from_name("pypi"), Ok(Ecosystem::PyPI));
    assert_eq!(Ecosystem::from_name("PyPI"), Err("unknown ecosystem: PyPI".to_string()));
    assert_eq!("cargo".parse::<Ecosystem>(), Ok(Ecosystem::Cargo));
    for e in [Ecosystem::Npm, Ecosystem::Maven, Ecosystem::Composer, Ecosystem::PyPI, Ecosystem::Cargo] {
        assert_eq!(Ecosystem::from_name(e.as_str()), Ok(e));
    }
    assert_eq!(Ecosystem::Composer.as_str(), "composer");
    assert_eq!(ModuleFormat::from_name("umd"), ModuleFormat::Umd);
    assert_eq!(ModuleFormat::from_name("ESM"), ModuleFormat::Unknown);
    assert_eq!("cjs".parse::<ModuleFormat>(), Ok(ModuleFormat::Cjs));
    for m in [ModuleFormat::Esm, ModuleFormat::Cjs, ModuleFormat::Dual, ModuleFormat::Umd, ModuleFormat::Unknown] {
        assert_eq!(ModuleFormat::from_name(m.as_str()), m);
    }
    assert_eq!(AppError::NotFound("x".to_string()).status(), 404);
    assert_eq!(AppError::Internal("y".to_string()).status(), 500);
}

#[test]
fn store_errors_keep_their_status() {
    let e = store_error(&AppError::NotFound("unknown ecosystem: maven".to_string()));
    assert_eq!(e.status, 404);
    assert_eq!(e.message, "unknown ecosystem: maven");
    let e = store_error(&AppError::Internal("boom".to_string()));
    assert_eq!(e.status, 500);
    assert_eq!(e.message, "boom");
}
