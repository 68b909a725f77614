//! The persistent store's logic: table and column whitelists, cache keys,
//! the SQL text of every query (user input only ever travels as bound
//! parameters), conversion between rows and results, and the decisions
//! of the two-level cache and of the request-count flush.
use vstd::prelude::*;

use crate::text::{decimal, push_decimal, push_str, str_eq};
use crate::types::{
    module_format_name, parse_ecosystem, parse_module_format, AppError, Ecosystem, ModuleFormat,
    SizeResult, Timestamp,
};

verus! {

/// The key of a package version in the in-memory caches.
pub open spec fn cache_key_spec(ecosystem: Seq<char>, package: Seq<char>, version: Seq<char>) -> Seq<char> {
    ecosystem + ":"@ + package + ":"@ + version
}

/// `ecosystem:package:version`.
pub fn cache_key(ecosystem: &str, package: &str, version: &str) -> (k: String)
    ensures
        k@ == cache_key_spec(ecosystem@, package@, version@),
{
    let mut k = String::new();
    push_str(&mut k, ecosystem);
    push_str(&mut k, ":");
    push_str(&mut k, package);
    push_str(&mut k, ":");
    push_str(&mut k, version);
    k
}

/// The table of an ecosystem; only npm has one.
pub open spec fn ecosystem_table_spec(ecosystem: Seq<char>) -> Option<Seq<char>> {
    if ecosystem == "npm"@ {
        Some("npm_packages"@)
    } else {
        None
    }
}

/// The table of an ecosystem; any other is refused as not found with
/// `unknown ecosystem: <name>`.
pub fn ecosystem_table(ecosystem: &str) -> (r: Result<&'static str, AppError>)
    ensures
        match r {
            Ok(t) => ecosystem_table_spec(ecosystem@) == Some(t@),
            Err(AppError::NotFound(m)) => ecosystem_table_spec(ecosystem@) is None && m@
                == "unknown ecosystem: "@ + ecosystem@,
            Err(AppError::Internal(_)) => false,
        },
{
    if str_eq(ecosystem, "npm") {
        Ok("npm_packages")
    } else {
        let mut m = String::new();
        push_str(&mut m, "unknown ecosystem: ");
        push_str(&mut m, ecosystem);
        Err(AppError::NotFound(m))
    }
}

/// The column a sort key orders by; unknown keys order by gzip size.
pub open spec fn sort_col_spec(s: Seq<char>) -> Seq<char> {
    if s == "size"@ {
        "size"@
    } else if s == "brotli"@ {
        "brotli"@
    } else if s == "total_gzip"@ {
        "total_gzip"@
    } else if s == "total_size"@ {
        "total_size"@
    } else if s == "name"@ {
        "name"@
    } else if s == "downloads"@ || s == "monthly_downloads"@ {
        "monthly_downloads"@
    } else {
        "gzip"@
    }
}

/// The whitelisted column for a sort key (see `sort_col_spec`).
pub fn sort_col(s: &str) -> (c: &'static str)
    ensures
        c@ == sort_col_spec(s@),
{
    if str_eq(s, "size") {
        "size"
    } else if str_eq(s, "brotli") {
        "brotli"
    } else if str_eq(s, "total_gzip") {
        "total_gzip"
    } else if str_eq(s, "total_size") {
        "total_size"
    } else if str_eq(s, "name") {
        "name"
    } else if str_eq(s, "downloads") || str_eq(s, "monthly_downloads") {
        "monthly_downloads"
    } else {
        "gzip"
    }
}

/// The columns every query selects.
pub open spec fn select_cols() -> Seq<char> {
    "name, version, size, gzip, brotli, total_size, total_gzip, total_brotli, dependency_count, treeshakeable, side_effects, module_format, keywords, description, dependency_names, repository_url, homepage, license, unpacked_size, has_types, monthly_downloads, node_engine, maintainers, cached_at"@
}

/// One version of a package.
pub open spec fn select_version_sql_spec(table: Seq<char>) -> Seq<char> {
    "SELECT "@ + select_cols() + " FROM "@ + table + " WHERE name = $1 AND version = $2"@
}

pub fn select_version_sql(table: &str) -> (q: String)
    ensures
        q@ == select_version_sql_spec(table@),
{
    let mut q = String::new();
    push_str(&mut q, "SELECT ");
    push_str(&mut q, "name, version, size, gzip, brotli, total_size, total_gzip, total_brotli, dependency_count, treeshakeable, side_effects, module_format, keywords, description, dependency_names, repository_url, homepage, license, unpacked_size, has_types, monthly_downloads, node_engine, maintainers, cached_at");
    push_str(&mut q, " FROM ");
    push_str(&mut q, table);
    push_str(&mut q, " WHERE name = $1 AND version = $2");
    q
}

/// The most recently cached version of a package.
pub open spec fn select_latest_sql_spec(table: Seq<char>) -> Seq<char> {
    "SELECT "@ + select_cols() + " FROM "@ + table + " WHERE name = $1 ORDER BY cached_at DESC LIMIT 1"@
}

pub fn select_latest_sql(table: &str) -> (q: String)
    ensures
        q@ == select_latest_sql_spec(table@),
{
    let mut q = String::new();
    push_str(&mut q, "SELECT ");
    push_str(&mut q, "name, version, size, gzip, brotli, total_size, total_gzip, total_brotli, dependency_count, treeshakeable, side_effects, module_format, keywords, description, dependency_names, repository_url, homepage, license, unpacked_size, has_types, monthly_downloads, node_engine, maintainers, cached_at");
    push_str(&mut q, " FROM ");
    push_str(&mut q, table);
    push_str(&mut q, " WHERE name = $1 ORDER BY cached_at DESC LIMIT 1");
    q
}

/// Stores a result unless that version is already there; 23 parameters
/// in the order of `row_of`'s fields.
pub open spec fn insert_sql_spec(table: Seq<char>) -> Seq<char> {
    "INSERT INTO "@ + table + " (\n                name, version,\n                size, gzip, brotli,\n                total_size, total_gzip, total_brotli,\n                dependency_count, treeshakeable, module_format,\n                keywords, description, side_effects, dependency_names,\n                repository_url, homepage, license, unpacked_size,\n                has_types, monthly_downloads, node_engine, maintainers\n            ) VALUES (\n                $1, $2, $3, $4, $5, $6, $7, $8, $9, $10, $11,\n                $12, $13, $14, $15, $16, $17, $18, $19, $20, $21, $22, $23\n            ) ON CONFLICT (name, version) DO NOTHING"@
}

pub fn insert_sql(table: &str) -> (q: String)
    ensures
        q@ == insert_sql_spec(table@),
{
    let mut q = String::new();
    push_str(&mut q, "INSERT INTO ");
    push_str(&mut q, table);
    push_str(&mut q, " (\n                name, version,\n                size, gzip, brotli,\n                total_size, total_gzip, total_brotli,\n                dependency_count, treeshakeable, module_format,\n                keywords, description, side_effects, dependency_names,\n                repository_url, homepage, license, unpacked_size,\n                has_types, monthly_downloads, node_engine, maintainers\n            ) VALUES (\n                $1, $2, $3, $4, $5, $6, $7, $8, $9, $10, $11,\n                $12, $13, $14, $15, $16, $17, $18, $19, $20, $21, $22, $23\n            ) ON CONFLICT (name, version) DO NOTHING");
    q
}

/// The latest version of every package.
pub open spec fn latest_per_package(table: Seq<char>) -> Seq<char> {
    "SELECT "@ + select_cols() + " FROM (SELECT DISTINCT ON (name) * FROM "@ + table
        + " ORDER BY name, cached_at DESC) sub"@
}

fn push_latest_per_package(q: &mut String, table: &str)
    ensures
        final(q)@ == old(q)@ + latest_per_package(table@),
{
    push_str(q, "SELECT ");
    push_str(q, "name, version, size, gzip, brotli, total_size, total_gzip, total_brotli, dependency_count, treeshakeable, side_effects, module_format, keywords, description, dependency_names, repository_url, homepage, license, unpacked_size, has_types, monthly_downloads, node_engine, maintainers, cached_at");
    push_str(q, " FROM (SELECT DISTINCT ON (name) * FROM ");
    push_str(q, table);
    push_str(q, " ORDER BY name, cached_at DESC) sub");
    assert(final(q)@ =~= old(q)@ + latest_per_package(table@));
}

/// `$n`, the placeholder of the `n`-th bound parameter.
pub open spec fn placeholder(n: nat) -> Seq<char> {
    "$"@ + decimal(n)
}

/// The clause of search filter `kind` (0: name similarity, 1: keyword,
/// 2: tree-shaking, 3: types) when present, binding parameter `n + 1`;
/// with the number of parameters bound after it.
pub open spec fn filter_clause(kind: nat, present: bool, n: nat) -> (Seq<char>, nat) {
    if !present {
        (Seq::empty(), n)
    } else if kind == 0 {
        (" AND name % "@ + placeholder(n + 1), n + 1)
    } else if kind == 1 {
        (" AND "@ + placeholder(n + 1) + " = ANY(keywords)"@, n + 1)
    } else if kind == 2 {
        (" AND treeshakeable = "@ + placeholder(n + 1), n + 1)
    } else {
        (" AND has_types = "@ + placeholder(n + 1), n + 1)
    }
}

/// The filter clauses of a search for the filters present, and the number
/// of parameters they bind.
pub open spec fn search_filters(has_query: bool, has_keyword: bool, has_treeshakeable: bool, has_types: bool) -> (Seq<char>, nat) {
    let a = filter_clause(0, has_query, 0);
    let b = filter_clause(1, has_keyword, a.1);
    let c = filter_clause(2, has_treeshakeable, b.1);
    let d = filter_clause(3, has_types, c.1);
    (a.0 + b.0 + c.0 + d.0, d.1)
}

fn push_filter(q: &mut String, kind: u64, present: bool, n: u64) -> (m: u64)
    requires
        kind <= 3,
        n <= 3,
    ensures
        final(q)@ == old(q)@ + filter_clause(kind as nat, present, n as nat).0,
        m == filter_clause(kind as nat, present, n as nat).1,
        m <= n + 1,
{
    if !present {
        assert(final(q)@ =~= old(q)@ + filter_clause(kind as nat, present, n as nat).0);
        return n;
    }
    if kind == 0 {
        push_str(q, " AND name % ");
        push_placeholder(q, n + 1);
    } else if kind == 1 {
        push_str(q, " AND ");
        push_placeholder(q, n + 1);
        push_str(q, " = ANY(keywords)");
    } else if kind == 2 {
        push_str(q, " AND treeshakeable = ");
        push_placeholder(q, n + 1);
    } else {
        push_str(q, " AND has_types = ");
        push_placeholder(q, n + 1);
    }
    assert(final(q)@ =~= old(q)@ + filter_clause(kind as nat, present, n as nat).0);
    n + 1
}

/// A search over the latest versions: the filters present, ordered by the
/// whitelisted column of `sort`, descending only for the order "desc",
/// then limit and offset.  The query text, keyword, flags, limit and offset
/// are bound parameters, in that order, for those present.
pub open spec fn search_sql_spec(
    table: Seq<char>,
    has_query: bool,
    has_keyword: bool,
    has_treeshakeable: bool,
    has_types: bool,
    sort: Seq<char>,
    order: Seq<char>,
) -> Seq<char> {
    let (filters, n) = search_filters(has_query, has_keyword, has_treeshakeable, has_types);
    let dir = if order == "desc"@ {
        "DESC"@
    } else {
        "ASC"@
    };
    latest_per_package(table) + " WHERE true"@ + filters + " ORDER BY "@ + sort_col_spec(sort) + " "@
        + dir + " LIMIT "@ + placeholder(n + 1) + " OFFSET "@ + placeholder(n + 2)
}

fn push_placeholder(q: &mut String, n: u64)
    ensures
        final(q)@ == old(q)@ + placeholder(n as nat),
{
    push_str(q, "$");
    push_decimal(q, n as u128);
    assert(final(q)@ =~= old(q)@ + placeholder(n as nat));
}

/// The search query (see `search_sql_spec`).
pub fn search_sql(
    table: &str,
    has_query: bool,
    has_keyword: bool,
    has_treeshakeable: bool,
    has_types: bool,
    sort: &str,
    order: &str,
) -> (q: String)
    ensures
        q@ == search_sql_spec(table@, has_query, has_keyword, has_treeshakeable, has_types, sort@, order@),
{
    let mut q = String::new();
    push_latest_per_package(&mut q, table);
    push_str(&mut q, " WHERE true");
    let ghost start = q@;
    let n0 = push_filter(&mut q, 0, has_query, 0);
    let n1 = push_filter(&mut q, 1, has_keyword, n0);
    let n2 = push_filter(&mut q, 2, has_treeshakeable, n1);
    let n = push_filter(&mut q, 3, has_types, n2);
    let ghost filters = search_filters(has_query, has_keyword, has_treeshakeable, has_types);
    assert(q@ =~= start + filters.0 && n == filters.1);
    push_str(&mut q, " ORDER BY ");
    push_str(&mut q, sort_col(sort));
    push_str(&mut q, " ");
    push_str(&mut q, if str_eq(order, "desc") {
        "DESC"
    } else {
        "ASC"
    });
    push_str(&mut q, " LIMIT ");
    push_placeholder(&mut q, n + 1);
    push_str(&mut q, " OFFSET ");
    push_placeholder(&mut q, n + 2);
    assert(q@ =~= search_sql_spec(table@, has_query, has_keyword, has_treeshakeable, has_types, sort@, order@));
    q
}

/// The top list: latest versions ordered by the whitelisted column of
/// `sort`, descending; limit `$1`, offset `$2`.
pub open spec fn top_sql_spec(table: Seq<char>, sort: Seq<char>) -> Seq<char> {
    latest_per_package(table) + " ORDER BY "@ + sort_col_spec(sort) + " DESC LIMIT $1 OFFSET $2"@
}

pub fn top_sql(table: &str, sort: &str) -> (q: String)
    ensures
        q@ == top_sql_spec(table@, sort@),
{
    let mut q = String::new();
    push_latest_per_package(&mut q, table);
    push_str(&mut q, " ORDER BY ");
    push_str(&mut q, sort_col(sort));
    push_str(&mut q, " DESC LIMIT $1 OFFSET $2");
    q
}

/// Packages sharing keywords with package `$1`, most shared keywords
/// first, then most downloaded; at most `$2`.
pub open spec fn alternatives_sql_spec(table: Seq<char>) -> Seq<char> {
    "WITH source AS (SELECT keywords FROM "@ + table + " WHERE name = $1 ORDER BY cached_at DESC LIMIT 1), candidates AS (SELECT DISTINCT ON (name) * FROM "@ + table + "WHERE name != $1 AND keywords && (SELECT keywords FROM source)ORDER BY name, cached_at DESC)SELECT "@ + select_cols() + ", (SELECT COUNT(*) FROM unnest(candidates.keywords) kWHERE k = ANY((SELECT keywords FROM source))) AS overlapFROM candidatesORDER BY overlap DESC, monthly_downloads DESCLIMIT $2"@
}

pub fn alternatives_sql(table: &str) -> (q: String)
    ensures
        q@ == alternatives_sql_spec(table@),
{
    let mut q = String::new();
    push_str(&mut q, "WITH source AS (SELECT keywords FROM ");
    push_str(&mut q, table);
    push_str(&mut q, " WHERE name = $1 ORDER BY cached_at DESC LIMIT 1), candidates AS (SELECT DISTINCT ON (name) * FROM ");
    push_str(&mut q, table);
    push_str(&mut q, "WHERE name != $1 AND keywords && (SELECT keywords FROM source)ORDER BY name, cached_at DESC)SELECT ");
    push_str(&mut q, "name, version, size, gzip, brotli, total_size, total_gzip, total_brotli, dependency_count, treeshakeable, side_effects, module_format, keywords, description, dependency_names, repository_url, homepage, license, unpacked_size, has_types, monthly_downloads, node_engine, maintainers, cached_at");
    push_str(&mut q, ", (SELECT COUNT(*) FROM unnest(candidates.keywords) kWHERE k = ANY((SELECT keywords FROM source))) AS overlapFROM candidatesORDER BY overlap DESC, monthly_downloads DESCLIMIT $2");
    q
}


// ---------------------------------------------------------------------------
// Rows
// ---------------------------------------------------------------------------

/// The columns of a package row, as the database holds them.
pub struct RowValues {
    pub name: String,
    pub version: String,
    pub description: String,
    pub keywords: Vec<String>,
    pub size: i64,
    pub gzip: i64,
    pub brotli: i64,
    pub total_size: i64,
    pub total_gzip: i64,
    pub total_brotli: i64,
    pub dependency_count: i32,
    pub dependency_names: Vec<String>,
    pub treeshakeable: bool,
    pub side_effects: bool,
    pub module_format: String,
    pub repository_url: String,
    pub homepage: String,
    pub license: String,
    pub unpacked_size: i64,
    pub has_types: bool,
    pub monthly_downloads: i64,
    pub node_engine: String,
    pub maintainers: Vec<String>,
    pub cached_at: Timestamp,
}

/// The result a row of `ecosystem` stands for: the signed columns are
/// reinterpreted as unsigned, the module format parsed.
pub open spec fn result_of_row(row: RowValues, e: Ecosystem) -> SizeResult {
    SizeResult {
        name: row.name,
        version: row.version,
        description: row.description,
        keywords: row.keywords,
        ecosystem: e,
        size: row.size as u64,
        gzip: row.gzip as u64,
        brotli: row.brotli as u64,
        total_size: row.total_size as u64,
        total_gzip: row.total_gzip as u64,
        total_brotli: row.total_brotli as u64,
        dependency_count: row.dependency_count as u32,
        dependency_names: row.dependency_names,
        treeshakeable: row.treeshakeable,
        side_effects: row.side_effects,
        module_format: parse_module_format(row.module_format@),
        repository_url: row.repository_url,
        homepage: row.homepage,
        license: row.license,
        unpacked_size: row.unpacked_size as u64,
        has_types: row.has_types,
        monthly_downloads: row.monthly_downloads as u64,
        node_engine: row.node_engine,
        maintainers: row.maintainers,
        cached_at: row.cached_at,
    }
}

/// The result a row stands for; an unknown ecosystem is an internal error.
pub fn row_to_result(row: RowValues, ecosystem: &str) -> (r: Result<SizeResult, AppError>)
    ensures
        match r {
            Ok(res) => parse_ecosystem(ecosystem@) matches Some(e) && res == result_of_row(row, e),
            Err(AppError::Internal(m)) => parse_ecosystem(ecosystem@) is None && m@
                == "unknown ecosystem: "@ + ecosystem@,
            Err(AppError::NotFound(_)) => false,
        },
{
    let eco = match Ecosystem::from_name(ecosystem) {
        Ok(e) => e,
        Err(m) => return Err(AppError::Internal(m)),
    };
    let module_format = ModuleFormat::from_name(row.module_format.as_str());
    Ok(SizeResult {
        name: row.name,
        version: row.version,
        description: row.description,
        keywords: row.keywords,
        ecosystem: eco,
        size: row.size as u64,
        gzip: row.gzip as u64,
        brotli: row.brotli as u64,
        total_size: row.total_size as u64,
        total_gzip: row.total_gzip as u64,
        total_brotli: row.total_brotli as u64,
        dependency_count: row.dependency_count as u32,
        dependency_names: row.dependency_names,
        treeshakeable: row.treeshakeable,
        side_effects: row.side_effects,
        module_format,
        repository_url: row.repository_url,
        homepage: row.homepage,
        license: row.license,
        unpacked_size: row.unpacked_size as u64,
        has_types: row.has_types,
        monthly_downloads: row.monthly_downloads as u64,
        node_engine: row.node_engine,
        maintainers: row.maintainers,
        cached_at: row.cached_at,
    })
}

/// The results a list of rows of `ecosystem` stands for, in order.
pub open spec fn results_of_rows(rows: Seq<RowValues>, e: Ecosystem) -> Seq<SizeResult> {
    rows.map_values(|row: RowValues| result_of_row(row, e))
}

/// The results the rows of a listing stand for, in order.  No rows give no
/// results; otherwise an unknown ecosystem is an internal error.
pub fn rows_to_results(rows: Vec<RowValues>, ecosystem: &str) -> (r: Result<Vec<SizeResult>, AppError>)
    ensures
        rows@.len() == 0 ==> (r matches Ok(v) && v@.len() == 0),
        rows@.len() > 0 ==> match parse_ecosystem(ecosystem@) {
            Some(e) => (r matches Ok(v) && v@ == results_of_rows(rows@, e)),
            None => (r matches Err(AppError::Internal(m)) && m@ == "unknown ecosystem: "@ + ecosystem@),
        },
{
    let ghost all = rows@;
    let mut out: Vec<SizeResult> = Vec::new();
    for row in it: rows.into_iter()
        invariant
            it.seq() == all,
            it.index() == 0 || parse_ecosystem(ecosystem@) is Some,
            parse_ecosystem(ecosystem@) matches Some(e) ==> out@ == results_of_rows(
                all.take(it.index() as int),
                e,
            ),
            out@.len() == it.index(),
    {
        match row_to_result(row, ecosystem) {
            Ok(res) => {
                out.push(res);
                proof {
                    let e = parse_ecosystem(ecosystem@).unwrap();
                    assert(results_of_rows(all.take(it.index() + 1), e) =~= results_of_rows(
                        all.take(it.index() as int),
                        e,
                    ).push(result_of_row(all[it.index() as int], e)));
                }
            },
            Err(e) => {
                return Err(e);
            },
        }
    }
    proof {
        if let Some(e) = parse_ecosystem(ecosystem@) {
            assert(all.take(all.len() as int) =~= all);
        }
    }
    Ok(out)
}

/// The row stored for a result: the unsigned sizes reinterpreted as
/// signed, the module format by name.
pub open spec fn row_of_result(r: SizeResult) -> RowValues {
    RowValues {
        name: r.name,
        version: r.version,
        description: r.description,
        keywords: r.keywords,
        size: r.size as i64,
        gzip: r.gzip as i64,
        brotli: r.brotli as i64,
        total_size: r.total_size as i64,
        total_gzip: r.total_gzip as i64,
        total_brotli: r.total_brotli as i64,
        dependency_count: r.dependency_count as i32,
        dependency_names: r.dependency_names,
        treeshakeable: r.treeshakeable,
        side_effects: r.side_effects,
        module_format: choose|s: String| s@ == module_format_name(r.module_format),
        repository_url: r.repository_url,
        homepage: r.homepage,
        license: r.license,
        unpacked_size: r.unpacked_size as i64,
        has_types: r.has_types,
        monthly_downloads: r.monthly_downloads as i64,
        node_engine: r.node_engine,
        maintainers: r.maintainers,
        cached_at: r.cached_at,
    }
}

/// The row stored for a result (see `row_of_result`; the module format is
/// equal by its characters).
pub fn row_of(r: SizeResult) -> (row: RowValues)
    ensures
        row.module_format@ == module_format_name(r.module_format),
        row == (RowValues { module_format: row.module_format, ..row_of_result(r) }),
{
    let mut mf = String::new();
    push_str(&mut mf, r.module_format.as_str());
    RowValues {
        name: r.name,
        version: r.version,
        description: r.description,
        keywords: r.keywords,
        size: r.size as i64,
        gzip: r.gzip as i64,
        brotli: r.brotli as i64,
        total_size: r.total_size as i64,
        total_gzip: r.total_gzip as i64,
        total_brotli: r.total_brotli as i64,
        dependency_count: r.dependency_count as i32,
        dependency_names: r.dependency_names,
        treeshakeable: r.treeshakeable,
        side_effects: r.side_effects,
        module_format: mf,
        repository_url: r.repository_url,
        homepage: r.homepage,
        license: r.license,
        unpacked_size: r.unpacked_size as i64,
        has_types: r.has_types,
        monthly_downloads: r.monthly_downloads as i64,
        node_engine: r.node_engine,
        maintainers: r.maintainers,
        cached_at: r.cached_at,
    }
}

// ---------------------------------------------------------------------------
// Two-level lookup and the request-count flush
// ---------------------------------------------------------------------------

/// What a version lookup does after consulting the in-memory cache.
pub enum AfterMemory {
    /// Answer with this result.
    Hit(SizeResult),
    /// Ask the database.
    AskStore,
}

/// A memory hit is answered as is; a miss goes to the database.
pub fn after_memory(hit: Option<SizeResult>) -> (r: AfterMemory)
    ensures
        match hit {
            Some(res) => r == AfterMemory::Hit(res),
            None => r is AskStore,
        },
{
    match hit {
        Some(res) => AfterMemory::Hit(res),
        None => AfterMemory::AskStore,
    }
}

/// What a version lookup does after consulting the database.
pub enum AfterStore {
    /// Put this result in the in-memory cache and answer with it.
    Promote(SizeResult),
    /// Answer that there is no result.
    Miss,
    /// Answer with this error.
    Fail(AppError),
}

/// A database hit is promoted to the in-memory cache; a miss and an error
/// are passed on.
pub fn after_store(found: Result<Option<SizeResult>, AppError>) -> (r: AfterStore)
    ensures
        match found {
            Ok(Some(res)) => r == AfterStore::Promote(res),
            Ok(None) => r is Miss,
            Err(e) => r == AfterStore::Fail(e),
        },
{
    match found {
        Ok(Some(res)) => AfterStore::Promote(res),
        Ok(None) => AfterStore::Miss,
        Err(e) => AfterStore::Fail(e),
    }
}

/// The counts worth writing: those above zero, in order.
pub open spec fn nonzero_counts(entries: Seq<(String, String, u64)>) -> Seq<(String, String, u64)>
    decreases entries.len(),
{
    if entries.len() == 0 {
        Seq::empty()
    } else {
        let rest = nonzero_counts(entries.drop_last());
        if entries.last().2 > 0 {
            rest.push(entries.last())
        } else {
            rest
        }
    }
}

/// The request counts to write out (see `nonzero_counts`): one entry per
/// `(ecosystem, package, count)` taken from the counters.
pub fn counts_to_flush(entries: &Vec<(String, String, u64)>) -> (r: Vec<(String, String, u64)>)
    ensures
        r@ == nonzero_counts(entries@),
{
    let mut out: Vec<(String, String, u64)> = Vec::new();
    let mut i: usize = 0;
    while i < entries.len()
        invariant
            i <= entries.len(),
            out@ == nonzero_counts(entries@.take(i as int)),
        decreases entries.len() - i,
    {
        let e = &entries[i];
        assert(entries@.take(i + 1).drop_last() =~= entries@.take(i as int));
        if e.2 > 0 {
            out.push((e.0.clone(), e.1.clone(), e.2));
        }
        i = i + 1;
    }
    assert(entries@.take(entries.len() as int) =~= entries@);
    out
}

} // verus!
