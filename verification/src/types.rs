//! The domain types: ecosystems, module formats, the analysed package
//! result, errors and cache statistics.
use vstd::prelude::*;

use crate::text::{push_str, str_eq};

verus! {

/// A package ecosystem.
#[derive(Debug, Clone, Copy, PartialEq, Eq, Structural, Hash)]
pub enum Ecosystem {
    Npm,
    Maven,
    Composer,
    PyPI,
    Cargo,
}

/// The lowercase name of an ecosystem, as written in URLs and JSON.
pub open spec fn ecosystem_name(e: Ecosystem) -> Seq<char> {
    match e {
        Ecosystem::Npm => "npm"@,
        Ecosystem::Maven => "maven"@,
        Ecosystem::Composer => "composer"@,
        Ecosystem::PyPI => "pypi"@,
        Ecosystem::Cargo => "cargo"@,
    }
}

/// The ecosystem named `s`, if any.
pub open spec fn parse_ecosystem(s: Seq<char>) -> Option<Ecosystem> {
    if s == "npm"@ {
        Some(Ecosystem::Npm)
    } else if s == "maven"@ {
        Some(Ecosystem::Maven)
    } else if s == "composer"@ {
        Some(Ecosystem::Composer)
    } else if s == "pypi"@ {
        Some(Ecosystem::PyPI)
    } else if s == "cargo"@ {
        Some(Ecosystem::Cargo)
    } else {
        None
    }
}

impl Ecosystem {
    /// The lowercase name, as the ecosystem is written in paths and messages.
    pub fn as_str(&self) -> (s: &'static str)
        ensures
            s@ == ecosystem_name(*self),
    {
        match self {
            Ecosystem::Npm => "npm",
            Ecosystem::Maven => "maven",
            Ecosystem::Composer => "composer",
            Ecosystem::PyPI => "pypi",
            Ecosystem::Cargo => "cargo",
        }
    }

    /// Parses a lowercase ecosystem name; any other text is refused with
    /// `unknown ecosystem: <text>`.
    pub fn from_name(s: &str) -> (r: Result<Ecosystem, String>)
        ensures
            match r {
                Ok(e) => parse_ecosystem(s@) == Some(e),
                Err(m) => parse_ecosystem(s@) is None && m@ == "unknown ecosystem: "@ + s@,
            },
    {
        if str_eq(s, "npm") {
            Ok(Ecosystem::Npm)
        } else if str_eq(s, "maven") {
            Ok(Ecosystem::Maven)
        } else if str_eq(s, "composer") {
            Ok(Ecosystem::Composer)
        } else if str_eq(s, "pypi") {
            Ok(Ecosystem::PyPI)
        } else if str_eq(s, "cargo") {
            Ok(Ecosystem::Cargo)
        } else {
            let mut m = String::new();
            push_str(&mut m, "unknown ecosystem: ");
            push_str(&mut m, s);
            Err(m)
        }
    }
}

impl std::str::FromStr for Ecosystem {
    type Err = String;

    fn from_str(s: &str) -> (r: Result<Self, Self::Err>)
        ensures
            match r {
                Ok(e) => parse_ecosystem(s@) == Some(e),
                Err(m) => parse_ecosystem(s@) is None && m@ == "unknown ecosystem: "@ + s@,
            },
    {
        Ecosystem::from_name(s)
    }
}

/// The module format a package ships.
#[derive(Debug, Clone, Copy, PartialEq, Eq, Structural)]
pub enum ModuleFormat {
    Esm,
    Cjs,
    Dual,
    Umd,
    Unknown,
}

/// The lowercase name of a module format, as written in JSON and in the
/// database.
pub open spec fn module_format_name(m: ModuleFormat) -> Seq<char> {
    match m {
        ModuleFormat::Esm => "esm"@,
        ModuleFormat::Cjs => "cjs"@,
        ModuleFormat::Dual => "dual"@,
        ModuleFormat::Umd => "umd"@,
        ModuleFormat::Unknown => "unknown"@,
    }
}

/// The module format named `s`; unrecognised names are `Unknown`.
pub open spec fn parse_module_format(s: Seq<char>) -> ModuleFormat {
    if s == "esm"@ {
        ModuleFormat::Esm
    } else if s == "cjs"@ {
        ModuleFormat::Cjs
    } else if s == "dual"@ {
        ModuleFormat::Dual
    } else if s == "umd"@ {
        ModuleFormat::Umd
    } else {
        ModuleFormat::Unknown
    }
}

impl ModuleFormat {
    pub fn as_str(&self) -> (s: &'static str)
        ensures
            s@ == module_format_name(*self),
    {
        match self {
            ModuleFormat::Esm => "esm",
            ModuleFormat::Cjs => "cjs",
            ModuleFormat::Dual => "dual",
            ModuleFormat::Umd => "umd",
            ModuleFormat::Unknown => "unknown",
        }
    }

    /// Parses a module format name; anything unrecognised is `Unknown`.
    pub fn from_name(s: &str) -> (m: ModuleFormat)
        ensures
            m == parse_module_format(s@),
    {
        if str_eq(s, "esm") {
            ModuleFormat::Esm
        } else if str_eq(s, "cjs") {
            ModuleFormat::Cjs
        } else if str_eq(s, "dual") {
            ModuleFormat::Dual
        } else if str_eq(s, "umd") {
            ModuleFormat::Umd
        } else {
            ModuleFormat::Unknown
        }
    }
}

impl std::str::FromStr for ModuleFormat {
    type Err = std::convert::Infallible;

    fn from_str(s: &str) -> (r: Result<Self, Self::Err>)
        ensures
            r == Ok::<ModuleFormat, std::convert::Infallible>(parse_module_format(s@)),
    {
        Ok(ModuleFormat::from_name(s))
    }
}

/// A point in time: seconds since the Unix epoch and nanoseconds within the
/// second.
#[derive(Debug, Clone, Copy, PartialEq, Eq, Structural)]
pub struct Timestamp {
    pub secs: i64,
    pub nanos: u32,
}

/// The analysis of one package version: sizes, dependencies and metadata.
#[derive(Debug, Clone)]
pub struct SizeResult {
    pub name: String,
    pub version: String,
    pub description: String,
    pub keywords: Vec<String>,
    pub ecosystem: Ecosystem,
    pub size: u64,
    pub gzip: u64,
    pub brotli: u64,
    pub total_size: u64,
    pub total_gzip: u64,
    pub total_brotli: u64,
    pub dependency_count: u32,
    pub dependency_names: Vec<String>,
    pub treeshakeable: bool,
    pub side_effects: bool,
    pub module_format: ModuleFormat,
    pub repository_url: String,
    pub homepage: String,
    pub license: String,
    pub unpacked_size: u64,
    pub has_types: bool,
    pub monthly_downloads: u64,
    pub node_engine: String,
    pub maintainers: Vec<String>,
    pub cached_at: Timestamp,
}

/// Errors that the service answers with.
#[derive(Debug, Clone)]
pub enum AppError {
    /// Something asked for does not exist (HTTP 404).
    NotFound(String),
    /// The service itself failed (HTTP 500).
    Internal(String),
}

/// The HTTP status of an error.
pub open spec fn error_status(e: AppError) -> u16 {
    match e {
        AppError::NotFound(_) => 404,
        AppError::Internal(_) => 500,
    }
}

impl AppError {
    pub fn status(&self) -> (s: u16)
        ensures
            s == error_status(*self),
    {
        match self {
            AppError::NotFound(_) => 404,
            AppError::Internal(_) => 500,
        }
    }

    /// The message carried by the error.
    pub fn message(&self) -> (m: &str)
        ensures
            m@ == match *self {
                AppError::NotFound(s) => s@,
                AppError::Internal(s) => s@,
            },
    {
        match self {
            AppError::NotFound(s) => s.as_str(),
            AppError::Internal(s) => s.as_str(),
        }
    }
}

/// Statistics of the in-memory cache.
pub struct CacheStats {
    pub l1_entries: u64,
}

} // verus!
