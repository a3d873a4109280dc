//! Plugin manifests: the contents of a plugin's `plugin.toml`, their
//! validation, and plugin errors.

use vstd::prelude::*;
use crate::text::{chars_of, string_of, push_lit, str_has_char, str_contains, str_starts_with,
    contains_seq, has_prefix, opt_view};

verus! {

/// Default fuel limit of WASM plugins (instructions per evaluation).
pub const DEFAULT_FUEL_LIMIT: u64 = 10_000_000;

/// Default memory limit of WASM plugin instances (megabytes).
pub const DEFAULT_MEMORY_LIMIT_MB: u32 = 64;

/// The kind of extension a plugin provides.
#[derive(Debug, Clone, Copy, PartialEq, Eq, Structural)]
pub enum PluginKind {
    Rule,
    Exporter,
    PostProcessor,
    UiExtension,
}

pub open spec fn plugin_kind_code(k: PluginKind) -> Seq<char> {
    match k {
        PluginKind::Rule => "rule"@,
        PluginKind::Exporter => "exporter"@,
        PluginKind::PostProcessor => "post_processor"@,
        PluginKind::UiExtension => "ui_extension"@,
    }
}

impl PluginKind {
    /// The kind's name (`rule`, `exporter`, `post_processor`,
    /// `ui_extension`).
    pub fn as_str(&self) -> (r: &'static str)
        ensures
            r@ == plugin_kind_code(*self),
    {
        match self {
            PluginKind::Rule => "rule",
            PluginKind::Exporter => "exporter",
            PluginKind::PostProcessor => "post_processor",
            PluginKind::UiExtension => "ui_extension",
        }
    }
}

/// Sandboxing capabilities a plugin can request. WASM plugins get only
/// those they declare; native plugins have full access.
#[derive(Debug, Clone, Copy, PartialEq, Eq, Structural)]
pub enum Capability {
    /// Outbound HTTP GET requests.
    HttpRead,
    /// Read-only SQL against the crawl database.
    DbRead,
    /// Reading files in the plugin's own directory.
    FsReadPluginDir,
    /// Log messages to the host.
    Log,
}

pub open spec fn capability_code(c: Capability) -> Seq<char> {
    match c {
        Capability::HttpRead => "http_read"@,
        Capability::DbRead => "db_read"@,
        Capability::FsReadPluginDir => "fs_read_plugin_dir"@,
        Capability::Log => "log"@,
    }
}

impl Capability {
    pub fn as_str(&self) -> (r: &'static str)
        ensures
            r@ == capability_code(*self),
    {
        match self {
            Capability::HttpRead => "http_read",
            Capability::DbRead => "db_read",
            Capability::FsReadPluginDir => "fs_read_plugin_dir",
            Capability::Log => "log",
        }
    }
}

/// Configuration of a WASM plugin.
#[derive(Debug, Clone)]
pub struct WasmConfig {
    /// The `.wasm` file, relative to the plugin directory.
    pub module: String,
    /// Fuel limit (instructions per call).
    pub fuel_limit: Option<u64>,
    /// Memory limit in megabytes.
    pub memory_limit_mb: Option<u32>,
}

impl WasmConfig {
    /// The fuel limit, defaulting to 10 million.
    pub fn fuel_limit(&self) -> (r: u64)
        ensures
            r == match self.fuel_limit {
                Some(f) => f,
                None => DEFAULT_FUEL_LIMIT,
            },
    {
        match self.fuel_limit {
            Some(f) => f,
            None => DEFAULT_FUEL_LIMIT,
        }
    }

    /// The memory limit in megabytes, defaulting to 64.
    pub fn memory_limit_mb(&self) -> (r: u32)
        ensures
            r == match self.memory_limit_mb {
                Some(m) => m,
                None => DEFAULT_MEMORY_LIMIT_MB,
            },
    {
        match self.memory_limit_mb {
            Some(m) => m,
            None => DEFAULT_MEMORY_LIMIT_MB,
        }
    }
}

/// Configuration of a native (dynamic library) plugin.
#[derive(Debug, Clone)]
pub struct NativeConfig {
    /// The library file, relative to the plugin directory.
    pub library: String,
    /// Must be true to load: native plugins run arbitrary code.
    pub trusted: bool,
}

/// Errors of plugin operations.
#[derive(Debug, Clone)]
pub enum PluginError {
    ManifestParse(String),
    IncompatibleVersion { required: String, current: String },
    EmptyName,
    InvalidName,
    DualRuntime,
    NoRuntime,
    InvalidPath { field: String },
    NotFound(String),
    WasmLoad(String),
    NativeLoad(String),
    Io(String),
    NotTrusted(String),
    Storage(String),
}

pub open spec fn plugin_error_message(e: PluginError) -> Seq<char> {
    match e {
        PluginError::ManifestParse(m) => "manifest parse error: "@ + m@,
        PluginError::IncompatibleVersion { required, current } => "incompatible app version: plugin requires "@
            + required@ + ", app is "@ + current@,
        PluginError::EmptyName => "plugin name must not be empty"@,
        PluginError::InvalidName => "plugin name must contain only [a-zA-Z0-9_-] characters"@,
        PluginError::DualRuntime => "plugin cannot specify both [wasm] and [native] sections"@,
        PluginError::NoRuntime => "plugin must specify either [wasm] or [native] section"@,
        PluginError::InvalidPath { field } => field@ + " must be a simple filename without path separators"@,
        PluginError::NotFound(m) => "plugin not found: "@ + m@,
        PluginError::WasmLoad(m) => "WASM load error: "@ + m@,
        PluginError::NativeLoad(m) => "native load error: "@ + m@,
        PluginError::Io(m) => "plugin I/O error: "@ + m@,
        PluginError::NotTrusted(m) => "plugin not trusted: "@ + m@,
        PluginError::Storage(m) => "storage error: "@ + m@,
    }
}

impl PluginError {
    /// The error's message.
    pub fn message(&self) -> (r: String)
        ensures
            r@ == plugin_error_message(*self),
    {
        let mut v: Vec<char> = Vec::new();
        match self {
            PluginError::ManifestParse(m) => {
                push_lit(&mut v, "manifest parse error: ");
                push_lit(&mut v, m.as_str());
            },
            PluginError::IncompatibleVersion { required, current } => {
                push_lit(&mut v, "incompatible app version: plugin requires ");
                push_lit(&mut v, required.as_str());
                push_lit(&mut v, ", app is ");
                push_lit(&mut v, current.as_str());
            },
            PluginError::EmptyName => push_lit(&mut v, "plugin name must not be empty"),
            PluginError::InvalidName => push_lit(&mut v, "plugin name must contain only [a-zA-Z0-9_-] characters"),
            PluginError::DualRuntime => push_lit(&mut v, "plugin cannot specify both [wasm] and [native] sections"),
            PluginError::NoRuntime => push_lit(&mut v, "plugin must specify either [wasm] or [native] section"),
            PluginError::InvalidPath { field } => {
                push_lit(&mut v, field.as_str());
                push_lit(&mut v, " must be a simple filename without path separators");
            },
            PluginError::NotFound(m) => {
                push_lit(&mut v, "plugin not found: ");
                push_lit(&mut v, m.as_str());
            },
            PluginError::WasmLoad(m) => {
                push_lit(&mut v, "WASM load error: ");
                push_lit(&mut v, m.as_str());
            },
            PluginError::NativeLoad(m) => {
                push_lit(&mut v, "native load error: ");
                push_lit(&mut v, m.as_str());
            },
            PluginError::Io(m) => {
                push_lit(&mut v, "plugin I/O error: ");
                push_lit(&mut v, m.as_str());
            },
            PluginError::NotTrusted(m) => {
                push_lit(&mut v, "plugin not trusted: ");
                push_lit(&mut v, m.as_str());
            },
            PluginError::Storage(m) => {
                push_lit(&mut v, "storage error: ");
                push_lit(&mut v, m.as_str());
            },
        }
        string_of(&v)
    }
}

/// A parsed `plugin.toml`. The version and the required app version are
/// kept in their canonical text form.
#[derive(Debug, Clone)]
pub struct PluginManifest {
    /// Unique plugin name (directory name and storage key).
    pub name: String,
    /// Semver version.
    pub version: String,
    pub description: String,
    pub author: Option<String>,
    pub license: Option<String>,
    /// Semver requirement on the app version.
    pub min_app_version: String,
    pub kind: PluginKind,
    pub capabilities: Vec<Capability>,
    pub wasm: Option<WasmConfig>,
    pub native: Option<NativeConfig>,
}

/// The runtime of a validated manifest.
#[derive(Debug, Clone)]
pub enum PluginRuntime<'a> {
    Wasm(&'a WasmConfig),
    Native(&'a NativeConfig),
}

/// Whether a version satisfies a semver requirement: `None` when either
/// text is not valid semver.
pub uninterp spec fn semver_match(req: Seq<char>, version: Seq<char>) -> Option<bool>;

/// Parses the requirement with `semver::VersionReq::parse` and the version
/// with `semver::Version::parse` and calls `VersionReq::matches`. The
/// contract names the outcome as a function of the two texts.
#[verifier::external_body]
fn version_matches(req: &str, version: &str) -> (r: Option<bool>)
    ensures
        r == semver_match(req@, version@),
{
    let req = semver::VersionReq::parse(req).ok()?;
    let version = semver::Version::parse(version).ok()?;
    Some(req.matches(&version))
}

/// The canonical text of a semver version, `None` when the text is not one.
pub uninterp spec fn semver_version_text(t: Seq<char>) -> Option<Seq<char>>;

/// The canonical text of a semver requirement, `None` when the text is not
/// one.
pub uninterp spec fn semver_req_text(t: Seq<char>) -> Option<Seq<char>>;

/// Parses the text with `semver::Version::parse` and prints the version
/// with its `Display`; the error is `semver::Error`'s message. The
/// canonical text is named as a function of the input; the error message
/// is not stated.
#[verifier::external_body]
fn canonical_version(t: &str) -> (r: Result<String, String>)
    ensures
        match r {
            Ok(v) => semver_version_text(t@) == Some(v@),
            Err(_) => semver_version_text(t@) is None,
        },
{
    semver::Version::parse(t).map(|v| v.to_string()).map_err(|e| e.to_string())
}

/// Parses the text with `semver::VersionReq::parse` and prints the
/// requirement with its `Display`; the error is `semver::Error`'s message.
/// The canonical text is named as a function of the input; the error
/// message is not stated.
#[verifier::external_body]
fn canonical_req(t: &str) -> (r: Result<String, String>)
    ensures
        match r {
            Ok(q) => semver_req_text(t@) == Some(q@),
            Err(_) => semver_req_text(t@) is None,
        },
{
    semver::VersionReq::parse(t).map(|q| q.to_string()).map_err(|e| e.to_string())
}

/// A manifest's version and minimum app version in canonical semver form;
/// `ManifestParse` when either is not valid semver (the version is checked
/// first).
pub fn canonical_versions(version: &str, min_app_version: &str) -> (r: Result<(String, String), PluginError>)
    ensures
        match r {
            Ok((v, q)) => semver_version_text(version@) == Some(v@) && semver_req_text(min_app_version@) == Some(q@),
            Err(e) => (e is ManifestParse) && (semver_version_text(version@) is None || semver_req_text(
                min_app_version@,
            ) is None),
        },
{
    let v = match canonical_version(version) {
        Ok(v) => v,
        Err(m) => return Err(PluginError::ManifestParse(m)),
    };
    let q = match canonical_req(min_app_version) {
        Ok(q) => q,
        Err(m) => return Err(PluginError::ManifestParse(m)),
    };
    Ok((v, q))
}

/// A file name a manifest may point at: not empty, without `/`, `\` or
/// `..`, not starting with `.`.
pub open spec fn simple_filename(path: Seq<char>) -> bool {
    &&& path.len() > 0
    &&& !path.contains('/')
    &&& !path.contains('\\')
    &&& !contains_seq(path, ".."@)
    &&& !has_prefix(path, "."@)
}

/// Check that a path is a simple file name (no directory traversal).
pub fn validate_relative_filename(path: &str, field_name: &str) -> (r: Result<(), PluginError>)
    ensures
        match r {
            Ok(()) => simple_filename(path@),
            Err(e) => !simple_filename(path@) && (e matches PluginError::InvalidPath { field } && field@ == field_name@),
        },
{
    if path.is_empty() || str_has_char(path, '/') || str_has_char(path, '\\') || str_contains(path, "..")
        || str_starts_with(path, ".") {
        return Err(PluginError::InvalidPath { field: string_of(&chars_of(field_name)) });
    }
    Ok(())
}

/// Characters allowed in plugin names.
pub open spec fn name_char(c: char) -> bool {
    ('a' <= c <= 'z') || ('A' <= c <= 'Z') || ('0' <= c <= '9') || c == '-' || c == '_'
}

/// A plugin name: ASCII letters, digits, `-` and `_` only.
pub open spec fn valid_name_chars(s: Seq<char>) -> bool {
    forall|i: int| 0 <= i < s.len() ==> name_char(#[trigger] s[i])
}

fn name_is_valid(s: &str) -> (r: bool)
    ensures
        r == valid_name_chars(s@),
{
    let cs = chars_of(s);
    let mut i: usize = 0;
    while i < cs.len()
        invariant
            i <= cs@.len(),
            cs@ == s@,
            forall|j: int| 0 <= j < i ==> name_char(#[trigger] cs@[j]),
        decreases cs.len() - i,
    {
        let c = cs[i];
        if !(('a' <= c && c <= 'z') || ('A' <= c && c <= 'Z') || ('0' <= c && c <= '9') || c == '-' || c == '_') {
            return false;
        }
        i = i + 1;
    }
    true
}

impl PluginManifest {
    /// Validate the manifest for the given app version. Reports, in this
    /// order: an unmet (or unreadable) version requirement, an empty name,
    /// a name with other than ASCII letters, digits, `-` and `_`, a runtime
    /// file that is not a simple file name, both runtimes, no runtime.
    pub fn validate(&self, app_version: &str) -> (r: Result<(), PluginError>)
        ensures
            semver_match(self.min_app_version@, app_version@) != Some(true) ==> (r matches Err(
                PluginError::IncompatibleVersion { required, current },
            ) && required@ == self.min_app_version@ && current@ == app_version@),
            semver_match(self.min_app_version@, app_version@) == Some(true) ==> {
                if self.name@.len() == 0 {
                    r matches Err(PluginError::EmptyName)
                } else if !valid_name_chars(self.name@) {
                    r matches Err(PluginError::InvalidName)
                } else if self.wasm matches Some(w) && !simple_filename(w.module@) {
                    (r matches Err(PluginError::InvalidPath { field }) && field@ == "wasm.module"@)
                } else if self.native matches Some(n) && !simple_filename(n.library@) {
                    (r matches Err(PluginError::InvalidPath { field }) && field@ == "native.library"@)
                } else if self.wasm is Some && self.native is Some {
                    r matches Err(PluginError::DualRuntime)
                } else if self.wasm is None && self.native is None {
                    r matches Err(PluginError::NoRuntime)
                } else {
                    r is Ok
                }
            },
            r is Ok ==> (self.wasm is Some) != (self.native is Some),
    {
        if version_matches(self.min_app_version.as_str(), app_version) != Some(true) {
            return Err(
                PluginError::IncompatibleVersion {
                    required: self.min_app_version.clone(),
                    current: string_of(&chars_of(app_version)),
                },
            );
        }
        if self.name.as_str().is_empty() {
            return Err(PluginError::EmptyName);
        }
        if !name_is_valid(self.name.as_str()) {
            return Err(PluginError::InvalidName);
        }
        if let Some(w) = &self.wasm {
            validate_relative_filename(w.module.as_str(), "wasm.module")?;
        }
        if let Some(n) = &self.native {
            validate_relative_filename(n.library.as_str(), "native.library")?;
        }
        if self.wasm.is_some() && self.native.is_some() {
            return Err(PluginError::DualRuntime);
        }
        if self.wasm.is_none() && self.native.is_none() {
            return Err(PluginError::NoRuntime);
        }
        Ok(())
    }

    /// The runtime of a validated manifest (WASM when given, else native).
    pub fn runtime(&self) -> (r: PluginRuntime<'_>)
        requires
            self.wasm is Some || self.native is Some,
        ensures
            match self.wasm {
                Some(w) => (r matches PluginRuntime::Wasm(x) && *x == w),
                None => (r matches PluginRuntime::Native(x) && Some(*x) == self.native),
            },
    {
        match &self.wasm {
            Some(w) => PluginRuntime::Wasm(w),
            None => PluginRuntime::Native(self.native.as_ref().unwrap()),
        }
    }

    /// Whether this is a WASM plugin.
    pub fn is_wasm(&self) -> (r: bool)
        ensures
            r == self.wasm is Some,
    {
        self.wasm.is_some()
    }

    /// Whether this is a native plugin.
    pub fn is_native(&self) -> (r: bool)
        ensures
            r == self.native is Some,
    {
        self.native.is_some()
    }
}

} // verus!
