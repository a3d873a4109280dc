//! The registry of installed plugins: which are known, which are enabled,
//! the last load error of each, and how a rule plugin is to be loaded.
//! Reading directories, the database and loading code are the caller's.

use vstd::prelude::*;
use crate::manifest::{PluginError, PluginKind, PluginManifest, PluginRuntime, WasmConfig, NativeConfig};
use crate::text::{opt_view, push_lit, str_eq, string_of};
use crate::types::{RuleCategory, Severity};

verus! {

/// A discovered plugin: its manifest, its directory and whether it is
/// enabled.
#[derive(Debug)]
pub struct LoadedPlugin {
    pub manifest: PluginManifest,
    pub dir: String,
    pub enabled: bool,
}

/// Summary info about a plugin (for list views).
#[derive(Debug, Clone)]
pub struct PluginInfo {
    pub name: String,
    pub version: String,
    pub description: String,
    pub kind: PluginKind,
    pub enabled: bool,
    pub is_native: bool,
    /// Last load error, if any.
    pub load_error: Option<String>,
}

/// Host for native (dynamic library) plugins; loading the library is the
/// caller's, and only for trusted plugins.
pub struct NativePluginHost;

/// A plugin-provided export format.
pub trait PluginExporter {
    /// Human-readable format name (e.g., "Markdown Report").
    fn format_name(&self) -> &str;

    /// File extension for the exported file (e.g., "md").
    fn file_extension(&self) -> &str;

    /// Export crawl data given as JSON to `output_path`; the number of
    /// bytes written.
    fn export(&self, data_json: &str, output_path: &str) -> Result<u64, String>;
}

/// The position of the plugin of that name (the last one, should there be
/// several).
pub open spec fn find_name(s: Seq<LoadedPlugin>, name: Seq<char>) -> Option<int>
    decreases s.len(),
{
    if s.len() == 0 {
        None
    } else if s.last().manifest.name@ == name {
        Some(s.len() - 1)
    } else {
        find_name(s.drop_last(), name)
    }
}

proof fn lemma_find_name(s: Seq<LoadedPlugin>, name: Seq<char>)
    ensures
        match find_name(s, name) {
            Some(i) => 0 <= i < s.len() && s[i].manifest.name@ == name,
            None => forall|k: int| 0 <= k < s.len() ==> (#[trigger] s[k]).manifest.name@ != name,
        },
    decreases s.len(),
{
    if s.len() > 0 {
        lemma_find_name(s.drop_last(), name);
        if s.last().manifest.name@ != name {
            assert forall|k: int| 0 <= k < s.len() - 1 implies (#[trigger] s[k]).manifest.name@ == s.drop_last()[k].manifest.name@ by {}
        }
    }
}

/// The last load error recorded for a plugin.
pub open spec fn error_for(errs: Seq<(Seq<char>, Seq<char>)>, name: Seq<char>) -> Option<Seq<char>>
    decreases errs.len(),
{
    if errs.len() == 0 {
        None
    } else if errs.last().0 == name {
        Some(errs.last().1)
    } else {
        error_for(errs.drop_last(), name)
    }
}

/// The names of the enabled rule plugins, in order.
pub open spec fn enabled_rules(s: Seq<LoadedPlugin>) -> Seq<Seq<char>>
    decreases s.len(),
{
    if s.len() == 0 {
        Seq::empty()
    } else {
        let rest = enabled_rules(s.drop_last());
        if s.last().enabled && s.last().manifest.kind == PluginKind::Rule {
            rest.push(s.last().manifest.name@)
        } else {
            rest
        }
    }
}

/// Plugin names occur once, and each manifest names a runtime.
pub open spec fn registry_wf(s: Seq<LoadedPlugin>) -> bool {
    &&& forall|i: int, j: int|
        0 <= i < s.len() && 0 <= j < s.len() && i != j ==> (#[trigger] s[i]).manifest.name@ != (#[trigger] s[j]).manifest.name@
    &&& forall|i: int| 0 <= i < s.len() ==> ((#[trigger] s[i]).manifest.wasm is Some || s[i].manifest.native is Some)
}

/// Manages plugin state: the discovered plugins and their load errors.
pub struct PluginManager {
    plugins_dir: String,
    plugins: Vec<LoadedPlugin>,
    load_errors: Vec<(String, String)>,
}

/// How a rule plugin is to be loaded.
#[derive(Debug)]
pub enum RuleLoad {
    /// Load the library `library` of the plugin directory `dir`.
    Native { dir: String, library: String },
    /// Compile the module `module` of `dir` and adapt it as a rule.
    Wasm {
        dir: String,
        module: String,
        plugin_name: String,
        id: String,
        name: String,
        category: RuleCategory,
        default_severity: Severity,
        fuel_limit: u64,
    },
}

/// How the rule of a plugin is loaded: a native plugin only when trusted;
/// a WASM plugin as rule `plugin.<name>`, named by its description, in the
/// structured-data category with warning severity and the module's fuel
/// limit.
pub fn rule_load_plan(name: &str, plugin: &LoadedPlugin) -> (r: Result<RuleLoad, PluginError>)
    requires
        plugin.manifest.wasm is Some || plugin.manifest.native is Some,
    ensures
        match plugin.manifest.wasm {
            Some(w) => r matches Ok(RuleLoad::Wasm { dir, module, plugin_name, id, name: rule_name, category, default_severity, fuel_limit })
                && dir@ == plugin.dir@ && module@ == w.module@ && plugin_name@ == name@
                && id@ == "plugin."@ + name@ && rule_name@ == plugin.manifest.description@
                && category == RuleCategory::Structured && default_severity == Severity::Warning
                && fuel_limit == (match w.fuel_limit {
                    Some(f) => f,
                    None => crate::manifest::DEFAULT_FUEL_LIMIT,
                }),
            None => {
                let n = plugin.manifest.native.unwrap();
                if n.trusted {
                    r matches Ok(RuleLoad::Native { dir, library }) && dir@ == plugin.dir@ && library@ == n.library@
                } else {
                    r matches Err(PluginError::NotTrusted(m)) && m@ == name@
                }
            },
        },
{
    match plugin.manifest.runtime() {
        PluginRuntime::Native(native_config) => {
            if !native_config.trusted {
                return Err(PluginError::NotTrusted(String::from_str(name)));
            }
            Ok(RuleLoad::Native { dir: plugin.dir.clone(), library: native_config.library.clone() })
        },
        PluginRuntime::Wasm(wasm_config) => {
            let mut id: Vec<char> = Vec::new();
            push_lit(&mut id, "plugin.");
            push_lit(&mut id, name);
            Ok(RuleLoad::Wasm {
                dir: plugin.dir.clone(),
                module: wasm_config.module.clone(),
                plugin_name: String::from_str(name),
                id: string_of(&id),
                name: plugin.manifest.description.clone(),
                category: RuleCategory::Structured,
                default_severity: Severity::Warning,
                fuel_limit: wasm_config.fuel_limit(),
            })
        },
    }
}

impl PluginManager {
    /// The discovered plugins, in discovery order.
    pub closed spec fn entries(self) -> Seq<LoadedPlugin> {
        self.plugins@
    }

    /// The recorded load errors, oldest first.
    pub closed spec fn errors(self) -> Seq<(Seq<char>, Seq<char>)> {
        self.load_errors@.map_values(|e: (String, String)| (e.0@, e.1@))
    }

    /// The plugins directory.
    pub closed spec fn dir_view(self) -> Seq<char> {
        self.plugins_dir@
    }

    pub open spec fn wf(self) -> bool {
        registry_wf(self.entries())
    }

    /// A manager with no plugins; discovery is the caller's.
    pub fn new(plugins_dir: String) -> (r: Self)
        ensures
            r.wf(),
            r.entries().len() == 0,
            r.errors().len() == 0,
            r.dir_view() == plugins_dir@,
    {
        let r = PluginManager { plugins_dir, plugins: Vec::new(), load_errors: Vec::new() };
        assert(r.errors() =~= Seq::<(Seq<char>, Seq<char>)>::empty());
        r
    }

    /// The plugins directory.
    pub fn plugins_dir(&self) -> (r: &str)
        ensures
            r@ == self.dir_view(),
    {
        self.plugins_dir.as_str()
    }

    /// Forget all discovered plugins (before a new scan).
    pub fn clear(&mut self)
        ensures
            final(self).wf(),
            final(self).entries().len() == 0,
            final(self).errors() == old(self).errors(),
            final(self).dir_view() == old(self).dir_view(),
    {
        self.plugins = Vec::new();
    }

    fn find(&self, name: &str) -> (r: Option<usize>)
        ensures
            match r {
                Some(k) => find_name(self.entries(), name@) == Some(k as int),
                None => find_name(self.entries(), name@) is None,
            },
    {
        let mut i: usize = self.plugins.len();
        assert(self.entries().take(i as int) =~= self.entries());
        while i > 0
            invariant
                i <= self.plugins@.len(),
                find_name(self.entries(), name@) == find_name(self.entries().take(i as int), name@),
            decreases i,
        {
            let ghost t = self.entries().take(i as int);
            assert(t.drop_last() =~= self.entries().take(i - 1));
            if str_eq(self.plugins[i - 1].manifest.name.as_str(), name) {
                return Some(i - 1);
            }
            i = i - 1;
        }
        None
    }

    /// The plugin of that name.
    pub fn get(&self, name: &str) -> (r: Option<&LoadedPlugin>)
        ensures
            match find_name(self.entries(), name@) {
                Some(i) => r == Some(&self.entries()[i]),
                None => r is None,
            },
    {
        proof {
            lemma_find_name(self.entries(), name@);
        }
        match self.find(name) {
            Some(i) => Some(&self.plugins[i]),
            None => None,
        }
    }

    /// Add a discovered or installed plugin, replacing one of the same
    /// name. Returns its name.
    pub fn insert(&mut self, manifest: PluginManifest, dir: String, enabled: bool) -> (r: String)
        requires
            old(self).wf(),
            manifest.wasm is Some || manifest.native is Some,
        ensures
            final(self).wf(),
            r@ == manifest.name@,
            match find_name(old(self).entries(), manifest.name@) {
                Some(i) => final(self).entries() == old(self).entries().update(i, LoadedPlugin { manifest, dir, enabled }),
                None => final(self).entries() == old(self).entries().push(LoadedPlugin { manifest, dir, enabled }),
            },
            final(self).errors() == old(self).errors(),
            final(self).dir_view() == old(self).dir_view(),
    {
        let name = manifest.name.clone();
        proof {
            lemma_find_name(self.entries(), manifest.name@);
        }
        let ghost entry = LoadedPlugin { manifest, dir, enabled };
        match self.find(name.as_str()) {
            Some(i) => {
                self.plugins.remove(i);
                self.plugins.insert(i, LoadedPlugin { manifest, dir, enabled });
                assert(self.entries() =~= old(self).entries().update(i as int, entry));
                proof {
                    let o = old(self).entries();
                    let f = self.entries();
                    assert forall|a: int| 0 <= a < f.len() implies (#[trigger] f[a]).manifest.name@ == o[a].manifest.name@
                        && (f[a].manifest.wasm is Some || f[a].manifest.native is Some) by {
                        if a != i {
                            assert(f[a] == o[a]);
                        }
                    }
                    assert forall|a: int, b: int|
                        0 <= a < f.len() && 0 <= b < f.len() && a != b implies (#[trigger] f[a]).manifest.name@ != (#[trigger] f[b]).manifest.name@ by {
                        assert(f[a].manifest.name@ == o[a].manifest.name@);
                        assert(f[b].manifest.name@ == o[b].manifest.name@);
                        assert(o[a].manifest.name@ != o[b].manifest.name@);
                    }
                }
            },
            None => {
                self.plugins.push(LoadedPlugin { manifest, dir, enabled });
                proof {
                    let o = old(self).entries();
                    let f = self.entries();
                    assert(f =~= o.push(entry));
                    assert forall|a: int| 0 <= a < f.len() implies ((#[trigger] f[a]).manifest.wasm is Some || f[a].manifest.native is Some) by {
                        if a < o.len() {
                            assert(f[a] == o[a]);
                        }
                    }
                    assert forall|a: int, b: int|
                        0 <= a < f.len() && 0 <= b < f.len() && a != b implies (#[trigger] f[a]).manifest.name@ != (#[trigger] f[b]).manifest.name@ by {
                        if a < o.len() && b < o.len() {
                            assert(f[a] == o[a]);
                            assert(f[b] == o[b]);
                            assert(o[a].manifest.name@ != o[b].manifest.name@);
                        } else if a < o.len() {
                            assert(f[a] == o[a]);
                            assert(o[a].manifest.name@ != entry.manifest.name@);
                        } else {
                            assert(f[b] == o[b]);
                            assert(o[b].manifest.name@ != entry.manifest.name@);
                        }
                    }
                }
            },
        }
        name
    }

    /// Enable or disable a plugin; `NotFound` when there is none of that
    /// name.
    fn set_enabled(&mut self, name: &str, enabled: bool) -> (r: Result<(), PluginError>)
        requires
            old(self).wf(),
        ensures
            final(self).wf(),
            final(self).errors() == old(self).errors(),
            final(self).dir_view() == old(self).dir_view(),
            match find_name(old(self).entries(), name@) {
                Some(i) => r is Ok && final(self).entries().len() == old(self).entries().len()
                    && final(self).entries()[i].enabled == enabled
                    && final(self).entries()[i].manifest == old(self).entries()[i].manifest
                    && final(self).entries()[i].dir == old(self).entries()[i].dir
                    && forall|k: int| 0 <= k < old(self).entries().len() && k != i ==> final(self).entries()[k] == old(self).entries()[k],
                None => (r matches Err(PluginError::NotFound(n)) && n@ == name@) && final(self).entries() == old(self).entries(),
            },
    {
        proof {
            lemma_find_name(self.entries(), name@);
        }
        match self.find(name) {
            Some(i) => {
                let mut p = self.plugins.remove(i);
                p.enabled = enabled;
                self.plugins.insert(i, p);
                Ok(())
            },
            None => Err(PluginError::NotFound(String::from_str(name))),
        }
    }

    /// Enable a plugin; `NotFound` when there is none of that name.
    pub fn enable(&mut self, name: &str) -> (r: Result<(), PluginError>)
        requires
            old(self).wf(),
        ensures
            final(self).wf(),
            final(self).errors() == old(self).errors(),
            final(self).dir_view() == old(self).dir_view(),
            match find_name(old(self).entries(), name@) {
                Some(i) => r is Ok && final(self).entries().len() == old(self).entries().len()
                    && final(self).entries()[i].enabled
                    && final(self).entries()[i].manifest == old(self).entries()[i].manifest
                    && final(self).entries()[i].dir == old(self).entries()[i].dir
                    && forall|k: int| 0 <= k < old(self).entries().len() && k != i ==> final(self).entries()[k] == old(self).entries()[k],
                None => (r matches Err(PluginError::NotFound(n)) && n@ == name@) && final(self).entries() == old(self).entries(),
            },
    {
        self.set_enabled(name, true)
    }

    /// Disable a plugin; `NotFound` when there is none of that name.
    pub fn disable(&mut self, name: &str) -> (r: Result<(), PluginError>)
        requires
            old(self).wf(),
        ensures
            final(self).wf(),
            final(self).errors() == old(self).errors(),
            final(self).dir_view() == old(self).dir_view(),
            match find_name(old(self).entries(), name@) {
                Some(i) => r is Ok && final(self).entries().len() == old(self).entries().len()
                    && !final(self).entries()[i].enabled
                    && final(self).entries()[i].manifest == old(self).entries()[i].manifest
                    && final(self).entries()[i].dir == old(self).entries()[i].dir
                    && forall|k: int| 0 <= k < old(self).entries().len() && k != i ==> final(self).entries()[k] == old(self).entries()[k],
                None => (r matches Err(PluginError::NotFound(n)) && n@ == name@) && final(self).entries() == old(self).entries(),
            },
    {
        self.set_enabled(name, false)
    }

    /// Remove a plugin, giving back its directory; `NotFound` when there is
    /// none of that name.
    pub fn uninstall(&mut self, name: &str) -> (r: Result<String, PluginError>)
        requires
            old(self).wf(),
        ensures
            final(self).wf(),
            final(self).errors() == old(self).errors(),
            final(self).dir_view() == old(self).dir_view(),
            match find_name(old(self).entries(), name@) {
                Some(i) => (r matches Ok(d) && d@ == old(self).entries()[i].dir@) && final(self).entries() == old(self).entries().remove(i),
                None => (r matches Err(PluginError::NotFound(n)) && n@ == name@) && final(self).entries() == old(self).entries(),
            },
    {
        proof {
            lemma_find_name(self.entries(), name@);
        }
        match self.find(name) {
            Some(i) => {
                let p = self.plugins.remove(i);
                proof {
                    let o = old(self).entries();
                    let f = self.entries();
                    assert forall|a: int, b: int|
                        0 <= a < f.len() && 0 <= b < f.len() && a != b implies (#[trigger] f[a]).manifest.name@ != (#[trigger] f[b]).manifest.name@ by {
                        let a0 = if a < i { a } else { a + 1 };
                        let b0 = if b < i { b } else { b + 1 };
                        assert(f[a] == o[a0]);
                        assert(f[b] == o[b0]);
                    }
                    assert forall|a: int| 0 <= a < f.len() implies ((#[trigger] f[a]).manifest.wasm is Some || f[a].manifest.native is Some) by {
                        let a0 = if a < i { a } else { a + 1 };
                        assert(f[a] == o[a0]);
                    }
                }
                Ok(p.dir)
            },
            None => Err(PluginError::NotFound(String::from_str(name))),
        }
    }

    /// The names of the enabled rule plugins, in order.
    pub fn enabled_rule_plugins(&self) -> (r: Vec<String>)
        ensures
            r@.map_values(|s: String| s@) == enabled_rules(self.entries()),
    {
        let mut r: Vec<String> = Vec::new();
        let mut i: usize = 0;
        while i < self.plugins.len()
            invariant
                i <= self.plugins@.len(),
                r@.map_values(|s: String| s@) == enabled_rules(self.entries().take(i as int)),
            decreases self.plugins.len() - i,
        {
            assert(self.entries().take(i + 1).drop_last() =~= self.entries().take(i as int));
            let p = &self.plugins[i];
            if p.enabled && matches!(p.manifest.kind, PluginKind::Rule) {
                r.push(p.manifest.name.clone());
            }
            i = i + 1;
            assert(r@.map_values(|s: String| s@) =~= enabled_rules(self.entries().take(i as int)));
        }
        assert(self.entries().take(self.plugins@.len() as int) =~= self.entries());
        r
    }

    /// Forget the load errors (before loading rules again).
    pub fn clear_load_errors(&mut self)
        ensures
            final(self).entries() == old(self).entries(),
            final(self).errors().len() == 0,
            final(self).dir_view() == old(self).dir_view(),
    {
        self.load_errors = Vec::new();
        assert(self.errors() =~= Seq::<(Seq<char>, Seq<char>)>::empty());
    }

    /// Record the load error of a plugin.
    pub fn record_load_error(&mut self, name: String, message: String)
        ensures
            final(self).entries() == old(self).entries(),
            final(self).errors() == old(self).errors().push((name@, message@)),
            final(self).dir_view() == old(self).dir_view(),
    {
        let ghost e = (name@, message@);
        self.load_errors.push((name, message));
        assert(self.errors() =~= old(self).errors().push(e));
    }

    /// The last load error of a plugin.
    pub fn load_error(&self, name: &str) -> (r: Option<String>)
        ensures
            opt_view(r) == error_for(self.errors(), name@),
    {
        let mut i: usize = self.load_errors.len();
        assert(self.errors().take(i as int) =~= self.errors());
        while i > 0
            invariant
                i <= self.load_errors@.len(),
                error_for(self.errors(), name@) == error_for(self.errors().take(i as int), name@),
            decreases i,
        {
            let ghost t = self.errors().take(i as int);
            assert(t.drop_last() =~= self.errors().take(i - 1));
            if str_eq(self.load_errors[i - 1].0.as_str(), name) {
                return Some(self.load_errors[i - 1].1.clone());
            }
            i = i - 1;
        }
        None
    }

    /// A summary of every discovered plugin, in discovery order.
    pub fn list_plugins(&self) -> (r: Vec<PluginInfo>)
        ensures
            r@.len() == self.entries().len(),
            forall|i: int| 0 <= i < r@.len() ==> {
                let p = #[trigger] self.entries()[i];
                &&& r@[i].name@ == p.manifest.name@
                &&& r@[i].version@ == p.manifest.version@
                &&& r@[i].description@ == p.manifest.description@
                &&& r@[i].kind == p.manifest.kind
                &&& r@[i].enabled == p.enabled
                &&& r@[i].is_native == p.manifest.native is Some
                &&& opt_view(r@[i].load_error) == error_for(self.errors(), p.manifest.name@)
            },
    {
        let mut r: Vec<PluginInfo> = Vec::new();
        let mut i: usize = 0;
        while i < self.plugins.len()
            invariant
                i <= self.plugins@.len(),
                r@.len() == i,
                forall|k: int| 0 <= k < i ==> {
                    let p = #[trigger] self.entries()[k];
                    &&& r@[k].name@ == p.manifest.name@
                    &&& r@[k].version@ == p.manifest.version@
                    &&& r@[k].description@ == p.manifest.description@
                    &&& r@[k].kind == p.manifest.kind
                    &&& r@[k].enabled == p.enabled
                    &&& r@[k].is_native == p.manifest.native is Some
                    &&& opt_view(r@[k].load_error) == error_for(self.errors(), p.manifest.name@)
                },
            decreases self.plugins.len() - i,
        {
            let p = &self.plugins[i];
            let info = PluginInfo {
                name: p.manifest.name.clone(),
                version: p.manifest.version.clone(),
                description: p.manifest.description.clone(),
                kind: p.manifest.kind,
                enabled: p.enabled,
                is_native: p.manifest.is_native(),
                load_error: self.load_error(p.manifest.name.as_str()),
            };
            r.push(info);
            i = i + 1;
        }
        r
    }
}

} // verus!
