use oxide_seo::manifest::{
    canonical_versions, validate_relative_filename, Capability, NativeConfig, PluginError, PluginKind, PluginManifest, PluginRuntime,
    WasmConfig, DEFAULT_FUEL_LIMIT, DEFAULT_MEMORY_LIMIT_MB,
};
use oxide_seo::plugin_registry::{rule_load_plan, LoadedPlugin, PluginManager, RuleLoad};
use oxide_seo::types::{RuleCategory, Severity};

const APP_VERSION: &str = "0.1.0";

fn wasm(module: &str) -> Option<WasmConfig> {
    Some(WasmConfig { module: module.into(), fuel_limit: None, memory_limit_mb: None })
}

fn native(library: &str, trusted: bool) -> Option<NativeConfig> {
    Some(NativeConfig { library: library.into(), trusted })
}

fn manifest(name: &str, kind: PluginKind, wasm: Option<WasmConfig>, native: Option<NativeConfig>) -> PluginManifest {
    PluginManifest {
        name: name.into(),
        version: "0.1.0".into(),
        description: "test".into(),
        author: None,
        license: None,
        min_app_version: ">=0.1.0".into(),
        kind,
        capabilities: vec![],
        wasm,
        native,
    }
}

#[test]
fn test_parse_valid_wasm_manifest() {
    let mut m = manifest("test-plugin", PluginKind::Rule, None, None);
    m.description = "A test plugin".into();
    m.author = Some("Test Author".into());
    m.license = Some("MIT".into());
    m.capabilities = vec![Capability::Log];
    m.wasm = Some(WasmConfig { module: "test_plugin.wasm".into(), fuel_limit: Some(5_000_000), memory_limit_mb: Some(32) });
    assert!(m.validate(APP_VERSION).is_ok());
    assert_eq!(m.name, "test-plugin");
    assert_eq!(m.kind, PluginKind::Rule);
    assert!(m.is_wasm());
    assert!(!m.is_native());
    assert!(matches!(m.runtime(), PluginRuntime::Wasm(w) if w.module == "test_plugin.wasm"));
    let w = m.wasm.unwrap();
    assert_eq!(w.fuel_limit(), 5_000_000);
    assert_eq!(w.memory_limit_mb(), 32);
}

#[test]
fn test_parse_valid_native_manifest() {
    let mut m = manifest("native-test", PluginKind::Exporter, None, native("libnative_test.dylib", true));
    m.version = "1.0.0".into();
    assert!(m.validate(APP_VERSION).is_ok());
    assert!(m.is_native());
    assert!(!m.is_wasm());
    assert!(matches!(m.runtime(), PluginRuntime::Native(n) if n.trusted));
    let n = m.native.unwrap();
    assert_eq!(n.library, "libnative_test.dylib");
}

#[test]
fn test_wasm_config_defaults() {
    let m = manifest("defaults", PluginKind::Rule, wasm("plugin.wasm"), None);
    assert!(m.validate(APP_VERSION).is_ok());
    let w = m.wasm.unwrap();
    assert_eq!(w.fuel_limit(), DEFAULT_FUEL_LIMIT);
    assert_eq!(w.memory_limit_mb(), DEFAULT_MEMORY_LIMIT_MB);
    assert_eq!(DEFAULT_FUEL_LIMIT, 10_000_000);
    assert_eq!(DEFAULT_MEMORY_LIMIT_MB, 64);
}

#[test]
fn test_incompatible_app_version() {
    let mut m = manifest("future-plugin", PluginKind::Rule, wasm("plugin.wasm"), None);
    m.min_app_version = ">=99.0.0".into();
    let err = m.validate(APP_VERSION).unwrap_err();
    assert!(matches!(err, PluginError::IncompatibleVersion { .. }));
    assert_eq!(err.message(), "incompatible app version: plugin requires >=99.0.0, app is 0.1.0");
}

#[test]
fn unreadable_requirement_is_incompatible() {
    let mut m = manifest("odd", PluginKind::Rule, wasm("plugin.wasm"), None);
    m.min_app_version = "not a requirement".into();
    assert!(matches!(m.validate(APP_VERSION), Err(PluginError::IncompatibleVersion { .. })));
}

#[test]
fn test_both_wasm_and_native_rejected() {
    let m = manifest("both", PluginKind::Rule, wasm("plugin.wasm"), native("libplugin.dylib", true));
    assert!(matches!(m.validate(APP_VERSION).unwrap_err(), PluginError::DualRuntime));
}

#[test]
fn test_neither_wasm_nor_native_rejected() {
    let m = manifest("neither", PluginKind::Rule, None, None);
    assert!(matches!(m.validate(APP_VERSION).unwrap_err(), PluginError::NoRuntime));
}

#[test]
fn test_empty_name_rejected() {
    let m = manifest("", PluginKind::Rule, wasm("plugin.wasm"), None);
    assert!(matches!(m.validate(APP_VERSION).unwrap_err(), PluginError::EmptyName));
}

#[test]
fn test_bad_semver_version() {
    let mut m = manifest("bad-version", PluginKind::Rule, wasm("plugin.wasm"), None);
    m.version = "not.a.version".into();
    let r = canonical_versions(&m.version, &m.min_app_version);
    assert!(r.is_err());
    assert!(matches!(r.unwrap_err(), PluginError::ManifestParse(_)));
}

#[test]
fn canonical_versions_normalise_both_texts() {
    assert_eq!(canonical_versions("0.1.0", ">=0.1.0").unwrap(), ("0.1.0".to_string(), ">=0.1.0".to_string()));
    assert_eq!(canonical_versions("1.2.3", ">= 1.0").unwrap(), ("1.2.3".to_string(), ">=1.0".to_string()));
    assert!(matches!(canonical_versions("1.0.0", "not a req"), Err(PluginError::ManifestParse(_))));
}

#[test]
fn test_all_plugin_kinds() {
    for (kind_str, expected) in [
        ("rule", PluginKind::Rule),
        ("exporter", PluginKind::Exporter),
        ("post_processor", PluginKind::PostProcessor),
        ("ui_extension", PluginKind::UiExtension),
    ] {
        assert_eq!(expected.as_str(), kind_str);
    }
}

#[test]
fn test_all_capabilities() {
    let caps = [Capability::HttpRead, Capability::DbRead, Capability::FsReadPluginDir, Capability::Log];
    let names: Vec<&str> = caps.iter().map(|c| c.as_str()).collect();
    assert_eq!(names, vec!["http_read", "db_read", "fs_read_plugin_dir", "log"]);
}

#[test]
fn test_invalid_name_characters_rejected() {
    for bad_name in ["foo/bar", "foo bar", "foo.bar", "../evil"] {
        let m = manifest(bad_name, PluginKind::Rule, wasm("plugin.wasm"), None);
        let err = m.validate(APP_VERSION);
        assert!(err.is_err(), "name '{bad_name}' should be rejected");
        assert!(matches!(err.unwrap_err(), PluginError::InvalidName), "name '{bad_name}' should produce InvalidName");
    }
}

#[test]
fn test_path_traversal_in_wasm_module_rejected() {
    let m = manifest("test", PluginKind::Rule, wasm("../../../etc/evil.wasm"), None);
    let err = m.validate(APP_VERSION).unwrap_err();
    assert!(matches!(err, PluginError::InvalidPath { .. }));
    assert_eq!(err.message(), "wasm.module must be a simple filename without path separators");
}

#[test]
fn test_path_traversal_in_native_library_rejected() {
    let m = manifest("test", PluginKind::Exporter, None, native("../../../lib/evil.dylib", true));
    let err = m.validate(APP_VERSION).unwrap_err();
    assert!(matches!(err, PluginError::InvalidPath { .. }));
}

#[test]
fn relative_filename_rules() {
    assert!(validate_relative_filename("plugin.wasm", "f").is_ok());
    assert!(validate_relative_filename("", "f").is_err());
    assert!(validate_relative_filename(".hidden", "f").is_err());
    assert!(validate_relative_filename("a\\b", "f").is_err());
    assert!(validate_relative_filename("a..b", "f").is_err());
}

// --- The plugin registry ---

fn registry_with(plugins: &[(&str, PluginKind, Option<WasmConfig>, Option<NativeConfig>)]) -> PluginManager {
    let mut pm = PluginManager::new("/plugins".into());
    for (name, kind, w, n) in plugins {
        let m = manifest(name, *kind, w.clone(), n.clone());
        pm.insert(m, format!("/plugins/{name}"), false);
    }
    pm
}

#[test]
fn test_discover_finds_plugins() {
    let pm = registry_with(&[
        ("test-rule", PluginKind::Rule, wasm("test.wasm"), None),
        ("test-exporter", PluginKind::Exporter, None, native("libtest.dylib", true)),
    ]);
    let list = pm.list_plugins();
    assert_eq!(list.len(), 2);
    let names: Vec<&str> = list.iter().map(|p| p.name.as_str()).collect();
    assert!(names.contains(&"test-rule"));
    assert!(names.contains(&"test-exporter"));
}

#[test]
fn test_discover_empty_dir() {
    let pm = PluginManager::new("/plugins".into());
    assert!(pm.list_plugins().is_empty());
    assert_eq!(pm.plugins_dir(), "/plugins");
}

#[test]
fn rediscovery_replaces_a_plugin_of_the_same_name() {
    let mut pm = registry_with(&[("test-rule", PluginKind::Rule, wasm("test.wasm"), None)]);
    let mut m = manifest("test-rule", PluginKind::Rule, wasm("test.wasm"), None);
    m.version = "0.2.0".into();
    pm.insert(m, "/plugins/test-rule".into(), true);
    let list = pm.list_plugins();
    assert_eq!(list.len(), 1);
    assert_eq!(list[0].version, "0.2.0");
    assert!(list[0].enabled);
    pm.clear();
    assert!(pm.list_plugins().is_empty());
}

#[test]
fn test_enable_disable() {
    let mut pm = registry_with(&[("test-rule", PluginKind::Rule, wasm("test.wasm"), None)]);
    let list = pm.list_plugins();
    assert!(!list[0].enabled);
    pm.enable("test-rule").unwrap();
    let list = pm.list_plugins();
    assert!(list.iter().find(|p| p.name == "test-rule").unwrap().enabled);
    pm.disable("test-rule").unwrap();
    let list = pm.list_plugins();
    assert!(!list.iter().find(|p| p.name == "test-rule").unwrap().enabled);
}

#[test]
fn test_enable_nonexistent_plugin() {
    let mut pm = PluginManager::new("/plugins".into());
    let result = pm.enable("nonexistent");
    assert!(result.is_err());
    assert!(matches!(result.unwrap_err(), PluginError::NotFound(_)));
}

#[test]
fn test_get_plugin_detail() {
    let pm = registry_with(&[("test-rule", PluginKind::Rule, wasm("test.wasm"), None)]);
    let detail: &LoadedPlugin = pm.get("test-rule").unwrap();
    assert_eq!(detail.manifest.name, "test-rule");
    assert_eq!(detail.manifest.version, "0.1.0");
    assert_eq!(detail.manifest.kind, PluginKind::Rule);
    assert!(!detail.manifest.is_native());
    assert!(!detail.enabled);
    assert!(pm.get("other").is_none());
}

#[test]
fn test_install_and_uninstall() {
    let mut pm = PluginManager::new("/plugins".into());
    let name = pm.insert(manifest("test-rule", PluginKind::Rule, wasm("test.wasm"), None), "/plugins/test-rule".into(), false);
    assert_eq!(name, "test-rule");
    assert_eq!(pm.list_plugins().len(), 1);
    assert_eq!(pm.uninstall("test-rule").unwrap(), "/plugins/test-rule");
    assert!(pm.list_plugins().is_empty());
    assert!(matches!(pm.uninstall("test-rule"), Err(PluginError::NotFound(_))));
}

#[test]
fn enabled_rule_plugins_and_load_errors() {
    let mut pm = registry_with(&[
        ("r1", PluginKind::Rule, wasm("a.wasm"), None),
        ("e1", PluginKind::Exporter, wasm("b.wasm"), None),
        ("r2", PluginKind::Rule, None, native("libr2.so", false)),
    ]);
    pm.enable("r1").unwrap();
    pm.enable("e1").unwrap();
    pm.enable("r2").unwrap();
    assert_eq!(pm.enabled_rule_plugins(), vec!["r1".to_string(), "r2".to_string()]);

    let plan = rule_load_plan("r2", pm.get("r2").unwrap());
    let err = plan.unwrap_err();
    assert!(matches!(err, PluginError::NotTrusted(ref n) if n == "r2"));
    pm.record_load_error("r2".into(), err.message());
    let list = pm.list_plugins();
    assert_eq!(list[2].load_error.as_deref(), Some("plugin not trusted: r2"));
    assert_eq!(list[0].load_error, None);
    pm.clear_load_errors();
    assert_eq!(pm.load_error("r2"), None);
}

#[test]
fn wasm_rule_plan_names_the_rule_after_the_plugin() {
    let pm = registry_with(&[("r1", PluginKind::Rule, wasm("a.wasm"), None)]);
    match rule_load_plan("r1", pm.get("r1").unwrap()).unwrap() {
        RuleLoad::Wasm { dir, module, id, name, category, default_severity, fuel_limit, .. } => {
            assert_eq!(dir, "/plugins/r1");
            assert_eq!(module, "a.wasm");
            assert_eq!(id, "plugin.r1");
            assert_eq!(name, "test");
            assert_eq!(category, RuleCategory::Structured);
            assert_eq!(default_severity, Severity::Warning);
            assert_eq!(fuel_limit, DEFAULT_FUEL_LIMIT);
        }
        RuleLoad::Native { .. } => panic!("expected a WASM plan"),
    }
}

#[test]
fn trusted_native_rule_plan() {
    let pm = registry_with(&[("n1", PluginKind::Rule, None, native("libn1.so", true))]);
    match rule_load_plan("n1", pm.get("n1").unwrap()).unwrap() {
        RuleLoad::Native { dir, library } => {
            assert_eq!(dir, "/plugins/n1");
            assert_eq!(library, "libn1.so");
        }
        RuleLoad::Wasm { .. } => panic!("expected a native plan"),
    }
}
