use monitor_host::discovery::{discover_plugins, RegisteredSet, resolve_plugin_dir, plugin_ext,
    PluginConfig, file_extension};

#[test]
fn discovery_keeps_matching_extensions_only() {
    let names = vec!["a.so".to_string(), "b.so".to_string(), "c.txt".to_string()];
    let found = discover_plugins(&names, "so");
    assert_eq!(found, vec!["a.so".to_string(), "b.so".to_string()]);
}

#[test]
fn discovery_is_idempotent() {
    let names = vec!["a.so".to_string(), "x.SO".to_string(), "noext".to_string()];
    let once = discover_plugins(&names, "so");
    let twice = discover_plugins(&names, "so");
    assert_eq!(once, twice);
    assert_eq!(once, vec!["a.so".to_string(), "x.SO".to_string()]);
}

#[test]
fn extension_handles_hidden_and_plain_names() {
    assert_eq!(file_extension("a.so").as_deref(), Some("so"));
    assert!(file_extension("Makefile").is_none());
    assert!(file_extension(".hidden").is_none());
    assert_eq!(file_extension("archive.tar.gz").as_deref(), Some("gz"));
}

#[test]
fn registration_happens_once() {
    let mut set = RegisteredSet::new();
    assert!(set.register("cpu-monitor".to_string()));
    assert!(!set.register("cpu-monitor".to_string()));
    assert!(set.contains("cpu-monitor"));
    assert!(set.register("other".to_string()));
    assert_eq!(set.names.len(), 2);
}

#[test]
fn plugin_dir_follows_mode() {
    let cfg = PluginConfig {
        mode: None,
        dev_dir: Some("devdir".to_string()),
        prod_dir: None,
        name_pattern: None,
        default_interval: Some(5),
    };
    assert_eq!(resolve_plugin_dir("prod", &cfg), "plugins-bin");
    assert_eq!(resolve_plugin_dir("release", &cfg), "plugins-bin");
    assert_eq!(resolve_plugin_dir("dev", &cfg), "devdir");
    let bare = PluginConfig {
        mode: None,
        dev_dir: None,
        prod_dir: None,
        name_pattern: None,
        default_interval: None,
    };
    assert_eq!(resolve_plugin_dir("dev", &bare), "target/debug");
}

#[test]
fn library_suffix_follows_platform() {
    assert_eq!(plugin_ext("windows"), "dll");
    assert_eq!(plugin_ext("macos"), "dylib");
    assert_eq!(plugin_ext("linux"), "so");
    assert_eq!(plugin_ext("freebsd"), "so");
}
