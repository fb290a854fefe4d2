use arcadia_extensions::error::ExtensionError;
use arcadia_extensions::manager::{DbWrite, ExtensionManager};
use arcadia_extensions::manifest::{ExtensionManifest, ExtensionType, MenuItem};
use arcadia_extensions::registry::{ExtensionInfo, ExtensionRegistry};
use arcadia_extensions::runtime::{collect_hook_results, ExtensionImpl};
use serde_json::Value;

fn item(id: &str) -> MenuItem {
    MenuItem { id: id.to_string(), label: id.to_uppercase(), action: "run".to_string(), icon: None }
}

fn manifest(name: &str, perms: &[&str], items: Vec<MenuItem>) -> ExtensionManifest {
    ExtensionManifest {
        name: name.to_string(),
        version: "1.2.3".to_string(),
        author: Some("Ada".to_string()),
        description: Some("desc".to_string()),
        extension_type: ExtensionType::DataSource,
        entry_point: "main.js".to_string(),
        permissions: perms.iter().map(|p| p.to_string()).collect(),
        dependencies: None,
        hooks: Some(vec!["on_startup".to_string()]),
        apis: None,
        menu_items: Some(items),
    }
}

fn info(id: &str, enabled: bool) -> ExtensionInfo {
    ExtensionInfo {
        id: id.to_string(),
        name: "n".to_string(),
        version: "1".to_string(),
        author: None,
        description: None,
        extension_type: "theme".to_string(),
        enabled,
    }
}

#[test]
fn registry_register_overwrites_and_filters() {
    let mut r = ExtensionRegistry::new();
    r.register(info("a", true));
    r.register(info("b", false));
    r.register(info("a", false));
    assert_eq!(r.get_all().len(), 2);
    assert!(!r.get("a").unwrap().enabled);
    assert!(r.get_enabled().is_empty());
    assert!(r.set_enabled("b", true));
    assert!(!r.set_enabled("zzz", true));
    let enabled = r.get_enabled();
    assert_eq!(enabled.len(), 1);
    assert_eq!(enabled[0].id, "b");
    r.unregister("a");
    r.unregister("a");
    assert!(r.get("a").is_none());
    assert_eq!(r.get_all().len(), 1);
}

#[test]
fn load_registers_and_returns_rows() {
    let mut m = ExtensionManager::new("./extensions".to_string());
    let (id, writes) = m
        .load_extension(manifest("lib", &["network", "ui"], vec![]), "/tmp/ext/lib/extension.json")
        .expect("valid manifest loads");
    assert_eq!(id.len(), 36);
    assert_eq!(writes.len(), 3);
    match &writes[0] {
        DbWrite::InsertExtension { id: i, name, author, description, extension_type, manifest_path, .. } => {
            assert_eq!(i, &id);
            assert_eq!(name, "lib");
            assert_eq!(author, "Ada");
            assert_eq!(description, "desc");
            assert_eq!(extension_type, "data_source");
            assert_eq!(manifest_path, "/tmp/ext/lib/extension.json");
        }
        other => panic!("unexpected: {:?}", other),
    }
    match &writes[2] {
        DbWrite::InsertPermission { extension_id, permission } => {
            assert_eq!(extension_id, &id);
            assert_eq!(permission, "ui");
        }
        other => panic!("unexpected: {:?}", other),
    }
    let listed = m.list_extensions();
    assert_eq!(listed.len(), 1);
    assert_eq!(listed[0].id, id);
    assert!(listed[0].enabled);
    assert_eq!(listed[0].extension_type, "data_source");
    let ext = m.get_extension(&id).unwrap();
    assert_eq!(ext.path, "/tmp/ext/lib");
    assert_eq!(ext.get_id(), id);
}

#[test]
fn load_then_get_manifest_round_trips() {
    let mut m = ExtensionManager::new("./extensions".to_string());
    let original = manifest("round", &["database"], vec![item("x"), item("y")]);
    let (id, _) = m.load_extension(original.clone(), "extension.json").unwrap();
    let got = m.get_extension(&id).unwrap().get_manifest();
    assert_eq!(got.name, original.name);
    assert_eq!(got.version, original.version);
    assert_eq!(got.author, original.author);
    assert_eq!(got.description, original.description);
    assert_eq!(got.extension_type, original.extension_type);
    assert_eq!(got.entry_point, original.entry_point);
    assert_eq!(got.permissions, original.permissions);
    assert_eq!(got.hooks, original.hooks);
    assert_eq!(got.menu_items.as_ref().unwrap().len(), 2);
    assert_eq!(got.menu_items.as_ref().unwrap()[1].id, "y");
}

#[test]
fn load_rejects_invalid_manifest_without_change() {
    let mut m = ExtensionManager::new("./extensions".to_string());
    let bad = manifest("", &[], vec![]);
    assert!(matches!(m.load_extension(bad, "extension.json"), Err(ExtensionError::Validation(_))));
    let bad_perm = manifest("x", &["camera"], vec![]);
    assert!(matches!(m.load_extension(bad_perm, "extension.json"), Err(ExtensionError::Validation(_))));
    assert!(m.list_extensions().is_empty());
}

#[test]
fn unload_twice_is_a_no_op() {
    let mut m = ExtensionManager::new("./extensions".to_string());
    let (id, _) = m.load_extension(manifest("lib", &[], vec![]), "extension.json").unwrap();
    let first = m.unload_extension(&id).unwrap();
    assert_eq!(first.len(), 3);
    assert!(matches!(&first[0], DbWrite::DeletePermissions { extension_id } if extension_id == &id));
    assert!(matches!(&first[1], DbWrite::DeleteSettings { extension_id } if extension_id == &id));
    assert!(matches!(&first[2], DbWrite::DeleteExtension { id: i } if i == &id));
    assert!(m.get_extension(&id).is_none());
    let second = m.unload_extension(&id).unwrap();
    assert!(second.is_empty());
    assert!(m.get_extension(&id).is_none());
    assert!(m.list_extensions().is_empty());
}

#[test]
fn disable_hides_menu_items_and_enable_restores_them() {
    let mut m = ExtensionManager::new("./extensions".to_string());
    let (a, _) = m.load_extension(manifest("a", &[], vec![item("a1"), item("a2")]), "a/extension.json").unwrap();
    let (_b, _) = m.load_extension(manifest("b", &[], vec![item("b1")]), "b/extension.json").unwrap();
    let ids = |items: Vec<MenuItem>| items.into_iter().map(|i| i.id).collect::<Vec<_>>();
    assert_eq!(ids(m.get_extension_menu_items()), vec!["a1", "a2", "b1"]);
    let w = m.disable_extension(&a).unwrap();
    assert!(matches!(w, DbWrite::SetEnabled { enabled: false, .. }));
    assert_eq!(ids(m.get_extension_menu_items()), vec!["b1"]);
    let w = m.enable_extension(&a).unwrap();
    assert!(matches!(w, DbWrite::SetEnabled { enabled: true, .. }));
    assert_eq!(ids(m.get_extension_menu_items()), vec!["a1", "a2", "b1"]);
}

#[test]
fn enable_unknown_is_not_found() {
    let mut m = ExtensionManager::new("./extensions".to_string());
    assert!(matches!(m.enable_extension("nope"), Err(ExtensionError::NotFound(_))));
    assert!(matches!(m.disable_extension("nope"), Err(ExtensionError::NotFound(_))));
}

#[test]
fn call_hook_reaches_every_loaded_extension() {
    let mut m = ExtensionManager::new("./extensions".to_string());
    let (a, _) = m.load_extension(manifest("a", &[], vec![]), "m.json").unwrap();
    m.load_extension(manifest("b", &[], vec![]), "m.json").unwrap();
    m.disable_extension(&a).unwrap();
    let params = Value::String("ping".to_string());
    let answers = m.call_hook("on_startup", params.clone());
    assert_eq!(answers, vec![params.clone(), params.clone()]);
    assert_eq!(m.call_api(&a, "any", params.clone()).unwrap(), params);
    assert!(matches!(m.call_api("missing", "any", Value::Null), Err(ExtensionError::NotFound(_))));
}

#[test]
fn call_hook_drops_failures_from_the_broadcast() {
    let outcomes: Vec<Result<Value, ExtensionError>> = vec![
        Ok(Value::String("ready".to_string())),
        Err(ExtensionError::Validation("boom".to_string())),
    ];
    let results = collect_hook_results(outcomes);
    assert_eq!(results.len(), 1);
    assert_eq!(results[0], Value::String("ready".to_string()));
    let none: Vec<Result<u8, ExtensionError>> = vec![];
    assert!(collect_hook_results(none).is_empty());
}

#[test]
fn catalog_origin_is_recorded_and_dropped_on_unload() {
    let mut m = ExtensionManager::new("./extensions".to_string());
    let (id, _) = m.load_extension(manifest("a", &[], vec![]), "m.json").unwrap();
    assert!(m.installed_for_catalog("pkg").is_none());
    m.record_catalog_install("pkg", &id);
    assert_eq!(m.installed_for_catalog("pkg"), Some(id.clone()));
    m.unload_extension(&id).unwrap();
    assert!(m.installed_for_catalog("pkg").is_none());
}
