use arcadia_extensions::error::{StoreError, ValidationError};
use arcadia_extensions::greeting::greet;
use arcadia_extensions::manifest::{
    check_manifest_security, is_known_permission, validate_manifest, ExtensionManifest,
    ExtensionType, MenuItem,
};
use arcadia_extensions::client::vet_downloaded_manifest;

fn manifest(name: &str, version: &str, entry: &str, perms: &[&str]) -> ExtensionManifest {
    ExtensionManifest {
        name: name.to_string(),
        version: version.to_string(),
        author: Some("Ada".to_string()),
        description: None,
        extension_type: ExtensionType::GameLibrary,
        entry_point: entry.to_string(),
        permissions: perms.iter().map(|p| p.to_string()).collect(),
        dependencies: None,
        hooks: None,
        apis: None,
        menu_items: Some(vec![MenuItem {
            id: "m1".to_string(),
            label: "Open".to_string(),
            action: "open".to_string(),
            icon: None,
        }]),
    }
}

#[test]
fn test_greet() {
    let result = greet("World");
    assert_eq!(result, "Hello, World! You've been greeted from Rust!");
}

#[test]
fn validate_accepts_complete_manifest() {
    let m = manifest("lib", "1.0.0", "main.js", &["network", "ui", "database"]);
    assert!(validate_manifest(&m).is_ok());
}

#[test]
fn validate_rejects_empty_name() {
    let m = manifest("", "1.0.0", "main.js", &[]);
    match validate_manifest(&m) {
        Err(ValidationError::FieldRequired(f)) => assert_eq!(f, "name"),
        other => panic!("unexpected: {:?}", other),
    }
}

#[test]
fn validate_rejects_empty_version() {
    let m = manifest("lib", "", "main.js", &["ui"]);
    match validate_manifest(&m) {
        Err(ValidationError::FieldRequired(f)) => assert_eq!(f, "version"),
        other => panic!("unexpected: {:?}", other),
    }
}

#[test]
fn validate_rejects_empty_entry_point() {
    let m = manifest("lib", "1.0.0", "", &["bogus"]);
    match validate_manifest(&m) {
        Err(ValidationError::FieldRequired(f)) => assert_eq!(f, "entry_point"),
        other => panic!("unexpected: {:?}", other),
    }
}

#[test]
fn validate_rejects_unknown_permission() {
    let m = manifest("lib", "1.0.0", "main.js", &["ui", "camera", "network"]);
    match validate_manifest(&m) {
        Err(ValidationError::InvalidPermission(p)) => assert_eq!(p, "camera"),
        other => panic!("unexpected: {:?}", other),
    }
}

#[test]
fn known_permissions_are_the_fixed_vocabulary() {
    for p in ["filesystem", "network", "database", "ui", "native"] {
        assert!(is_known_permission(p));
    }
    assert!(!is_known_permission("Network"));
    assert!(!is_known_permission(""));
}

#[test]
fn security_rejects_forbidden_permissions() {
    let fs = manifest("lib", "1.0.0", "main.js", &["ui", "filesystem"]);
    assert!(matches!(check_manifest_security(&fs), Err(ValidationError::SecurityViolation(_))));
    let native = manifest("", "", "", &["native"]);
    assert!(matches!(vet_downloaded_manifest(native), Err(StoreError::Security(_))));
}

#[test]
fn security_rejects_traversal_and_separators() {
    let a = manifest("../evil", "1.0.0", "main.js", &[]);
    assert!(check_manifest_security(&a).is_err());
    let b = manifest("lib", "1.0.0", "dir/main.js", &[]);
    assert!(check_manifest_security(&b).is_err());
    let c = manifest("lib", "1.0.0", "dir\\main.js", &[]);
    assert!(check_manifest_security(&c).is_err());
    let d = manifest("lib..x", "1.0.0", "main.js", &[]);
    assert!(check_manifest_security(&d).is_err());
    let ok = manifest("lib.x", "1.0.0", "main.js", &["network", "ui"]);
    let vetted = vet_downloaded_manifest(ok).expect("secure manifest");
    assert_eq!(vetted.name, "lib.x");
}

#[test]
fn extension_type_names_and_fallback() {
    assert_eq!(ExtensionType::from("data_source".to_string()), ExtensionType::DataSource);
    assert_eq!(ExtensionType::from("game_library".to_string()), ExtensionType::GameLibrary);
    assert_eq!(ExtensionType::from("theme".to_string()), ExtensionType::Theme);
    assert_eq!(ExtensionType::from("widget".to_string()), ExtensionType::Theme);
    assert_eq!(ExtensionType::DataSource.name(), "data_source");
}

#[test]
fn error_messages() {
    let e = ValidationError::InvalidPermission("camera".to_string());
    assert_eq!(e.message(), "Invalid permission: camera");
    let s = StoreError::Security("bad".to_string());
    assert_eq!(s.message(), "Security error: bad");
}
