use arcadia_extensions::checksum::package_checksum;
use arcadia_extensions::client::StoreExtensionDetails;
use arcadia_extensions::error::StoreError;
use arcadia_extensions::install::{Install, InstallAction, InstallEvent, InstallStage};
use arcadia_extensions::manager::{DbWrite, ExtensionManager};
use arcadia_extensions::manifest::{ExtensionManifest, ExtensionType};
use arcadia_extensions::sample::{create_extension, ApiCall, HookReply, SampleGameLibraryExtension};
use arcadia_extensions::store::{SourceType, StoreManager, StoreSource};
use arcadia_extensions::error::ExtensionError;
use std::collections::HashMap;

fn manifest(name: &str, perms: &[&str]) -> ExtensionManifest {
    ExtensionManifest {
        name: name.to_string(),
        version: "1.0.0".to_string(),
        author: None,
        description: None,
        extension_type: ExtensionType::GameLibrary,
        entry_point: "main.js".to_string(),
        permissions: perms.iter().map(|p| p.to_string()).collect(),
        dependencies: None,
        hooks: None,
        apis: None,
        menu_items: None,
    }
}

fn details(checksum: &str) -> StoreExtensionDetails {
    StoreExtensionDetails {
        id: "pkg-42".to_string(),
        name: "lib".to_string(),
        version: "1.0.0".to_string(),
        author: "Ada".to_string(),
        description: "d".to_string(),
        extension_type: ExtensionType::GameLibrary,
        download_count: 3,
        rating_hundredths: 450,
        tags: vec![],
        manifest_url: "https://catalog.example/ext/pkg-42/extension.json".to_string(),
        package_url: "https://catalog.example/ext/pkg-42/package.zip".to_string(),
        checksum: checksum.to_string(),
        readme: String::new(),
        screenshots: vec![],
        dependencies: HashMap::new(),
    }
}

fn store() -> StoreManager {
    let mut s = StoreManager::new();
    s.add_source(StoreSource {
        id: "s1".to_string(),
        name: "Catalog".to_string(),
        source_type: SourceType::Community,
        base_url: "https://catalog.example/ext".to_string(),
        enabled: true,
        priority: 1,
    })
    .unwrap();
    s
}

fn install_once(s: &StoreManager, m: &mut ExtensionManager, bytes: &[u8], checksum: &str) -> (String, Vec<DbWrite>) {
    let (mut inst, a) = Install::begin(s, "s1", "pkg-42");
    assert!(matches!(a, InstallAction::FetchDetails { ref base_url, ref extension_id } if base_url == "https://catalog.example/ext" && extension_id == "pkg-42"));
    let a = inst.step(m, InstallEvent::Details(details(checksum)));
    assert!(matches!(a, InstallAction::DownloadManifest { ref url } if url.ends_with("extension.json")));
    let a = inst.step(m, InstallEvent::Manifest(manifest("lib", &["network"])));
    let unload_writes = match a {
        InstallAction::DownloadPackage { url, writes } => {
            assert!(url.ends_with("package.zip"));
            writes
        }
        other => panic!("unexpected: {:?}", other),
    };
    let a = inst.step(m, InstallEvent::Package(bytes.to_vec()));
    assert!(matches!(a, InstallAction::Unpack { ref package } if package == bytes));
    let a = inst.step(m, InstallEvent::Unpacked { manifest_path: "/tmp/extracted_pkg-42/extension.json".to_string() });
    assert_eq!(inst.stage, InstallStage::Done);
    match a {
        InstallAction::Installed { id, writes } => {
            assert_eq!(writes.len(), 2);
            (id, unload_writes)
        }
        other => panic!("unexpected: {:?}", other),
    }
}

#[test]
fn install_from_store_and_reinstall() {
    let s = store();
    let mut m = ExtensionManager::new("./extensions".to_string());
    let bytes = b"zip bytes".to_vec();
    let sum = package_checksum(&bytes);
    let (first, writes) = install_once(&s, &mut m, &bytes, &sum);
    assert!(!first.is_empty());
    assert!(writes.is_empty());
    assert_eq!(m.installed_for_catalog("pkg-42"), Some(first.clone()));
    let (second, writes) = install_once(&s, &mut m, &bytes, &sum.to_uppercase());
    assert_ne!(first, second);
    assert_eq!(writes.len(), 3);
    assert!(matches!(&writes[2], DbWrite::DeleteExtension { id } if id == &first));
    assert!(m.get_extension(&first).is_none());
    assert!(m.get_extension(&second).is_some());
    assert_eq!(m.list_extensions().len(), 1);
    assert_eq!(m.installed_for_catalog("pkg-42"), Some(second));
}

#[test]
fn install_stops_on_checksum_mismatch() {
    let s = store();
    let mut m = ExtensionManager::new("./extensions".to_string());
    let (mut inst, _) = Install::begin(&s, "s1", "pkg-42");
    inst.step(&mut m, InstallEvent::Details(details("abc123")));
    inst.step(&mut m, InstallEvent::Manifest(manifest("lib", &[])));
    let a = inst.step(&mut m, InstallEvent::Package(b"other".to_vec()));
    assert!(matches!(a, InstallAction::Failed(StoreError::Security(_))));
    assert_eq!(inst.stage, InstallStage::Done);
    assert!(m.list_extensions().is_empty());
}

#[test]
fn install_refuses_insecure_manifest_and_unknown_sources() {
    let s = store();
    let mut m = ExtensionManager::new("./extensions".to_string());
    let (mut inst, _) = Install::begin(&s, "s1", "pkg-42");
    inst.step(&mut m, InstallEvent::Details(details("abc123")));
    let a = inst.step(&mut m, InstallEvent::Manifest(manifest("lib", &["native"])));
    assert!(matches!(a, InstallAction::Failed(StoreError::Security(_))));
    let (_, a) = Install::begin(&s, "nope", "pkg-42");
    assert!(matches!(a, InstallAction::Failed(StoreError::NotFound(_))));
    let (mut inst, _) = Install::begin(&s, "s1", "pkg-42");
    let a = inst.step(&mut m, InstallEvent::Failed(StoreError::Network("timeout".to_string())));
    assert!(matches!(a, InstallAction::Failed(StoreError::Network(_))));
    let a = inst.step(&mut m, InstallEvent::Package(vec![]));
    assert!(matches!(a, InstallAction::Failed(StoreError::Validation(_))));
}

#[test]
fn sample_extension_pages_and_finds_games() {
    let mut ext = SampleGameLibraryExtension::new(manifest("sample", &[]));
    assert_eq!(ext.get_type(), ExtensionType::GameLibrary);
    assert_eq!(ext.get_games(None, None).total, 0);
    ext.initialize();
    assert_eq!(ext.scan_games(), 2);
    let page = ext.get_games(None, None);
    assert_eq!((page.total, page.limit, page.offset, page.games.len()), (2, 50, 0, 2));
    let page = ext.get_games(Some(1), Some(1));
    assert_eq!(page.games.len(), 1);
    assert_eq!(page.games[0].id, "game2");
    assert!(ext.get_games(Some(5), Some(9)).games.is_empty());
    assert_eq!(ext.get_game_details(Some("game1")).unwrap().playtime_minutes, 120);
    assert!(matches!(ext.get_game_details(Some("zzz")), Err(ExtensionError::NotFound(_))));
    assert!(matches!(ext.get_game_details(None), Err(ExtensionError::Validation(_))));
    let report = ext.launch_game(Some("game2")).unwrap();
    assert_eq!(report.message, "Game 'Sample Game 2' launched successfully");
    assert_eq!(report.executable_path.as_deref(), Some("/games/sample_game_2/launch.exe"));
    ext.shutdown();
    assert_eq!(ext.get_games(None, None).total, 0);
}

#[test]
fn sample_extension_routes_and_hooks() {
    let ext = SampleGameLibraryExtension::new(manifest("sample", &[]));
    assert_eq!(ext.route_api_call("get_games").unwrap(), ApiCall::GetGames);
    assert_eq!(ext.route_api_call("launch_game").unwrap(), ApiCall::LaunchGame);
    assert!(matches!(ext.route_api_call("scan_games"), Err(ExtensionError::Validation(_))));
    assert!(matches!(ext.route_api_call("dance"), Err(ExtensionError::NotFound(_))));
    assert!(matches!(ext.handle_hook("on_startup"), HookReply::Ready { games_count: 0 }));
    assert!(matches!(ext.handle_hook("on_game_scan"), HookReply::ScanTriggered));
    assert!(matches!(ext.handle_hook("on_exit"), HookReply::Unhandled { ref hook } if hook == "on_exit"));
    assert_eq!(ext.get_manifest().name, "sample");
}

#[test]
fn sample_factory_builds_a_fresh_extension() {
    let ext = create_extension(manifest("made", &["ui"]));
    assert_eq!(ext.get_manifest().name, "made");
    assert_eq!(ext.get_games(None, None).total, 0);
}
