use arcadia_extensions::checksum::{check_package, package_checksum, to_hex, verify_package};
use arcadia_extensions::client::{
    catalog_query, decimal_text, details_from_manifest, entry_from_listing, entry_from_summary,
    plan_catalog_fetch, plan_details_fetch, CatalogRequest, DefaultListing, DetailsRequest,
    FrontendStoreFilters, SortOption, StoreExtensionSummary, StoreFilters,
};
use arcadia_extensions::error::StoreError;
use arcadia_extensions::manifest::{ExtensionManifest, ExtensionType};
use arcadia_extensions::store::{is_blocked_host, source_policy, SourceType, StoreManager, StoreSource};

fn source(id: &str, kind: SourceType, url: &str, priority: i32) -> StoreSource {
    StoreSource {
        id: id.to_string(),
        name: format!("Source {}", id),
        source_type: kind,
        base_url: url.to_string(),
        enabled: true,
        priority,
    }
}

#[test]
fn new_holds_only_the_reserved_source() {
    let s = StoreManager::new();
    let all = s.list_sources();
    assert_eq!(all.len(), 1);
    assert_eq!(all[0].id, "default");
    assert_eq!(all[0].source_type, SourceType::Official);
    assert!(all[0].enabled);
}

#[test]
fn reserved_source_cannot_be_removed() {
    let mut s = StoreManager::new();
    assert!(matches!(s.remove_source("default"), Err(StoreError::Validation(_))));
    assert_eq!(s.list_sources().len(), 1);
    assert!(s.remove_source("unknown").is_ok());
}

#[test]
fn custom_source_on_localhost_over_http_is_refused() {
    let mut s = StoreManager::new();
    let r = s.add_source(source("c1", SourceType::Custom, "http://localhost:9999", 5));
    assert!(matches!(r, Err(StoreError::Security(_))));
    let r = s.add_source(source("c2", SourceType::Custom, "https://192.168.1.20/store", 5));
    assert!(matches!(r, Err(StoreError::Security(_))));
    let r = s.add_source(source("c3", SourceType::Custom, "https://127.0.0.1/store", 5));
    assert!(matches!(r, Err(StoreError::Security(_))));
    assert_eq!(s.list_sources().len(), 1);
}

#[test]
fn add_validates_fields() {
    let mut s = StoreManager::new();
    assert!(matches!(
        s.add_source(source("default", SourceType::Community, "https://x.example", 1)),
        Err(StoreError::Validation(_))
    ));
    let mut blank = source("b", SourceType::Community, "https://x.example", 1);
    blank.name = "   ".to_string();
    assert!(matches!(s.add_source(blank), Err(StoreError::Validation(_))));
    assert!(matches!(
        s.add_source(source("u", SourceType::Community, "not a url", 1)),
        Err(StoreError::Validation(_))
    ));
    assert!(matches!(s.add_source(source("e", SourceType::Community, "", 1)), Err(StoreError::Validation(_))));
    assert!(s.add_source(source("c", SourceType::Community, "http://community.example", 1)).is_ok());
    assert!(s.add_source(source("k", SourceType::Custom, "https://catalog.example/ext", 1)).is_ok());
}

#[test]
fn list_is_sorted_by_priority_with_ties_in_insertion_order() {
    let mut s = StoreManager::new();
    s.add_source(source("late", SourceType::Community, "https://a.example", 9)).unwrap();
    s.add_source(source("early", SourceType::Community, "https://b.example", -3)).unwrap();
    s.add_source(source("tie", SourceType::Community, "https://c.example", 0)).unwrap();
    let ids: Vec<String> = s.list_sources().into_iter().map(|x| x.id).collect();
    assert_eq!(ids, vec!["early", "default", "tie", "late"]);
}

#[test]
fn update_rules() {
    let mut s = StoreManager::new();
    assert!(matches!(
        s.update_source(source("ghost", SourceType::Community, "https://a.example", 1)),
        Err(StoreError::Validation(_))
    ));
    assert!(matches!(
        s.update_source(source("default", SourceType::Community, "https://a.example", 1)),
        Err(StoreError::Validation(_))
    ));
    let mut renamed = source("default", SourceType::Official, "https://store.example/list.json", 7);
    renamed.name = "Arcadia Store".to_string();
    assert!(s.update_source(renamed).is_ok());
    let d = s.get_source("default").unwrap();
    assert_eq!(d.base_url, "https://store.example/list.json");
    assert_eq!(d.priority, 7);
    s.add_source(source("k", SourceType::Custom, "https://catalog.example", 1)).unwrap();
    assert!(matches!(
        s.update_source(source("k", SourceType::Custom, "http://catalog.example", 1)),
        Err(StoreError::Security(_))
    ));
}

#[test]
fn enabled_sources_only() {
    let mut s = StoreManager::new();
    let mut off = source("off", SourceType::Community, "https://a.example", 1);
    off.enabled = false;
    s.add_source(off).unwrap();
    let ids: Vec<String> = s.get_enabled_sources().into_iter().map(|x| x.id).collect();
    assert_eq!(ids, vec!["default"]);
}

#[test]
fn checksum_of_known_bytes() {
    assert_eq!(
        package_checksum(b"abc"),
        "ba7816bf8f01cfea414140de5dae2223b00361a396177a9cb410ff61f20015ad"
    );
    assert_eq!(to_hex(&[0x00, 0x0f, 0xa5, 0xff]), "000fa5ff");
    assert_eq!(to_hex(&[]), "");
}

#[test]
fn package_with_wrong_checksum_is_withheld() {
    let r = verify_package(b"abc".to_vec(), "abc123");
    assert!(matches!(r, Err(StoreError::Security(_))));
    let upper = "BA7816BF8F01CFEA414140DE5DAE2223B00361A396177A9CB410FF61F20015AD";
    assert_eq!(verify_package(b"abc".to_vec(), upper).unwrap(), b"abc".to_vec());
}

#[test]
fn checksum_gate_on_computed_value() {
    assert_eq!(check_package(vec![1, 2], "abc123", "ABC123").unwrap(), vec![1, 2]);
    assert!(matches!(check_package(vec![1, 2], "abc123", "abc124"), Err(StoreError::Security(_))));
    assert!(check_package(vec![], "", "").is_ok());
}

#[test]
fn decimal_text_values() {
    assert_eq!(decimal_text(0), "0");
    assert_eq!(decimal_text(7), "7");
    assert_eq!(decimal_text(1234), "1234");
    assert_eq!(decimal_text(u32::MAX), "4294967295");
}

#[test]
fn catalog_query_pairs() {
    let f = StoreFilters {
        extension_type: Some(ExtensionType::Theme),
        tags: Some(vec!["dark".to_string(), "retro".to_string()]),
        search: Some("neon".to_string()),
    };
    let q = catalog_query(&f, SortOption::Downloads, 2, 20);
    let pairs: Vec<(&str, &str)> = q.iter().map(|(k, v)| (k.as_str(), v.as_str())).collect();
    assert_eq!(
        pairs,
        vec![
            ("page", "2"),
            ("limit", "20"),
            ("sort", "downloads"),
            ("type", "theme"),
            ("tags", "dark"),
            ("tags", "retro"),
            ("search", "neon"),
        ]
    );
    let bare = StoreFilters { extension_type: None, tags: None, search: None };
    assert_eq!(catalog_query(&bare, SortOption::Newest, 1, 10).len(), 3);
}

#[test]
fn catalog_plan_skips_disabled_and_fails_on_unknown() {
    let mut s = StoreManager::new();
    s.add_source(source("s1", SourceType::Community, "https://catalog.example/ext", 1)).unwrap();
    let mut off = source("off", SourceType::Community, "https://off.example", 2);
    off.enabled = false;
    s.add_source(off).unwrap();
    let f = FrontendStoreFilters {
        extension_type: None,
        tags: None,
        search: None,
        source_ids: Some(vec!["default".to_string(), "off".to_string(), "s1".to_string()]),
    };
    let plan = plan_catalog_fetch(&s, &f).unwrap();
    assert_eq!(plan.len(), 2);
    assert!(matches!(&plan[0], CatalogRequest::DefaultList { source_id, .. } if source_id == "default"));
    assert!(matches!(&plan[1], CatalogRequest::Api { source_id, base_url } if source_id == "s1" && base_url == "https://catalog.example/ext"));
    let unknown = FrontendStoreFilters {
        extension_type: None,
        tags: None,
        search: None,
        source_ids: Some(vec!["s1".to_string(), "nope".to_string()]),
    };
    assert!(matches!(plan_catalog_fetch(&s, &unknown), Err(StoreError::NotFound(_))));
    let none = FrontendStoreFilters { extension_type: None, tags: None, search: None, source_ids: None };
    assert!(plan_catalog_fetch(&s, &none).unwrap().is_empty());
}

#[test]
fn details_plan() {
    let mut s = StoreManager::new();
    let mut off = source("off", SourceType::Community, "https://off.example", 2);
    off.enabled = false;
    s.add_source(off).unwrap();
    s.add_source(source("s1", SourceType::Community, "https://catalog.example/ext", 1)).unwrap();
    assert!(matches!(plan_details_fetch(&s, "default", "https://x/m.json"), Ok(DetailsRequest::FromManifest { url }) if url == "https://x/m.json"));
    assert!(matches!(plan_details_fetch(&s, "zzz", "e"), Err(StoreError::NotFound(_))));
    assert!(matches!(plan_details_fetch(&s, "off", "e"), Err(StoreError::Validation(_))));
    assert!(matches!(plan_details_fetch(&s, "s1", "pkg-42"), Ok(DetailsRequest::Api { base_url, extension_id }) if base_url == "https://catalog.example/ext" && extension_id == "pkg-42"));
}

#[test]
fn details_from_a_bare_manifest() {
    let m = ExtensionManifest {
        name: "lib".to_string(),
        version: "2.0".to_string(),
        author: None,
        description: Some("d".to_string()),
        extension_type: ExtensionType::GameLibrary,
        entry_point: "main.js".to_string(),
        permissions: vec![],
        dependencies: None,
        hooks: None,
        apis: None,
        menu_items: None,
    };
    let d = details_from_manifest("https://x/m.json", m);
    assert_eq!(d.id, "https://x/m.json");
    assert_eq!(d.manifest_url, "https://x/m.json");
    assert_eq!(d.author, "");
    assert_eq!(d.description, "d");
    assert_eq!(d.download_count, 0);
    assert!(d.package_url.is_empty() && d.checksum.is_empty() && d.dependencies.is_empty());
}

#[test]
fn listing_entries_from_the_static_list_and_the_api() {
    let l = DefaultListing {
        name: "lib".to_string(),
        description: "d".to_string(),
        version: "1.0".to_string(),
        author: "Ada".to_string(),
        tags: vec!["retro".to_string()],
        icon: Some("icon.png".to_string()),
        manifest_url: "https://x/lib.json".to_string(),
    };
    let e = entry_from_listing("default", l);
    assert_eq!(e.id, "https://x/lib.json");
    assert_eq!(e.extension_type, ExtensionType::GameLibrary);
    assert_eq!(e.source_id, "default");
    assert_eq!(e.icon.as_deref(), Some("icon.png"));
    assert_eq!((e.download_count, e.rating_hundredths), (0, 0));
    let s = StoreExtensionSummary {
        id: "pkg-42".to_string(),
        name: "lib".to_string(),
        version: "2.0".to_string(),
        author: "Ada".to_string(),
        description: "d".to_string(),
        extension_type: ExtensionType::Theme,
        download_count: 12,
        rating_hundredths: 425,
        tags: vec![],
    };
    let e = entry_from_summary("s1", s);
    assert_eq!(e.id, "pkg-42");
    assert_eq!(e.source_id, "s1");
    assert!(e.icon.is_none());
    assert_eq!((e.download_count, e.rating_hundredths), (12, 425));
    assert_eq!(e.extension_type, ExtensionType::Theme);
}

#[test]
fn private_and_loopback_hosts_are_blocked() {
    for h in ["localhost", "127.0.0.1", "127.0.0.2", "10.1.2.3", "172.16.0.1", "172.20.0.1", "172.31.255.1", "192.168.0.9", "0.0.0.0", "[::1]"] {
        assert!(is_blocked_host(h), "{} should be blocked", h);
    }
    for h in ["catalog.example", "app10.example.com", "172.32.0.1", "172.15.0.1", "8.8.8.8"] {
        assert!(!is_blocked_host(h), "{} should pass", h);
    }
}

#[test]
fn custom_sources_on_private_ranges_are_refused() {
    let mut s = StoreManager::new();
    for url in ["https://172.20.0.1", "https://127.0.0.2/x", "https://10.0.0.5"] {
        let r = s.add_source(source("p", SourceType::Custom, url, 1));
        assert!(matches!(r, Err(StoreError::Security(_))), "{}", url);
    }
    assert!(s.add_source(source("p", SourceType::Custom, "https://app10.example.com", 1)).is_ok());
}

#[test]
fn policy_on_parsed_parts() {
    assert!(source_policy(SourceType::Custom, "https", Some("catalog.example")).is_ok());
    assert!(matches!(source_policy(SourceType::Custom, "http", Some("catalog.example")), Err(StoreError::Security(_))));
    assert!(matches!(source_policy(SourceType::Custom, "https", Some("172.17.1.1")), Err(StoreError::Security(_))));
    assert!(source_policy(SourceType::Community, "http", Some("localhost")).is_ok());
    assert!(source_policy(SourceType::Custom, "https", None).is_ok());
}

#[test]
fn removed_source_is_gone_and_updated_source_is_found() {
    let mut s = StoreManager::new();
    s.add_source(source("a", SourceType::Community, "https://a.example", 1)).unwrap();
    s.remove_source("a").unwrap();
    assert!(s.get_source("a").is_none());
    assert!(s.remove_source("a").is_ok());
    s.add_source(source("b", SourceType::Community, "https://b.example", 1)).unwrap();
    s.update_source(source("b", SourceType::Community, "https://b2.example", 4)).unwrap();
    let b = s.get_source("b").unwrap();
    assert_eq!((b.base_url.as_str(), b.priority), ("https://b2.example", 4));
}
