use mmdb_downloader::publish::{update_global_maxmind_client, Registry};
use std::sync::Arc;

#[test]
fn a_new_registry_is_empty() {
    let registry: Registry<String, usize> = Registry::new();
    assert!(registry.client().is_none());
    assert!(registry.geoip().is_none());
}

#[test]
fn a_parsed_artifact_is_published_with_its_derived_state() {
    let mut registry: Registry<String, usize> = Registry::new();
    let published =
        update_global_maxmind_client(&mut registry, Some(String::from("city")), |c: &String| {
            c.len()
        });
    assert!(published);
    assert_eq!(registry.client(), Some(&String::from("city")));
    assert_eq!(registry.geoip(), Some(&4));
}

#[test]
fn a_failed_parse_leaves_an_empty_registry_empty() {
    let mut registry: Registry<String, usize> = Registry::new();
    let published = update_global_maxmind_client(&mut registry, None, |c: &String| c.len());
    assert!(!published);
    assert!(registry.client().is_none());
    assert!(registry.geoip().is_none());
}

#[test]
fn a_failed_parse_keeps_what_is_published() {
    let mut registry: Registry<Arc<Vec<u8>>, Arc<String>> = Registry::new();
    let first = Arc::new(vec![1u8, 2, 3]);
    let derived = Arc::new(String::from("from first"));
    let handed = derived.clone();
    assert!(update_global_maxmind_client(&mut registry, Some(first.clone()), move |_| handed));
    let published =
        update_global_maxmind_client(&mut registry, None, |_| Arc::new(String::from("other")));
    assert!(!published);
    assert!(Arc::ptr_eq(registry.client().unwrap(), &first));
    assert!(Arc::ptr_eq(registry.geoip().unwrap(), &derived));
    assert_eq!(**registry.client().unwrap(), vec![1u8, 2, 3]);
    assert_eq!(**registry.geoip().unwrap(), "from first");
}

#[test]
fn a_failed_parse_does_not_rebuild_the_derived_state() {
    let mut registry: Registry<u32, u32> = Registry::new();
    assert!(update_global_maxmind_client(&mut registry, Some(7), |c: &u32| *c * 2));
    let published = update_global_maxmind_client(&mut registry, None, |_: &u32| -> u32 {
        panic!("nothing was published")
    });
    assert!(!published);
    assert_eq!(registry.client(), Some(&7));
    assert_eq!(registry.geoip(), Some(&14));
}

#[test]
fn a_second_artifact_replaces_the_first() {
    let mut registry: Registry<String, usize> = Registry::new();
    assert!(update_global_maxmind_client(
        &mut registry,
        Some(String::from("one")),
        |c: &String| c.len()
    ));
    assert!(update_global_maxmind_client(
        &mut registry,
        Some(String::from("three")),
        |c: &String| c.len()
    ));
    assert_eq!(registry.client(), Some(&String::from("three")));
    assert_eq!(registry.geoip(), Some(&5));
}

#[test]
fn the_derived_state_is_built_from_the_published_database() {
    let mut registry: Registry<Arc<String>, Arc<String>> = Registry::new();
    let client = Arc::new(String::from("city"));
    assert!(update_global_maxmind_client(&mut registry, Some(client.clone()), |seen| seen.clone()));
    assert!(Arc::ptr_eq(registry.client().unwrap(), &client));
    assert!(Arc::ptr_eq(registry.geoip().unwrap(), &client));
}
