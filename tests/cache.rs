use api_ict::cache::{
    cache_disabled, cache_step, get_cache_path, is_cache_valid, module_cache_key, modules_cache_key,
    should_store, CacheStep, CACHE_TTL_SECS,
};

#[test]
fn list_keys_with_and_without_year_differ() {
    let none = modules_cache_key("fr", &None, &None);
    let three = modules_cache_key("fr", &Some("3".to_string()), &None);
    assert_ne!(none, three);
    assert_eq!(none, "modules_102.114.--");
    assert_eq!(three, "modules_102.114._51.-");
}

#[test]
fn list_key_names_every_parameter() {
    let key = modules_cache_key("de", &Some("2".to_string()), &Some("88601".to_string()));
    assert_eq!(key, "modules_100.101._50._56.56.54.48.49.");
}

#[test]
fn given_placeholder_year_differs_from_missing_year() {
    let none = modules_cache_key("fr", &None, &None);
    let named = modules_cache_key("fr", &Some("default".to_string()), &Some("default".to_string()));
    assert_ne!(none, named);
    let empty = modules_cache_key("fr", &Some(String::new()), &None);
    assert_ne!(none, empty);
    let swapped = modules_cache_key("fr", &None, &Some("3".to_string()));
    assert_ne!(swapped, modules_cache_key("fr", &Some("3".to_string()), &None));
}

#[test]
fn detail_key_names_module_and_language() {
    assert_eq!(module_cache_key("88601", "it"), "module_56.56.54.48.49._105.116.");
}

#[test]
fn separators_inside_values_do_not_collide() {
    assert_ne!(module_cache_key("a_b", "de"), module_cache_key("a", "b_de"));
    assert_ne!(module_cache_key("s_fr_default", "default"), modules_cache_key("fr", &None, &None));
    assert_ne!(module_cache_key("", "fr"), modules_cache_key("fr", &None, &None));
}

#[test]
fn cache_path_is_under_cache_directory() {
    assert_eq!(get_cache_path("module_88601_de"), ".cache/109.111.100.117.108.101.95.56.56.54.48.49.95.100.101..json");
    let path = get_cache_path("../../etc/passwd");
    assert!(path.starts_with(".cache/"));
    assert!(!path[".cache/".len()..].contains('/'));
    assert_ne!(get_cache_path("a"), get_cache_path("b"));
}

#[test]
fn entries_are_valid_until_the_ttl() {
    assert_eq!(CACHE_TTL_SECS, 20736000);
    assert!(is_cache_valid(1000, 1000));
    assert!(is_cache_valid(1000, 1000 + CACHE_TTL_SECS - 1));
    assert!(!is_cache_valid(1000, 1000 + CACHE_TTL_SECS));
    assert!(is_cache_valid(5000, 1000));
}

#[test]
fn two_calls_within_ttl_fetch_once() {
    let mut stored: Option<u64> = None;
    let mut fetches = 0;
    for now in [100u64, 100 + CACHE_TTL_SECS - 1] {
        let step = cache_step(false, stored, now);
        if step != CacheStep::Reuse {
            fetches += 1;
            if should_store(step, true) {
                stored = Some(now);
            }
        }
    }
    assert_eq!(fetches, 1);
}

#[test]
fn two_calls_past_ttl_fetch_twice() {
    let mut stored: Option<u64> = None;
    let mut fetches = 0;
    for now in [100u64, 100 + CACHE_TTL_SECS] {
        let step = cache_step(false, stored, now);
        if step != CacheStep::Reuse {
            fetches += 1;
            if should_store(step, true) {
                stored = Some(now);
            }
        }
    }
    assert_eq!(fetches, 2);
}

#[test]
fn disabled_cache_always_fetches_and_stores_nothing() {
    assert_eq!(cache_step(true, Some(100), 100), CacheStep::Bypass);
    assert!(!should_store(CacheStep::Bypass, true));
}

#[test]
fn failed_fetch_is_not_stored() {
    assert!(!should_store(CacheStep::Refresh, false));
    assert!(should_store(CacheStep::Refresh, true));
    assert!(!should_store(CacheStep::Reuse, true));
}

#[test]
fn only_true_disables_the_cache() {
    assert!(cache_disabled(&Some("true".to_string())));
    assert!(!cache_disabled(&Some("TRUE".to_string())));
    assert!(!cache_disabled(&Some("1".to_string())));
    assert!(!cache_disabled(&None));
}
