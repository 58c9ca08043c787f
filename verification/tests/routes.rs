use jsserve::routes::{RouteTable, CREATE_CACHE};

fn sorted(mut paths: Vec<String>) -> Vec<String> {
    paths.sort();
    paths
}

#[test]
fn a_new_table_is_empty() {
    let table: RouteTable<u32> = RouteTable::new();
    assert_eq!(table.get("/"), None);
    assert!(!table.contains_key("/"));
    assert!(table.keys().is_empty());
    assert!(table.served_paths().is_empty());
}

#[test]
fn a_registered_path_has_its_handler() {
    let mut table = RouteTable::new();
    table.insert("/", 1);
    table.insert("/about", 2);
    assert_eq!(table.get("/"), Some(&1));
    assert_eq!(table.get("/about"), Some(&2));
    assert_eq!(table.get("/abou"), None);
    assert!(table.contains_key("/about"));
}

#[test]
fn the_last_registration_wins() {
    let mut table = RouteTable::new();
    table.insert("/", 1);
    table.insert("/about", 2);
    table.insert("/", 3);
    assert_eq!(table.get("/"), Some(&3));
    assert_eq!(table.get("/about"), Some(&2));
    assert_eq!(sorted(table.keys()), vec!["/", "/about"]);
}

#[test]
fn only_paths_with_a_slash_in_front_are_served() {
    let mut table = RouteTable::new();
    table.insert("/a/:id", 1);
    table.insert("b", 2);
    table.insert("", 3);
    table.insert(CREATE_CACHE, 4);
    table.insert("c/", 5);
    table.insert("/", 6);
    assert_eq!(sorted(table.served_paths()), vec!["/", "/a/:id"]);
    assert_eq!(table.keys().len(), 6);
}

#[test]
fn the_cache_builder_is_registered_but_not_served() {
    let mut table = RouteTable::new();
    table.insert(CREATE_CACHE, 1);
    assert_eq!(CREATE_CACHE, "__create_cache");
    assert_eq!(table.keys(), vec!["__create_cache"]);
    assert!(table.served_paths().is_empty());
}

#[test]
fn a_snapshot_does_not_see_later_registrations() {
    let mut table = RouteTable::new();
    table.insert("/", "home".to_string());
    let snapshot = table.snapshot();
    table.insert("/", "other".to_string());
    table.insert("/new", "new".to_string());
    assert_eq!(snapshot.get("/"), Some(&"home".to_string()));
    assert_eq!(snapshot.get("/new"), None);
    assert_eq!(snapshot.keys(), vec!["/"]);
}
