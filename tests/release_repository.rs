use std::collections::HashSet;

use media_catalog::error::DatabaseError;
use media_catalog::repository::RepositoryManager;

fn set(ids: Vec<i64>) -> HashSet<i64> {
    ids.into_iter().collect()
}

struct Fixture {
    catalog: RepositoryManager,
    st1: i64,
    st2: i64,
    fs1: i64,
    sys1: i64,
    sys2: i64,
}

fn fixture() -> Fixture {
    let mut catalog = RepositoryManager::new();
    let st1 = catalog.add_software_title("Title one".to_string()).unwrap();
    let st2 = catalog.add_software_title("Title two".to_string()).unwrap();
    let fs1 = catalog.add_file_set("Files".to_string()).unwrap();
    let sys1 = catalog.add_system(&"System one".to_string()).unwrap();
    let sys2 = catalog.add_system(&"System two".to_string()).unwrap();
    Fixture { catalog, st1, st2, fs1, sys1, sys2 }
}

#[test]
fn add_release_full_reads_back_links() {
    let Fixture { mut catalog, st1, st2, fs1, sys1, sys2 } = fixture();
    let id = catalog
        .add_release_full(
            "Release".to_string(),
            vec![st1, st2],
            vec![fs1],
            vec![sys1, sys2],
        )
        .unwrap();
    assert_eq!(catalog.get_release(id).unwrap().name, "Release");
    assert_eq!(set(catalog.get_release_software_title_ids(id)), set(vec![st1, st2]));
    assert_eq!(set(catalog.get_release_file_set_ids(id)), set(vec![fs1]));
    assert_eq!(set(catalog.get_release_system_ids(id)), set(vec![sys1, sys2]));
    assert!(catalog.is_system_in_use(sys1));
    assert!(catalog.is_system_in_use(sys2));
}

#[test]
fn update_release_full_drops_removed_links() {
    let Fixture { mut catalog, st1, st2, fs1, sys1, sys2 } = fixture();
    let id = catalog
        .add_release_full(String::new(), vec![st1, st2], vec![fs1], vec![sys1, sys2])
        .unwrap();
    let updated = catalog
        .update_release_full(id, "Renamed".to_string(), vec![st1], vec![fs1], vec![sys1])
        .unwrap();
    assert_eq!(updated, id);
    assert_eq!(catalog.get_release(id).unwrap().name, "Renamed");
    assert_eq!(set(catalog.get_release_system_ids(id)), set(vec![sys1]));
    assert_eq!(set(catalog.get_release_software_title_ids(id)), set(vec![st1]));
    assert_eq!(set(catalog.get_release_file_set_ids(id)), set(vec![fs1]));
    assert!(!catalog.is_system_in_use(sys2));
}

#[test]
fn dangling_file_set_rolls_back_whole_add() {
    let Fixture { mut catalog, st1, st2, fs1, sys1, sys2 } = fixture();
    let missing = fs1 + 100;
    let result = catalog.add_release_full(
        "Broken".to_string(),
        vec![st1, st2],
        vec![fs1, missing],
        vec![sys1, sys2],
    );
    assert_eq!(result, Err(DatabaseError::IntegrityError));
    assert!(matches!(catalog.get_release(1), Err(DatabaseError::NotFound)));
    assert!(catalog.get_release_system_ids(1).is_empty());
    assert!(catalog.get_release_software_title_ids(1).is_empty());
    assert!(catalog.get_release_file_set_ids(1).is_empty());
    assert!(!catalog.is_system_in_use(sys1));
    let id = catalog
        .add_release_full(String::new(), vec![], vec![fs1], vec![])
        .unwrap();
    assert_eq!(id, 1);
}

#[test]
fn dangling_id_rolls_back_whole_update() {
    let Fixture { mut catalog, st1, fs1, sys1, sys2, .. } = fixture();
    let id = catalog
        .add_release_full("Kept".to_string(), vec![st1], vec![fs1], vec![sys1])
        .unwrap();
    let result = catalog.update_release_full(id, "Gone".to_string(), vec![], vec![], vec![sys2, 999]);
    assert_eq!(result, Err(DatabaseError::IntegrityError));
    assert_eq!(catalog.get_release(id).unwrap().name, "Kept");
    assert_eq!(set(catalog.get_release_system_ids(id)), set(vec![sys1]));
}

#[test]
fn update_of_missing_release_is_not_found() {
    let Fixture { mut catalog, sys1, .. } = fixture();
    assert_eq!(
        catalog.update_release_full(42, String::new(), vec![], vec![], vec![sys1]),
        Err(DatabaseError::NotFound)
    );
    assert!(!catalog.is_system_in_use(sys1));
}

#[test]
fn other_releases_keep_their_links() {
    let Fixture { mut catalog, st1, st2, fs1, sys1, sys2 } = fixture();
    let a = catalog
        .add_release_full(String::new(), vec![st1], vec![fs1], vec![sys1])
        .unwrap();
    let b = catalog
        .add_release_full(String::new(), vec![st2], vec![fs1], vec![sys2])
        .unwrap();
    catalog
        .update_release_full(a, String::new(), vec![], vec![], vec![])
        .unwrap();
    assert!(catalog.get_release_system_ids(a).is_empty());
    assert_eq!(set(catalog.get_release_system_ids(b)), set(vec![sys2]));
    assert_eq!(set(catalog.get_release_software_title_ids(b)), set(vec![st2]));
}
