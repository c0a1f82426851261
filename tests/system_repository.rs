use media_catalog::error::DatabaseError;
use media_catalog::repository::{RepositoryManager, SystemRepository};

const TEST_SYSTEM_NAME: &str = "Commodore 64";

#[test]
fn test_get_system() {
    let mut repo = SystemRepository::new();
    let id = repo.add_system(&TEST_SYSTEM_NAME.to_string()).unwrap();
    let result = repo.get_system(id).unwrap();
    assert_eq!(result.id, id);
    assert_eq!(result.name, TEST_SYSTEM_NAME);
}

#[test]
fn test_get_systems() {
    let mut repo = SystemRepository::new();
    let id = repo.add_system(&TEST_SYSTEM_NAME.to_string()).unwrap();

    let result = repo.get_systems();
    let result = &result[0];
    assert_eq!(result.id, id);
    assert_eq!(result.name, TEST_SYSTEM_NAME);
}

#[test]
fn test_is_system_in_use() {
    let mut catalog = RepositoryManager::new();
    let release_id = catalog
        .add_release_full("Some release".to_string(), vec![], vec![], vec![])
        .unwrap();
    let emulator_id = catalog
        .add_emulator("Test Emulator".to_string(), "temu".to_string(), false)
        .unwrap();
    let system_id = catalog.add_system(&TEST_SYSTEM_NAME.to_string()).unwrap();

    assert!(!catalog.is_system_in_use(system_id));

    catalog.add_release_system(release_id, system_id).unwrap();
    assert!(catalog.is_system_in_use(system_id));

    catalog.remove_release_system(release_id, system_id);
    assert!(!catalog.is_system_in_use(system_id));

    catalog
        .add_emulator_system(emulator_id, system_id, String::new())
        .unwrap();
    assert!(catalog.is_system_in_use(system_id));
}

#[test]
fn commodore_scenario_in_use_follows_link() {
    let mut catalog = RepositoryManager::new();
    let system_id = catalog.add_system(&TEST_SYSTEM_NAME.to_string()).unwrap();
    assert_eq!(system_id, 1);
    assert!(!catalog.is_system_in_use(1));

    let mut release_id = 0;
    while release_id < 10 {
        release_id = catalog
            .add_release_full(String::new(), vec![], vec![], vec![])
            .unwrap();
    }
    assert_eq!(release_id, 10);
    catalog.add_release_system(10, 1).unwrap();
    assert!(catalog.is_system_in_use(1));
    catalog.remove_release_system(10, 1);
    assert!(!catalog.is_system_in_use(1));
}

#[test]
fn emulator_link_removal_frees_system() {
    let mut catalog = RepositoryManager::new();
    let emulator_id = catalog
        .add_emulator("E".to_string(), "e".to_string(), true)
        .unwrap();
    let system_id = catalog.add_system(&"S".to_string()).unwrap();
    catalog
        .add_emulator_system(emulator_id, system_id, "-x".to_string())
        .unwrap();
    assert!(catalog.is_system_in_use(system_id));
    catalog.remove_emulator_system(emulator_id, system_id);
    assert!(!catalog.is_system_in_use(system_id));
}

#[test]
fn missing_system_is_not_found() {
    let repo = SystemRepository::new();
    assert!(matches!(repo.get_system(1), Err(DatabaseError::NotFound)));
    assert!(repo.get_systems().is_empty());
}

#[test]
fn system_ids_are_generated_in_order() {
    let mut catalog = RepositoryManager::new();
    assert_eq!(catalog.add_system(&"A".to_string()), Ok(1));
    assert_eq!(catalog.add_system(&"B".to_string()), Ok(2));
    let systems = catalog.get_system_repository().get_systems();
    assert_eq!(systems.len(), 2);
    assert_eq!(systems[1].name, "B");
}

#[test]
fn links_to_missing_rows_are_refused() {
    let mut catalog = RepositoryManager::new();
    let system_id = catalog.add_system(&"S".to_string()).unwrap();
    assert_eq!(
        catalog.add_release_system(5, system_id),
        Err(DatabaseError::IntegrityError)
    );
    assert_eq!(
        catalog.add_emulator_system(5, system_id, String::new()),
        Err(DatabaseError::IntegrityError)
    );
    assert!(!catalog.is_system_in_use(system_id));
}

#[test]
fn delete_system_only_when_unused() {
    let mut catalog = RepositoryManager::new();
    let used = catalog.add_system(&"Used".to_string()).unwrap();
    let free = catalog.add_system(&"Free".to_string()).unwrap();
    let release = catalog
        .add_release_full(String::new(), vec![], vec![], vec![used])
        .unwrap();
    assert_eq!(catalog.delete_system(used), Err(DatabaseError::IntegrityError));
    assert_eq!(catalog.delete_system(free), Ok(()));
    assert_eq!(catalog.delete_system(free), Err(DatabaseError::NotFound));
    let names: Vec<String> = catalog
        .get_system_repository()
        .get_systems()
        .into_iter()
        .map(|s| s.name)
        .collect();
    assert_eq!(names, vec!["Used".to_string()]);
    catalog.remove_release_system(release, used);
    assert_eq!(catalog.delete_system(used), Ok(()));
    assert!(catalog.get_system_repository().get_systems().is_empty());
}
