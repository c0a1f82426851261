use std::sync::Arc;

use media_catalog::error::DatabaseError;
use media_catalog::repository::RepositoryManager;
use media_catalog::view_model_service::ViewModelService;
use media_catalog::view_models::SettingName;

#[test]
fn test_get_emulator_view_model() {
    let mut repository_manager = RepositoryManager::new();

    let emulator_id = repository_manager
        .add_emulator("Test Emulator".to_string(), "temu".to_string(), false)
        .unwrap();

    let system_id = repository_manager
        .add_system(&"Test System".to_string())
        .unwrap();

    repository_manager
        .add_emulator_system(emulator_id, system_id, "args".to_string())
        .unwrap();

    let view_model_service = ViewModelService::new(Arc::new(repository_manager));
    let emulator_view_model = view_model_service
        .get_emulator_view_model(emulator_id)
        .unwrap();

    assert_eq!(emulator_view_model.id, emulator_id);
    assert_eq!(emulator_view_model.name, "Test Emulator");
    assert_eq!(emulator_view_model.executable, "temu");
    assert!(!emulator_view_model.extract_files);
    assert_eq!(emulator_view_model.systems.len(), 1);
    assert_eq!(emulator_view_model.systems[0].system_id, system_id);
    assert_eq!(emulator_view_model.systems[0].system_name, "Test System");
    assert_eq!(emulator_view_model.systems[0].arguments, "args");
}

#[test]
fn view_model_service_test_get_settings() {
    let mut repository_manager = RepositoryManager::new();
    repository_manager
        .add_setting(SettingName::CollectionRootDir.as_str(), "test_value")
        .unwrap();

    let view_model_service = ViewModelService::new(Arc::new(repository_manager));
    let settings = view_model_service.get_settings();
    assert_eq!(settings.collection_root_dir, "test_value");
}

#[test]
fn missing_setting_takes_default() {
    let mut repository_manager = RepositoryManager::new();
    repository_manager
        .add_setting("unrelated", "x")
        .unwrap();
    let view_model_service = ViewModelService::new(Arc::new(repository_manager));
    assert_eq!(view_model_service.get_settings().collection_root_dir, "");
}

#[test]
fn missing_emulator_is_not_found() {
    let view_model_service = ViewModelService::new(Arc::new(RepositoryManager::new()));
    assert!(matches!(
        view_model_service.get_emulator_view_model(3),
        Err(DatabaseError::NotFound)
    ));
}

#[test]
fn emulator_view_model_keeps_link_order() {
    let mut catalog = RepositoryManager::new();
    let emulator_id = catalog
        .add_emulator("Multi".to_string(), "multi".to_string(), true)
        .unwrap();
    let other_emulator = catalog
        .add_emulator("Other".to_string(), "other".to_string(), false)
        .unwrap();
    let a = catalog.add_system(&"A".to_string()).unwrap();
    let b = catalog.add_system(&"B".to_string()).unwrap();
    catalog.add_emulator_system(emulator_id, b, "-b".to_string()).unwrap();
    catalog.add_emulator_system(other_emulator, a, "-o".to_string()).unwrap();
    catalog.add_emulator_system(emulator_id, a, "-a".to_string()).unwrap();
    let service = ViewModelService::new(Arc::new(catalog));
    let model = service.get_emulator_view_model(emulator_id).unwrap();
    assert!(model.extract_files);
    assert_eq!(model.systems.len(), 2);
    assert_eq!(model.systems[0].system_name, "B");
    assert_eq!(model.systems[0].arguments, "-b");
    assert_eq!(model.systems[1].system_name, "A");
    assert_eq!(model.systems[1].arguments, "-a");
}

#[test]
fn system_list_marks_deletable_systems() {
    let mut catalog = RepositoryManager::new();
    let used = catalog.add_system(&"Used".to_string()).unwrap();
    let free = catalog.add_system(&"Free".to_string()).unwrap();
    catalog
        .add_release_full(String::new(), vec![], vec![], vec![used])
        .unwrap();
    let service = ViewModelService::new(Arc::new(catalog));
    let models = service.get_system_list_models();
    assert_eq!(models.len(), 2);
    assert_eq!(models[0].id, used);
    assert!(!models[0].can_delete);
    assert_eq!(models[1].id, free);
    assert_eq!(models[1].name, "Free");
    assert!(models[1].can_delete);
}

#[test]
fn catalog_setting_writes() {
    let mut catalog = RepositoryManager::new();
    assert_eq!(catalog.add_setting("k", "a"), Ok(()));
    assert_eq!(catalog.add_setting("k", "b"), Err(DatabaseError::Conflict));
    catalog.update_setting("k", "c").unwrap();
    assert_eq!(catalog.settings().get_setting("k").unwrap(), "c");
    catalog.add_or_update_setting("j", "d").unwrap();
    assert_eq!(catalog.settings().get_setting("j").unwrap(), "d");
}
