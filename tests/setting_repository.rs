use media_catalog::error::DatabaseError;
use media_catalog::settings::SettingRepository;

fn lookup(repository: &SettingRepository, key: &str) -> Option<String> {
    repository
        .get_settings()
        .into_iter()
        .find(|s| s.key == key)
        .map(|s| s.value)
}

#[test]
fn setting_repository_test_get_settings() {
    let mut repository = SettingRepository::new();
    repository.add_setting("test_key", "test_value").unwrap();

    assert_eq!(lookup(&repository, "test_key").unwrap(), "test_value");

    repository.update_setting("test_key", "updated_value").unwrap();
    let setting = repository.get_setting("test_key").unwrap();
    assert_eq!(setting, "updated_value");

    repository.add_or_update_setting("test_key", "new_value").unwrap();
    let setting = repository.get_setting("test_key").unwrap();
    assert_eq!(setting, "new_value");
}

#[test]
fn add_then_get_and_duplicate_add_conflicts() {
    let mut repository = SettingRepository::new();
    assert_eq!(repository.add_setting("k", "v1"), Ok(()));
    assert_eq!(repository.get_setting("k").unwrap(), "v1");
    assert_eq!(repository.add_setting("k", "v2"), Err(DatabaseError::Conflict));
    assert_eq!(repository.get_setting("k").unwrap(), "v1");
}

#[test]
fn missing_setting_is_not_found() {
    let repository = SettingRepository::new();
    assert_eq!(repository.get_setting("absent"), Err(DatabaseError::NotFound));
    assert!(repository.get_settings().is_empty());
}

#[test]
fn update_of_missing_key_changes_nothing() {
    let mut repository = SettingRepository::new();
    assert_eq!(repository.update_setting("absent", "v"), Ok(()));
    assert_eq!(repository.get_setting("absent"), Err(DatabaseError::NotFound));
    assert!(repository.get_settings().is_empty());
}

#[test]
fn upsert_converges_to_last_value() {
    let mut repository = SettingRepository::new();
    repository.add_or_update_setting("k", "first").unwrap();
    assert_eq!(repository.get_setting("k").unwrap(), "first");
    repository.add_or_update_setting("k", "second").unwrap();
    repository.add_or_update_setting("k", "third").unwrap();
    assert_eq!(repository.get_setting("k").unwrap(), "third");
    assert_eq!(repository.get_settings().len(), 1);
}

#[test]
fn settings_lists_every_key_once() {
    let mut repository = SettingRepository::new();
    repository.add_setting("a", "1").unwrap();
    repository.add_setting("b", "2").unwrap();
    repository.add_or_update_setting("a", "3").unwrap();
    let all = repository.get_settings();
    assert_eq!(all.len(), 2);
    assert_eq!(lookup(&repository, "a").unwrap(), "3");
    assert_eq!(lookup(&repository, "b").unwrap(), "2");
}
