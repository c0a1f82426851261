use media_catalog::error::{DatabaseError, EmulatorRunnerError};
use media_catalog::release_form::{
    save_release, CommandMsg, FormAction, ReleaseFormInit, ReleaseFormModel, ReleaseFormMsg,
    ReleaseFormOutputMsg, SaveRejection,
};
use media_catalog::repository::RepositoryManager;
use media_catalog::tabs::add_release_tab::{self, AddReleaseTab, TabAction};
use media_catalog::tabs::tabs_controller::{Message, Tab, TabsController};
use media_catalog::tabs::title_bar::{self, TitleBar};
use media_catalog::view_models::{
    FileSetListModel, ReleaseViewModel, SoftwareTitleListModel, SystemListModel,
};
use media_catalog::widgets::systems_widget::SystemsWidget;

fn system(id: i64) -> SystemListModel {
    SystemListModel { id, name: format!("System {}", id), can_delete: true }
}

#[test]
fn title_bar_marks_selected_tab() {
    let mut bar = TitleBar::new();
    assert_eq!(bar.active_tab(), Tab::Home);
    bar.update(title_bar::Message::TabSelected(Tab::Settings));
    assert_eq!(bar.active_tab(), Tab::Settings);
}

#[test]
fn tabs_controller_switches_tabs() {
    let mut catalog = RepositoryManager::new();
    let (mut controller, message) = TabsController::new(None, &mut catalog);
    assert!(matches!(message, Message::RepositoriesTestTaskPerformed(ref v) if v == "value"));
    assert_eq!(catalog.settings().get_setting("Test").unwrap(), "value");
    assert_eq!(controller.current_tab(), Tab::Home);
    controller.switch_to_tab(Tab::AddRelease);
    assert_eq!(controller.current_tab(), Tab::AddRelease);
    let action = controller.update(Message::AddRelease(add_release_tab::Message::SystemAdded(Ok(1))));
    assert!(matches!(action, TabAction::FetchSystems));
    let action = controller.update(Message::RepositoriesTestTaskPerformed(String::new()));
    assert!(matches!(action, TabAction::Idle));
    assert_eq!(controller.current_tab(), Tab::AddRelease);
}

#[test]
fn startup_check_keeps_stored_test_setting() {
    let mut catalog = RepositoryManager::new();
    catalog.add_setting("Test", "stored").unwrap();
    let (controller, message) = TabsController::new(Some(Tab::Settings), &mut catalog);
    assert_eq!(controller.current_tab(), Tab::Settings);
    assert!(matches!(message, Message::RepositoriesTestTaskPerformed(ref v) if v == "stored"));
    assert_eq!(catalog.settings().get_setting("Test").unwrap(), "stored");
    assert_eq!(catalog.settings().get_settings().len(), 1);
}

#[test]
fn add_release_tab_reacts_to_messages() {
    let (mut tab, action) = AddReleaseTab::new();
    assert!(matches!(action, TabAction::FetchSystems));
    let action = tab.update(add_release_tab::Message::AddSystem("C64".to_string()));
    assert!(matches!(action, TabAction::AddSystem(ref n) if n == "C64"));
    let action = tab.update(add_release_tab::Message::SystemAdded(Ok(1)));
    assert!(matches!(action, TabAction::FetchSystems));
    let action = tab.update(add_release_tab::Message::SystemAdded(Err(DatabaseError::StorageError)));
    assert!(matches!(action, TabAction::Idle));
    let action = tab.update(add_release_tab::Message::SystemsFetched(Ok(vec![system(1)])));
    assert!(matches!(action, TabAction::Idle));
}

#[test]
fn systems_widget_starts_empty() {
    let _widget = SystemsWidget::new();
}

#[test]
fn release_form_refuses_incomplete_save() {
    let mut form = ReleaseFormModel::init(ReleaseFormInit { release: None });
    let action = form.update(ReleaseFormMsg::StartSaveRelease);
    assert!(matches!(action, FormAction::Rejected(SaveRejection::NoSystems)));
    form.update(ReleaseFormMsg::SystemSelected(system(1)));
    let action = form.update(ReleaseFormMsg::StartSaveRelease);
    assert!(matches!(action, FormAction::Rejected(SaveRejection::NoFileSets)));
    form.update(ReleaseFormMsg::FileSetSelected(FileSetListModel {
        id: 1,
        file_set_name: "F".to_string(),
    }));
    let action = form.update(ReleaseFormMsg::StartSaveRelease);
    assert!(matches!(action, FormAction::Rejected(SaveRejection::NoSoftwareTitles)));
}

#[test]
fn release_form_saves_new_and_edited_release() {
    let mut catalog = RepositoryManager::new();
    let st = catalog.add_software_title("T".to_string()).unwrap();
    let fs = catalog.add_file_set("F".to_string()).unwrap();
    let sys = catalog.add_system(&"S".to_string()).unwrap();

    let mut form = ReleaseFormModel::init(ReleaseFormInit { release: None });
    form.update(ReleaseFormMsg::SystemSelected(system(sys)));
    form.update(ReleaseFormMsg::FileSetSelected(FileSetListModel {
        id: fs,
        file_set_name: "F".to_string(),
    }));
    form.update(ReleaseFormMsg::SoftwareTitleSelected(SoftwareTitleListModel {
        id: st,
        name: "T".to_string(),
        can_delete: false,
    }));
    let request = match form.update(ReleaseFormMsg::StartSaveRelease) {
        FormAction::Save(request) => request,
        other => panic!("unexpected action {:?}", other),
    };
    assert_eq!(request.release_id, None);
    assert_eq!(request.system_ids, vec![sys]);
    let id = save_release(&mut catalog, request).unwrap();
    assert_eq!(catalog.get_release_system_ids(id), vec![sys]);
    let output = form.update_cmd(CommandMsg::ReleaseCreatedOrUpdated(Ok(id)));
    assert_eq!(output, Some(ReleaseFormOutputMsg::ReleaseCreatedOrUpdated { id }));

    let mut edit = ReleaseFormModel::init(ReleaseFormInit {
        release: Some(ReleaseViewModel {
            id,
            name: String::new(),
            software_titles: vec![SoftwareTitleListModel { id: st, name: "T".to_string(), can_delete: true }],
            file_sets: vec![FileSetListModel { id: fs, file_set_name: "F".to_string() }],
            systems: vec![],
        }),
    });
    assert_eq!(edit.selected_software_titles.len(), 1);
    assert_eq!(edit.selected_software_titles[0].id, st);
    assert!(!edit.selected_software_titles[0].can_delete);
    let action = edit.update(ReleaseFormMsg::OpenSystemSelector);
    assert!(matches!(action, FormAction::OpenSystemSelector { ref selected_system_ids } if selected_system_ids.is_empty()));
    let action = edit.update(ReleaseFormMsg::StartSaveRelease);
    assert!(matches!(action, FormAction::Rejected(SaveRejection::NoSystems)));
    let failed = form.update_cmd(CommandMsg::ReleaseCreatedOrUpdated(Err(DatabaseError::NotFound)));
    assert_eq!(failed, None);
}

#[test]
fn emulator_runner_error_messages() {
    assert_eq!(EmulatorRunnerError::IoError("disk".to_string()).message(), "IO error: disk");
    assert_eq!(EmulatorRunnerError::NoFileSelected.message(), "No file selected");
    assert_eq!(EmulatorRunnerError::FileNotFound.message(), "File not found");
}
