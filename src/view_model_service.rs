use std::sync::Arc;

use vstd::prelude::*;

use crate::error::DatabaseError;
use crate::repository::RepositoryManager;
use crate::view_models::{
    EmulatorSystemViewModel, EmulatorViewModel, SettingName, Settings, SystemListModel,
};

verus! {

/// Builds display-ready views of the catalog's rows.
pub struct ViewModelService {
    repository_manager: Arc<RepositoryManager>,
}

impl ViewModelService {
    /// The catalog that the service reads.
    pub closed spec fn catalog(&self) -> RepositoryManager {
        *self.repository_manager
    }

    pub fn new(repository_manager: Arc<RepositoryManager>) -> (r: Self)
        ensures
            r.catalog() == *repository_manager,
    {
        ViewModelService { repository_manager }
    }

    /// The emulator `emulator_id` with the name and arguments of each system
    /// it is linked to, in link order; `NotFound` when there is no such
    /// emulator.
    pub fn get_emulator_view_model(&self, emulator_id: i64) -> (r: Result<
        EmulatorViewModel,
        DatabaseError,
    >)
        requires
            self.catalog().wf(),
        ensures
            r is Ok <==> crate::models::has_id(self.catalog()@.emulators, emulator_id),
            r matches Ok(m) ==> {
                let links = self.catalog()@.emulator_links(emulator_id);
                &&& m.id == emulator_id
                &&& exists|i: int|
                    0 <= i < self.catalog()@.emulators.len() && #[trigger] self.catalog()@.emulators[i].id
                        == emulator_id && self.catalog()@.emulators[i].name == m.name
                        && self.catalog()@.emulators[i].executable == m.executable
                        && self.catalog()@.emulators[i].extract_files == m.extract_files
                &&& m.systems@.len() == links.len()
                &&& forall|k: int|
                    0 <= k < links.len() ==> (#[trigger] m.systems@[k]).system_id
                        == links[k].system_id && m.systems@[k].arguments == links[k].arguments
                        && m.systems@[k].system_name@ == self.catalog()@.system_name(
                        links[k].system_id,
                    )
            },
            r matches Err(e) ==> e == DatabaseError::NotFound,
    {
        let (emulator, emulator_systems) = match self.repository_manager.get_emulator_with_systems(
            emulator_id,
        ) {
            Ok(found) => found,
            Err(e) => {
                return Err(e);
            },
        };
        let ghost links = self.catalog()@.emulator_links(emulator_id);
        let mut systems: Vec<EmulatorSystemViewModel> = Vec::new();
        let mut i: usize = 0;
        while i < emulator_systems.len()
            invariant
                i <= emulator_systems@.len(),
                emulator_systems@.len() == links.len(),
                systems@.len() == i,
                forall|k: int|
                    0 <= k < links.len() ==> (#[trigger] emulator_systems@[k]).system_id
                        == links[k].system_id && emulator_systems@[k].arguments == links[k].arguments
                        && emulator_systems@[k].system_name@ == self.catalog()@.system_name(
                        links[k].system_id,
                    ),
                forall|k: int|
                    0 <= k < i ==> (#[trigger] systems@[k]).system_id == links[k].system_id
                        && systems@[k].arguments == links[k].arguments && systems@[k].system_name@
                        == self.catalog()@.system_name(links[k].system_id),
            decreases emulator_systems@.len() - i,
        {
            let es = &emulator_systems[i];
            systems.push(
                EmulatorSystemViewModel {
                    system_id: es.system_id,
                    system_name: es.system_name.clone(),
                    arguments: es.arguments.clone(),
                },
            );
            i = i + 1;
        }
        let ghost e = emulator;
        proof {
            let i = choose|i: int| 0 <= i < self.catalog()@.emulators.len() && self.catalog()@.emulators[i] == e;
            assert(self.catalog()@.emulators[i].id == emulator_id);
        }
        Ok(
            EmulatorViewModel {
                id: emulator.id,
                name: emulator.name,
                executable: emulator.executable,
                extract_files: emulator.extract_files,
                systems,
            },
        )
    }

    /// The known settings: each takes its stored value, or the empty string
    /// when it is not stored.
    pub fn get_settings(&self) -> (r: Settings)
        requires
            self.catalog().wf(),
        ensures
            r.collection_root_dir@ == if self.catalog()@.settings.contains_key(
                SettingName::CollectionRootDir.key(),
            ) {
                self.catalog()@.settings[SettingName::CollectionRootDir.key()]
            } else {
                Seq::<char>::empty()
            },
    {
        let settings = self.repository_manager.settings();
        let key = SettingName::CollectionRootDir;
        let collection_root_dir = match settings.get_setting(key.as_str()) {
            Ok(value) => value,
            Err(_) => String::new(),
        };
        Settings { collection_root_dir }
    }

    /// Every system, in table order, each marked deletable exactly when no
    /// release and no emulator links to it.
    pub fn get_system_list_models(&self) -> (r: Vec<SystemListModel>)
        requires
            self.catalog().wf(),
        ensures
            r@.len() == self.catalog()@.systems.len(),
            forall|i: int|
                0 <= i < r@.len() ==> (#[trigger] r@[i]).id == self.catalog()@.systems[i].id
                    && r@[i].name == self.catalog()@.systems[i].name && r@[i].can_delete
                    == !self.catalog()@.system_in_use(self.catalog()@.systems[i].id),
    {
        let systems = self.repository_manager.get_system_repository().get_systems();
        let mut list_models: Vec<SystemListModel> = Vec::new();
        let mut i: usize = 0;
        while i < systems.len()
            invariant
                i <= systems@.len(),
                systems@ == self.catalog()@.systems,
                list_models@.len() == i,
                forall|k: int|
                    0 <= k < i ==> (#[trigger] list_models@[k]).id == systems@[k].id
                        && list_models@[k].name == systems@[k].name && list_models@[k].can_delete
                        == !self.catalog()@.system_in_use(systems@[k].id),
            decreases systems@.len() - i,
        {
            let id = systems[i].id;
            let in_use = self.repository_manager.is_system_in_use(id);
            list_models.push(
                SystemListModel { id, name: systems[i].name.clone(), can_delete: !in_use },
            );
            i = i + 1;
        }
        list_models
    }
}

} // verus!
