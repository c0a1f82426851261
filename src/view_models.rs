use vstd::prelude::*;

verus! {

/// A system as a list shows it, with whether it may be deleted.
#[derive(Debug)]
pub struct SystemListModel {
    pub id: i64,
    pub name: String,
    pub can_delete: bool,
}

/// One system that an emulator runs, with its launch arguments.
#[derive(Debug)]
pub struct EmulatorSystemViewModel {
    pub system_id: i64,
    pub system_name: String,
    pub arguments: String,
}

/// An emulator together with the systems it runs.
#[derive(Debug)]
pub struct EmulatorViewModel {
    pub id: i64,
    pub name: String,
    pub executable: String,
    pub extract_files: bool,
    pub systems: Vec<EmulatorSystemViewModel>,
}

/// The settings keys that the application knows.
#[derive(Debug, Clone, Copy, PartialEq, Eq, Structural)]
pub enum SettingName {
    CollectionRootDir,
}

impl SettingName {
    /// The key under which the setting is stored.
    pub open spec fn key(self) -> Seq<char> {
        match self {
            SettingName::CollectionRootDir => "collection_root_dir"@,
        }
    }

    pub fn as_str(&self) -> (r: &'static str)
        ensures
            r@ == self.key(),
    {
        match self {
            SettingName::CollectionRootDir => {
                proof {
                    reveal_strlit("collection_root_dir");
                }
                "collection_root_dir"
            },
        }
    }
}

/// The application's settings, each with its value or its default.
#[derive(Debug)]
pub struct Settings {
    pub collection_root_dir: String,
}

/// A software title as a list shows it.
#[derive(Debug)]
pub struct SoftwareTitleListModel {
    pub id: i64,
    pub name: String,
    pub can_delete: bool,
}

/// A file set as a list shows it.
#[derive(Debug)]
pub struct FileSetListModel {
    pub id: i64,
    pub file_set_name: String,
}

/// A release with what it is linked to.
#[derive(Debug)]
pub struct ReleaseViewModel {
    pub id: i64,
    pub name: String,
    pub software_titles: Vec<SoftwareTitleListModel>,
    pub file_sets: Vec<FileSetListModel>,
    pub systems: Vec<SystemListModel>,
}

} // verus!
