use vstd::prelude::*;

use crate::error::DatabaseError;
use crate::models::Release;
use crate::repository::{link_rows, without_links, CatalogView, RepositoryManager};
use crate::view_models::{
    FileSetListModel, ReleaseViewModel, SoftwareTitleListModel, SystemListModel,
};

verus! {

/// What the release form is told.
#[derive(Debug)]
pub enum ReleaseFormMsg {
    OpenSystemSelector,
    OpenFileSelector,
    SystemSelected(SystemListModel),
    FileSetSelected(FileSetListModel),
    SoftwareTitleSelected(SoftwareTitleListModel),
    StartSaveRelease,
    OpenSoftwareTitleSelector,
}

/// What the release form reports to its owner.
#[derive(Debug, PartialEq, Eq, Structural)]
pub enum ReleaseFormOutputMsg {
    ReleaseCreatedOrUpdated { id: i64 },
}

/// The outcome of a save that the form started.
#[derive(Debug)]
pub enum CommandMsg {
    ReleaseCreatedOrUpdated(Result<i64, DatabaseError>),
}

/// What the form starts with: the release to edit, if any.
pub struct ReleaseFormInit {
    pub release: Option<ReleaseViewModel>,
}

/// Why the form refused to save.
#[derive(Debug, Clone, Copy, PartialEq, Eq, Structural)]
pub enum SaveRejection {
    NoSystems,
    NoFileSets,
    NoSoftwareTitles,
}

/// A save the form asks for: an update of `release_id` when it is given,
/// else a new release.
#[derive(Debug)]
pub struct SaveRequest {
    pub release_id: Option<i64>,
    pub software_title_ids: Vec<i64>,
    pub file_set_ids: Vec<i64>,
    pub system_ids: Vec<i64>,
}

/// What the form's owner must do after a message.
#[derive(Debug)]
pub enum FormAction {
    Idle,
    OpenSystemSelector { selected_system_ids: Vec<i64> },
    OpenFileSelector { selected_system_ids: Vec<i64>, selected_file_set_ids: Vec<i64> },
    OpenSoftwareTitleSelector { selected_software_title_ids: Vec<i64> },
    Rejected(SaveRejection),
    Save(SaveRequest),
}

pub open spec fn system_ids(s: Seq<SystemListModel>) -> Seq<i64> {
    s.map_values(|m: SystemListModel| m.id)
}

pub open spec fn file_set_ids(s: Seq<FileSetListModel>) -> Seq<i64> {
    s.map_values(|m: FileSetListModel| m.id)
}

pub open spec fn software_title_ids(s: Seq<SoftwareTitleListModel>) -> Seq<i64> {
    s.map_values(|m: SoftwareTitleListModel| m.id)
}

fn system_id_list(s: &Vec<SystemListModel>) -> (r: Vec<i64>)
    ensures
        r@ == system_ids(s@),
{
    let mut out: Vec<i64> = Vec::new();
    let mut i: usize = 0;
    while i < s.len()
        invariant
            i <= s@.len(),
            out@ == system_ids(s@.take(i as int)),
        decreases s@.len() - i,
    {
        out.push(s[i].id);
        assert(system_ids(s@.take(i + 1)) =~= system_ids(s@.take(i as int)).push(s@[i as int].id));
        i = i + 1;
    }
    assert(s@.take(s@.len() as int) =~= s@);
    out
}

fn file_set_id_list(s: &Vec<FileSetListModel>) -> (r: Vec<i64>)
    ensures
        r@ == file_set_ids(s@),
{
    let mut out: Vec<i64> = Vec::new();
    let mut i: usize = 0;
    while i < s.len()
        invariant
            i <= s@.len(),
            out@ == file_set_ids(s@.take(i as int)),
        decreases s@.len() - i,
    {
        out.push(s[i].id);
        assert(file_set_ids(s@.take(i + 1)) =~= file_set_ids(s@.take(i as int)).push(s@[i as int].id));
        i = i + 1;
    }
    assert(s@.take(s@.len() as int) =~= s@);
    out
}

fn software_title_id_list(s: &Vec<SoftwareTitleListModel>) -> (r: Vec<i64>)
    ensures
        r@ == software_title_ids(s@),
{
    let mut out: Vec<i64> = Vec::new();
    let mut i: usize = 0;
    while i < s.len()
        invariant
            i <= s@.len(),
            out@ == software_title_ids(s@.take(i as int)),
        decreases s@.len() - i,
    {
        out.push(s[i].id);
        assert(software_title_ids(s@.take(i + 1)) =~= software_title_ids(s@.take(i as int)).push(
            s@[i as int].id,
        ));
        i = i + 1;
    }
    assert(s@.take(s@.len() as int) =~= s@);
    out
}

/// The systems of `s`, in order, each marked as not deletable.
fn undeletable_systems(s: &Vec<SystemListModel>) -> (r: Vec<SystemListModel>)
    ensures
        r@.len() == s@.len(),
        forall|i: int|
            0 <= i < s@.len() ==> (#[trigger] r@[i]).id == s@[i].id && r@[i].name == s@[i].name
                && !r@[i].can_delete,
{
    let mut out: Vec<SystemListModel> = Vec::new();
    let mut i: usize = 0;
    while i < s.len()
        invariant
            i <= s@.len(),
            out@.len() == i,
            forall|k: int|
                0 <= k < i ==> (#[trigger] out@[k]).id == s@[k].id && out@[k].name == s@[k].name
                    && !out@[k].can_delete,
        decreases s@.len() - i,
    {
        out.push(SystemListModel { id: s[i].id, name: s[i].name.clone(), can_delete: false });
        i = i + 1;
    }
    out
}

/// The software titles of `s`, in order, each marked as not deletable.
fn undeletable_titles(s: &Vec<SoftwareTitleListModel>) -> (r: Vec<SoftwareTitleListModel>)
    ensures
        r@.len() == s@.len(),
        forall|i: int|
            0 <= i < s@.len() ==> (#[trigger] r@[i]).id == s@[i].id && r@[i].name == s@[i].name
                && !r@[i].can_delete,
{
    let mut out: Vec<SoftwareTitleListModel> = Vec::new();
    let mut i: usize = 0;
    while i < s.len()
        invariant
            i <= s@.len(),
            out@.len() == i,
            forall|k: int|
                0 <= k < i ==> (#[trigger] out@[k]).id == s@[k].id && out@[k].name == s@[k].name
                    && !out@[k].can_delete,
        decreases s@.len() - i,
    {
        out.push(SoftwareTitleListModel { id: s[i].id, name: s[i].name.clone(), can_delete: false });
        i = i + 1;
    }
    out
}

/// The release form's state: the release being edited, if any, and what
/// has been picked for it.
pub struct ReleaseFormModel {
    pub selected_software_titles: Vec<SoftwareTitleListModel>,
    pub selected_systems: Vec<SystemListModel>,
    pub selected_file_sets: Vec<FileSetListModel>,
    pub release_id: Option<i64>,
}

impl ReleaseFormModel {
    /// A form for a new release, or for editing `init.release` with its
    /// current links picked, in order; the picked systems and software
    /// titles are marked as not deletable.
    pub fn init(init: ReleaseFormInit) -> (r: Self)
        ensures
            match init.release {
                Some(rel) => {
                    &&& r.release_id == Some(rel.id)
                    &&& r.selected_file_sets@ == rel.file_sets@
                    &&& r.selected_systems@.len() == rel.systems@.len()
                    &&& forall|i: int|
                        0 <= i < rel.systems@.len() ==> (#[trigger] r.selected_systems@[i]).id
                            == rel.systems@[i].id && r.selected_systems@[i].name
                            == rel.systems@[i].name && !r.selected_systems@[i].can_delete
                    &&& r.selected_software_titles@.len() == rel.software_titles@.len()
                    &&& forall|i: int|
                        0 <= i < rel.software_titles@.len() ==> (
                        #[trigger] r.selected_software_titles@[i]).id
                            == rel.software_titles@[i].id && r.selected_software_titles@[i].name
                            == rel.software_titles@[i].name
                            && !r.selected_software_titles@[i].can_delete
                },
                None => r.release_id is None && r.selected_systems@.len() == 0
                    && r.selected_file_sets@.len() == 0 && r.selected_software_titles@.len() == 0,
            },
    {
        match init.release {
            Some(rel) => ReleaseFormModel {
                selected_software_titles: undeletable_titles(&rel.software_titles),
                selected_systems: undeletable_systems(&rel.systems),
                selected_file_sets: rel.file_sets,
                release_id: Some(rel.id),
            },
            None => ReleaseFormModel {
                selected_software_titles: Vec::new(),
                selected_systems: Vec::new(),
                selected_file_sets: Vec::new(),
                release_id: None,
            },
        }
    }

    /// Takes one message: a pick is appended to its list, an open asks for
    /// a selector with what is picked so far, and a save asks for a write of
    /// the picked links, or is refused when systems, file sets or software
    /// titles (checked in that order) are missing.
    pub fn update(&mut self, msg: ReleaseFormMsg) -> (r: FormAction)
        ensures
            final(self).release_id == old(self).release_id,
            match msg {
                ReleaseFormMsg::SystemSelected(s) => final(self).selected_systems@ == old(
                    self,
                ).selected_systems@.push(s) && final(self).selected_file_sets@ == old(
                    self,
                ).selected_file_sets@ && final(self).selected_software_titles@ == old(
                    self,
                ).selected_software_titles@ && r is Idle,
                ReleaseFormMsg::FileSetSelected(f) => final(self).selected_file_sets@ == old(
                    self,
                ).selected_file_sets@.push(f) && final(self).selected_systems@ == old(
                    self,
                ).selected_systems@ && final(self).selected_software_titles@ == old(
                    self,
                ).selected_software_titles@ && r is Idle,
                ReleaseFormMsg::SoftwareTitleSelected(t) => final(self).selected_software_titles@
                    == old(self).selected_software_titles@.push(t) && final(self).selected_systems@
                    == old(self).selected_systems@ && final(self).selected_file_sets@ == old(
                    self,
                ).selected_file_sets@ && r is Idle,
                _ => final(self).selected_systems@ == old(self).selected_systems@
                    && final(self).selected_file_sets@ == old(self).selected_file_sets@
                    && final(self).selected_software_titles@ == old(self).selected_software_titles@
                    && match msg {
                    ReleaseFormMsg::OpenSystemSelector => r matches FormAction::OpenSystemSelector {
                        selected_system_ids,
                    } && selected_system_ids@ == system_ids(old(self).selected_systems@),
                    ReleaseFormMsg::OpenFileSelector => r matches FormAction::OpenFileSelector {
                        selected_system_ids,
                        selected_file_set_ids,
                    } && selected_system_ids@ == system_ids(old(self).selected_systems@)
                        && selected_file_set_ids@ == file_set_ids(old(self).selected_file_sets@),
                    ReleaseFormMsg::OpenSoftwareTitleSelector => r matches FormAction::OpenSoftwareTitleSelector {
                        selected_software_title_ids,
                    } && selected_software_title_ids@ == software_title_ids(
                        old(self).selected_software_titles@,
                    ),
                    _ => if old(self).selected_systems@.len() == 0 {
                        r == FormAction::Rejected(SaveRejection::NoSystems)
                    } else if old(self).selected_file_sets@.len() == 0 {
                        r == FormAction::Rejected(SaveRejection::NoFileSets)
                    } else if old(self).selected_software_titles@.len() == 0 {
                        r == FormAction::Rejected(SaveRejection::NoSoftwareTitles)
                    } else {
                        r matches FormAction::Save(req) && req.release_id == old(self).release_id
                            && req.system_ids@ == system_ids(old(self).selected_systems@)
                            && req.file_set_ids@ == file_set_ids(old(self).selected_file_sets@)
                            && req.software_title_ids@ == software_title_ids(
                            old(self).selected_software_titles@,
                        )
                    },
                },
            },
    {
        match msg {
            ReleaseFormMsg::OpenSystemSelector => FormAction::OpenSystemSelector {
                selected_system_ids: system_id_list(&self.selected_systems),
            },
            ReleaseFormMsg::OpenFileSelector => FormAction::OpenFileSelector {
                selected_system_ids: system_id_list(&self.selected_systems),
                selected_file_set_ids: file_set_id_list(&self.selected_file_sets),
            },
            ReleaseFormMsg::OpenSoftwareTitleSelector => FormAction::OpenSoftwareTitleSelector {
                selected_software_title_ids: software_title_id_list(&self.selected_software_titles),
            },
            ReleaseFormMsg::SystemSelected(system) => {
                self.selected_systems.push(system);
                FormAction::Idle
            },
            ReleaseFormMsg::FileSetSelected(file_set) => {
                self.selected_file_sets.push(file_set);
                FormAction::Idle
            },
            ReleaseFormMsg::SoftwareTitleSelected(software_title) => {
                self.selected_software_titles.push(software_title);
                FormAction::Idle
            },
            ReleaseFormMsg::StartSaveRelease => {
                if self.selected_systems.len() == 0 {
                    FormAction::Rejected(SaveRejection::NoSystems)
                } else if self.selected_file_sets.len() == 0 {
                    FormAction::Rejected(SaveRejection::NoFileSets)
                } else if self.selected_software_titles.len() == 0 {
                    FormAction::Rejected(SaveRejection::NoSoftwareTitles)
                } else {
                    FormAction::Save(
                        SaveRequest {
                            release_id: self.release_id,
                            software_title_ids: software_title_id_list(&self.selected_software_titles),
                            file_set_ids: file_set_id_list(&self.selected_file_sets),
                            system_ids: system_id_list(&self.selected_systems),
                        },
                    )
                }
            },
        }
    }

    /// What the form reports once a save has finished: the release's
    /// identifier on success, nothing on failure.
    pub fn update_cmd(&self, message: CommandMsg) -> (r: Option<ReleaseFormOutputMsg>)
        ensures
            match message {
                CommandMsg::ReleaseCreatedOrUpdated(Ok(id)) => r == Some(
                    ReleaseFormOutputMsg::ReleaseCreatedOrUpdated { id },
                ),
                CommandMsg::ReleaseCreatedOrUpdated(Err(_)) => r is None,
            },
    {
        match message {
            CommandMsg::ReleaseCreatedOrUpdated(Ok(id)) => Some(
                ReleaseFormOutputMsg::ReleaseCreatedOrUpdated { id },
            ),
            CommandMsg::ReleaseCreatedOrUpdated(Err(_)) => None,
        }
    }
}

/// Carries out a save that the form asked for: an update of the release
/// when the request names one, else a new release; either way with an
/// empty name and the requested links, all or nothing.
pub fn save_release(repository_manager: &mut RepositoryManager, request: SaveRequest) -> (r: Result<
    i64,
    DatabaseError,
>)
    requires
        old(repository_manager).wf(),
    ensures
        final(repository_manager).wf(),
        r is Err ==> *final(repository_manager) == *old(repository_manager),
        r is Ok <==> match request.release_id {
            Some(id) => crate::models::has_id(old(repository_manager)@.releases, id),
            None => old(repository_manager)@.next_release_id < i64::MAX,
        } && crate::models::all_present(
            old(repository_manager)@.software_titles,
            request.software_title_ids@,
        ) && crate::models::all_present(old(repository_manager)@.file_sets, request.file_set_ids@)
            && crate::models::all_present(old(repository_manager)@.systems, request.system_ids@),
        r matches Ok(id) ==> match request.release_id {
            Some(rid) => exists|n: int, name: String|
                0 <= n < old(repository_manager)@.releases.len()
                    && old(repository_manager)@.releases[n].id == rid && name@ == Seq::<char>::empty()
                    && final(repository_manager)@ == (CatalogView {
                    releases: #[trigger] old(repository_manager)@.releases.update(n, Release { id: rid, name }),
                    release_software_titles: without_links(
                        old(repository_manager)@.release_software_titles,
                        rid,
                        None,
                    ) + link_rows(rid, request.software_title_ids@),
                    release_file_sets: without_links(old(repository_manager)@.release_file_sets, rid, None)
                        + link_rows(rid, request.file_set_ids@),
                    release_systems: without_links(old(repository_manager)@.release_systems, rid, None)
                        + link_rows(rid, request.system_ids@),
                    ..old(repository_manager)@
                }),
            None => id == old(repository_manager)@.next_release_id && exists|name: String|
                name@ == Seq::<char>::empty() && final(repository_manager)@ == (CatalogView {
                    releases: #[trigger] old(repository_manager)@.releases.push(Release { id, name }),
                    release_software_titles: old(repository_manager)@.release_software_titles
                        + link_rows(id, request.software_title_ids@),
                    release_file_sets: old(repository_manager)@.release_file_sets + link_rows(
                        id,
                        request.file_set_ids@,
                    ),
                    release_systems: old(repository_manager)@.release_systems + link_rows(
                        id,
                        request.system_ids@,
                    ),
                    next_release_id: (id + 1) as i64,
                    ..old(repository_manager)@
                }),
        },
        r matches Ok(id) ==> ({
            let v = final(repository_manager)@;
            &&& crate::models::has_id(v.releases, id)
            &&& request.release_id matches Some(rid) ==> id == rid
            &&& crate::repository::links_of(v.release_systems, id) == request.system_ids@.to_set()
            &&& crate::repository::links_of(v.release_file_sets, id)
                == request.file_set_ids@.to_set()
            &&& crate::repository::links_of(v.release_software_titles, id)
                == request.software_title_ids@.to_set()
        }),
{
    let ghost before = repository_manager@;
    proof {
        repository_manager.lemma_wf();
    }
    let ghost st = request.software_title_ids@;
    let ghost fs = request.file_set_ids@;
    let ghost sy = request.system_ids@;
    match request.release_id {
        Some(id) => {
            let name = String::new();
            let ghost nm = name;
            let r = repository_manager.update_release_full(
                id,
                name,
                request.software_title_ids,
                request.file_set_ids,
                request.system_ids,
            );
            proof {
                if r is Ok {
                    crate::repository::lemma_updated_release_links(before, id, st, fs, sy);
                    let n = choose|n: int|
                        0 <= n < before.releases.len() && before.releases[n].id == id
                            && repository_manager@ == (crate::repository::CatalogView {
                            releases: before.releases.update(n, crate::models::Release { id, name: nm }),
                            release_software_titles: crate::repository::without_links(
                                before.release_software_titles,
                                id,
                                None,
                            ) + crate::repository::link_rows(id, st),
                            release_file_sets: crate::repository::without_links(before.release_file_sets, id, None)
                                + crate::repository::link_rows(id, fs),
                            release_systems: crate::repository::without_links(before.release_systems, id, None)
                                + crate::repository::link_rows(id, sy),
                            ..before
                        });
                    assert(repository_manager@.releases[n].id == id);
                }
            }
            r
        },
        None => {
            let name = String::new();
            let ghost nm = name;
            let r = repository_manager.add_release_full(
                name,
                request.software_title_ids,
                request.file_set_ids,
                request.system_ids,
            );
            proof {
                if let Ok(id) = r {
                    crate::repository::lemma_added_release_links(before, id, nm, st, fs, sy);
                    assert(repository_manager@.releases[before.releases.len() as int].id == id);
                }
            }
            r
        },
    }
}

} // verus!
