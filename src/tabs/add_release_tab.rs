use vstd::prelude::*;

use crate::error::DatabaseError;
use crate::view_models::SystemListModel;

verus! {

#[derive(Debug)]
pub enum Message {
    SystemsFetched(Result<Vec<SystemListModel>, DatabaseError>),
    AddSystem(String),
    SystemSelected(SystemListModel),
    SystemAdded(Result<i64, DatabaseError>),
}

/// What the tab's owner must do after a message.
#[derive(Debug)]
pub enum TabAction {
    Idle,
    FetchSystems,
    AddSystem(String),
}

/// The tab for adding a release: the systems it offers to pick from.
pub struct AddReleaseTab {
    systems: Vec<SystemListModel>,
}

impl AddReleaseTab {
    pub closed spec fn systems(&self) -> Seq<SystemListModel> {
        self.systems@
    }

    /// A tab with no systems yet, and the fetch that fills it.
    pub fn new() -> (r: (Self, TabAction))
        ensures
            r.0.systems().len() == 0,
            r.1 is FetchSystems,
    {
        (AddReleaseTab { systems: Vec::new() }, TabAction::FetchSystems)
    }

    /// Fetched systems replace the offered ones; a submitted name asks for
    /// a new system; an added system asks for a fresh fetch; failures and
    /// picks ask for nothing.
    pub fn update(&mut self, message: Message) -> (r: TabAction)
        ensures
            match message {
                Message::SystemsFetched(Ok(systems)) => final(self).systems() == systems@ && r is Idle,
                Message::AddSystem(name) => final(self).systems() == old(self).systems()
                    && r == TabAction::AddSystem(name),
                Message::SystemAdded(Ok(_)) => final(self).systems() == old(self).systems()
                    && r is FetchSystems,
                _ => final(self).systems() == old(self).systems() && r is Idle,
            },
    {
        match message {
            Message::SystemsFetched(Ok(systems)) => {
                self.systems = systems;
                TabAction::Idle
            },
            Message::SystemsFetched(Err(_)) => TabAction::Idle,
            Message::AddSystem(name) => TabAction::AddSystem(name),
            Message::SystemSelected(_) => TabAction::Idle,
            Message::SystemAdded(Ok(_)) => TabAction::FetchSystems,
            Message::SystemAdded(Err(_)) => TabAction::Idle,
        }
    }
}

} // verus!
