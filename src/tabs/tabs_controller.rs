use vstd::prelude::*;

use crate::repository::{CatalogView, RepositoryManager};
use crate::tabs::add_release_tab::{self, AddReleaseTab, TabAction};

verus! {

#[derive(Debug, Clone, Copy, PartialEq, Eq, Structural)]
pub enum Tab {
    Home,
    Settings,
    AddRelease,
}

#[derive(Debug)]
pub enum Message {
    AddRelease(add_release_tab::Message),
    RepositoriesTestTaskPerformed(String),
}

/// The key of the setting that the startup check reads.
pub open spec fn test_key() -> Seq<char> {
    "Test"@
}

/// The value that the startup check stores when the setting is absent.
pub open spec fn test_default() -> Seq<char> {
    "value"@
}

/// The startup check of the catalog: the value of the setting `Test`,
/// which is first added as `value` when it is absent.
pub fn repositories_test_task(repositories: &mut RepositoryManager) -> (r: String)
    requires
        old(repositories).wf(),
    ensures
        final(repositories).wf(),
        if old(repositories)@.settings.contains_key(test_key()) {
            r@ == old(repositories)@.settings[test_key()] && final(repositories)@ == old(repositories)@
        } else {
            r@ == test_default() && final(repositories)@ == (CatalogView {
                settings: old(repositories)@.settings.insert(test_key(), test_default()),
                ..old(repositories)@
            })
        },
{
    proof {
        reveal_strlit("Test");
        reveal_strlit("value");
    }
    match repositories.settings().get_setting("Test") {
        Ok(value) => value,
        Err(_) => {
            let _ = repositories.add_setting("Test", "value");
            match repositories.settings().get_setting("Test") {
                Ok(value) => value,
                Err(_) => String::new(),
            }
        },
    }
}

/// Holds the tabs and which of them is shown.
pub struct TabsController {
    current_tab: Tab,
    add_release_tab: AddReleaseTab,
}

impl TabsController {
    pub closed spec fn current(&self) -> Tab {
        self.current_tab
    }

    /// The tab for adding a release.
    pub closed spec fn release_tab(&self) -> AddReleaseTab {
        self.add_release_tab
    }

    /// The controller, showing `selected_tab` or else the home tab, and the
    /// report of the startup check of the catalog.
    pub fn new(selected_tab: Option<Tab>, repositories: &mut RepositoryManager) -> (r: (
        Self,
        Message,
    ))
        requires
            old(repositories).wf(),
        ensures
            final(repositories).wf(),
            r.0.current() == match selected_tab {
                Some(t) => t,
                None => Tab::Home,
            },
            r.0.release_tab().systems().len() == 0,
            r.1 matches Message::RepositoriesTestTaskPerformed(v) && if old(repositories)@.settings.contains_key(test_key()) {
                v@ == old(repositories)@.settings[test_key()] && final(repositories)@ == old(repositories)@
            } else {
                v@ == test_default() && final(repositories)@ == (CatalogView {
                    settings: old(repositories)@.settings.insert(test_key(), test_default()),
                    ..old(repositories)@
                })
            },
    {
        let (add_release_tab, _) = AddReleaseTab::new();
        let current_tab = match selected_tab {
            Some(t) => t,
            None => Tab::Home,
        };
        let value = repositories_test_task(repositories);
        (TabsController { current_tab, add_release_tab }, Message::RepositoriesTestTaskPerformed(value))
    }

    /// Hands a release-tab message to that tab, which answers as
    /// `AddReleaseTab::update` does; the startup report asks for nothing.
    /// The shown tab stays.
    pub fn update(&mut self, message: Message) -> (r: TabAction)
        ensures
            final(self).current() == old(self).current(),
            match message {
                Message::AddRelease(m) => match m {
                    add_release_tab::Message::SystemsFetched(Ok(systems)) => final(self).release_tab().systems() == systems@ && r is Idle,
                    add_release_tab::Message::AddSystem(name) => final(self).release_tab().systems()
                        == old(self).release_tab().systems() && r == TabAction::AddSystem(name),
                    add_release_tab::Message::SystemAdded(Ok(_)) => final(self).release_tab().systems() == old(self).release_tab().systems()
                        && r is FetchSystems,
                    _ => final(self).release_tab().systems() == old(self).release_tab().systems()
                        && r is Idle,
                },
                Message::RepositoriesTestTaskPerformed(_) => final(self).release_tab().systems()
                    == old(self).release_tab().systems() && r is Idle,
            },
    {
        match message {
            Message::AddRelease(m) => self.add_release_tab.update(m),
            Message::RepositoriesTestTaskPerformed(_) => TabAction::Idle,
        }
    }

    /// Shows `tab`.
    pub fn switch_to_tab(&mut self, tab: Tab)
        ensures
            final(self).current() == tab,
            final(self).release_tab().systems() == old(self).release_tab().systems(),
    {
        self.current_tab = tab;
    }

    pub fn current_tab(&self) -> (r: Tab)
        ensures
            r == self.current(),
    {
        self.current_tab
    }
}

} // verus!
