use vstd::prelude::*;

use crate::tabs::tabs_controller::Tab;

verus! {

#[derive(Debug, Clone, Copy, PartialEq, Eq, Structural)]
pub enum Message {
    TabSelected(Tab),
}

/// The bar of tab buttons, which marks the active tab.
pub struct TitleBar {
    active_tab: Tab,
}

impl TitleBar {
    pub closed spec fn active(&self) -> Tab {
        self.active_tab
    }

    /// A bar whose active tab is the home tab.
    pub fn new() -> (r: Self)
        ensures
            r.active() == Tab::Home,
    {
        TitleBar { active_tab: Tab::Home }
    }

    /// Marks the selected tab as active.
    pub fn update(&mut self, message: Message)
        ensures
            match message {
                Message::TabSelected(tab) => final(self).active() == tab,
            },
    {
        match message {
            Message::TabSelected(tab) => {
                self.active_tab = tab;
            },
        }
    }

    pub fn active_tab(&self) -> (r: Tab)
        ensures
            r == self.active(),
    {
        self.active_tab
    }
}

} // verus!
