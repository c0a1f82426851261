use vstd::prelude::*;

use crate::view_models::SystemListModel;

verus! {

#[derive(Debug)]
pub enum Message {
    SystemSelected(SystemListModel),
}

/// A pick list of systems.
pub struct SystemsWidget {
    systems: Vec<SystemListModel>,
    selected_system: Option<SystemListModel>,
}

impl SystemsWidget {
    pub closed spec fn systems(&self) -> Seq<SystemListModel> {
        self.systems@
    }

    pub closed spec fn selected(&self) -> Option<SystemListModel> {
        self.selected_system
    }

    /// An empty list with nothing picked.
    pub fn new() -> (r: Self)
        ensures
            r.systems().len() == 0,
            r.selected() is None,
    {
        SystemsWidget { systems: Vec::new(), selected_system: None }
    }
}

} // verus!
