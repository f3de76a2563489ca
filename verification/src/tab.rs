//! The tabs of the detail pane.

use vstd::prelude::*;

verus! {

/// A tab of the detail pane.
#[derive(Clone, Copy, Debug, PartialEq, Eq, PartialOrd, Ord, Structural)]
pub enum DetailTab {
    Logs,
    Overview,
    Env,
    Ports,
    Mounts,
    Health,
}

/// The title of a tab.
pub open spec fn tab_title(tab: DetailTab) -> Seq<char> {
    match tab {
        DetailTab::Logs => "Logs"@,
        DetailTab::Overview => "Overview"@,
        DetailTab::Env => "Env"@,
        DetailTab::Ports => "Ports"@,
        DetailTab::Mounts => "Mounts"@,
        DetailTab::Health => "Health"@,
    }
}

/// The tabs in the order in which they stand on the screen.
pub open spec fn all_tabs() -> Seq<DetailTab> {
    seq![
        DetailTab::Logs,
        DetailTab::Overview,
        DetailTab::Env,
        DetailTab::Ports,
        DetailTab::Mounts,
        DetailTab::Health,
    ]
}

/// The position of a tab on the screen.
pub open spec fn tab_index(tab: DetailTab) -> nat {
    match tab {
        DetailTab::Logs => 0,
        DetailTab::Overview => 1,
        DetailTab::Env => 2,
        DetailTab::Ports => 3,
        DetailTab::Mounts => 4,
        DetailTab::Health => 5,
    }
}

impl DetailTab {
    /// The tabs in the order in which they stand on the screen.
    pub fn all() -> (tabs: [DetailTab; 6])
        ensures
            tabs@ == all_tabs(),
    {
        let tabs = [
            DetailTab::Logs,
            DetailTab::Overview,
            DetailTab::Env,
            DetailTab::Ports,
            DetailTab::Mounts,
            DetailTab::Health,
        ];
        proof {
            assert(tabs@ =~= all_tabs());
        }
        tabs
    }

    /// The title of the tab.
    pub fn title(self) -> (title: &'static str)
        ensures
            title@ == tab_title(self),
    {
        match self {
            DetailTab::Logs => "Logs",
            DetailTab::Overview => "Overview",
            DetailTab::Env => "Env",
            DetailTab::Ports => "Ports",
            DetailTab::Mounts => "Mounts",
            DetailTab::Health => "Health",
        }
    }

    /// The position of the tab on the screen.
    pub fn index(self) -> (index: usize)
        ensures
            index == tab_index(self),
            index < 6,
    {
        match self {
            DetailTab::Logs => 0,
            DetailTab::Overview => 1,
            DetailTab::Env => 2,
            DetailTab::Ports => 3,
            DetailTab::Mounts => 4,
            DetailTab::Health => 5,
        }
    }
}

/// Every tab stands at its position, and at no other.
pub proof fn tabs_stand_at_their_index(tab: DetailTab)
    ensures
        tab_index(tab) < all_tabs().len(),
        all_tabs()[tab_index(tab) as int] == tab,
        forall|i: int| 0 <= i < all_tabs().len() ==> tab_index(#[trigger] all_tabs()[i]) == i,
{
}

} // verus!
