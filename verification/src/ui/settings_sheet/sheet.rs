//! The Settings sheet while it is up: the section on show, what the last field refused, and the
//! one dropdown that may be open.
//!
//! A press on a dropdown's button is also a press outside its panel: it closes the menu on the
//! way down and would open it again on the way up. The sheet remembers what an outside press
//! closed, and the button's half of the same press reads that and stops there.

use vstd::prelude::*;

verus! {

/// The sections down the rail, in their order. A setting belongs to exactly one.
#[derive(Clone, Copy, Debug, PartialEq, Eq, Structural)]
pub enum Section {
    General,
    Transfers,
    Folder,
    Notifications,
    Network,
    Updates,
    Appearance,
    About,
}

/// The rail, top to bottom.
pub open spec fn rail() -> Seq<Section> {
    seq![
        Section::General,
        Section::Transfers,
        Section::Folder,
        Section::Notifications,
        Section::Network,
        Section::Updates,
        Section::Appearance,
        Section::About,
    ]
}

impl Section {
    /// Every section, in the rail's order.
    pub fn all() -> (a: [Section; 8])
        ensures
            a@ == rail(),
    {
        let a = [
            Section::General,
            Section::Transfers,
            Section::Folder,
            Section::Notifications,
            Section::Network,
            Section::Updates,
            Section::Appearance,
            Section::About,
        ];
        assert(a@ =~= rail());
        a
    }
}

/// The sheet's state: which section is open, the complaint under the field that last said no
/// (its row's key and the sentence), the row whose dropdown is open, and the row whose menu an
/// outside press has just closed.
pub struct SettingsSheet {
    pub section: Section,
    pub complaint: Option<(String, String)>,
    pub menu: Option<String>,
    pub dismissed: Option<String>,
}

/// Whether a remembered row is the one with this key.
pub open spec fn names(row: Option<String>, label: Seq<char>) -> bool {
    match row {
        Some(l) => l@ == label,
        None => false,
    }
}

/// A press on a row's dropdown button. It forgets what an outside press closed in any case; if
/// that was this row, the press has been answered already and nothing opens. Otherwise it closes
/// this row's menu if it is the one open, and opens it in place of any other if not.
pub open spec fn toggled(s: SettingsSheet, label: String) -> SettingsSheet {
    if names(s.dismissed, label@) {
        SettingsSheet { dismissed: None, ..s }
    } else if names(s.menu, label@) {
        SettingsSheet { menu: None, dismissed: None, ..s }
    } else {
        SettingsSheet { menu: Some(label), dismissed: None, ..s }
    }
}

/// The menu closed by a choice or by Escape: nothing is left to remember.
pub open spec fn closed(s: SettingsSheet) -> SettingsSheet {
    match s.menu {
        Some(_) => SettingsSheet { menu: None, dismissed: None, ..s },
        None => s,
    }
}

/// The menu closed by a press outside its panel, which remembers the row it closed.
pub open spec fn dismissed(s: SettingsSheet) -> SettingsSheet {
    match s.menu {
        Some(l) => SettingsSheet { menu: None, dismissed: Some(l), ..s },
        None => s,
    }
}

/// Another section chosen: the open menu belonged to a row that is gone.
pub open spec fn in_section(s: SettingsSheet, section: Section) -> SettingsSheet {
    SettingsSheet { section, menu: None, dismissed: None, ..s }
}

/// What a field's answer leaves under the rows: nothing once a value was kept, and the field's
/// key with the sentence when it was refused.
pub open spec fn answered(s: SettingsSheet, key: String, outcome: Result<(), String>) -> SettingsSheet {
    match outcome {
        Ok(_) => SettingsSheet { complaint: None, ..s },
        Err(message) => SettingsSheet { complaint: Some((key, message)), ..s },
    }
}

fn names_row(row: &Option<String>, label: &String) -> (r: bool)
    ensures
        r == names(*row, label@),
{
    match row {
        Some(l) => *l == *label,
        None => false,
    }
}

impl SettingsSheet {
    /// The sheet as it opens: on General, with nothing refused and no menu.
    pub fn open() -> (s: SettingsSheet)
        ensures
            s.section == Section::General,
            s.complaint is None,
            s.menu is None,
            s.dismissed is None,
    {
        SettingsSheet { section: Section::General, complaint: None, menu: None, dismissed: None }
    }

    /// Opens one row's dropdown, or closes the one that is open.
    pub fn toggle_menu(&mut self, label: String)
        ensures
            *final(self) == toggled(*old(self), label),
    {
        let answered = names_row(&self.dismissed, &label);
        self.dismissed = None;
        if answered {
            return ;
        }
        if names_row(&self.menu, &label) {
            self.menu = None;
        } else {
            self.menu = Some(label);
        }
    }

    /// Closes the open menu, as a choice in it or Escape does.
    pub fn close_menu(&mut self)
        ensures
            *final(self) == closed(*old(self)),
    {
        if self.menu.is_some() {
            self.menu = None;
            self.dismissed = None;
        }
    }

    /// Closes the open menu from a press outside its panel, remembering which it was.
    pub fn dismiss_menu(&mut self)
        ensures
            *final(self) == dismissed(*old(self)),
    {
        match self.menu.take() {
            Some(label) => {
                self.dismissed = Some(label);
            },
            None => {},
        }
    }

    /// Whether a dropdown is open.
    pub fn menu_open(&self) -> (r: bool)
        ensures
            r == self.menu is Some,
    {
        self.menu.is_some()
    }

    /// Shows another section, closing whatever menu was open.
    pub fn set_section(&mut self, section: Section)
        ensures
            *final(self) == in_section(*old(self), section),
    {
        self.section = section;
        self.menu = None;
        self.dismissed = None;
    }

    /// Takes a field's answer: a value kept clears the complaint, a refusal puts its sentence
    /// under that field's row.
    pub fn answer(&mut self, key: String, outcome: Result<(), String>)
        ensures
            *final(self) == answered(*old(self), key, outcome),
    {
        match outcome {
            Ok(()) => {
                self.complaint = None;
            },
            Err(message) => {
                self.complaint = Some((key, message));
            },
        }
    }
}

/// A menu closed by a press outside it stays shut when that press was on its own button: the
/// button's half of the press finds the row remembered, and only forgets it.
pub proof fn law_the_button_does_not_reopen_what_its_press_closed(s: SettingsSheet, label: String)
    requires
        names(s.menu, label@),
    ensures
        toggled(dismissed(s), label).menu is None,
        toggled(dismissed(s), label).dismissed is None,
{
}

/// With nothing open and nothing remembered, pressing a button twice leaves the sheet as it was.
pub proof fn law_a_second_press_closes_what_the_first_opened(s: SettingsSheet, label: String)
    requires
        s.menu is None,
        s.dismissed is None,
    ensures
        toggled(s, label).menu == Some(label),
        toggled(toggled(s, label), label) == s,
{
}

/// One menu at a time: a press on another row's button, when nothing is remembered for it,
/// opens that row's menu in place of the one that was open.
pub proof fn law_one_menu_at_a_time(s: SettingsSheet, label: String)
    requires
        !names(s.dismissed, label@),
        !names(s.menu, label@),
    ensures
        toggled(s, label).menu == Some(label),
{
}

/// However a menu was left, moving to another section leaves none open and none remembered, so
/// the next press on any button opens its menu.
pub proof fn law_a_new_section_starts_with_every_menu_shut(
    s: SettingsSheet,
    section: Section,
    label: String,
)
    ensures
        in_section(s, section).menu is None,
        toggled(in_section(s, section), label).menu == Some(label),
{
}

} // verus!
