//! The first screen: the list of vaults.
use crate::listing::{sorted, stem, texts, vault_names};
use crate::screen::password::{PasswordPrompt, PromptView};
use crate::screen::{Key, Screen, ScreenView};
use crate::secret::Secret;
use vstd::prelude::*;

verus! {

/// The vault names and the selected line.
#[derive(Debug)]
pub struct VaultList {
    vaults: Vec<String>,
    selected: Option<usize>,
}

pub struct VaultListView {
    pub vaults: Seq<Seq<char>>,
    pub selected: Option<nat>,
}

impl View for VaultList {
    type V = VaultListView;

    closed spec fn view(&self) -> VaultListView {
        VaultListView {
            vaults: texts(self.vaults@),
            selected: match self.selected {
                Some(i) => Some(i as nat),
                None => None,
            },
        }
    }
}

/// The line below the selected one (the first where none is selected), kept
/// on the last line.
pub open spec fn spec_down(selected: Option<nat>, len: nat) -> Option<nat> {
    let i = match selected {
        Some(i) => i,
        None => 0,
    };
    Some(
        if len == 0 {
            0
        } else if i + 1 <= len - 1 {
            i + 1
        } else {
            (len - 1) as nat
        },
    )
}

/// The line above the selected one, kept on the first line.
pub open spec fn spec_up(selected: Option<nat>) -> Option<nat> {
    let i = match selected {
        Some(i) => i,
        None => 0,
    };
    Some(
        if i > 0 {
            (i - 1) as nat
        } else {
            0
        },
    )
}

/// Computes `spec_down` on a list of `len` lines.
pub fn select_down(selected: Option<usize>, len: usize) -> (r: Option<usize>)
    ensures
        (match r {
            Some(i) => Some(i as nat),
            None => None,
        }) == spec_down(
            match selected {
                Some(i) => Some(i as nat),
                None => None,
            },
            len as nat,
        ),
{
    let i = match selected {
        Some(i) => i,
        None => 0,
    };
    if len == 0 {
        Some(0)
    } else if i < len - 1 {
        Some(i + 1)
    } else {
        Some(len - 1)
    }
}

/// Computes `spec_up`.
pub fn select_up(selected: Option<usize>) -> (r: Option<usize>)
    ensures
        (match r {
            Some(i) => Some(i as nat),
            None => None,
        }) == spec_up(
            match selected {
                Some(i) => Some(i as nat),
                None => None,
            },
        ),
{
    let i = match selected {
        Some(i) => i,
        None => 0,
    };
    if i > 0 {
        Some(i - 1)
    } else {
        Some(0)
    }
}

/// The vault list after a key: `q` quits, the arrows or `j`/`k` move the
/// selection, Enter asks for the selected vault's password over the list;
/// other keys change nothing.
pub open spec fn spec_vault_list_key(v: VaultListView, key: Key) -> ScreenView {
    match key {
        Key::Char('q') => ScreenView::Exit,
        Key::Down | Key::Char('j') => ScreenView::VaultList(
            VaultListView { selected: spec_down(v.selected, v.vaults.len()), ..v },
        ),
        Key::Up | Key::Char('k') => ScreenView::VaultList(
            VaultListView { selected: spec_up(v.selected), ..v },
        ),
        Key::Enter => match v.selected {
            Some(i) => if i < v.vaults.len() {
                ScreenView::PasswordPrompt(
                    PromptView {
                        vault_name: v.vaults[i as int],
                        input: Seq::empty(),
                        error: None,
                        behind: Some(v),
                    },
                )
            } else {
                ScreenView::VaultList(v)
            },
            None => ScreenView::VaultList(v),
        },
        _ => ScreenView::VaultList(v),
    }
}

/// Moving the selection keeps it on a line of the list (on the first line of
/// an empty one).
pub proof fn lemma_selection_in_range(selected: Option<nat>, len: nat)
    ensures
        spec_down(selected, len) matches Some(i) && (i < len || (len == 0 && i == 0)),
        (selected matches Some(j) && (j < len || (len == 0 && j == 0))) ==> (spec_up(
            selected,
        ) matches Some(i) && (i < len || (len == 0 && i == 0))),
{
}

/// The list of some vault files: their names sorted, without the extension,
/// the first line selected.
pub open spec fn lists_files(v: VaultListView, files: Seq<Seq<char>>) -> bool {
    &&& v.selected == Some(0nat)
    &&& exists|s: Seq<Seq<char>>|
        #![trigger sorted(s)]
        sorted(s) && s.to_multiset() == files.to_multiset() && v.vaults == s.map_values(
            |n: Seq<char>| stem(n),
        )
}

impl VaultList {
    /// The list of the vault files given (see `lists_files`, `vault_names`).
    pub fn new(files: Vec<String>) -> (r: Self)
        ensures
            lists_files(r@, texts(files@)),
    {
        VaultList { vaults: vault_names(files), selected: Some(0) }
    }

    /// The names listed.
    pub fn vaults(&self) -> (r: &Vec<String>)
        ensures
            texts(r@) == self@.vaults,
    {
        &self.vaults
    }

    /// The selected line.
    pub fn selected(&self) -> (r: Option<usize>)
        ensures
            (match r {
                Some(i) => Some(i as nat),
                None => None,
            }) == self@.selected,
    {
        self.selected
    }

    /// Applies a key (see `spec_vault_list_key`).
    pub fn handle_key(self, key: Key) -> (r: Screen)
        ensures
            r@ == spec_vault_list_key(self@, key),
    {
        let ghost v = self@;
        match key {
            Key::Char('q') => Screen::Exit,
            Key::Down | Key::Char('j') => {
                let n = self.vaults.len();
                let s = select_down(self.selected, n);
                Screen::VaultList(VaultList { vaults: self.vaults, selected: s })
            },
            Key::Up | Key::Char('k') => {
                let s = select_up(self.selected);
                Screen::VaultList(VaultList { vaults: self.vaults, selected: s })
            },
            Key::Enter => {
                match self.selected {
                    Some(i) => if i < self.vaults.len() {
                        let name = self.vaults[i].clone();
                        Screen::PasswordPrompt(PasswordPrompt::over(self, name))
                    } else {
                        Screen::VaultList(self)
                    },
                    None => Screen::VaultList(self),
                }
            },
            _ => Screen::VaultList(self),
        }
    }
}

} // verus!
