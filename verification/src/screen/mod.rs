//! The interactive screens, the keys that drive them, and the outside work
//! (listing and reading vaults, saving, the clipboard) that a key can ask for.
pub mod account_list;
pub mod confirm;
pub mod export;
pub mod password;
pub mod search;
pub mod vault_list;

use crate::screen::account_list::{AccountList, AccountListView};
use crate::screen::password::{PasswordPrompt, PromptView};
use crate::screen::vault_list::{VaultList, VaultListView};
use vstd::prelude::*;

verus! {

/// A key press, as the screens see it.
#[derive(Clone, Copy, Debug, PartialEq, Eq, Structural)]
pub enum Key {
    Char(char),
    Enter,
    Esc,
    Backspace,
    Delete,
    Left,
    Right,
    Up,
    Down,
    Other,
}

/// The screen shown.
#[derive(Debug)]
pub enum Screen {
    VaultList(VaultList),
    PasswordPrompt(PasswordPrompt),
    AccountList(AccountList),
    Exit,
}

pub enum ScreenView {
    VaultList(VaultListView),
    PasswordPrompt(PromptView),
    AccountList(AccountListView),
    Exit,
}

impl View for Screen {
    type V = ScreenView;

    open spec fn view(&self) -> ScreenView {
        match self {
            Screen::VaultList(s) => ScreenView::VaultList(s@),
            Screen::PasswordPrompt(s) => ScreenView::PasswordPrompt(s@),
            Screen::AccountList(s) => ScreenView::AccountList(s@),
            Screen::Exit => ScreenView::Exit,
        }
    }
}

/// Outside work that a key asks for; its outcome is handed back to the
/// application (`App::vaults_listed`, `unlock_finished`, `save_finished`,
/// `code_copied`, `uri_copied`).
#[derive(Debug)]
pub enum Effect {
    Nothing,
    /// List the vault files.
    ListVaults,
    /// Read the prompt's vault with the password typed.
    Unlock,
    /// Save the list's accounts to its vault with its password.
    Save,
    /// Put an account's code on the clipboard; `note` is shown once done.
    CopyCode { code: String, note: String },
    /// Put the export pop-up's URI on the clipboard.
    CopyUri(String),
}

pub enum EffectView {
    Nothing,
    ListVaults,
    Unlock,
    Save,
    CopyCode(Seq<char>, Seq<char>),
    CopyUri(Seq<char>),
}

impl View for Effect {
    type V = EffectView;

    open spec fn view(&self) -> EffectView {
        match self {
            Effect::Nothing => EffectView::Nothing,
            Effect::ListVaults => EffectView::ListVaults,
            Effect::Unlock => EffectView::Unlock,
            Effect::Save => EffectView::Save,
            Effect::CopyCode { code, note } => EffectView::CopyCode(code@, note@),
            Effect::CopyUri(u) => EffectView::CopyUri(u@),
        }
    }
}

} // verus!
