//! The password prompt that unlocks a vault.
use crate::screen::account_list::{AccountList, AccountListView, BarView};
use crate::screen::vault_list::{VaultList, VaultListView};
use crate::screen::{Effect, EffectView, Key, Screen, ScreenView};
use crate::secret::{secret_text, Secret};
use crate::totp::{can_generate, EntryView, TotpEntry};
use crate::migration::entry_views;
use crate::vault::{VaultError, VaultErrorView};
use vstd::prelude::*;

verus! {

/// The vault being unlocked, the password typed so far, the last error, and
/// the vault list the prompt was opened over (drawn under it).
#[derive(Debug)]
pub struct PasswordPrompt {
    pub vault_name: String,
    pub input: Secret,
    pub error: Option<&'static str>,
    behind: Option<VaultList>,
}

pub struct PromptView {
    pub vault_name: Seq<char>,
    pub input: Seq<char>,
    pub error: Option<Seq<char>>,
    pub behind: Option<VaultListView>,
}

impl View for PasswordPrompt {
    type V = PromptView;

    closed spec fn view(&self) -> PromptView {
        PromptView {
            vault_name: self.vault_name@,
            input: secret_text(self.input),
            error: match self.error {
                Some(e) => Some(e@),
                None => None,
            },
            behind: match self.behind {
                Some(l) => Some(l@),
                None => None,
            },
        }
    }
}

/// The prompt after a key: Esc goes back to the vault list, listed anew with
/// its first line selected; Backspace and characters edit the password, Enter
/// asks for the vault to be opened; any other key clears the password and the
/// error.
pub open spec fn spec_prompt_key(p: PromptView, key: Key) -> (ScreenView, EffectView) {
    match key {
        Key::Esc => (
            ScreenView::VaultList(VaultListView { vaults: Seq::empty(), selected: Some(0) }),
            EffectView::ListVaults,
        ),
        Key::Backspace => (
            ScreenView::PasswordPrompt(
                PromptView {
                    input: if p.input.len() > 0 {
                        p.input.drop_last()
                    } else {
                        p.input
                    },
                    ..p
                },
            ),
            EffectView::Nothing,
        ),
        Key::Char(c) => (
            ScreenView::PasswordPrompt(PromptView { input: p.input.push(c), ..p }),
            EffectView::Nothing,
        ),
        Key::Enter => (ScreenView::PasswordPrompt(p), EffectView::Unlock),
        _ => (
            ScreenView::PasswordPrompt(
                PromptView { vault_name: p.vault_name, input: Seq::empty(), error: None, behind: p.behind },
            ),
            EffectView::Nothing,
        ),
    }
}

/// The prompt line shown for a password: one dot for each byte of its UTF-8
/// form, then the cursor block.
pub open spec fn masked_line(input: Seq<char>) -> Seq<char> {
    Seq::new((vstd::utf8::encode_utf8(input).len() as usize) as nat, |i: int| '•') + "▌"@
}

/// What the prompt shows of a password depends on its length alone: two
/// passwords of the same UTF-8 length show the same line, and no character of
/// a password is shown, only dots and the cursor block.
pub proof fn lemma_masked_line_hides(a: Seq<char>, b: Seq<char>)
    requires
        vstd::utf8::encode_utf8(a).len() == vstd::utf8::encode_utf8(b).len(),
    ensures
        masked_line(a) == masked_line(b),
        forall|i: int|
            0 <= i < masked_line(a).len() ==> #[trigger] masked_line(a)[i] == '•' || masked_line(a)[i]
                == '▌',
{
    reveal_strlit("▌");
    let n = (vstd::utf8::encode_utf8(a).len() as usize) as nat;
    assert forall|i: int| 0 <= i < masked_line(a).len() implies #[trigger] masked_line(a)[i] == '•'
        || masked_line(a)[i] == '▌' by {
        if i < n {
            assert(masked_line(a)[i] == Seq::new(n, |k: int| '•')[i]);
        } else {
            assert(masked_line(a)[i] == "▌"@[i - n]);
        }
    }
}

/// Listing no vault files gives an empty list.
pub proof fn lemma_listing_of_nothing(v: VaultListView)
    requires
        crate::screen::vault_list::lists_files(v, Seq::empty()),
    ensures
        v == (VaultListView { vaults: Seq::empty(), selected: Some(0) }),
{
    broadcast use vstd::seq_lib::group_to_multiset_ensures;

    let s = choose|s: Seq<Seq<char>>|
        #![trigger crate::listing::sorted(s)]
        crate::listing::sorted(s) && s.to_multiset() == Seq::<Seq<char>>::empty().to_multiset()
            && v.vaults == s.map_values(|n: Seq<char>| crate::listing::stem(n));
    assert(s.to_multiset().len() == 0);
    assert(v.vaults =~= Seq::<Seq<char>>::empty());
}

/// The screen once a vault was read for the prompt: its accounts, with the
/// password kept for saving; `wrong password` for a wrong password, `Failed to
/// open vault` for any other error (over the same vault list).
pub open spec fn spec_unlocked(p: PromptView, result: Result<Seq<EntryView>, VaultErrorView>) -> ScreenView {
    match result {
        Ok(entries) => ScreenView::AccountList(
            AccountListView {
                vault_name: p.vault_name,
                password: p.input,
                entries,
                selected: Some(0),
                bar: BarView::Hint,
                popup: None,
            },
        ),
        Err(e) => ScreenView::PasswordPrompt(
            PromptView {
                vault_name: p.vault_name,
                input: Seq::empty(),
                error: Some(
                    if e == VaultErrorView::WrongPassword {
                        "wrong password"@
                    } else {
                        "Failed to open vault"@
                    },
                ),
                behind: p.behind,
            },
        ),
    }
}

impl PasswordPrompt {
    pub fn new(vault_name: String) -> (r: Self)
        ensures
            r@ == (PromptView { vault_name: vault_name@, input: Seq::empty(), error: None, behind: None }),
    {
        PasswordPrompt { vault_name, input: Secret::new(), error: None, behind: None }
    }

    /// A prompt for the vault named, opened over the vault list given.
    pub fn over(list: VaultList, vault_name: String) -> (r: Self)
        ensures
            r@ == (PromptView {
                vault_name: vault_name@,
                input: Seq::empty(),
                error: None,
                behind: Some(list@),
            }),
    {
        PasswordPrompt { vault_name, input: Secret::new(), error: None, behind: Some(list) }
    }

    /// The vault list the prompt was opened over, if any.
    pub fn behind(&self) -> (r: Option<&VaultList>)
        ensures
            match self@.behind {
                Some(l) => r matches Some(x) && x@ == l,
                None => r is None,
            },
    {
        match &self.behind {
            Some(l) => Some(l),
            None => None,
        }
    }

    pub fn with_error(vault_name: String, error: Option<&'static str>) -> (r: Self)
        ensures
            r@ == (PromptView {
                vault_name: vault_name@,
                input: Seq::empty(),
                error: match error {
                    Some(e) => Some(e@),
                    None => None,
                },
                behind: None,
            }),
    {
        PasswordPrompt { vault_name, input: Secret::new(), error, behind: None }
    }

    /// Applies a key (see `spec_prompt_key`).
    pub fn handle_key(self, key: Key) -> (r: (Screen, Effect))
        ensures
            (r.0@, r.1@) == spec_prompt_key(self@, key),
    {
        let mut p = self;
        match key {
            Key::Esc => {
                let none: Vec<String> = Vec::new();
                let list = VaultList::new(none);
                proof {
                    assert(crate::listing::texts(none@) =~= Seq::<Seq<char>>::empty());
                    lemma_listing_of_nothing(list@);
                }
                (Screen::VaultList(list), Effect::ListVaults)
            },
            Key::Backspace => {
                p.input.pop();
                (Screen::PasswordPrompt(p), Effect::Nothing)
            },
            Key::Char(c) => {
                p.input.push(c);
                (Screen::PasswordPrompt(p), Effect::Nothing)
            },
            Key::Enter => (Screen::PasswordPrompt(p), Effect::Unlock),
            _ => (
                Screen::PasswordPrompt(
                    PasswordPrompt {
                        vault_name: p.vault_name,
                        input: Secret::new(),
                        error: None,
                        behind: p.behind,
                    },
                ),
                Effect::Nothing,
            ),
        }
    }

    /// The screen once the vault was read: its accounts, with the password
    /// kept for saving; `wrong password` for a wrong password, `Failed to open
    /// vault` for any other error.
    pub fn unlocked(self, result: Result<Vec<TotpEntry>, VaultError>) -> (r: Screen)
        requires
            result matches Ok(entries) ==> forall|i: int|
                0 <= i < entries@.len() ==> can_generate(#[trigger] entries@[i]@),
        ensures
            r@ == spec_unlocked(
                self@,
                match result {
                    Ok(entries) => Ok(entry_views(entries@)),
                    Err(e) => Err(e@),
                },
            ),
    {
        match result {
            Ok(entries) => Screen::AccountList(
                AccountList::new(self.vault_name, entries).with_password(self.input),
            ),
            Err(VaultError::WrongPassword) => Screen::PasswordPrompt(
                PasswordPrompt {
                    vault_name: self.vault_name,
                    input: Secret::new(),
                    error: Some("wrong password"),
                    behind: self.behind,
                },
            ),
            Err(_) => Screen::PasswordPrompt(
                PasswordPrompt {
                    vault_name: self.vault_name,
                    input: Secret::new(),
                    error: Some("Failed to open vault"),
                    behind: self.behind,
                },
            ),
        }
    }

    /// The prompt line as shown: one dot for each byte of the password, then
    /// the cursor block.
    pub fn masked_input(&self) -> (r: String)
        ensures
            r@ == masked_line(self@.input),
    {
        let n = self.input.as_str().len();
        let mut s = String::new();
        let mut i: usize = 0;
        while i < n
            invariant
                i <= n,
                s@ == Seq::new(i as nat, |k: int| '•'),
            decreases n - i,
        {
            crate::text::push_char(&mut s, '•');
            assert(s@ =~= Seq::new((i + 1) as nat, |k: int| '•'));
            i = i + 1;
        }
        s.append("▌");
        s
    }
}

} // verus!
