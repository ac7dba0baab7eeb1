//! The interactive application: the screen shown, the keys that change it, and
//! the outcomes of outside work handed back to it.
use crate::listing::texts;
use crate::screen::account_list::{
    all_can_generate, spec_list_cleaned, saved_as, spec_code_copied, spec_uri_copied, AccountListView,
};
use crate::screen::password::spec_unlocked;
use crate::screen::vault_list::{lists_files, VaultList, VaultListView};
use crate::screen::{Effect, Key, Screen, ScreenView};
use crate::totp::TotpEntry;
use crate::vault::VaultError;
use crate::migration::entry_views;
use vstd::prelude::*;

verus! {

/// The application: the screen it shows.
#[derive(Debug)]
pub struct App {
    pub screen: Screen,
}

/// Nanoseconds to wait for the next whole second, `subsec` nanoseconds into
/// the current one, but at least a millisecond.
pub open spec fn spec_wait_nanos(subsec: u32) -> u64 {
    let left: int = if subsec < 1_000_000_000 {
        1_000_000_000 - subsec
    } else {
        0
    };
    (if left >= 1_000_000 {
        left
    } else {
        1_000_000
    }) as u64
}

pub fn wait_nanos(subsec: u32) -> (r: u64)
    ensures
        r == spec_wait_nanos(subsec),
{
    let left: u64 = if (subsec as u64) < 1_000_000_000 {
        1_000_000_000 - subsec as u64
    } else {
        0
    };
    if left >= 1_000_000 {
        left
    } else {
        1_000_000
    }
}

/// The nanoseconds into the current second of the system clock, or `None`
/// where the clock reads before the Unix epoch. It depends on the time: of the
/// reading, only what `Duration::subsec_nanos` documents is stated, that it is
/// less than a billion.
#[verifier::external_body]
fn subsec_nanos_now() -> (r: Option<u32>)
    ensures
        r matches Some(n) ==> n < 1_000_000_000,
{
    std::time::SystemTime::now().duration_since(std::time::UNIX_EPOCH).ok().map(|d| d.subsec_nanos())
}

/// The duration of `n` nanoseconds, as `Duration::from_nanos(n)` makes it.
pub uninterp spec fn nanos_duration(n: u64) -> std::time::Duration;

/// `Duration::from_nanos`: the duration of `n` nanoseconds (named
/// `nanos_duration`).
#[verifier::external_body]
fn duration_from_nanos(n: u64) -> (r: std::time::Duration)
    ensures
        r == nanos_duration(n),
{
    std::time::Duration::from_nanos(n)
}

/// How long to wait for the next key before the codes are redrawn: until the
/// next whole second of the clock (see `wait_nanos`), a whole second where
/// the clock reads before 1970: between a millisecond and a second.
pub fn time_until_next_second() -> (r: std::time::Duration)
    ensures
        exists|subsec: u32|
            subsec < 1_000_000_000 && r == #[trigger] nanos_duration(spec_wait_nanos(subsec)),
{
    let ns = match subsec_nanos_now() {
        Some(ns) => ns,
        None => 0,
    };
    duration_from_nanos(wait_nanos(ns))
}

impl App {
    /// The application on the list of the vault files given.
    pub fn new(vault_files: Vec<String>) -> (r: Self)
        ensures
            r.screen@ matches ScreenView::VaultList(v) && lists_files(v, texts(vault_files@)),
    {
        App { screen: Screen::VaultList(VaultList::new(vault_files)) }
    }

    /// Whether the application has quit.
    pub fn is_exit(&self) -> (r: bool)
        ensures
            r == (self.screen@ is Exit),
    {
        match self.screen {
            Screen::Exit => true,
            _ => false,
        }
    }

    /// Passes a key to the screen shown, with the Unix time `unix_time`
    /// (`None` where the clock reads before the epoch) for the account list;
    /// the screen it gives back is shown next, and the outside work it asks
    /// for is returned.
    pub fn handle_key_event(&mut self, key: Key, unix_time: Option<u64>) -> (r: Effect)
        ensures
            match old(self).screen {
                Screen::VaultList(v) => final(self).screen@
                    == crate::screen::vault_list::spec_vault_list_key(v@, key) && r@
                    == crate::screen::EffectView::Nothing,
                Screen::PasswordPrompt(p) => (final(self).screen@, r@)
                    == crate::screen::password::spec_prompt_key(p@, key),
                Screen::AccountList(a) => (final(self).screen@, r@)
                    == crate::screen::account_list::spec_account_key(a@, key, unix_time),
                Screen::Exit => final(self).screen@ == ScreenView::Exit && r@
                    == crate::screen::EffectView::Nothing,
            },
    {
        let mut screen = Screen::Exit;
        std::mem::swap(&mut screen, &mut self.screen);
        let (next, effect) = match screen {
            Screen::VaultList(s) => (s.handle_key(key), Effect::Nothing),
            Screen::PasswordPrompt(s) => s.handle_key(key),
            Screen::AccountList(s) => s.handle_key(key, unix_time),
            Screen::Exit => (Screen::Exit, Effect::Nothing),
        };
        self.screen = next;
        effect
    }

    /// After `ListVaults`: the vault list of the files found.
    pub fn vaults_listed(&mut self, vault_files: Vec<String>)
        ensures
            final(self).screen@ matches ScreenView::VaultList(v) && lists_files(
                v,
                texts(vault_files@),
            ),
    {
        self.screen = Screen::VaultList(VaultList::new(vault_files));
    }

    /// After `Unlock`: the prompt's outcome (see `PasswordPrompt::unlocked`);
    /// on another screen nothing changes.
    pub fn unlock_finished(&mut self, result: Result<Vec<TotpEntry>, VaultError>)
        requires
            result matches Ok(entries) ==> all_can_generate(entry_views(entries@)),
        ensures
            match old(self).screen {
                Screen::PasswordPrompt(p) => final(self).screen@ == spec_unlocked(
                    p@,
                    match result {
                        Ok(entries) => Ok(entry_views(entries@)),
                        Err(e) => Err(e@),
                    },
                ),
                _ => final(self).screen@ == old(self).screen@,
            },
    {
        let mut screen = Screen::Exit;
        std::mem::swap(&mut screen, &mut self.screen);
        self.screen = match screen {
            Screen::PasswordPrompt(p) => {
                proof {
                    if let Ok(ref entries) = result {
                        assert forall|i: int| 0 <= i < entries@.len() implies crate::totp::can_generate(
                            #[trigger] entries@[i]@,
                        ) by {
                            assert(entry_views(entries@)[i] == entries@[i]@);
                        }
                    }
                }
                p.unlocked(result)
            },
            other => other,
        };
    }

    /// After `Save`, at the clock reading `now_ms`: the account list's
    /// message (see `AccountList::save_finished`); on another screen nothing
    /// changes.
    pub fn save_finished(&mut self, result: Result<(), VaultError>, now_ms: u64)
        ensures
            match old(self).screen {
                Screen::AccountList(a) => final(self).screen@ matches ScreenView::AccountList(b)
                    && saved_as(
                    a@,
                    b,
                    match result {
                        Ok(()) => Ok(()),
                        Err(e) => Err(e@),
                    },
                    now_ms,
                ),
                _ => final(self).screen@ == old(self).screen@,
            },
    {
        match &mut self.screen {
            Screen::AccountList(a) => a.save_finished(result, now_ms),
            _ => {},
        }
    }

    /// After `CopyCode`, at the clock reading `now_ms`: the account list's
    /// message (see `AccountList::code_copied`).
    pub fn code_copied(&mut self, ok: bool, note: String, now_ms: u64)
        ensures
            match old(self).screen {
                Screen::AccountList(a) => final(self).screen@ == ScreenView::AccountList(
                    spec_code_copied(a@, ok, note@, now_ms),
                ),
                _ => final(self).screen@ == old(self).screen@,
            },
    {
        match &mut self.screen {
            Screen::AccountList(a) => a.code_copied(ok, note, now_ms),
            _ => {},
        }
    }

    /// After `CopyUri`, at the clock reading `now_ms`: the export pop-up's
    /// message (see `AccountList::uri_copied`).
    pub fn uri_copied(&mut self, ok: bool, now_ms: u64)
        ensures
            match old(self).screen {
                Screen::AccountList(a) => final(self).screen@ == ScreenView::AccountList(
                    spec_uri_copied(a@, ok, now_ms),
                ),
                _ => final(self).screen@ == old(self).screen@,
            },
    {
        match &mut self.screen {
            Screen::AccountList(a) => a.uri_copied(ok, now_ms),
            _ => {},
        }
    }

    /// When no key came before the next second, at the clock reading
    /// `now_ms`: notifications whose time is over go (see
    /// `AccountList::cleanup`).
    pub fn tick(&mut self, now_ms: u64)
        ensures
            match old(self).screen {
                Screen::AccountList(a) => final(self).screen@ == ScreenView::AccountList(
                    spec_list_cleaned(a@, now_ms),
                ),
                _ => final(self).screen@ == old(self).screen@,
            },
    {
        match &mut self.screen {
            Screen::AccountList(a) => a.cleanup(now_ms),
            _ => {},
        }
    }
}

} // verus!
