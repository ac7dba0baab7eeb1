//! The accounts of an unlocked vault, with their current codes.
use crate::codec::{all_base32, base32_decoded};
use crate::migration::entry_views;
use crate::notification::{expiry, note_expired, NoteView, Notification, NotificationKind};
use crate::screen::confirm::{spec_confirm_key, Confirm, ConfirmKind};
use crate::screen::export::{spec_export_cleaned, ExportBarView, ExportState, ExportTotp, ExportView};
use crate::screen::vault_list::{select_down, select_up, spec_down, spec_up, VaultList, VaultListView};
use crate::screen::{Effect, EffectView, Key, Screen, ScreenView};
use crate::secret::{secret_text, Secret};
use crate::text::{pop_char, push_char};
use crate::totp::{can_generate, spec_display_name, totp_code, EntryView, TotpEntry};
use crate::uri::spec_to_uri;
use crate::vault::{vault_error_message, VaultError, VaultErrorView};
use vstd::prelude::*;

verus! {

/// The screen's bottom line: key hints, a notification, or the search being
/// typed.
#[derive(Debug)]
enum BottomBarKind {
    Hint,
    Notification(Notification),
    Search(String),
}

pub enum BarView {
    Hint,
    Notification(NoteView),
    Search(Seq<char>),
}

/// A pop-up over the list: the export of an account, or the question before
/// deleting the account at `index`.
#[derive(Debug)]
enum PopUpKind {
    ExportTotp(ExportTotp),
    ConfirmDelete { confirm: Confirm, index: usize },
}

pub enum PopupView {
    Export(ExportView),
    ConfirmDelete { question: Seq<char>, index: nat },
}

/// An unlocked vault: its name and password (kept to save it again), its
/// accounts, the selected line, the bottom line and the pop-up.
#[derive(Debug)]
pub struct AccountList {
    vault_name: String,
    password: Secret,
    entries: Vec<TotpEntry>,
    selected: Option<usize>,
    bottom_bar: BottomBarKind,
    popup: Option<PopUpKind>,
}

pub struct AccountListView {
    pub vault_name: Seq<char>,
    pub password: Seq<char>,
    pub entries: Seq<EntryView>,
    pub selected: Option<nat>,
    pub bar: BarView,
    pub popup: Option<PopupView>,
}

impl View for AccountList {
    type V = AccountListView;

    closed spec fn view(&self) -> AccountListView {
        AccountListView {
            vault_name: self.vault_name@,
            password: secret_text(self.password),
            entries: entry_views(self.entries@),
            selected: match self.selected {
                Some(i) => Some(i as nat),
                None => None,
            },
            bar: match self.bottom_bar {
                BottomBarKind::Hint => BarView::Hint,
                BottomBarKind::Notification(n) => BarView::Notification(n@),
                BottomBarKind::Search(q) => BarView::Search(q@),
            },
            popup: match self.popup {
                None => None,
                Some(PopUpKind::ExportTotp(p)) => Some(PopupView::Export(p@)),
                Some(PopUpKind::ConfirmDelete { confirm, index }) => Some(
                    PopupView::ConfirmDelete { question: confirm@, index: index as nat },
                ),
            },
        }
    }
}

/// Every account can make codes.
pub open spec fn all_can_generate(entries: Seq<EntryView>) -> bool {
    forall|i: int| 0 <= i < entries.len() ==> can_generate(#[trigger] entries[i])
}

impl AccountList {
    /// Every account can make codes, and a delete question names an account
    /// that is there.
    #[verifier::type_invariant]
    closed spec fn inv(self) -> bool {
        &&& all_can_generate(entry_views(self.entries@))
        &&& (self.popup matches Some(PopUpKind::ConfirmDelete { index, .. }) ==> index
            < self.entries@.len())
    }
}

/// The question asked before deleting an account.
pub open spec fn delete_question(e: EntryView) -> Seq<char> {
    "delete "@ + spec_display_name(e) + "?"@
}

/// The message shown once an account's code is on the clipboard.
pub open spec fn code_copied_note(e: EntryView) -> Seq<char> {
    spec_display_name(e) + " copied to the clipboard"@
}

/// The account list after a key, with the Unix time `unix_time` (`None`
/// where the clock reads before the epoch). While a search is typed,
/// characters and Backspace edit it and Esc ends it.
/// Otherwise an open pop-up takes the key: the export pop-up closes on Esc and
/// asks for its URI to be copied on `y`; the delete question removes the
/// account and asks for the vault to be saved on yes, and closes on any other
/// key. Without either: `q` quits, Esc goes back to the vault list (listed
/// anew), the arrows or `j`/`k` move the selection, `e` opens the export of
/// the selected account, `d` asks before deleting it, `/` starts a search,
/// Enter asks for the selected account's code to be copied (see
/// `spec_enter_effect`).
pub open spec fn spec_account_key(s: AccountListView, key: Key, unix_time: Option<u64>) -> (
    ScreenView,
    EffectView,
) {
    match s.bar {
        BarView::Search(q) => (
            ScreenView::AccountList(
                AccountListView {
                    bar: match key {
                        Key::Char(c) => BarView::Search(q.push(c)),
                        Key::Backspace => BarView::Search(
                            if q.len() > 0 {
                                q.drop_last()
                            } else {
                                q
                            },
                        ),
                        Key::Esc => BarView::Hint,
                        _ => BarView::Search(q),
                    },
                    ..s
                },
            ),
            EffectView::Nothing,
        ),
        _ => match s.popup {
            Some(PopupView::Export(p)) => if key == Key::Esc {
                (ScreenView::AccountList(AccountListView { popup: None, ..s }), EffectView::Nothing)
            } else if key == Key::Char('y') {
                (ScreenView::AccountList(s), EffectView::CopyUri(spec_to_uri(p.entry)))
            } else {
                (ScreenView::AccountList(s), EffectView::Nothing)
            },
            Some(PopupView::ConfirmDelete { question, index }) => if spec_confirm_key(key)
                == ConfirmKind::Yes {
                (
                    ScreenView::AccountList(
                        AccountListView {
                            entries: s.entries.remove(index as int),
                            popup: None,
                            ..s
                        },
                    ),
                    EffectView::Save,
                )
            } else {
                (ScreenView::AccountList(AccountListView { popup: None, ..s }), EffectView::Nothing)
            },
            None => match key {
                Key::Char('q') => (ScreenView::Exit, EffectView::Nothing),
                Key::Esc => (
                    ScreenView::VaultList(VaultListView { vaults: Seq::empty(), selected: Some(0) }),
                    EffectView::ListVaults,
                ),
                Key::Down | Key::Char('j') => (
                    ScreenView::AccountList(
                        AccountListView { selected: spec_down(s.selected, s.entries.len()), ..s },
                    ),
                    EffectView::Nothing,
                ),
                Key::Up | Key::Char('k') => (
                    ScreenView::AccountList(AccountListView { selected: spec_up(s.selected), ..s }),
                    EffectView::Nothing,
                ),
                Key::Char('e') => (
                    ScreenView::AccountList(
                        match s.selected {
                            Some(i) => if i < s.entries.len() {
                                AccountListView {
                                    popup: Some(
                                        PopupView::Export(
                                            ExportView {
                                                entry: s.entries[i as int],
                                                bar: ExportBarView::Hint,
                                            },
                                        ),
                                    ),
                                    ..s
                                }
                            } else {
                                s
                            },
                            None => s,
                        },
                    ),
                    EffectView::Nothing,
                ),
                Key::Char('d') => (
                    ScreenView::AccountList(
                        match s.selected {
                            Some(i) => if i < s.entries.len() {
                                AccountListView {
                                    popup: Some(
                                        PopupView::ConfirmDelete {
                                            question: delete_question(s.entries[i as int]),
                                            index: i,
                                        },
                                    ),
                                    ..s
                                }
                            } else {
                                s
                            },
                            None => s,
                        },
                    ),
                    EffectView::Nothing,
                ),
                Key::Char('/') => (
                    ScreenView::AccountList(AccountListView { bar: BarView::Search(Seq::empty()), ..s }),
                    EffectView::Nothing,
                ),
                Key::Enter => (ScreenView::AccountList(s), spec_enter_effect(s, unix_time)),
                _ => (ScreenView::AccountList(s), EffectView::Nothing),
            },
        },
    }
}

/// The list once the vault was saved after a delete, at the clock reading
/// `now_ms`: `item deleted`, or a red notification with the error's message
/// (for an I/O error, starting with it); nothing else changes.
pub open spec fn saved_as(
    old: AccountListView,
    new: AccountListView,
    result: Result<(), VaultErrorView>,
    now_ms: u64,
) -> bool {
    match result {
        Ok(()) => new == (AccountListView {
            bar: BarView::Notification(
                NoteView { msg: "item deleted"@, kind: NotificationKind::Info, expires_at: expiry(now_ms) },
            ),
            ..old
        }),
        Err(e) => new == (AccountListView { bar: new.bar, ..old }) && match new.bar {
            BarView::Notification(n) => n.kind == NotificationKind::Danger && n.expires_at == expiry(
                now_ms,
            ) && (!(e is Io) ==> n.msg
                == vault_error_message(e)) && (e is Io ==> n.msg.len() >= vault_error_message(e).len()
                && n.msg.take(vault_error_message(e).len() as int) == vault_error_message(e)),
            _ => false,
        },
    }
}

/// The list once a code was put on the clipboard, at the clock reading
/// `now_ms`: the message given, in green; a failed copy changes nothing.
pub open spec fn spec_code_copied(old: AccountListView, ok: bool, note: Seq<char>, now_ms: u64) -> AccountListView {
    if ok {
        AccountListView {
            bar: BarView::Notification(
                NoteView { msg: note, kind: NotificationKind::Success, expires_at: expiry(now_ms) },
            ),
            ..old
        }
    } else {
        old
    }
}

/// The list once the export pop-up's URI was put on the clipboard, at the
/// clock reading `now_ms`: the pop-up says so; a failed copy, or no pop-up,
/// changes nothing.
pub open spec fn spec_uri_copied(old: AccountListView, ok: bool, now_ms: u64) -> AccountListView {
    match old.popup {
        Some(PopupView::Export(p)) => if ok {
            AccountListView {
                popup: Some(
                    PopupView::Export(
                        ExportView {
                            bar: ExportBarView::Notification(crate::screen::export::uri_copied_note(now_ms)),
                            ..p
                        },
                    ),
                ),
                ..old
            }
        } else {
            old
        },
        _ => old,
    }
}

/// The list at the clock reading `now_ms`: on the list and in the export
/// pop-up, a notification whose time is over gives way to the hints; nothing
/// else changes.
pub open spec fn spec_list_cleaned(s: AccountListView, now_ms: u64) -> AccountListView {
    AccountListView {
        bar: match s.bar {
            BarView::Notification(n) => if note_expired(n, now_ms) {
                BarView::Hint
            } else {
                s.bar
            },
            _ => s.bar,
        },
        popup: match s.popup {
            Some(PopupView::Export(p)) => Some(PopupView::Export(spec_export_cleaned(p, now_ms))),
            other => other,
        },
        ..s
    }
}

/// An account's code at the Unix time `unix_time`: none where the clock reads
/// before the epoch (`None`) or the secret is not Base32.
pub open spec fn code_at(e: EntryView, unix_time: Option<u64>) -> Option<Seq<char>> {
    match unix_time {
        Some(t) => if all_base32(e.secret) {
            Some(totp_code(e.algorithm, e.digits as nat, e.period, base32_decoded(e.secret), t))
        } else {
            None
        },
        None => None,
    }
}

/// What Enter on the list asks for: where the selection is on an account and
/// its code can be made at `unix_time`, that code to be copied, with the
/// message to show once done; otherwise nothing.
pub open spec fn spec_enter_effect(s: AccountListView, unix_time: Option<u64>) -> EffectView {
    match s.selected {
        Some(i) => if i < s.entries.len() {
            match code_at(s.entries[i as int], unix_time) {
                Some(code) => EffectView::CopyCode(code, code_copied_note(s.entries[i as int])),
                None => EffectView::Nothing,
            }
        } else {
            EffectView::Nothing
        },
        None => EffectView::Nothing,
    }
}

impl AccountList {
    /// A vault's accounts, the first line selected, no password yet.
    pub fn new(vault_name: String, entries: Vec<TotpEntry>) -> (r: Self)
        requires
            all_can_generate(entry_views(entries@)),
        ensures
            r@ == (AccountListView {
                vault_name: vault_name@,
                password: Seq::empty(),
                entries: entry_views(entries@),
                selected: Some(0),
                bar: BarView::Hint,
                popup: None,
            }),
    {
        AccountList {
            vault_name,
            password: Secret::new(),
            entries,
            selected: Some(0),
            bottom_bar: BottomBarKind::Hint,
            popup: None,
        }
    }

    /// The same list, keeping the given password for saving.
    pub fn with_password(self, password: Secret) -> (r: Self)
        ensures
            r@ == (AccountListView { password: secret_text(password), ..self@ }),
    {
        proof {
            use_type_invariant(&self);
        }
        AccountList {
            vault_name: self.vault_name,
            password,
            entries: self.entries,
            selected: self.selected,
            bottom_bar: self.bottom_bar,
            popup: self.popup,
        }
    }

    pub fn vault_name(&self) -> (r: &str)
        ensures
            r@ == self@.vault_name,
    {
        self.vault_name.as_str()
    }

    pub fn password(&self) -> (r: &str)
        ensures
            r@ == self@.password,
    {
        self.password.as_str()
    }

    pub fn entries(&self) -> (r: &Vec<TotpEntry>)
        ensures
            entry_views(r@) == self@.entries,
    {
        &self.entries
    }

    pub fn selected(&self) -> (r: Option<usize>)
        ensures
            (match r {
                Some(i) => Some(i as nat),
                None => None,
            }) == self@.selected,
    {
        self.selected
    }

    /// The notification shown, if any.
    pub fn notification(&self) -> (r: Option<&Notification>)
        ensures
            match self@.bar {
                BarView::Notification(n) => r matches Some(x) && x@ == n,
                _ => r is None,
            },
    {
        match &self.bottom_bar {
            BottomBarKind::Notification(n) => Some(n),
            _ => None,
        }
    }

    /// The search being typed, if any.
    pub fn search_query(&self) -> (r: Option<&str>)
        ensures
            match self@.bar {
                BarView::Search(q) => r matches Some(x) && x@ == q,
                _ => r is None,
            },
    {
        match &self.bottom_bar {
            BottomBarKind::Search(q) => Some(q.as_str()),
            _ => None,
        }
    }

    /// The export pop-up, if it is open.
    pub fn export_popup(&self) -> (r: Option<&ExportTotp>)
        ensures
            match self@.popup {
                Some(PopupView::Export(p)) => r matches Some(x) && x@ == p,
                _ => r is None,
            },
    {
        match &self.popup {
            Some(PopUpKind::ExportTotp(p)) => Some(p),
            _ => None,
        }
    }

    /// The delete question, if it is open.
    pub fn confirm_popup(&self) -> (r: Option<&Confirm>)
        ensures
            match self@.popup {
                Some(PopupView::ConfirmDelete { question, .. }) => r matches Some(x) && x@ == question,
                _ => r is None,
            },
    {
        match &self.popup {
            Some(PopUpKind::ConfirmDelete { confirm, .. }) => Some(confirm),
            _ => None,
        }
    }

    /// The selected account, where the selection is on one.
    pub fn get_selected(&self) -> (r: Option<TotpEntry>)
        ensures
            match self@.selected {
                Some(i) => if i < self@.entries.len() {
                    r matches Some(e) && e@ == self@.entries[i as int]
                } else {
                    r is None
                },
                None => r is None,
            },
    {
        match self.selected {
            Some(i) => if i < self.entries.len() {
                Some(self.entries[i].duplicate())
            } else {
                None
            },
            None => None,
        }
    }

    /// An empty list, to stand in while a list is taken apart.
    fn placeholder() -> (r: Self)
        ensures
            r@ == (AccountListView {
                vault_name: Seq::empty(),
                password: Seq::empty(),
                entries: Seq::empty(),
                selected: None,
                bar: BarView::Hint,
                popup: None,
            }),
    {
        let entries: Vec<TotpEntry> = Vec::new();
        assert(entry_views(entries@) =~= Seq::<EntryView>::empty());
        AccountList {
            vault_name: String::new(),
            password: Secret::new(),
            entries,
            selected: None,
            bottom_bar: BottomBarKind::Hint,
            popup: None,
        }
    }

    fn notify(&mut self, n: Notification)
        ensures
            final(self)@ == (AccountListView { bar: BarView::Notification(n@), ..old(self)@ }),
    {
        proof {
            use_type_invariant(&*self);
        }
        self.bottom_bar = BottomBarKind::Notification(n);
    }

    /// Applies a key at the Unix time `unix_time` (`None` where the clock
    /// reads before the epoch; see `spec_account_key`).
    pub fn handle_key(self, key: Key, unix_time: Option<u64>) -> (r: (Screen, Effect))
        ensures
            (r.0@, r.1@) == spec_account_key(self@, key, unix_time),
    {
        proof {
            use_type_invariant(&self);
        }
        let ghost v = self@;
        let AccountList { vault_name, password, entries, selected, bottom_bar, popup } = self;
        let mut entries = entries;
        match bottom_bar {
            BottomBarKind::Search(q) => {
                let mut q = q;
                let bar = match key {
                    Key::Char(c) => {
                        push_char(&mut q, c);
                        BottomBarKind::Search(q)
                    },
                    Key::Backspace => {
                        pop_char(&mut q);
                        BottomBarKind::Search(q)
                    },
                    Key::Esc => BottomBarKind::Hint,
                    _ => BottomBarKind::Search(q),
                };
                let s = AccountList { vault_name, password, entries, selected, bottom_bar: bar, popup };
                return (Screen::AccountList(s), Effect::Nothing);
            },
            bottom_bar => {
                match popup {
                    Some(PopUpKind::ExportTotp(p)) => {
                        let (state, copy) = p.handle_key(key);
                        let popup = match state {
                            ExportState::Active(p2) => Some(PopUpKind::ExportTotp(p2)),
                            ExportState::Closed => None,
                        };
                        let effect = match copy {
                            Some(u) => Effect::CopyUri(u),
                            None => Effect::Nothing,
                        };
                        let s = AccountList { vault_name, password, entries, selected, bottom_bar, popup };
                        return (Screen::AccountList(s), effect);
                    },
                    Some(PopUpKind::ConfirmDelete { confirm, index }) => {
                        let effect = match confirm.handle_key(key) {
                            ConfirmKind::Yes => {
                                let ghost before = entries@;
                                entries.remove(index);
                                assert(entry_views(entries@) =~= entry_views(before).remove(
                                    index as int,
                                ));
                                Effect::Save
                            },
                            _ => Effect::Nothing,
                        };
                        let s = AccountList {
                            vault_name,
                            password,
                            entries,
                            selected,
                            bottom_bar,
                            popup: None,
                        };
                        return (Screen::AccountList(s), effect);
                    },
                    None => {
                        let mut s = AccountList {
                            vault_name,
                            password,
                            entries,
                            selected,
                            bottom_bar,
                            popup: None,
                        };
                        assert(s@ == v);
                        return s.list_key(key, unix_time);
                    },
                }
            },
        }
    }

    /// A key on the list itself, with no search and no pop-up.
    fn list_key(self, key: Key, unix_time: Option<u64>) -> (r: (Screen, Effect))
        requires
            !(self@.bar is Search),
            self@.popup is None,
        ensures
            (r.0@, r.1@) == spec_account_key(self@, key, unix_time),
    {
        proof {
            use_type_invariant(&self);
        }
        let mut s = self;
        match key {
            Key::Char('q') => (Screen::Exit, Effect::Nothing),
            Key::Esc => {
                let none: Vec<String> = Vec::new();
                let list = VaultList::new(none);
                proof {
                    assert(crate::listing::texts(none@) =~= Seq::<Seq<char>>::empty());
                    crate::screen::password::lemma_listing_of_nothing(list@);
                }
                (Screen::VaultList(list), Effect::ListVaults)
            },
            Key::Down | Key::Char('j') => {
                let n = s.entries.len();
                s.selected = select_down(s.selected, n);
                (Screen::AccountList(s), Effect::Nothing)
            },
            Key::Up | Key::Char('k') => {
                s.selected = select_up(s.selected);
                (Screen::AccountList(s), Effect::Nothing)
            },
            Key::Char('e') => {
                match s.get_selected() {
                    Some(entry) => {
                        s.popup = Some(PopUpKind::ExportTotp(ExportTotp::new(entry)));
                    },
                    None => {},
                }
                (Screen::AccountList(s), Effect::Nothing)
            },
            Key::Char('d') => {
                match s.selected {
                    Some(i) => if i < s.entries.len() {
                        let mut q = String::from_str("delete ");
                        let d = s.entries[i].display_name();
                        q.append(d.as_str());
                        q.append("?");
                        s.popup = Some(PopUpKind::ConfirmDelete { confirm: Confirm::new(q), index: i });
                    },
                    None => {},
                }
                (Screen::AccountList(s), Effect::Nothing)
            },
            Key::Char('/') => {
                s.bottom_bar = BottomBarKind::Search(String::new());
                (Screen::AccountList(s), Effect::Nothing)
            },
            Key::Enter => {
                let effect = match s.selected {
                    Some(i) => if i < s.entries.len() {
                        proof {
                            assert(can_generate(entry_views(s.entries@)[i as int]));
                            assert(entry_views(s.entries@)[i as int] == s.entries@[i as int]@);
                        }
                        match unix_time {
                            Some(t) => match s.entries[i].generate_otp_at(t) {
                                Ok(code) => {
                                    let mut note = s.entries[i].display_name();
                                    note.append(" copied to the clipboard");
                                    Effect::CopyCode { code, note }
                                },
                                Err(_) => Effect::Nothing,
                            },
                            None => Effect::Nothing,
                        }
                    } else {
                        Effect::Nothing
                    },
                    None => Effect::Nothing,
                };
                (Screen::AccountList(s), effect)
            },
            _ => (Screen::AccountList(s), Effect::Nothing),
        }
    }

    /// Once the vault was saved after a delete, at the clock reading
    /// `now_ms`: `item deleted`, or the error's message in red.
    pub fn save_finished(&mut self, result: Result<(), VaultError>, now_ms: u64)
        ensures
            saved_as(
                old(self)@,
                final(self)@,
                match result {
                    Ok(()) => Ok(()),
                    Err(e) => Err(e@),
                },
                now_ms,
            ),
    {
        match result {
            Ok(()) => self.notify(Notification::info(String::from_str("item deleted"), now_ms)),
            Err(e) => self.notify(Notification::danger(e.to_string(), now_ms)),
        }
    }

    /// Once a code was put on the clipboard, at the clock reading `now_ms`:
    /// the message given, in green; a failed copy changes nothing.
    pub fn code_copied(&mut self, ok: bool, note: String, now_ms: u64)
        ensures
            final(self)@ == spec_code_copied(old(self)@, ok, note@, now_ms),
    {
        if ok {
            self.notify(Notification::success(note, now_ms));
        }
    }

    /// Once the export pop-up's URI was put on the clipboard, at the clock
    /// reading `now_ms` (see `ExportTotp::copied`).
    pub fn uri_copied(&mut self, ok: bool, now_ms: u64)
        ensures
            final(self)@ == spec_uri_copied(old(self)@, ok, now_ms),
    {
        proof {
            use_type_invariant(&*self);
        }
        let mut this = AccountList::placeholder();
        std::mem::swap(self, &mut this);
        let AccountList { vault_name, password, entries, selected, bottom_bar, popup } = this;
        let popup = match popup {
            Some(PopUpKind::ExportTotp(p)) => {
                let mut p = p;
                p.copied(ok, now_ms);
                Some(PopUpKind::ExportTotp(p))
            },
            other => other,
        };
        *self = AccountList { vault_name, password, entries, selected, bottom_bar, popup };
    }

    /// Takes away the notifications whose time is over at the clock reading
    /// `now_ms`, on the list and in the export pop-up (see
    /// `spec_list_cleaned`).
    pub fn cleanup(&mut self, now_ms: u64)
        ensures
            final(self)@ == spec_list_cleaned(old(self)@, now_ms),
    {
        proof {
            use_type_invariant(&*self);
        }
        let expired = match &self.bottom_bar {
            BottomBarKind::Notification(n) => n.is_expired(now_ms),
            _ => false,
        };
        if expired {
            self.bottom_bar = BottomBarKind::Hint;
        }
        let mut this = AccountList::placeholder();
        std::mem::swap(self, &mut this);
        let AccountList { vault_name, password, entries, selected, bottom_bar, popup } = this;
        let popup = match popup {
            Some(PopUpKind::ExportTotp(p)) => {
                let mut p = p;
                p.cleanup(now_ms);
                Some(PopUpKind::ExportTotp(p))
            },
            other => other,
        };
        *self = AccountList { vault_name, password, entries, selected, bottom_bar, popup };
    }

    /// The table's lines at the Unix time `unix_time` (`None` where the
    /// clock reads before the epoch): two spaces and the display name, and the
    /// code (`error` where it cannot be made, see `code_at`).
    pub fn rows(&self, unix_time: Option<u64>) -> (r: Vec<(String, String)>)
        ensures
            r@.len() == self@.entries.len(),
            forall|i: int|
                0 <= i < r@.len() ==> (#[trigger] r@[i]).0@ == "  "@ + spec_display_name(
                    self@.entries[i],
                ) && r@[i].1@ == match code_at(self@.entries[i], unix_time) {
                    Some(c) => c,
                    None => "error"@,
                },
    {
        proof {
            use_type_invariant(self);
        }
        let mut out: Vec<(String, String)> = Vec::new();
        let mut i: usize = 0;
        while i < self.entries.len()
            invariant
                i <= self.entries@.len(),
                out@.len() == i,
                all_can_generate(entry_views(self.entries@)),
                forall|j: int|
                    0 <= j < i ==> (#[trigger] out@[j]).0@ == "  "@ + spec_display_name(
                        entry_views(self.entries@)[j],
                    ) && out@[j].1@ == match code_at(entry_views(self.entries@)[j], unix_time) {
                        Some(c) => c,
                        None => "error"@,
                    },
            decreases self.entries@.len() - i,
        {
            let e = &self.entries[i];
            assert(can_generate(entry_views(self.entries@)[i as int]));
            assert(entry_views(self.entries@)[i as int] == e@);
            let mut name = String::from_str("  ");
            let d = e.display_name();
            name.append(d.as_str());
            let code = match unix_time {
                Some(t) => match e.generate_otp_at(t) {
                    Ok(c) => c,
                    Err(_) => String::from_str("error"),
                },
                None => String::from_str("error"),
            };
            out.push((name, code));
            i = i + 1;
        }
        out
    }
}

} // verus!
