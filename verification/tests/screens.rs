use tufa::app::{time_until_next_second, wait_nanos, App};
use tufa::notification::{Notification, NotificationKind};
use tufa::screen::account_list::AccountList;
use tufa::screen::confirm::{Confirm, ConfirmKind};
use tufa::screen::export::{popup_size, ExportState, ExportTotp};
use tufa::screen::password::PasswordPrompt;
use tufa::screen::search::{Search, SearchState};
use tufa::screen::vault_list::{select_down, select_up, VaultList};
use tufa::screen::{Effect, Key, Screen};
use tufa::secret::Secret;
use tufa::totp::TotpEntry;
use tufa::ui::{separator_text, ttl_color, TtlColor};
use tufa::vault::VaultError;

fn entry(secret: &str, name: &str) -> TotpEntry {
    TotpEntry::new(secret.to_string(), name.to_string()).unwrap()
}

fn two_accounts() -> AccountList {
    AccountList::new(
        "work".to_string(),
        vec![entry("JBSWY3DPEHPK3PXP", "alice"), entry("GEZDGNBVGY3TQOJQ", "bob")],
    )
}

fn as_list(s: Screen) -> AccountList {
    match s {
        Screen::AccountList(a) => a,
        other => panic!("expected the account list, got {:?}", other),
    }
}

#[test]
fn search_edits_at_the_cursor() {
    let mut s = Search::new();
    for c in "héllo".chars() {
        assert_eq!(s.handle_key(Key::Char(c)), SearchState::Active);
    }
    assert_eq!(s.query, "héllo");
    assert_eq!(s.char_count(), 5);
    assert_eq!(s.char_to_byte(2), 3);
    assert_eq!(s.char_to_byte(9), 6);
    s.handle_key(Key::Left);
    s.handle_key(Key::Left);
    s.handle_key(Key::Char('X'));
    assert_eq!(s.query, "hélXlo");
    s.handle_key(Key::Backspace);
    assert_eq!(s.query, "héllo");
    s.handle_key(Key::Delete);
    assert_eq!(s.query, "hélo");
    assert_eq!(s.draw_parts(), ("hél".to_string(), "o".to_string(), String::new()));
    s.handle_key(Key::Right);
    s.handle_key(Key::Right);
    assert_eq!(s.draw_parts(), ("hélo".to_string(), " ".to_string(), String::new()));
    s.handle_key(Key::Delete);
    assert_eq!(s.query, "hélo");
    assert_eq!(s.handle_key(Key::Enter), SearchState::Confirm);
    assert_eq!(s.handle_key(Key::Esc), SearchState::Dismiss);
}

#[test]
fn search_backspace_at_start_does_nothing() {
    let mut s = Search::new();
    s.handle_key(Key::Backspace);
    s.handle_key(Key::Left);
    assert_eq!(s.query, "");
    assert_eq!(s.draw_parts(), (String::new(), " ".to_string(), String::new()));
}

#[test]
fn confirm_answers() {
    let c = Confirm::new("delete x?".to_string());
    assert_eq!(c.msg(), "delete x?");
    assert_eq!(c.handle_key(Key::Char('Y')), ConfirmKind::Yes);
    assert_eq!(c.handle_key(Key::Char('n')), ConfirmKind::No);
    assert_eq!(c.handle_key(Key::Enter), ConfirmKind::Stale);
}

#[test]
fn notifications_show_a_mark() {
    let n = Notification::success("done".to_string(), 1_000);
    assert_eq!(n.kind(), NotificationKind::Success);
    assert_eq!(n.draw_parts(), (Some("✓ ".to_string()), "done ".to_string()));
    assert_eq!(n.expires_at(), 3_000);
    assert!(!n.is_expired(1_000));
    assert!(!n.is_expired(2_999));
    assert!(n.is_expired(3_000));
    assert!(n.is_expired(10_000));
    let n = Notification::danger("bad".to_string(), u64::MAX - 1);
    assert_eq!(n.expires_at(), u64::MAX);
    assert_eq!(n.draw_parts(), (Some("! ".to_string()), "bad ".to_string()));
    let n = Notification::info("fyi".to_string(), 0);
    assert_eq!(n.draw_parts(), (None, "fyi".to_string()));
}

#[test]
fn export_popup_keys() {
    let p = ExportTotp::new(entry("JBSWY3DPEHPK3PXP", "alice"));
    let (state, copy) = p.handle_key(Key::Char('y'));
    assert_eq!(
        copy.as_deref(),
        Some("otpauth://totp/alice?secret=JBSWY3DPEHPK3PXP&digits=6&period=30&algorithm=SHA1")
    );
    let mut p = match state {
        ExportState::Active(p) => p,
        ExportState::Closed => panic!("still open"),
    };
    assert!(p.notification().is_none());
    p.copied(true, 500);
    assert_eq!(p.notification().unwrap().msg, "uri copied to the clipboard");
    p.cleanup(2_499);
    assert!(p.notification().is_some());
    p.cleanup(2_500);
    assert!(p.notification().is_none());
    p.copied(false, 3_000);
    assert!(p.notification().is_none());
    assert!(matches!(p.handle_key(Key::Esc), (ExportState::Closed, None)));
}

#[test]
fn export_popup_layout() {
    assert_eq!(popup_size(100, 40, 90, 15), (80, 78, 2, 22));
    assert_eq!(popup_size(100, 10, 90, 15), (80, 78, 2, 8));
    assert_eq!(popup_size(2, 1, 0, 0), (1, 1, 1, 0));
    assert_eq!(popup_size(10, 50, 13, 0), (8, 6, 3, 8));
}

#[test]
fn selection_moves_within_the_list() {
    assert_eq!(select_down(Some(0), 3), Some(1));
    assert_eq!(select_down(Some(2), 3), Some(2));
    assert_eq!(select_down(None, 3), Some(1));
    assert_eq!(select_down(Some(5), 0), Some(0));
    assert_eq!(select_up(Some(0)), Some(0));
    assert_eq!(select_up(Some(2)), Some(1));
}

#[test]
fn vault_list_opens_a_prompt() {
    let v = VaultList::new(vec!["b.2fa".to_string(), "a.2fa".to_string()]);
    assert_eq!(v.vaults(), &vec!["a".to_string(), "b".to_string()]);
    let v = match v.handle_key(Key::Char('j')) {
        Screen::VaultList(v) => v,
        _ => panic!("still the list"),
    };
    assert_eq!(v.selected(), Some(1));
    match v.handle_key(Key::Enter) {
        Screen::PasswordPrompt(p) => {
            assert_eq!(p.vault_name, "b");
            assert_eq!(p.input.as_str(), "");
        }
        _ => panic!("expected the prompt"),
    }
    let v = VaultList::new(vec![]);
    assert!(matches!(v.handle_key(Key::Enter), Screen::VaultList(_)));
    assert!(matches!(VaultList::new(vec![]).handle_key(Key::Char('q')), Screen::Exit));
}

#[test]
fn password_prompt_keys() {
    let p = PasswordPrompt::new("work".to_string());
    let (s, e) = p.handle_key(Key::Char('p'));
    assert!(matches!(e, Effect::Nothing));
    let p = match s {
        Screen::PasswordPrompt(p) => p,
        _ => panic!("prompt"),
    };
    let (s, _) = p.handle_key(Key::Char('é'));
    let p = match s {
        Screen::PasswordPrompt(p) => p,
        _ => panic!("prompt"),
    };
    assert_eq!(p.input.as_str(), "pé");
    assert_eq!(p.masked_input(), "•••▌");
    let (s, e) = p.handle_key(Key::Enter);
    assert!(matches!(e, Effect::Unlock));
    let p = match s {
        Screen::PasswordPrompt(p) => p,
        _ => panic!("prompt"),
    };
    let (s, _) = p.handle_key(Key::Up);
    let p = match s {
        Screen::PasswordPrompt(p) => p,
        _ => panic!("prompt"),
    };
    assert_eq!(p.input.as_str(), "");
    let (s, e) = p.handle_key(Key::Esc);
    assert!(matches!(e, Effect::ListVaults));
    assert!(matches!(s, Screen::VaultList(_)));
}

#[test]
fn cancelling_the_prompt_lists_the_vaults_anew() {
    let v = VaultList::new(vec!["a.2fa".to_string(), "b.2fa".to_string(), "c.2fa".to_string()]);
    let v = match v.handle_key(Key::Down) {
        Screen::VaultList(v) => v,
        _ => panic!("still the list"),
    };
    let p = match v.handle_key(Key::Enter) {
        Screen::PasswordPrompt(p) => p,
        _ => panic!("expected the prompt"),
    };
    assert_eq!(p.vault_name, "b");
    assert_eq!(p.behind().unwrap().selected(), Some(1));
    let p = match p.unlocked(Err(VaultError::WrongPassword)) {
        Screen::PasswordPrompt(p) => p,
        _ => panic!("prompt"),
    };
    assert_eq!(p.behind().unwrap().vaults().len(), 3);
    let (s, e) = p.handle_key(Key::Esc);
    assert!(matches!(e, Effect::ListVaults));
    match s {
        Screen::VaultList(v) => {
            assert_eq!(v.selected(), Some(0));
            assert!(v.vaults().is_empty());
        }
        _ => panic!("expected the list"),
    }
}

#[test]
fn unlocking_a_vault() {
    let mut p = PasswordPrompt::new("work".to_string());
    p.input.push('x');
    match p.unlocked(Err(VaultError::WrongPassword)) {
        Screen::PasswordPrompt(p) => {
            assert_eq!(p.error, Some("wrong password"));
            assert_eq!(p.input.as_str(), "");
        }
        _ => panic!("prompt"),
    }
    let p = PasswordPrompt::with_error("work".to_string(), None);
    match p.unlocked(Err(VaultError::TooShort)) {
        Screen::PasswordPrompt(p) => assert_eq!(p.error, Some("Failed to open vault")),
        _ => panic!("prompt"),
    }
    let mut p = PasswordPrompt::new("work".to_string());
    p.input.push('s');
    let a = as_list(p.unlocked(Ok(vec![entry("JBSWY3DPEHPK3PXP", "alice")])));
    assert_eq!(a.vault_name(), "work");
    assert_eq!(a.password(), "s");
    assert_eq!(a.entries().len(), 1);
}

#[test]
fn account_list_navigation_and_search() {
    let a = two_accounts();
    assert_eq!(a.selected(), Some(0));
    let a = as_list(a.handle_key(Key::Down, Some(59)).0);
    assert_eq!(a.get_selected().unwrap().name, "bob");
    let a = as_list(a.handle_key(Key::Char('j'), Some(59)).0);
    assert_eq!(a.selected(), Some(1));
    let a = as_list(a.handle_key(Key::Char('k'), Some(59)).0);
    assert_eq!(a.selected(), Some(0));
    let a = as_list(a.handle_key(Key::Char('/'), Some(59)).0);
    assert_eq!(a.search_query(), Some(""));
    let a = as_list(a.handle_key(Key::Char('q'), Some(59)).0);
    let a = as_list(a.handle_key(Key::Char('x'), Some(59)).0);
    let a = as_list(a.handle_key(Key::Backspace, Some(59)).0);
    assert_eq!(a.search_query(), Some("q"));
    let a = as_list(a.handle_key(Key::Esc, Some(59)).0);
    assert_eq!(a.search_query(), None);
    assert!(matches!(a.handle_key(Key::Char('q'), Some(59)).0, Screen::Exit));
}

#[test]
fn account_list_delete_flow() {
    let a = two_accounts();
    let a = as_list(a.handle_key(Key::Char('d'), Some(59)).0);
    assert_eq!(a.confirm_popup().unwrap().msg(), "delete alice?");
    let (s, e) = a.handle_key(Key::Char('y'), Some(59));
    assert!(matches!(e, Effect::Save));
    let mut a = as_list(s);
    assert!(a.confirm_popup().is_none());
    assert_eq!(a.entries().len(), 1);
    assert_eq!(a.entries()[0].name, "bob");
    a.save_finished(Ok(()), 0);
    assert_eq!(a.notification().unwrap().msg, "item deleted");
    a.save_finished(Err(VaultError::EncryptionFailed), 100);
    let n = a.notification().unwrap();
    assert_eq!(n.msg, "encryption failed");
    assert_eq!(n.expires_at(), 2_100);
    assert_eq!(n.kind(), NotificationKind::Danger);
    let a = as_list(a.handle_key(Key::Char('d'), Some(59)).0);
    let (s, e) = a.handle_key(Key::Char('n'), Some(59));
    assert!(matches!(e, Effect::Nothing));
    assert_eq!(as_list(s).entries().len(), 1);
}

#[test]
fn account_list_copy_and_export() {
    let a = two_accounts();
    let (s, e) = a.handle_key(Key::Enter, Some(59));
    let mut a = as_list(s);
    match e {
        Effect::CopyCode { code, note } => {
            // HMAC-SHA1 under alice's secret, time step 1 (T = 59 s).
            assert_eq!(code, "996554");
            assert_eq!(note, "alice copied to the clipboard");
            a.code_copied(true, note, 0);
        }
        other => panic!("expected a copy, got {:?}", other),
    }
    assert_eq!(a.notification().unwrap().msg, "alice copied to the clipboard");
    let a = as_list(a.handle_key(Key::Char('e'), Some(59)).0);
    assert_eq!(a.export_popup().unwrap().entry().name, "alice");
    let (s, e) = a.handle_key(Key::Char('y'), Some(59));
    assert!(matches!(e, Effect::CopyUri(_)));
    let mut a = as_list(s);
    a.uri_copied(true, 0);
    assert_eq!(a.export_popup().unwrap().notification().unwrap().msg, "uri copied to the clipboard");
    a.cleanup(1_000);
    assert!(a.notification().is_some());
    assert!(a.export_popup().unwrap().notification().is_some());
    a.cleanup(2_000);
    assert!(a.notification().is_none());
    assert!(a.export_popup().unwrap().notification().is_none());
    let a = as_list(a.handle_key(Key::Esc, Some(59)).0);
    assert!(a.export_popup().is_none());
    let rows = a.rows(Some(59));
    assert_eq!(rows.len(), 2);
    assert_eq!(rows[1].0, "  bob");
    // HMAC-SHA1 under the bytes "1234567890", time step 1 (T = 59 s).
    assert_eq!(rows[1].1, "263420");
    let rows = a.rows(None);
    assert_eq!(rows[0].1, "error");
    let (s, e) = a.with_password(Secret::new()).handle_key(Key::Esc, Some(59));
    assert!(matches!(e, Effect::ListVaults));
    assert!(matches!(s, Screen::VaultList(_)));
}

#[test]
fn app_runs_the_screens() {
    let mut app = App::new(vec!["work.2fa".to_string()]);
    assert!(!app.is_exit());
    assert!(matches!(app.handle_key_event(Key::Enter, Some(59)), Effect::Nothing));
    assert!(matches!(app.screen, Screen::PasswordPrompt(_)));
    app.handle_key_event(Key::Char('p'), Some(59));
    assert!(matches!(app.handle_key_event(Key::Enter, Some(59)), Effect::Unlock));
    app.unlock_finished(Err(VaultError::WrongPassword));
    match &app.screen {
        Screen::PasswordPrompt(p) => assert_eq!(p.error, Some("wrong password")),
        _ => panic!("prompt"),
    }
    app.handle_key_event(Key::Char('p'), Some(59));
    app.handle_key_event(Key::Enter, Some(59));
    app.unlock_finished(Ok(vec![entry("JBSWY3DPEHPK3PXP", "alice")]));
    assert!(matches!(app.screen, Screen::AccountList(_)));
    app.tick(0);
    assert!(matches!(app.handle_key_event(Key::Esc, Some(59)), Effect::ListVaults));
    app.vaults_listed(vec!["a.2fa".to_string(), "b.2fa".to_string()]);
    match &app.screen {
        Screen::VaultList(v) => assert_eq!(v.vaults().len(), 2),
        _ => panic!("list"),
    }
    app.handle_key_event(Key::Char('q'), Some(59));
    assert!(app.is_exit());
}

#[test]
fn waiting_for_the_next_second() {
    assert_eq!(wait_nanos(0), 1_000_000_000);
    assert_eq!(wait_nanos(400_000_000), 600_000_000);
    assert_eq!(wait_nanos(999_500_000), 1_000_000);
    assert_eq!(wait_nanos(1_500_000_000), 1_000_000);
    let d = time_until_next_second();
    assert!(d.as_nanos() >= 1_000_000 && d.as_nanos() <= 1_000_000_000);
}

#[test]
fn ttl_colours_and_separator() {
    assert_eq!(ttl_color(0), TtlColor::Red);
    assert_eq!(ttl_color(4), TtlColor::Red);
    assert_eq!(ttl_color(5), TtlColor::Yellow);
    assert_eq!(ttl_color(9), TtlColor::Yellow);
    assert_eq!(ttl_color(10), TtlColor::Green);
    assert_eq!(separator_text(3), "───");
    assert_eq!(separator_text(0), "");
}

#[test]
fn the_wait_for_the_next_second_is_at_most_a_second() {
    let d = time_until_next_second();
    assert!(d.as_nanos() >= 1_000_000 && d.as_nanos() <= 1_000_000_000);
}
