use tufa::cli::{CLIError, Command};
use tufa::run::{CommandRun, Event, Output, Step};
use tufa::totp::{TotpEntry, TotpError};
use tufa::vault::VaultError;

const RFC_SECRET: &str = "GEZDGNBVGY3TQOJQGEZDGNBVGY3TQOJQ";

fn account(name: &str, issuer: Option<&str>) -> TotpEntry {
    let e = TotpEntry::new(RFC_SECRET.to_string(), name.to_string()).unwrap();
    match issuer {
        Some(i) => e.with_issuer(i.to_string()),
        None => e,
    }
}

fn printed(step: Step) -> (bool, String) {
    match step {
        Step::Print(Output::Out(line)) => (true, line),
        Step::Print(Output::Error(line)) => (false, line),
        other => panic!("expected a line, got {:?}", other),
    }
}

#[test]
fn run_show_prints_the_code_and_its_issuer_and_ttl() {
    let mut run = CommandRun::new(Command::Show { name: "alice".to_string(), ttl: true, issuer: true });
    match run.step(Event::Start) {
        Step::CheckVault(v) => assert_eq!(v, "vault"),
        other => panic!("{:?}", other),
    }
    assert!(matches!(run.step(Event::VaultExists(true)), Step::PromptPassword));
    match run.step(Event::Password(Ok("pw".to_string()))) {
        Step::Load { vault, password } => {
            assert_eq!(vault, "vault");
            assert_eq!(password, "pw");
        }
        other => panic!("{:?}", other),
    }
    // The lookup is by display name, so "alice" finds the account without an issuer.
    let accounts = vec![account("alice", Some("GitHub")), account("alice", None)];
    let ev = Event::Loaded(Ok(accounts));
    assert!(run.accepts(&ev));
    assert!(matches!(run.step(ev), Step::ReadClock));
    assert!(!run.accepts(&Event::Printed));
    let (out, line) = printed(run.step(Event::Clock(Ok(59))));
    assert!(out);
    // RFC 6238, SHA-1, T = 59 s: 94287082; six digits keep 287082. No issuer, so none shown.
    assert_eq!(line, "287082 ttl: 1s");
    assert!(matches!(run.step(Event::Printed), Step::Finish(Ok(()))));
    assert!(run.is_done());
}

#[test]
fn run_show_with_issuer_shows_it() {
    let mut run =
        CommandRun::new(Command::Show { name: "work.GitHub:alice".to_string(), ttl: false, issuer: true });
    match run.step(Event::Start) {
        Step::CheckVault(v) => assert_eq!(v, "work"),
        other => panic!("{:?}", other),
    }
    run.step(Event::VaultExists(true));
    run.step(Event::Password(Ok("pw".to_string())));
    run.step(Event::Loaded(Ok(vec![account("alice", Some("GitHub"))])));
    let (_, line) = printed(run.step(Event::Clock(Ok(59))));
    assert_eq!(line, "287082 issuer: GitHub");
}

#[test]
fn run_del_without_vault_fails_not_found() {
    let mut run = CommandRun::new(Command::Del { name: "work.alice".to_string() });
    match run.step(Event::Start) {
        Step::CheckVault(v) => assert_eq!(v, "work"),
        other => panic!("{:?}", other),
    }
    match run.step(Event::VaultExists(false)) {
        Step::Finish(Err(CLIError::VaultError(VaultError::NotFound))) => {}
        other => panic!("{:?}", other),
    }
    assert!(run.is_done());
}

#[test]
fn run_show_unknown_account_fails() {
    let mut run = CommandRun::new(Command::Show { name: "bob".to_string(), ttl: false, issuer: false });
    run.step(Event::Start);
    run.step(Event::VaultExists(true));
    run.step(Event::Password(Ok("pw".to_string())));
    match run.step(Event::Loaded(Ok(vec![account("alice", None)]))) {
        Step::Finish(Err(CLIError::VaultError(VaultError::AccountNotFound(n)))) => {
            assert_eq!(n, "bob")
        }
        other => panic!("{:?}", other),
    }
}

#[test]
fn run_del_confirmed_saves_the_rest() {
    let mut run = CommandRun::new(Command::Del { name: "alice".to_string() });
    run.step(Event::Start);
    run.step(Event::VaultExists(true));
    run.step(Event::Password(Ok("pw".to_string())));
    let accounts = vec![account("alice", None), account("bob", None)];
    match run.step(Event::Loaded(Ok(accounts))) {
        Step::Confirm(q) => assert_eq!(q, "Are you sure you want to remove alice?"),
        other => panic!("{:?}", other),
    }
    match run.step(Event::Answer(Ok("Yes\n".to_string()))) {
        Step::Save { vault, password, accounts } => {
            assert_eq!(vault, "vault");
            assert_eq!(password, "pw");
            assert_eq!(accounts.len(), 1);
            assert_eq!(accounts[0].name, "bob");
        }
        other => panic!("{:?}", other),
    }
    assert!(matches!(run.step(Event::Saved(Ok(()))), Step::Finish(Ok(()))));
}

#[test]
fn run_del_declined_changes_nothing() {
    let mut run = CommandRun::new(Command::Del { name: "alice".to_string() });
    run.step(Event::Start);
    run.step(Event::VaultExists(true));
    run.step(Event::Password(Ok("pw".to_string())));
    run.step(Event::Loaded(Ok(vec![account("alice", None)])));
    assert!(matches!(run.step(Event::Answer(Ok("n\n".to_string()))), Step::Finish(Ok(()))));
}

#[test]
fn run_add_creates_a_vault() {
    let mut run = CommandRun::new(Command::Add {
        name: "work.GitHub: alice ".to_string(),
        secret: "jbsw y3dp ehpk 3pxp".to_string(),
    });
    match run.step(Event::Start) {
        Step::CheckVault(v) => assert_eq!(v, "work"),
        other => panic!("{:?}", other),
    }
    match run.step(Event::VaultExists(false)) {
        Step::PromptNewPassword(notice) => {
            assert_eq!(notice, "No existing vault found. Creating new vault...")
        }
        other => panic!("{:?}", other),
    }
    match run.step(Event::Password(Ok("pw".to_string()))) {
        Step::Save { vault, password, accounts } => {
            assert_eq!(vault, "work");
            assert_eq!(password, "pw");
            assert_eq!(accounts.len(), 1);
            assert_eq!(accounts[0].name, "alice");
            assert_eq!(accounts[0].issuer.as_deref(), Some("GitHub"));
            assert_eq!(accounts[0].secret, "JBSWY3DPEHPK3PXP");
        }
        other => panic!("{:?}", other),
    }
    assert!(matches!(run.step(Event::Saved(Ok(()))), Step::Finish(Ok(()))));
}

#[test]
fn run_add_with_a_bad_secret_fails_at_once() {
    let mut run =
        CommandRun::new(Command::Add { name: "alice".to_string(), secret: "not-base32!".to_string() });
    match run.step(Event::Start) {
        Step::Finish(Err(CLIError::TotpError(TotpError::InvalidSecret))) => {}
        other => panic!("{:?}", other),
    }
}

#[test]
fn run_add_refuses_a_known_secret() {
    let mut run =
        CommandRun::new(Command::Add { name: "bob".to_string(), secret: RFC_SECRET.to_string() });
    run.step(Event::Start);
    run.step(Event::VaultExists(true));
    run.step(Event::Password(Ok("pw".to_string())));
    match run.step(Event::Loaded(Ok(vec![account("alice", None)]))) {
        Step::Finish(Err(CLIError::TotpError(TotpError::DuplicatedSecret))) => {}
        other => panic!("{:?}", other),
    }
}

#[test]
fn run_list_without_vault_prints_sorted_vault_names() {
    let mut run = CommandRun::new(Command::List { vault: None });
    assert!(matches!(run.step(Event::Start), Step::ListVaultFiles));
    let files = vec!["work.2fa".to_string(), "home.2fa".to_string()];
    assert_eq!(printed(run.step(Event::VaultFiles(files))), (true, "home".to_string()));
    assert_eq!(printed(run.step(Event::Printed)), (true, "work".to_string()));
    assert!(matches!(run.step(Event::Printed), Step::Finish(Ok(()))));
}

#[test]
fn run_import_reports_the_count() {
    let uri = "otpauth://totp/GitHub:alice?secret=JBSWY3DPEHPK3PXP&issuer=GitHub";
    let mut run = CommandRun::new(Command::Import { uri: uri.to_string(), vault: None });
    match run.step(Event::Start) {
        Step::CheckVault(v) => assert_eq!(v, "vault"),
        other => panic!("{:?}", other),
    }
    run.step(Event::VaultExists(true));
    run.step(Event::Password(Ok("pw".to_string())));
    match run.step(Event::Loaded(Ok(vec![account("bob", None)]))) {
        Step::Save { accounts, .. } => {
            assert_eq!(accounts.len(), 2);
            assert_eq!(accounts[1].display_name(), "GitHub:alice");
        }
        other => panic!("{:?}", other),
    }
    assert_eq!(printed(run.step(Event::Saved(Ok(())))), (true, "Imported 1 account".to_string()));
    assert!(matches!(run.step(Event::Printed), Step::Finish(Ok(()))));
}

#[test]
fn run_export_prints_uris() {
    let mut run = CommandRun::new(Command::Export { name: None, qrcode: false });
    run.step(Event::Start);
    run.step(Event::VaultExists(true));
    run.step(Event::Password(Ok("pw".to_string())));
    let (out, line) = printed(run.step(Event::Loaded(Ok(vec![account("alice", Some("GitHub"))]))));
    assert!(out);
    assert!(line.starts_with("otpauth://totp/GitHub:alice?"), "{}", line);
    assert!(line.contains(&format!("secret={}", RFC_SECRET)), "{}", line);
    assert!(matches!(run.step(Event::Printed), Step::Finish(Ok(()))));
}

#[test]
fn run_load_error_ends_the_run() {
    let mut run = CommandRun::new(Command::List { vault: Some("work".to_string()) });
    run.step(Event::Start);
    run.step(Event::VaultExists(true));
    run.step(Event::Password(Ok("pw".to_string())));
    match run.step(Event::Loaded(Err(VaultError::WrongPassword))) {
        Step::Finish(Err(CLIError::VaultError(VaultError::WrongPassword))) => {}
        other => panic!("{:?}", other),
    }
}

#[test]
fn run_del_with_issuer_and_capitals_removes_the_account() {
    let mut run = CommandRun::new(Command::Del { name: "work.GitHub:alice".to_string() });
    match run.step(Event::Start) {
        Step::CheckVault(v) => assert_eq!(v, "work"),
        other => panic!("{:?}", other),
    }
    run.step(Event::VaultExists(true));
    run.step(Event::Password(Ok("pw".to_string())));
    let accounts = vec![account("alice", Some("GitHub")), account("bob", None)];
    match run.step(Event::Loaded(Ok(accounts))) {
        Step::Confirm(q) => assert_eq!(q, "Are you sure you want to remove GitHub:alice?"),
        other => panic!("{:?}", other),
    }
    match run.step(Event::Answer(Ok("y\n".to_string()))) {
        Step::Save { accounts, .. } => {
            assert_eq!(accounts.len(), 1);
            assert_eq!(accounts[0].name, "bob");
        }
        other => panic!("{:?}", other),
    }
}
