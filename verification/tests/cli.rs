use tufa::cli::{
    add_account, check_password, delete_named, delete_prompt, export_target, find_account,
    import_message, import_vault_name, is_yes, list_line, new_account, parse_account_name,
    passwords_match, select_account, select_for_export, show_line, split_issuer, CLIError,
};
use tufa::listing::{sort_names, vault_files, vault_names};
use tufa::totp::{TotpEntry, TotpError};
use tufa::vault::{vault_file_name, VaultError};

fn entry(secret: &str, name: &str, issuer: Option<&str>) -> TotpEntry {
    let e = TotpEntry::new(secret.to_string(), name.to_string()).unwrap();
    match issuer {
        Some(i) => e.with_issuer(i.to_string()),
        None => e,
    }
}

fn names(v: &[TotpEntry]) -> Vec<String> {
    v.iter().map(|e| e.display_name()).collect()
}

#[test]
fn account_names_split_at_the_first_dot() {
    assert_eq!(parse_account_name("work.GitHub:me"), ("work".to_string(), "GitHub:me".to_string()));
    assert_eq!(parse_account_name("a.b.c"), ("a".to_string(), "b.c".to_string()));
    assert_eq!(parse_account_name("GitHub:me"), ("vault".to_string(), "GitHub:me".to_string()));
}

#[test]
fn issuer_is_split_and_trimmed() {
    assert_eq!(split_issuer(" Git Hub : me "), (Some("Git Hub".to_string()), "me".to_string()));
    assert_eq!(split_issuer("me"), (None, "me".to_string()));
    assert_eq!(split_issuer("a:b:c"), (Some("a".to_string()), "b:c".to_string()));
}

#[test]
fn new_account_from_display_name() {
    let e = new_account("GitHub: me".to_string(), "jbswy3dpehpk3pxp".to_string()).unwrap();
    assert_eq!(e.issuer.as_deref(), Some("GitHub"));
    assert_eq!(e.name, "me");
    assert_eq!(e.secret, "JBSWY3DPEHPK3PXP");
    assert!(matches!(
        new_account("x".to_string(), "0000".to_string()),
        Err(CLIError::TotpError(TotpError::InvalidSecret))
    ));
}

#[test]
fn duplicate_secrets_are_refused() {
    let mut accounts = vec![entry("JBSWY3DPEHPK3PXP", "a", None)];
    let r = add_account(&mut accounts, entry("jbswy3dpehpk3pxp", "b", None));
    assert!(matches!(r, Err(CLIError::TotpError(TotpError::DuplicatedSecret))));
    assert_eq!(accounts.len(), 1);
    add_account(&mut accounts, entry("GEZDGNBVGY3TQOJQ", "c", None)).unwrap();
    assert_eq!(names(&accounts), vec!["a", "c"]);
}

#[test]
fn accounts_are_found_case_insensitively() {
    let accounts = vec![entry("JBSWY3DPEHPK3PXP", "Me", Some("GitHub")), entry("GEZDGNBVGY3TQOJQ", "you", None)];
    assert_eq!(find_account(&accounts, "github:ME"), Some(0));
    assert_eq!(find_account(&accounts, "YOU"), Some(1));
    assert_eq!(find_account(&accounts, "me"), None);
    assert_eq!(select_account(&accounts, "You".to_string()).ok(), Some(1));
    match select_account(&accounts, "nobody".to_string()) {
        Err(e) => assert_eq!(e.to_string(), "Vault error: Account 'nobody' not found"),
        Ok(_) => panic!("expected an error"),
    }
}

#[test]
fn delete_keeps_other_accounts_in_order() {
    let accounts = vec![
        entry("JBSWY3DPEHPK3PXP", "a", None),
        entry("GEZDGNBVGY3TQOJQ", "b", Some("x")),
        entry("MFRGGZDF", "c", None),
    ];
    let kept = delete_named(accounts, "x:b");
    assert_eq!(names(&kept), vec!["a", "c"]);
}

#[test]
fn delete_ignores_case_on_both_sides() {
    let accounts = vec![entry("JBSWY3DPEHPK3PXP", "Bob", None)];
    assert!(delete_named(accounts, "Bob").is_empty());
    let accounts = vec![entry("JBSWY3DPEHPK3PXP", "Bob", None)];
    assert!(delete_named(accounts, "bob").is_empty());
    let accounts = vec![entry("JBSWY3DPEHPK3PXP", "alice", Some("GitHub")), entry("GEZDGNBVGY3TQOJQ", "b", None)];
    let kept = delete_named(accounts, "GitHub:alice");
    assert_eq!(names(&kept), vec!["b"]);
}

#[test]
fn delete_question_names_the_account() {
    let e = entry("JBSWY3DPEHPK3PXP", "me", Some("GitHub"));
    assert_eq!(delete_prompt(&e), "Are you sure you want to remove GitHub:me?");
}

#[test]
fn export_targets() {
    assert_eq!(export_target(None), ("vault".to_string(), None));
    assert_eq!(export_target(Some("me".to_string())), ("vault".to_string(), Some("me".to_string())));
    assert_eq!(
        export_target(Some("work.GitHub:me".to_string())),
        ("work".to_string(), Some("GitHub:me".to_string()))
    );
}

#[test]
fn export_selection() {
    let all = || vec![entry("JBSWY3DPEHPK3PXP", "a", None), entry("GEZDGNBVGY3TQOJQ", "B", None), entry("MFRGGZDF", "b", None)];
    assert_eq!(select_for_export(all(), None).unwrap().len(), 3);
    assert_eq!(names(&select_for_export(all(), Some("b".to_string())).unwrap()), vec!["B", "b"]);
    match select_for_export(all(), Some("zz".to_string())) {
        Err(CLIError::VaultError(VaultError::AccountNotFound(n))) => assert_eq!(n, "zz"),
        _ => panic!("expected an error"),
    }
}

#[test]
fn yes_answers() {
    assert!(is_yes("y\n"));
    assert!(is_yes("YES  \r\n"));
    assert!(is_yes("Yes"));
    assert!(!is_yes(" y"));
    assert!(!is_yes("n\n"));
    assert!(!is_yes(""));
    assert!(!is_yes("yess"));
}

#[test]
fn passwords() {
    assert!(check_password("pw".to_string()).is_ok());
    match check_password(String::new()) {
        Err(e) => assert_eq!(e.to_string(), "Vault error: crypto error: password cannot be empty"),
        Ok(_) => panic!("expected an error"),
    }
    assert!(passwords_match("abc", "abc"));
    assert!(!passwords_match("abc", "abd"));
}

#[test]
fn printed_lines() {
    let e = entry("JBSWY3DPEHPK3PXP", "me", Some("GitHub"));
    assert_eq!(show_line("123456", &e, false, None), "123456");
    assert_eq!(show_line("123456", &e, true, Some(7)), "123456 issuer: GitHub ttl: 7s");
    let plain = entry("JBSWY3DPEHPK3PXP", "me", None);
    assert_eq!(show_line("123456", &plain, true, Some(30)), "123456 ttl: 30s");
    assert_eq!(
        list_line("GitHub:me", "123456", 7),
        format!("{:40} {} {:2}s", "GitHub:me", "123456", 7)
    );
    let long = "x".repeat(45);
    assert_eq!(list_line(&long, "1", 30), format!("{:40} {} {:2}s", long, "1", 30));
    assert_eq!(import_message(3), "Imported 3 account");
    assert_eq!(import_vault_name(None), "vault");
    assert_eq!(import_vault_name(Some("w".to_string())), "w");
}

#[test]
fn cli_error_messages() {
    assert_eq!(CLIError::from(TotpError::InvalidSecret).to_string(), "TOTP error: invalid secret");
    assert_eq!(CLIError::from(VaultError::NotFound).to_string(), "Vault error: vault file not found");
}

#[test]
fn vault_listing() {
    let files = vec![
        "work.2fa".to_string(),
        "notes.txt".to_string(),
        ".2fa".to_string(),
        "a.b.2fa".to_string(),
        "Zeta.2fa".to_string(),
        "vault.2FA".to_string(),
    ];
    let kept = vault_files(files);
    assert_eq!(kept, vec!["work.2fa", "a.b.2fa", "Zeta.2fa"]);
    assert_eq!(vault_names(kept), vec!["Zeta", "a.b", "work"]);
}

#[test]
fn names_sort_like_strings() {
    let v: Vec<String> = ["b", "a", "ab", "", "B", "é", "a"].iter().map(|s| s.to_string()).collect();
    let mut expected = v.clone();
    expected.sort();
    assert_eq!(sort_names(v), expected);
}

#[test]
fn vault_file_names_list_back() {
    let f = vault_file_name("work");
    assert_eq!(f, "work.2fa");
    assert_eq!(vault_names(vault_files(vec![f])), vec!["work"]);
}
