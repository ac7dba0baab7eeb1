//! The command-line interface: its commands, its errors, and what each command
//! decides between reading the vault and printing or saving.
use crate::text::{
    chars_eq, chars_of, decimal, decimal_chars, push_char, split_once, split_once_chars, string_of,
    trim, trim_chars, trim_end,
};
use crate::totp::{error_message, opt_view, spec_display_name, EntryView, ErrorView, TotpEntry, TotpError};
use crate::vault::{vault_error_message, VaultError, VaultErrorView};
use vstd::prelude::*;

verus! {

/// What the command line asks for.
#[derive(Debug)]
pub enum Command {
    /// Display the current TOTP code for an account.
    Show { name: String, ttl: bool, issuer: bool },
    /// List the accounts of a vault, or the vaults.
    List { vault: Option<String> },
    /// Add an account to a vault.
    Add { name: String, secret: String },
    /// Delete an account of a vault.
    Del { name: String },
    /// Import accounts from an `otpauth://` or `otpauth-migration://` URI.
    Import { uri: String, vault: Option<String> },
    /// Export accounts as `otpauth://` URIs, or as QR codes.
    Export { name: Option<String>, qrcode: bool },
}

pub enum CommandView {
    Show { name: Seq<char>, ttl: bool, issuer: bool },
    List { vault: Option<Seq<char>> },
    Add { name: Seq<char>, secret: Seq<char> },
    Del { name: Seq<char> },
    Import { uri: Seq<char>, vault: Option<Seq<char>> },
    Export { name: Option<Seq<char>>, qrcode: bool },
}

impl View for Command {
    type V = CommandView;

    open spec fn view(&self) -> CommandView {
        match self {
            Command::Show { name, ttl, issuer } => CommandView::Show {
                name: name@,
                ttl: *ttl,
                issuer: *issuer,
            },
            Command::List { vault } => CommandView::List { vault: opt_view(*vault) },
            Command::Add { name, secret } => CommandView::Add { name: name@, secret: secret@ },
            Command::Del { name } => CommandView::Del { name: name@ },
            Command::Import { uri, vault } => CommandView::Import {
                uri: uri@,
                vault: opt_view(*vault),
            },
            Command::Export { name, qrcode } => CommandView::Export {
                name: opt_view(*name),
                qrcode: *qrcode,
            },
        }
    }
}

/// The parsed command line: a command, or none to start the interactive screen.
#[derive(Debug)]
pub struct Cli {
    pub command: Option<Command>,
}

/// Why a command failed.
#[derive(Debug)]
pub enum CLIError {
    TotpError(TotpError),
    VaultError(VaultError),
}

pub enum CliErrorView {
    TotpError(ErrorView),
    VaultError(VaultErrorView),
}

impl View for CLIError {
    type V = CliErrorView;

    open spec fn view(&self) -> CliErrorView {
        match self {
            CLIError::TotpError(e) => CliErrorView::TotpError(e@),
            CLIError::VaultError(e) => CliErrorView::VaultError(e@),
        }
    }
}

impl From<TotpError> for CLIError {
    fn from(e: TotpError) -> (r: CLIError) {
        CLIError::TotpError(e)
    }
}

impl vstd::std_specs::convert::FromSpecImpl<TotpError> for CLIError {
    open spec fn obeys_from_spec() -> bool {
        true
    }

    open spec fn from_spec(e: TotpError) -> CLIError {
        CLIError::TotpError(e)
    }
}

impl From<VaultError> for CLIError {
    fn from(e: VaultError) -> (r: CLIError) {
        CLIError::VaultError(e)
    }
}

impl vstd::std_specs::convert::FromSpecImpl<VaultError> for CLIError {
    open spec fn obeys_from_spec() -> bool {
        true
    }

    open spec fn from_spec(e: VaultError) -> CLIError {
        CLIError::VaultError(e)
    }
}

impl CLIError {
    /// The error's message (what `Display` writes): `TOTP error: ` or
    /// `Vault error: ` and the inner error's message.
    pub fn to_string(&self) -> (r: String)
        ensures
            self matches CLIError::TotpError(e) ==> r@ == "TOTP error: "@ + error_message(e@),
            self matches CLIError::VaultError(e) ==> {
                let m = vault_error_message(e@);
                &&& r@.len() >= 13 + m.len()
                &&& r@.take(13 + m.len() as int) == "Vault error: "@ + m
                &&& !(e is Io) ==> r@ == "Vault error: "@ + m
            },
    {
        match self {
            CLIError::TotpError(e) => {
                let mut s = String::from_str("TOTP error: ");
                let m = e.to_string();
                s.append(m.as_str());
                s
            },
            CLIError::VaultError(e) => {
                let mut s = String::from_str("Vault error: ");
                proof {
                    reveal_strlit("Vault error: ");
                }
                let m = e.to_string();
                let ghost pre = s@;
                s.append(m.as_str());
                assert(s@.take(13 + vault_error_message(e@).len() as int) =~= pre + vault_error_message(
                    e@,
                ));
                s
            },
        }
    }
}

/// `str::to_lowercase`: the text in lower case as Unicode defines it.
pub uninterp spec fn lowercase(s: Seq<char>) -> Seq<char>;

/// `str::to_lowercase` (a function of its argument alone; its Unicode case
/// table is not written out here: the result is named `lowercase`).
#[verifier::external_body]
fn to_lowercase(s: &str) -> (r: String)
    ensures
        r@ == lowercase(s@),
{
    s.to_lowercase()
}

/// Whether two names are the same but for case.
pub open spec fn same_name(a: Seq<char>, b: Seq<char>) -> bool {
    lowercase(a) == lowercase(b)
}

/// The vault and the account that an identifier names: `<vault>.<account>`
/// splits at the first `.`; without one, the vault is `vault`.
pub open spec fn spec_parse_account_name(input: Seq<char>) -> (Seq<char>, Seq<char>) {
    match split_once(input, '.') {
        Some((v, a)) => (v, a),
        None => ("vault"@, input),
    }
}

/// Splits an account identifier into vault and account (see
/// `spec_parse_account_name`).
pub fn parse_account_name(input: &str) -> (r: (String, String))
    ensures
        (r.0@, r.1@) == spec_parse_account_name(input@),
{
    let cs = chars_of(input);
    match split_once_chars(&cs, '.') {
        Some((v, a)) => (string_of(&v), string_of(&a)),
        None => (String::from_str("vault"), String::from_str(input)),
    }
}

/// Whether the account at `i` is named `name`, case aside.
pub open spec fn named(accounts: Seq<TotpEntry>, i: int, name: Seq<char>) -> bool {
    same_name(spec_display_name(accounts[i]@), name)
}

/// The first account whose display name is `name`, case aside.
pub fn find_account(accounts: &[TotpEntry], name: &str) -> (r: Option<usize>)
    ensures
        match r {
            Some(i) => i < accounts@.len() && named(accounts@, i as int, name@) && forall|j: int|
                0 <= j < i ==> !named(accounts@, j, name@),
            None => forall|j: int| 0 <= j < accounts@.len() ==> !named(accounts@, j, name@),
        },
{
    let wanted = to_lowercase(name);
    let wanted_chars = chars_of(wanted.as_str());
    let mut i: usize = 0;
    while i < accounts.len()
        invariant
            i <= accounts@.len(),
            wanted_chars@ == lowercase(name@),
            forall|j: int| 0 <= j < i ==> !named(accounts@, j, name@),
        decreases accounts.len() - i,
    {
        let shown = accounts[i].display_name();
        let low = to_lowercase(shown.as_str());
        if chars_eq(&chars_of(low.as_str()), &wanted_chars) {
            return Some(i);
        }
        i = i + 1;
    }
    None
}

/// Finds the account a command names, or fails with `AccountNotFound` and the
/// name as given.
pub fn select_account(accounts: &[TotpEntry], name: String) -> (r: Result<usize, CLIError>)
    ensures
        match r {
            Ok(i) => i < accounts@.len() && named(accounts@, i as int, name@) && forall|j: int|
                0 <= j < i ==> !named(accounts@, j, name@),
            Err(e) => e@ == CliErrorView::VaultError(VaultErrorView::AccountNotFound(name@))
                && forall|j: int| 0 <= j < accounts@.len() ==> !named(accounts@, j, name@),
        },
{
    match find_account(accounts, name.as_str()) {
        Some(i) => Ok(i),
        None => Err(CLIError::VaultError(VaultError::AccountNotFound(name))),
    }
}

/// What `show` prints for an account: the code, then `issuer: <issuer>` where
/// asked for and known, then `ttl: <seconds>s` where asked for, separated by
/// single spaces.
pub open spec fn show_text(code: Seq<char>, issuer: Option<Seq<char>>, ttl: Option<u64>) -> Seq<
    char,
> {
    code + match issuer {
        Some(i) => " issuer: "@ + i,
        None => Seq::empty(),
    } + match ttl {
        Some(t) => " ttl: "@ + decimal(t as nat) + "s"@,
        None => Seq::empty(),
    }
}

/// The line that `show` prints (see `show_text`); the issuer is shown where
/// `show_issuer` is set and the account has one.
pub fn show_line(code: &str, account: &TotpEntry, show_issuer: bool, ttl: Option<u64>) -> (r:
    String)
    ensures
        r@ == show_text(
            code@,
            if show_issuer {
                opt_view(account.issuer)
            } else {
                None
            },
            ttl,
        ),
{
    let mut s = String::from_str(code);
    if show_issuer {
        match &account.issuer {
            Some(i) => {
                s.append(" issuer: ");
                s.append(i.as_str());
            },
            None => {},
        }
    }
    match ttl {
        Some(t) => {
            s.append(" ttl: ");
            let d = string_of(&decimal_chars(t));
            s.append(d.as_str());
            s.append("s");
        },
        None => {},
    }
    s
}

/// `n` spaces.
pub open spec fn spaces(n: nat) -> Seq<char> {
    Seq::new(n, |i: int| ' ')
}

/// The text followed by spaces up to `width` characters (`{:width}` on text).
pub open spec fn pad_right(s: Seq<char>, width: nat) -> Seq<char> {
    if s.len() < width {
        s + spaces((width - s.len()) as nat)
    } else {
        s
    }
}

/// Spaces followed by the text up to `width` characters (`{:width}` on a
/// number).
pub open spec fn pad_left(s: Seq<char>, width: nat) -> Seq<char> {
    if s.len() < width {
        spaces((width - s.len()) as nat) + s
    } else {
        s
    }
}

/// Appends `n` spaces.
fn push_spaces(s: &mut String, n: usize)
    ensures
        final(s)@ == old(s)@ + spaces(n as nat),
{
    let mut i: usize = 0;
    while i < n
        invariant
            i <= n,
            s@ == old(s)@ + spaces(i as nat),
        decreases n - i,
    {
        push_char(s, ' ');
        assert(old(s)@ + spaces((i + 1) as nat) =~= (old(s)@ + spaces(i as nat)).push(' '));
        i = i + 1;
    }
}

/// One line of `list`: the display name padded to 40 characters, the code,
/// and the seconds left padded to 2, then `s`.
pub open spec fn list_text(name: Seq<char>, code: Seq<char>, ttl: u64) -> Seq<char> {
    pad_right(name, 40) + " "@ + code + " "@ + pad_left(decimal(ttl as nat), 2) + "s"@
}

/// Computes `list_text`.
pub fn list_line(name: &str, code: &str, ttl: u64) -> (r: String)
    ensures
        r@ == list_text(name@, code@, ttl),
{
    let mut s = String::from_str(name);
    let n = chars_of(name).len();
    if n < 40 {
        push_spaces(&mut s, 40 - n);
    }
    s.append(" ");
    s.append(code);
    s.append(" ");
    let d = decimal_chars(ttl);
    if d.len() < 2 {
        push_spaces(&mut s, 2 - d.len());
    }
    let ds = string_of(&d);
    s.append(ds.as_str());
    s.append("s");
    s
}

/// Issuer and name of an account to add: `<issuer>:<name>` splits at the first
/// `:` and both parts are trimmed; otherwise the whole text is the name.
pub open spec fn spec_split_issuer(display: Seq<char>) -> (Option<Seq<char>>, Seq<char>) {
    match split_once(display, ':') {
        Some((i, n)) => (Some(trim(i)), trim(n)),
        None => (None, display),
    }
}

/// Splits the display name of an account to add (see `spec_split_issuer`).
pub fn split_issuer(display: &str) -> (r: (Option<String>, String))
    ensures
        (opt_view(r.0), r.1@) == spec_split_issuer(display@),
{
    let cs = chars_of(display);
    match split_once_chars(&cs, ':') {
        Some((i, n)) => (Some(string_of(&trim_chars(&i))), string_of(&trim_chars(&n))),
        None => (None, String::from_str(display)),
    }
}

/// The account that `add` makes from a display name and a secret: the secret
/// normalized, issuer and name as `spec_split_issuer` finds them.
pub open spec fn spec_new_account(display: Seq<char>, secret: Seq<char>) -> Result<
    EntryView,
    ErrorView,
> {
    let (issuer, name) = spec_split_issuer(display);
    match crate::totp::spec_new_entry(secret, name) {
        Ok(e) => Ok(EntryView { issuer: issuer, ..e }),
        Err(err) => Err(err),
    }
}

/// Makes the account to add (see `spec_new_account`); a bad secret fails with
/// `InvalidSecret`.
pub fn new_account(display: String, secret: String) -> (r: Result<TotpEntry, CLIError>)
    ensures
        match r {
            Ok(e) => spec_new_account(display@, secret@) == Ok::<EntryView, ErrorView>(e@),
            Err(e) => spec_new_account(display@, secret@) matches Err(x) && e@
                == CliErrorView::TotpError(x),
        },
{
    let (issuer, name) = split_issuer(display.as_str());
    let totp = match TotpEntry::new(secret, name) {
        Ok(t) => t,
        Err(e) => return Err(CLIError::TotpError(e)),
    };
    match issuer {
        Some(i) => Ok(totp.with_issuer(i)),
        None => Ok(totp),
    }
}

/// Whether some account has exactly this secret.
pub open spec fn has_secret(accounts: Seq<TotpEntry>, secret: Seq<char>) -> bool {
    exists|i: int| 0 <= i < accounts.len() && (#[trigger] accounts[i]).secret@ == secret
}

/// Adds an account, refusing with `DuplicatedSecret` one whose secret is
/// already there.
pub fn add_account(accounts: &mut Vec<TotpEntry>, account: TotpEntry) -> (r: Result<(), CLIError>)
    ensures
        match r {
            Ok(()) => !has_secret(old(accounts)@, account.secret@) && final(accounts)@ == old(
                accounts,
            )@.push(account),
            Err(e) => has_secret(old(accounts)@, account.secret@) && e@ == CliErrorView::TotpError(
                ErrorView::DuplicatedSecret,
            ) && final(accounts)@ == old(accounts)@,
        },
{
    let wanted = chars_of(account.secret.as_str());
    let mut i: usize = 0;
    while i < accounts.len()
        invariant
            i <= accounts@.len(),
            wanted@ == account.secret@,
            forall|j: int| 0 <= j < i ==> (#[trigger] accounts@[j]).secret@ != account.secret@,
        decreases accounts.len() - i,
    {
        if chars_eq(&chars_of(accounts[i].secret.as_str()), &wanted) {
            assert(accounts@[i as int].secret@ == account.secret@);
            return Err(CLIError::TotpError(TotpError::DuplicatedSecret));
        }
        i = i + 1;
    }
    accounts.push(account);
    Ok(())
}

/// What `del` asks before removing an account.
pub fn delete_prompt(account: &TotpEntry) -> (r: String)
    ensures
        r@ == "Are you sure you want to remove "@ + spec_display_name(account@) + "?"@,
{
    let mut s = String::from_str("Are you sure you want to remove ");
    let d = account.display_name();
    s.append(d.as_str());
    s.append("?");
    s
}

/// Keeps the accounts whose display name differs from `name`, case aside
/// (see `same_name`): the accounts that `del` finds are the ones it removes.
pub open spec fn kept_after_delete(accounts: Seq<EntryView>, name: Seq<char>) -> Seq<EntryView> {
    accounts.filter(|e: EntryView| !same_name(spec_display_name(e), name))
}

/// The accounts of a list, each by its view.
pub open spec fn views_of(v: Seq<TotpEntry>) -> Seq<EntryView> {
    v.map_values(|e: TotpEntry| e@)
}

/// Removes the accounts that `del` removes (see `kept_after_delete`), keeping
/// the others in order.
pub fn delete_named(accounts: Vec<TotpEntry>, name: &str) -> (r: Vec<TotpEntry>)
    ensures
        views_of(r@) == kept_after_delete(views_of(accounts@), name@),
{
    let wanted_low = to_lowercase(name);
    let wanted = chars_of(wanted_low.as_str());
    let mut out: Vec<TotpEntry> = Vec::new();
    let mut rest = accounts;
    let ghost all = views_of(rest@);
    let mut i: usize = 0;
    let n = rest.len();
    proof {
        reveal(Seq::filter);
    }
    assert(views_of(out@) =~= kept_after_delete(all.take(0), name@));
    while i < n
        invariant
            n == all.len(),
            i <= n,
            rest@.len() == n - i,
            views_of(rest@) == all.skip(i as int),
            wanted@ == lowercase(name@),
            views_of(out@) == kept_after_delete(all.take(i as int), name@),
        decreases n - i,
    {
        proof {
            reveal(Seq::filter);
        }
        let ghost prev = rest@;
        let a = rest.remove(0);
        assert(all.skip(i as int)[0] == a@);
        assert forall|k: int| 0 <= k < rest@.len() implies views_of(rest@)[k] == all.skip(
            i + 1,
        )[k] by {
            assert(rest@[k] == prev[k + 1]);
            assert(views_of(prev)[k + 1] == all.skip(i as int)[k + 1]);
        }
        assert(views_of(rest@) =~= all.skip(i + 1));
        assert(all.take(i + 1).drop_last() =~= all.take(i as int));
        assert(all.take(i + 1).last() == a@);
        let d = a.display_name();
        let low = to_lowercase(d.as_str());
        if !chars_eq(&chars_of(low.as_str()), &wanted) {
            let ghost before = out@;
            out.push(a);
            assert(views_of(out@) =~= views_of(before).push(a@));
        }
        i = i + 1;
    }
    assert(all.take(n as int) =~= all);
    out
}

/// The vault that `import` writes to: the one given, or `vault`.
pub fn import_vault_name(vault: Option<String>) -> (r: String)
    ensures
        r@ == match vault {
            Some(v) => v@,
            None => "vault"@,
        },
{
    match vault {
        Some(v) => v,
        None => String::from_str("vault"),
    }
}

/// What `import` prints once it has saved.
pub fn import_message(count: usize) -> (r: String)
    ensures
        r@ == "Imported "@ + decimal(count as nat) + " account"@,
{
    let mut s = String::from_str("Imported ");
    let d = string_of(&decimal_chars(count as u64));
    s.append(d.as_str());
    s.append(" account");
    s
}

/// Vault and account that `export` reads: `<vault>.<account>` splits at the
/// first `.`, a name without one is an account of `vault`, and no name means
/// every account of `vault`.
pub open spec fn spec_export_target(name: Option<Seq<char>>) -> (Seq<char>, Option<Seq<char>>) {
    match name {
        Some(n) => match split_once(n, '.') {
            Some((v, a)) => (v, Some(a)),
            None => ("vault"@, Some(n)),
        },
        None => ("vault"@, None),
    }
}

pub fn export_target(name: Option<String>) -> (r: (String, Option<String>))
    ensures
        (r.0@, opt_view(r.1)) == spec_export_target(opt_view(name)),
{
    match name {
        Some(n) => {
            let cs = chars_of(n.as_str());
            match split_once_chars(&cs, '.') {
                Some((v, a)) => (string_of(&v), Some(string_of(&a))),
                None => (String::from_str("vault"), Some(n)),
            }
        },
        None => (String::from_str("vault"), None),
    }
}

/// The accounts that `export` writes: all of them, or those named `account`
/// (case aside), in order.
pub open spec fn exported(accounts: Seq<EntryView>, account: Option<Seq<char>>) -> Seq<EntryView> {
    match account {
        Some(a) => accounts.filter(|e: EntryView| same_name(spec_display_name(e), a)),
        None => accounts,
    }
}

/// Picks the accounts to export (see `exported`); a name that matches none
/// fails with `AccountNotFound` and the name.
pub fn select_for_export(accounts: Vec<TotpEntry>, account: Option<String>) -> (r: Result<
    Vec<TotpEntry>,
    CLIError,
>)
    ensures
        match r {
            Ok(v) => views_of(v@) == exported(views_of(accounts@), opt_view(account)) && (
            account is Some ==> v@.len() > 0),
            Err(e) => account matches Some(a) && exported(
                views_of(accounts@),
                opt_view(account),
            ).len() == 0 && e@ == CliErrorView::VaultError(VaultErrorView::AccountNotFound(a@)),
        },
{
    let a = match account {
        None => return Ok(accounts),
        Some(a) => a,
    };
    let wanted = chars_of(to_lowercase(a.as_str()).as_str());
    let mut out: Vec<TotpEntry> = Vec::new();
    let mut rest = accounts;
    let ghost all = views_of(rest@);
    let mut i: usize = 0;
    let n = rest.len();
    proof {
        reveal(Seq::filter);
    }
    assert(views_of(out@) =~= all.take(0).filter(
        |e: EntryView| same_name(spec_display_name(e), a@),
    ));
    while i < n
        invariant
            n == all.len(),
            i <= n,
            rest@.len() == n - i,
            views_of(rest@) == all.skip(i as int),
            wanted@ == lowercase(a@),
            views_of(out@) == all.take(i as int).filter(
                |e: EntryView| same_name(spec_display_name(e), a@),
            ),
        decreases n - i,
    {
        proof {
            reveal(Seq::filter);
        }
        let ghost prev = rest@;
        let x = rest.remove(0);
        assert(all.skip(i as int)[0] == x@);
        assert forall|k: int| 0 <= k < rest@.len() implies views_of(rest@)[k] == all.skip(
            i + 1,
        )[k] by {
            assert(rest@[k] == prev[k + 1]);
            assert(views_of(prev)[k + 1] == all.skip(i as int)[k + 1]);
        }
        assert(views_of(rest@) =~= all.skip(i + 1));
        assert(all.take(i + 1).drop_last() =~= all.take(i as int));
        assert(all.take(i + 1).last() == x@);
        let d = x.display_name();
        let low = to_lowercase(d.as_str());
        if chars_eq(&chars_of(low.as_str()), &wanted) {
            let ghost before = out@;
            out.push(x);
            assert(views_of(out@) =~= views_of(before).push(x@));
        }
        i = i + 1;
    }
    assert(all.take(n as int) =~= all);
    if out.len() == 0 {
        return Err(CLIError::VaultError(VaultError::AccountNotFound(a)));
    }
    Ok(out)
}

/// Whether an answer to a yes/no question is yes: without trailing white
/// space and in lower case, `y` or `yes`.
pub open spec fn spec_is_yes(input: Seq<char>) -> bool {
    let a = lowercase(trim_end(input));
    a == "y"@ || a == "yes"@
}

pub fn is_yes(input: &str) -> (r: bool)
    ensures
        r == spec_is_yes(input@),
{
    let cs = chars_of(input);
    let t = crate::text::trim_end_chars(&cs);
    let low = to_lowercase(string_of(&t).as_str());
    let lc = chars_of(low.as_str());
    let y = chars_of("y");
    let yes = chars_of("yes");
    chars_eq(&lc, &y) || chars_eq(&lc, &yes)
}

/// A password read at the prompt: an empty one is refused with
/// `CryptoError("password cannot be empty")`.
pub fn check_password(password: String) -> (r: Result<String, CLIError>)
    ensures
        match r {
            Ok(p) => p@ == password@ && password@.len() > 0,
            Err(e) => password@.len() == 0 && e@ == CliErrorView::VaultError(
                VaultErrorView::CryptoError("password cannot be empty"@),
            ),
        },
{
    if password.as_str().is_empty() {
        return Err(CLIError::VaultError(VaultError::CryptoError(
            String::from_str("password cannot be empty"),
        )));
    }
    Ok(password)
}

/// Whether a new password and its confirmation are the same text.
pub fn passwords_match(password: &str, confirm: &str) -> (r: bool)
    ensures
        r == (password@ == confirm@),
{
    chars_eq(&chars_of(password), &chars_of(confirm))
}

/// An identifier with a `.` is its vault, a `.` and its account, and the vault
/// has no `.`; one without is an account of the vault `vault`.
pub proof fn lemma_parse_account_name(input: Seq<char>)
    ensures
        input.contains('.') ==> {
            let (v, a) = spec_parse_account_name(input);
            &&& input == v + seq!['.'] + a
            &&& !v.contains('.')
        },
        !input.contains('.') ==> spec_parse_account_name(input) == ("vault"@, input),
{
    crate::text::lemma_split_once_shape(input, '.');
    if let Some((v, a)) = split_once(input, '.') {
        assert(!v.contains('.')) by {
            if v.contains('.') {
                let j = choose|j: int| 0 <= j < v.len() && v[j] == '.';
            }
        }
        assert(input.contains('.')) by {
            assert(input[v.len() as int] == '.');
        }
    } else {
        assert(!input.contains('.'));
    }
}

/// After `del`, no account left is named `name` (case aside), every account
/// not so named is still there, and where an account is so named (the one
/// `del` finds and asks about), at least one account goes.
pub proof fn lemma_delete_removes(accounts: Seq<EntryView>, name: Seq<char>)
    ensures
        forall|i: int|
            0 <= i < kept_after_delete(accounts, name).len() ==> !same_name(
                spec_display_name(#[trigger] kept_after_delete(accounts, name)[i]),
                name,
            ),
        forall|i: int|
            0 <= i < accounts.len() && !same_name(spec_display_name(accounts[i]), name)
                ==> #[trigger] kept_after_delete(accounts, name).contains(accounts[i]),
        kept_after_delete(accounts, name).len() <= accounts.len(),
        (exists|i: int| 0 <= i < accounts.len() && same_name(spec_display_name(#[trigger] accounts[i]), name))
            ==> kept_after_delete(accounts, name).len() < accounts.len(),
{
    broadcast use vstd::seq_lib::group_filter_ensures;

    let f = |e: EntryView| !same_name(spec_display_name(e), name);
    if exists|i: int| 0 <= i < accounts.len() && same_name(spec_display_name(#[trigger] accounts[i]), name) {
        let i = choose|i: int| 0 <= i < accounts.len() && same_name(spec_display_name(#[trigger] accounts[i]), name);
        lemma_filter_drops(accounts, f, i);
    }
}

/// A filter that drops an element gives a shorter sequence.
proof fn lemma_filter_drops(s: Seq<EntryView>, f: spec_fn(EntryView) -> bool, i: int)
    requires
        0 <= i < s.len(),
        !f(s[i]),
    ensures
        s.filter(f).len() < s.len(),
    decreases s.len(),
{
    reveal(Seq::filter);
    s.drop_last().lemma_filter_len(f);
    if i == s.len() - 1 {
    } else {
        lemma_filter_drops(s.drop_last(), f, i);
    }
}

/// No two accounts have the same secret.
pub open spec fn distinct_secrets(accounts: Seq<TotpEntry>) -> bool {
    forall|i: int, j: int|
        0 <= i < j < accounts.len() ==> (#[trigger] accounts[i]).secret@ != (
        #[trigger] accounts[j]).secret@
}

/// `add` keeps the secrets of a vault distinct: the account it adds has a
/// secret that no account there has.
pub proof fn lemma_add_keeps_secrets_distinct(accounts: Seq<TotpEntry>, account: TotpEntry)
    requires
        distinct_secrets(accounts),
        !has_secret(accounts, account.secret@),
    ensures
        distinct_secrets(accounts.push(account)),
{
    let s = accounts.push(account);
    assert forall|i: int, j: int| 0 <= i < j < s.len() implies (#[trigger] s[i]).secret@ != (
    #[trigger] s[j]).secret@ by {
        if j == accounts.len() {
            assert(s[i] == accounts[i]);
            if accounts[i].secret@ == account.secret@ {
                assert(has_secret(accounts, account.secret@));
            }
        } else {
            assert(s[i] == accounts[i] && s[j] == accounts[j]);
        }
    }
}

} // verus!
