//! Running a command line: the order of the outside work a command needs (is
//! the vault there, the password, reading the vault, the clock, a yes/no
//! answer, saving, listing the vault files, printing) and every decision
//! between them. The program performs each step and hands back its outcome.
use crate::cli::{
    add_account, check_password, delete_named, delete_prompt, export_target, import_message,
    import_vault_name, is_yes, kept_after_delete, list_line, list_text, new_account,
    parse_account_name, same_name, select_account, select_for_export, exported, show_line,
    show_text, spec_export_target, spec_is_yes, spec_new_account, spec_parse_account_name, views_of,
    CLIError, CliErrorView, Command, CommandView,
};
use crate::codec::{all_base32, base32_decoded};
use crate::listing::{sorted, stem, texts, vault_names};
use crate::migration::entry_views;
use crate::screen::account_list::all_can_generate;
use crate::text::{decimal, string_of};
use crate::totp::{
    can_generate, opt_view, spec_display_name, spec_parse_uri, totp_code, ttl_at, EntryView,
    ErrorView, TotpEntry, TotpError,
};
use crate::totp_uri::{qr_drawing, qr_fits};
use crate::uri::spec_to_uri;
use crate::vault::{VaultError, VaultErrorView};
use vstd::prelude::*;
use vstd::utf8::encode_utf8;

verus! {

/// A line a command prints, on standard output or on standard error.
#[derive(Debug)]
pub enum Output {
    Out(String),
    Error(String),
}

pub enum OutView {
    Out(Seq<char>),
    Error(Seq<char>),
}

impl View for Output {
    type V = OutView;

    open spec fn view(&self) -> OutView {
        match self {
            Output::Out(s) => OutView::Out(s@),
            Output::Error(s) => OutView::Error(s@),
        }
    }
}

impl Output {
    pub fn duplicate(&self) -> (r: Self)
        ensures
            r@ == self@,
    {
        match self {
            Output::Out(s) => Output::Out(s.clone()),
            Output::Error(s) => Output::Error(s.clone()),
        }
    }
}

/// What a command does with a vault's accounts.
#[derive(Debug)]
pub enum Job {
    Show { account: String, ttl: bool, issuer: bool },
    List,
    Add { account: TotpEntry },
    Del { account: String },
    Import { entries: Vec<TotpEntry> },
    Export { account: Option<String>, qrcode: bool },
}

pub enum JobView {
    Show { account: Seq<char>, ttl: bool, issuer: bool },
    List,
    Add { account: EntryView },
    Del { account: Seq<char> },
    Import { entries: Seq<EntryView> },
    Export { account: Option<Seq<char>>, qrcode: bool },
}

impl View for Job {
    type V = JobView;

    open spec fn view(&self) -> JobView {
        match self {
            Job::Show { account, ttl, issuer } => JobView::Show {
                account: account@,
                ttl: *ttl,
                issuer: *issuer,
            },
            Job::List => JobView::List,
            Job::Add { account } => JobView::Add { account: account@ },
            Job::Del { account } => JobView::Del { account: account@ },
            Job::Import { entries } => JobView::Import { entries: entry_views(entries@) },
            Job::Export { account, qrcode } => JobView::Export {
                account: opt_view(*account),
                qrcode: *qrcode,
            },
        }
    }
}

/// Where a run stands: what it waits for, with what it keeps.
#[derive(Debug)]
enum Phase {
    Start(Command),
    AwaitExists { vault: String, job: Job },
    AwaitPassword { vault: String, job: Job, creating: bool },
    AwaitLoad { vault: String, password: String, job: Job },
    AwaitClock { accounts: Vec<TotpEntry>, job: Job, index: usize },
    AwaitAnswer { vault: String, password: String, accounts: Vec<TotpEntry>, account: String },
    AwaitSave { after: Vec<Output> },
    AwaitFiles,
    Printing { lines: Vec<Output>, next: usize, result: Result<(), CLIError> },
    Done,
}

pub enum PhaseView {
    Start(CommandView),
    AwaitExists { vault: Seq<char>, job: JobView },
    AwaitPassword { vault: Seq<char>, job: JobView, creating: bool },
    AwaitLoad { vault: Seq<char>, password: Seq<char>, job: JobView },
    AwaitClock { accounts: Seq<EntryView>, job: JobView, index: nat },
    AwaitAnswer {
        vault: Seq<char>,
        password: Seq<char>,
        accounts: Seq<EntryView>,
        account: Seq<char>,
    },
    AwaitSave { after: Seq<OutView> },
    AwaitFiles,
    Printing { lines: Seq<OutView>, next: nat, result: Result<(), CliErrorView> },
    Done,
}

/// The lines of a list, each by its view.
pub open spec fn out_views(v: Seq<Output>) -> Seq<OutView> {
    v.map_values(|o: Output| o@)
}

/// A command being run.
#[derive(Debug)]
pub struct CommandRun {
    phase: Phase,
}

/// The view of a phase.
spec fn pview(p: Phase) -> PhaseView {
    match p {
        Phase::Start(c) => PhaseView::Start(c@),
        Phase::AwaitExists { vault, job } => PhaseView::AwaitExists { vault: vault@, job: job@ },
        Phase::AwaitPassword { vault, job, creating } => PhaseView::AwaitPassword {
            vault: vault@,
            job: job@,
            creating,
        },
        Phase::AwaitLoad { vault, password, job } => PhaseView::AwaitLoad {
            vault: vault@,
            password: password@,
            job: job@,
        },
        Phase::AwaitClock { accounts, job, index } => PhaseView::AwaitClock {
            accounts: entry_views(accounts@),
            job: job@,
            index: index as nat,
        },
        Phase::AwaitAnswer { vault, password, accounts, account } => PhaseView::AwaitAnswer {
            vault: vault@,
            password: password@,
            accounts: entry_views(accounts@),
            account: account@,
        },
        Phase::AwaitSave { after } => PhaseView::AwaitSave { after: out_views(after@) },
        Phase::AwaitFiles => PhaseView::AwaitFiles,
        Phase::Printing { lines, next, result } => PhaseView::Printing {
            lines: out_views(lines@),
            next: next as nat,
            result: match result {
                Ok(()) => Ok(()),
                Err(e) => Err(e@),
            },
        },
        Phase::Done => PhaseView::Done,
    }
}

/// What a phase keeps true: the accounts waiting for the clock can all make
/// codes (and `show`'s account is one of them), and printing has not gone
/// past its lines.
spec fn phase_inv(p: Phase) -> bool {
    match p {
        Phase::AwaitClock { accounts, job, index } => all_can_generate(entry_views(accounts@)) && (
        job is Show ==> index < accounts@.len()),
        Phase::Printing { lines, next, .. } => next <= lines@.len(),
        _ => true,
    }
}

impl View for CommandRun {
    type V = PhaseView;

    closed spec fn view(&self) -> PhaseView {
        pview(self.phase)
    }
}

impl CommandRun {
    #[verifier::type_invariant]
    closed spec fn inv(self) -> bool {
        phase_inv(self.phase)
    }
}

/// The outcome of a step, handed back to the run.
#[derive(Debug)]
pub enum Event {
    /// The run starts.
    Start,
    /// Whether the vault file is there.
    VaultExists(bool),
    /// The password typed (for a new vault, typed twice the same).
    Password(Result<String, CLIError>),
    /// The vault's accounts.
    Loaded(Result<Vec<TotpEntry>, VaultError>),
    /// The Unix time in seconds, or the clock's error message.
    Clock(Result<u64, String>),
    /// The line typed as the answer to a question.
    Answer(Result<String, std::io::Error>),
    /// Whether the vault was saved.
    Saved(Result<(), VaultError>),
    /// The names of the vault files found.
    VaultFiles(Vec<String>),
    /// A line was printed.
    Printed,
}

pub enum EventView {
    Start,
    VaultExists(bool),
    Password(Result<Seq<char>, CliErrorView>),
    Loaded(Result<Seq<EntryView>, VaultErrorView>),
    Clock(Result<u64, Seq<char>>),
    Answer(Result<Seq<char>, ()>),
    Saved(Result<(), VaultErrorView>),
    VaultFiles(Seq<Seq<char>>),
    Printed,
}

impl View for Event {
    type V = EventView;

    open spec fn view(&self) -> EventView {
        match self {
            Event::Start => EventView::Start,
            Event::VaultExists(b) => EventView::VaultExists(*b),
            Event::Password(r) => EventView::Password(
                match r {
                    Ok(p) => Ok(p@),
                    Err(e) => Err(e@),
                },
            ),
            Event::Loaded(r) => EventView::Loaded(
                match r {
                    Ok(v) => Ok(entry_views(v@)),
                    Err(e) => Err(e@),
                },
            ),
            Event::Clock(r) => EventView::Clock(
                match r {
                    Ok(t) => Ok(*t),
                    Err(m) => Err(m@),
                },
            ),
            Event::Answer(r) => EventView::Answer(
                match r {
                    Ok(l) => Ok(l@),
                    Err(_) => Err(()),
                },
            ),
            Event::Saved(r) => EventView::Saved(
                match r {
                    Ok(()) => Ok(()),
                    Err(e) => Err(e@),
                },
            ),
            Event::VaultFiles(v) => EventView::VaultFiles(texts(v@)),
            Event::Printed => EventView::Printed,
        }
    }
}

/// The outside work a run asks for next, or its end.
#[derive(Debug)]
pub enum Step {
    /// Find out whether the vault's file is there.
    CheckVault(String),
    /// Ask for the vault's password.
    PromptPassword,
    /// Print the notice, then ask for a new password twice until both agree.
    PromptNewPassword(String),
    /// Read and decrypt the vault.
    Load { vault: String, password: String },
    /// Read the clock.
    ReadClock,
    /// Ask the question and read a line as the answer.
    Confirm(String),
    /// Encrypt and write the accounts to the vault.
    Save { vault: String, password: String, accounts: Vec<TotpEntry> },
    /// List the files of the vault directory.
    ListVaultFiles,
    /// Print a line.
    Print(Output),
    /// The command is over.
    Finish(Result<(), CLIError>),
}

pub enum StepView {
    CheckVault(Seq<char>),
    PromptPassword,
    PromptNewPassword(Seq<char>),
    Load(Seq<char>, Seq<char>),
    ReadClock,
    Confirm(Seq<char>),
    Save(Seq<char>, Seq<char>, Seq<EntryView>),
    ListVaultFiles,
    Print(OutView),
    Finish(Result<(), CliErrorView>),
}

impl View for Step {
    type V = StepView;

    open spec fn view(&self) -> StepView {
        match self {
            Step::CheckVault(v) => StepView::CheckVault(v@),
            Step::PromptPassword => StepView::PromptPassword,
            Step::PromptNewPassword(n) => StepView::PromptNewPassword(n@),
            Step::Load { vault, password } => StepView::Load(vault@, password@),
            Step::ReadClock => StepView::ReadClock,
            Step::Confirm(q) => StepView::Confirm(q@),
            Step::Save { vault, password, accounts } => StepView::Save(
                vault@,
                password@,
                entry_views(accounts@),
            ),
            Step::ListVaultFiles => StepView::ListVaultFiles,
            Step::Print(o) => StepView::Print(o@),
            Step::Finish(r) => StepView::Finish(
                match r {
                    Ok(()) => Ok(()),
                    Err(e) => Err(e@),
                },
            ),
        }
    }
}

// ---------------------------------------------------------------------------
// What each outcome leads to
// ---------------------------------------------------------------------------

/// The end of a run with an error.
pub open spec fn failed(e: CliErrorView) -> (PhaseView, StepView) {
    (PhaseView::Done, StepView::Finish(Err(e)))
}

/// Printing lines, then ending with `result`.
pub open spec fn printing(lines: Seq<OutView>, result: Result<(), CliErrorView>) -> (
    PhaseView,
    StepView,
) {
    if lines.len() == 0 {
        (PhaseView::Done, StepView::Finish(result))
    } else {
        (PhaseView::Printing { lines, next: 1, result }, StepView::Print(lines[0]))
    }
}

/// The notice printed before a new vault's password is asked for.
pub open spec fn new_vault_notice() -> Seq<char> {
    "No existing vault found. Creating new vault..."@
}

/// The first steps of each command: the account is parsed (`add` makes the
/// account and `import` reads the URI before anything else); `list` without a
/// vault lists the vault files; every other command first asks whether its
/// vault is there.
pub open spec fn spec_start(c: CommandView) -> (PhaseView, StepView) {
    match c {
        CommandView::Show { name, ttl, issuer } => {
            let (v, a) = spec_parse_account_name(name);
            (
                PhaseView::AwaitExists { vault: v, job: JobView::Show { account: a, ttl, issuer } },
                StepView::CheckVault(v),
            )
        },
        CommandView::List { vault } => match vault {
            Some(n) => (
                PhaseView::AwaitExists { vault: n, job: JobView::List },
                StepView::CheckVault(n),
            ),
            None => (PhaseView::AwaitFiles, StepView::ListVaultFiles),
        },
        CommandView::Add { name, secret } => {
            let (v, d) = spec_parse_account_name(name);
            match spec_new_account(d, secret) {
                Err(x) => failed(CliErrorView::TotpError(x)),
                Ok(e) => (
                    PhaseView::AwaitExists { vault: v, job: JobView::Add { account: e } },
                    StepView::CheckVault(v),
                ),
            }
        },
        CommandView::Del { name } => {
            let (v, a) = spec_parse_account_name(name);
            (
                PhaseView::AwaitExists { vault: v, job: JobView::Del { account: a } },
                StepView::CheckVault(v),
            )
        },
        CommandView::Import { uri, vault } => {
            let v = match vault {
                Some(n) => n,
                None => "vault"@,
            };
            match spec_parse_uri(uri) {
                Err(x) => failed(CliErrorView::TotpError(x)),
                Ok(es) => (
                    PhaseView::AwaitExists { vault: v, job: JobView::Import { entries: es } },
                    StepView::CheckVault(v),
                ),
            }
        },
        CommandView::Export { name, qrcode } => {
            let (v, a) = spec_export_target(name);
            (
                PhaseView::AwaitExists { vault: v, job: JobView::Export { account: a, qrcode } },
                StepView::CheckVault(v),
            )
        },
    }
}

/// An existing vault asks for its password; a missing one is created by `add`
/// and `import` (with a notice and a new password) and is an error for the
/// others.
pub open spec fn after_exists(vault: Seq<char>, job: JobView, exists: bool) -> (PhaseView, StepView) {
    if exists {
        (PhaseView::AwaitPassword { vault, job, creating: false }, StepView::PromptPassword)
    } else if job is Add || job is Import {
        (
            PhaseView::AwaitPassword { vault, job, creating: true },
            StepView::PromptNewPassword(new_vault_notice()),
        )
    } else {
        failed(CliErrorView::VaultError(VaultErrorView::NotFound))
    }
}

/// Whether the account at `i` is named `name`, case aside.
pub open spec fn named_at(accounts: Seq<EntryView>, i: int, name: Seq<char>) -> bool {
    same_name(spec_display_name(accounts[i]), name)
}

/// Whether `i` is the first account named `name`.
pub open spec fn first_named_at(accounts: Seq<EntryView>, i: int, name: Seq<char>) -> bool {
    0 <= i < accounts.len() && named_at(accounts, i, name) && forall|j: int|
        0 <= j < i ==> !named_at(accounts, j, name)
}

/// Whether no account is named `name`.
pub open spec fn none_named(accounts: Seq<EntryView>, name: Seq<char>) -> bool {
    forall|j: int| 0 <= j < accounts.len() ==> !named_at(accounts, j, name)
}

/// Whether some account has this secret.
pub open spec fn has_secret_view(accounts: Seq<EntryView>, secret: Seq<char>) -> bool {
    exists|i: int| 0 <= i < accounts.len() && (#[trigger] accounts[i]).secret == secret
}

/// The question asked before deleting an account.
pub open spec fn delete_question(e: EntryView) -> Seq<char> {
    "Are you sure you want to remove "@ + spec_display_name(e) + "?"@
}

/// The lines that export one account: its URI, or with QR codes its display
/// name, its QR drawing and its URI (or, where the URI does not fit in a QR
/// code, an error line naming the account).
pub open spec fn export_chunk_ok(e: EntryView, qrcode: bool, chunk: Seq<OutView>) -> bool {
    let uri = spec_to_uri(e);
    let d = spec_display_name(e);
    if !qrcode {
        chunk == seq![OutView::Out(uri)]
    } else if qr_fits(encode_utf8(uri)) {
        &&& chunk.len() == 3
        &&& chunk[0] == OutView::Out("\n  "@ + d)
        &&& chunk[1] == OutView::Out(qr_drawing(encode_utf8(uri)))
        &&& chunk[2] == OutView::Out("  "@ + uri + "\n"@)
    } else {
        let p = "failed to render QR for "@ + d + ": "@;
        &&& chunk.len() == 1
        &&& chunk[0] matches OutView::Error(m) && m.len() >= p.len() && m.take(p.len() as int) == p
    }
}

/// The lines of all chunks, in order.
pub open spec fn concat_all(chunks: Seq<Seq<OutView>>) -> Seq<OutView>
    decreases chunks.len(),
{
    if chunks.len() == 0 {
        Seq::empty()
    } else {
        concat_all(chunks.drop_last()) + chunks.last()
    }
}

/// The lines that export the accounts, one chunk per account in order.
pub open spec fn export_lines_ok(accounts: Seq<EntryView>, qrcode: bool, lines: Seq<OutView>) -> bool {
    exists|chunks: Seq<Seq<OutView>>|
        #![trigger concat_all(chunks)]
        chunks.len() == accounts.len() && (forall|i: int|
            0 <= i < chunks.len() ==> export_chunk_ok(accounts[i], qrcode, #[trigger] chunks[i]))
            && lines == concat_all(chunks)
}

/// The code of an account at a Unix time.
pub open spec fn code_at(e: EntryView, t: u64) -> Seq<char> {
    totp_code(e.algorithm, e.digits as nat, e.period, base32_decoded(e.secret), t)
}

/// The lines of `list` from the account at `k` on at time `t`, and how the
/// command ends: an account whose secret is not Base32 stops it with
/// `InvalidSecret` after the lines before it.
pub open spec fn list_from(accounts: Seq<EntryView>, t: u64, k: int) -> (
    Seq<OutView>,
    Result<(), CliErrorView>,
)
    decreases accounts.len() - k,
{
    if k < 0 || k >= accounts.len() {
        (Seq::empty(), Ok(()))
    } else if !all_base32(accounts[k].secret) {
        (Seq::empty(), Err(CliErrorView::TotpError(ErrorView::InvalidSecret)))
    } else {
        let (rest, r) = list_from(accounts, t, k + 1);
        (
            seq![
                OutView::Out(
                    list_text(spec_display_name(accounts[k]), code_at(accounts[k], t), ttl_at(t)),
                ),
            ] + rest,
            r,
        )
    }
}

/// With the vault's accounts (and its password): `show` finds its account
/// (case aside) and reads the clock; `list` reads the clock; `add` refuses a
/// secret that is there and saves with the account added; `del` finds its
/// account and asks before deleting; `import` saves with the entries added and
/// then says how many; `export` prints the URIs (or QR codes) of the accounts
/// it names, all without a name.
pub open spec fn loaded_ok(
    vault: Seq<char>,
    password: Seq<char>,
    job: JobView,
    accounts: Seq<EntryView>,
    new: PhaseView,
    step: StepView,
) -> bool {
    match job {
        JobView::Show { account, .. } => if none_named(accounts, account) {
            (new, step) == failed(
                CliErrorView::VaultError(VaultErrorView::AccountNotFound(account)),
            )
        } else {
            new matches PhaseView::AwaitClock { accounts: a, job: j, index: i } && a == accounts
                && j == job && first_named_at(accounts, i as int, account) && step
                == StepView::ReadClock
        },
        JobView::List => (new, step) == (
            PhaseView::AwaitClock { accounts, job, index: 0 },
            StepView::ReadClock,
        ),
        JobView::Add { account } => if has_secret_view(accounts, account.secret) {
            (new, step) == failed(CliErrorView::TotpError(ErrorView::DuplicatedSecret))
        } else {
            (new, step) == (
                PhaseView::AwaitSave { after: Seq::empty() },
                StepView::Save(vault, password, accounts.push(account)),
            )
        },
        JobView::Del { account } => if none_named(accounts, account) {
            (new, step) == failed(
                CliErrorView::VaultError(VaultErrorView::AccountNotFound(account)),
            )
        } else {
            exists|i: int|
                first_named_at(accounts, i, account) && (new, step) == (
                    PhaseView::AwaitAnswer { vault, password, accounts, account },
                    StepView::Confirm(delete_question(#[trigger] accounts[i])),
                )
        },
        JobView::Import { entries } => (new, step) == (
            PhaseView::AwaitSave {
                after: seq![OutView::Out("Imported "@ + decimal(entries.len()) + " account"@)],
            },
            StepView::Save(vault, password, accounts + entries),
        ),
        JobView::Export { account, qrcode } => {
            let sel = exported(accounts, account);
            if account is Some && sel.len() == 0 {
                (new, step) == failed(
                    CliErrorView::VaultError(VaultErrorView::AccountNotFound(account->0)),
                )
            } else {
                exists|lines: Seq<OutView>|
                    export_lines_ok(sel, qrcode, lines) && (new, step) == #[trigger] printing(
                        lines,
                        Ok(()),
                    )
            }
        },
    }
}

/// After the clock was read: `show` prints the code of its account (with the
/// issuer and the seconds left where asked), `list` prints one line per
/// account (see `list_from`); a clock error or a secret that is not Base32
/// ends the command with an error.
pub open spec fn after_clock(
    accounts: Seq<EntryView>,
    job: JobView,
    index: nat,
    clock: Result<u64, Seq<char>>,
) -> (PhaseView, StepView) {
    match clock {
        Err(m) => failed(CliErrorView::TotpError(ErrorView::GenerationFailed(m))),
        Ok(t) => match job {
            JobView::Show { ttl, issuer, .. } => {
                let e = accounts[index as int];
                if !all_base32(e.secret) {
                    failed(CliErrorView::TotpError(ErrorView::InvalidSecret))
                } else {
                    printing(
                        seq![
                            OutView::Out(
                                show_text(
                                    code_at(e, t),
                                    if issuer {
                                        e.issuer
                                    } else {
                                        None
                                    },
                                    if ttl {
                                        Some(ttl_at(t))
                                    } else {
                                        None
                                    },
                                ),
                            ),
                        ],
                        Ok(()),
                    )
                }
            },
            _ => {
                let (lines, r) = list_from(accounts, t, 0);
                printing(lines, r)
            },
        },
    }
}

/// How a run goes on from an outcome (see the functions above for each
/// kind of step).
pub open spec fn step_ok(old: PhaseView, ev: EventView, new: PhaseView, step: StepView) -> bool {
    match old {
        PhaseView::Start(c) => (new, step) == spec_start(c),
        PhaseView::AwaitExists { vault, job } => match ev {
            EventView::VaultExists(b) => (new, step) == after_exists(vault, job, b),
            _ => false,
        },
        PhaseView::AwaitPassword { vault, job, creating } => match ev {
            EventView::Password(Err(e)) => (new, step) == failed(e),
            EventView::Password(Ok(p)) => if creating {
                loaded_ok(vault, p, job, Seq::empty(), new, step)
            } else if p.len() == 0 {
                (new, step) == failed(
                    CliErrorView::VaultError(VaultErrorView::CryptoError("password cannot be empty"@)),
                )
            } else {
                (new, step) == (
                    PhaseView::AwaitLoad { vault, password: p, job },
                    StepView::Load(vault, p),
                )
            },
            _ => false,
        },
        PhaseView::AwaitLoad { vault, password, job } => match ev {
            EventView::Loaded(Err(e)) => (new, step) == failed(CliErrorView::VaultError(e)),
            EventView::Loaded(Ok(accounts)) => loaded_ok(vault, password, job, accounts, new, step),
            _ => false,
        },
        PhaseView::AwaitClock { accounts, job, index } => match ev {
            EventView::Clock(c) => (new, step) == after_clock(accounts, job, index, c),
            _ => false,
        },
        PhaseView::AwaitAnswer { vault, password, accounts, account } => match ev {
            EventView::Answer(Err(())) => (new, step) == failed(
                CliErrorView::VaultError(VaultErrorView::Io),
            ),
            EventView::Answer(Ok(line)) => if !spec_is_yes(line) {
                (new, step) == (PhaseView::Done, StepView::Finish(Ok(())))
            } else {
                (new, step) == (
                    PhaseView::AwaitSave { after: Seq::empty() },
                    StepView::Save(vault, password, kept_after_delete(accounts, account)),
                )
            },
            _ => false,
        },
        PhaseView::AwaitSave { after } => match ev {
            EventView::Saved(Err(e)) => (new, step) == failed(CliErrorView::VaultError(e)),
            EventView::Saved(Ok(())) => (new, step) == printing(after, Ok(())),
            _ => false,
        },
        PhaseView::AwaitFiles => match ev {
            EventView::VaultFiles(files) => exists|s: Seq<Seq<char>>|
                #![trigger sorted(s)]
                sorted(s) && s.to_multiset() == files.to_multiset() && (new, step) == printing(
                    s.map_values(|n: Seq<char>| OutView::Out(stem(n))),
                    Ok(()),
                ),
            _ => false,
        },
        PhaseView::Printing { lines, next, result } => match ev {
            EventView::Printed => if next < lines.len() {
                (new, step) == (
                    PhaseView::Printing { lines, next: next + 1, result },
                    StepView::Print(lines[next as int]),
                )
            } else {
                (new, step) == (PhaseView::Done, StepView::Finish(result))
            },
            _ => false,
        },
        PhaseView::Done => false,
    }
}

/// Whether an outcome is the one the run waits for.
pub open spec fn accepts(p: PhaseView, ev: EventView) -> bool {
    match p {
        PhaseView::Start(_) => ev is Start,
        PhaseView::AwaitExists { .. } => ev is VaultExists,
        PhaseView::AwaitPassword { .. } => ev is Password,
        PhaseView::AwaitLoad { .. } => ev is Loaded,
        PhaseView::AwaitClock { .. } => ev is Clock,
        PhaseView::AwaitAnswer { .. } => ev is Answer,
        PhaseView::AwaitSave { .. } => ev is Saved,
        PhaseView::AwaitFiles => ev is VaultFiles,
        PhaseView::Printing { .. } => ev is Printed,
        PhaseView::Done => false,
    }
}

// ---------------------------------------------------------------------------
// The run
// ---------------------------------------------------------------------------

proof fn lemma_first_named(accounts: Seq<TotpEntry>, i: int, name: Seq<char>)
    requires
        0 <= i < accounts.len(),
        crate::cli::named(accounts, i, name),
        forall|j: int| 0 <= j < i ==> !crate::cli::named(accounts, j, name),
    ensures
        first_named_at(entry_views(accounts), i, name),
{
    let acc = entry_views(accounts);
    assert(acc[i] == accounts[i]@);
    assert forall|j: int| 0 <= j < i implies !named_at(acc, j, name) by {
        assert(acc[j] == accounts[j]@);
        assert(!crate::cli::named(accounts, j, name));
    }
}

proof fn lemma_none_named(accounts: Seq<TotpEntry>, name: Seq<char>)
    requires
        forall|j: int| 0 <= j < accounts.len() ==> !crate::cli::named(accounts, j, name),
    ensures
        none_named(entry_views(accounts), name),
{
    let acc = entry_views(accounts);
    assert forall|j: int| 0 <= j < acc.len() implies !named_at(acc, j, name) by {
        assert(acc[j] == accounts[j]@);
        assert(!crate::cli::named(accounts, j, name));
    }
}

fn fail(e: CLIError) -> (r: (Phase, Step))
    ensures
        (pview(r.0), r.1@) == failed(e@),
        phase_inv(r.0),
{
    (Phase::Done, Step::Finish(Err(e)))
}

fn start_printing(lines: Vec<Output>, result: Result<(), CLIError>) -> (r: (Phase, Step))
    ensures
        (pview(r.0), r.1@) == printing(
            out_views(lines@),
            match result {
                Ok(()) => Ok(()),
                Err(e) => Err(e@),
            },
        ),
        phase_inv(r.0),
{
    if lines.len() == 0 {
        (Phase::Done, Step::Finish(result))
    } else {
        let first = lines[0].duplicate();
        (Phase::Printing { lines, next: 1, result }, Step::Print(first))
    }
}

fn start(cmd: Command) -> (r: (Phase, Step))
    ensures
        (pview(r.0), r.1@) == spec_start(cmd@),
        phase_inv(r.0),
{
    match cmd {
        Command::Show { name, ttl, issuer } => {
            let (v, a) = parse_account_name(name.as_str());
            let step = Step::CheckVault(v.clone());
            (Phase::AwaitExists { vault: v, job: Job::Show { account: a, ttl, issuer } }, step)
        },
        Command::List { vault } => match vault {
            Some(n) => {
                let step = Step::CheckVault(n.clone());
                (Phase::AwaitExists { vault: n, job: Job::List }, step)
            },
            None => (Phase::AwaitFiles, Step::ListVaultFiles),
        },
        Command::Add { name, secret } => {
            let (v, d) = parse_account_name(name.as_str());
            match new_account(d, secret) {
                Err(e) => fail(e),
                Ok(account) => {
                    let step = Step::CheckVault(v.clone());
                    (Phase::AwaitExists { vault: v, job: Job::Add { account } }, step)
                },
            }
        },
        Command::Del { name } => {
            let (v, a) = parse_account_name(name.as_str());
            let step = Step::CheckVault(v.clone());
            (Phase::AwaitExists { vault: v, job: Job::Del { account: a } }, step)
        },
        Command::Import { uri, vault } => {
            let v = import_vault_name(vault);
            match crate::totp::parse_uri(uri.as_str()) {
                Err(e) => fail(CLIError::TotpError(e)),
                Ok(entries) => {
                    let step = Step::CheckVault(v.clone());
                    (Phase::AwaitExists { vault: v, job: Job::Import { entries } }, step)
                },
            }
        },
        Command::Export { name, qrcode } => {
            let (v, a) = export_target(name);
            let step = Step::CheckVault(v.clone());
            (Phase::AwaitExists { vault: v, job: Job::Export { account: a, qrcode } }, step)
        },
    }
}

fn on_exists(vault: String, job: Job, exists: bool) -> (r: (Phase, Step))
    ensures
        (pview(r.0), r.1@) == after_exists(vault@, job@, exists),
        phase_inv(r.0),
{
    if exists {
        (Phase::AwaitPassword { vault, job, creating: false }, Step::PromptPassword)
    } else {
        let creates = match &job {
            Job::Add { .. } => true,
            Job::Import { .. } => true,
            _ => false,
        };
        if creates {
            (
                Phase::AwaitPassword { vault, job, creating: true },
                Step::PromptNewPassword(
                    String::from_str("No existing vault found. Creating new vault..."),
                ),
            )
        } else {
            fail(CLIError::VaultError(VaultError::NotFound))
        }
    }
}

/// The lines that export one account.
fn export_chunk(e: &TotpEntry, qrcode: bool) -> (r: Vec<Output>)
    ensures
        export_chunk_ok(e@, qrcode, out_views(r@)),
{
    let uri = e.to_uri();
    let text = uri.to_string();
    let mut out: Vec<Output> = Vec::new();
    if !qrcode {
        out.push(Output::Out(text));
        assert(out_views(out@) =~= seq![OutView::Out(spec_to_uri(e@))]);
        return out;
    }
    let d = e.display_name();
    match uri.to_qrcode_string() {
        Ok(qr) => {
            let mut head = String::from_str("\n  ");
            head.append(d.as_str());
            let mut tail = String::from_str("  ");
            tail.append(text.as_str());
            tail.append("\n");
            out.push(Output::Out(head));
            out.push(Output::Out(qr));
            out.push(Output::Out(tail));
        },
        Err(err) => {
            let mut m = String::from_str("failed to render QR for ");
            m.append(d.as_str());
            m.append(": ");
            let ghost p = m@;
            let detail = err.to_string();
            m.append(detail.as_str());
            assert(m@.take(p.len() as int) =~= p);
            out.push(Output::Error(m));
        },
    }
    out
}

/// The lines that export the accounts, one chunk each, in order.
fn export_lines(accounts: &Vec<TotpEntry>, qrcode: bool) -> (r: Vec<Output>)
    ensures
        export_lines_ok(entry_views(accounts@), qrcode, out_views(r@)),
{
    let mut out: Vec<Output> = Vec::new();
    let ghost mut chunks: Seq<Seq<OutView>> = Seq::empty();
    let mut i: usize = 0;
    while i < accounts.len()
        invariant
            i <= accounts@.len(),
            chunks.len() == i,
            forall|k: int|
                0 <= k < i ==> export_chunk_ok(
                    entry_views(accounts@)[k],
                    qrcode,
                    #[trigger] chunks[k],
                ),
            out_views(out@) == concat_all(chunks),
        decreases accounts@.len() - i,
    {
        let mut c = export_chunk(&accounts[i], qrcode);
        let ghost cv = out_views(c@);
        let ghost before = out@;
        out.append(&mut c);
        proof {
            assert(entry_views(accounts@)[i as int] == accounts@[i as int]@);
            assert(concat_all(chunks.push(cv)) == concat_all(chunks) + cv) by {
                assert(chunks.push(cv).drop_last() =~= chunks);
            }
            assert(out_views(out@) =~= out_views(before) + cv);
            chunks = chunks.push(cv);
        }
        i = i + 1;
    }
    assert(chunks.len() == entry_views(accounts@).len());
    out
}

/// What the run does with the vault's accounts (see `loaded_ok`).
fn on_loaded(vault: String, password: String, job: Job, accounts: Vec<TotpEntry>) -> (r: (
    Phase,
    Step,
))
    requires
        all_can_generate(entry_views(accounts@)),
    ensures
        loaded_ok(vault@, password@, job@, entry_views(accounts@), pview(r.0), r.1@),
        phase_inv(r.0),
{
    let ghost acc = entry_views(accounts@);
    let ghost jv = job@;
    assert forall|i: int| 0 <= i < accounts@.len() implies #[trigger] acc[i] == accounts@[i]@ by {}
    match job {
        Job::Show { account, ttl, issuer } => {
            let kept = account.clone();
            match select_account(accounts.as_slice(), account) {
                Err(e) => {
                    proof {
                        lemma_none_named(accounts@, kept@);
                    }
                    fail(e)
                },
                Ok(i) => {
                    proof {
                        lemma_first_named(accounts@, i as int, kept@);
                    }
                    (
                    Phase::AwaitClock {
                        accounts,
                        job: Job::Show { account: kept, ttl, issuer },
                        index: i,
                    },
                    Step::ReadClock,
                )
                },
            }
        },
        Job::List => (Phase::AwaitClock { accounts, job: Job::List, index: 0 }, Step::ReadClock),
        Job::Add { account } => {
            let mut accounts = accounts;
            let ghost before = accounts@;
            let ghost e = account@;
            match add_account(&mut accounts, account) {
                Err(err) => {
                    proof {
                        let k = choose|k: int|
                            0 <= k < before.len() && (#[trigger] before[k]).secret@ == e.secret;
                        assert(acc[k].secret == e.secret);
                    }
                    fail(err)
                },
                Ok(()) => {
                    proof {
                        if has_secret_view(acc, e.secret) {
                            let k = choose|k: int|
                                0 <= k < acc.len() && (#[trigger] acc[k]).secret == e.secret;
                            assert(before[k].secret@ == e.secret);
                        }
                        assert(entry_views(accounts@) =~= acc.push(e));
                    }
                    let after: Vec<Output> = Vec::new();
                    assert(out_views(after@) =~= Seq::<OutView>::empty());
                    (Phase::AwaitSave { after }, Step::Save { vault, password, accounts })
                },
            }
        },
        Job::Del { account } => {
            let kept = account.clone();
            match select_account(accounts.as_slice(), account) {
                Err(e) => {
                    proof {
                        lemma_none_named(accounts@, kept@);
                    }
                    fail(e)
                },
                Ok(i) => {
                    let q = delete_prompt(&accounts[i]);
                    proof {
                        lemma_first_named(accounts@, i as int, kept@);
                    }
                    (
                        Phase::AwaitAnswer { vault, password, accounts, account: kept },
                        Step::Confirm(q),
                    )
                },
            }
        },
        Job::Import { entries } => {
            let mut accounts = accounts;
            let mut entries = entries;
            let count = entries.len();
            let message = import_message(count);
            let ghost ev = entry_views(entries@);
            let ghost before = accounts@;
            let ghost added = entries@;
            accounts.append(&mut entries);
            assert(entry_views(accounts@) =~= acc + ev);
            let mut after: Vec<Output> = Vec::new();
            after.push(Output::Out(message));
            assert(out_views(after@) =~= seq![
                OutView::Out("Imported "@ + decimal(ev.len()) + " account"@),
            ]);
            (Phase::AwaitSave { after }, Step::Save { vault, password, accounts })
        },
        Job::Export { account, qrcode } => {
            let ghost a = opt_view(account);
            match select_for_export(accounts, account) {
                Err(e) => fail(e),
                Ok(sel) => {
                    let lines = export_lines(&sel, qrcode);
                    let ghost lv = out_views(lines@);
                    let r = start_printing(lines, Ok(()));
                    assert(views_of(sel@) == entry_views(sel@));
                    assert(export_lines_ok(exported(acc, a), qrcode, lv));
                    r
                },
            }
        },
    }
}

/// What the run does with the clock (see `after_clock`).
fn on_clock(accounts: Vec<TotpEntry>, job: Job, index: usize, clock: Result<u64, String>) -> (r: (
    Phase,
    Step,
))
    requires
        all_can_generate(entry_views(accounts@)),
        job is Show ==> index < accounts@.len(),
    ensures
        (pview(r.0), r.1@) == after_clock(
            entry_views(accounts@),
            job@,
            index as nat,
            match clock {
                Ok(t) => Ok(t),
                Err(m) => Err(m@),
            },
        ),
        phase_inv(r.0),
{
    let ghost acc = entry_views(accounts@);
    let t = match clock {
        Err(m) => return fail(CLIError::TotpError(TotpError::GenerationFailed(m))),
        Ok(t) => t,
    };
    match job {
        Job::Show { ttl, issuer, .. } => {
            let e = &accounts[index];
            assert(acc[index as int] == e@);
            assert(can_generate(acc[index as int]));
            match e.generate_otp_at(t) {
                Err(err) => fail(CLIError::TotpError(err)),
                Ok(code) => {
                    let left = if ttl {
                        Some(crate::totp::totp_ttl_at(t))
                    } else {
                        None
                    };
                    let line = show_line(code.as_str(), e, issuer, left);
                    let mut lines: Vec<Output> = Vec::new();
                    lines.push(Output::Out(line));
                    assert(out_views(lines@) =~= seq![
                        OutView::Out(
                            show_text(
                                code_at(e@, t),
                                if issuer {
                                    e@.issuer
                                } else {
                                    None
                                },
                                if ttl {
                                    Some(ttl_at(t))
                                } else {
                                    None
                                },
                            ),
                        ),
                    ]);
                    start_printing(lines, Ok(()))
                },
            }
        },
        _ => {
            let ttl = crate::totp::totp_ttl_at(t);
            let mut lines: Vec<Output> = Vec::new();
            let mut k: usize = 0;
            let mut failure: Option<TotpError> = None;
            assert(out_views(lines@) =~= Seq::<OutView>::empty());
            while k < accounts.len()
                invariant_except_break
                    failure is None,
                invariant
                    k <= accounts@.len(),
                    acc == entry_views(accounts@),
                    all_can_generate(acc),
                    ttl == ttl_at(t),
                    list_from(acc, t, 0) == (
                        out_views(lines@) + list_from(acc, t, k as int).0,
                        list_from(acc, t, k as int).1,
                    ),
                ensures
                    match failure {
                        None => k == accounts@.len(),
                        Some(err) => err@ == ErrorView::InvalidSecret && k < accounts@.len()
                            && !all_base32(acc[k as int].secret),
                    },
                decreases accounts@.len() - k,
            {
                let e = &accounts[k];
                assert(acc[k as int] == e@);
                assert(can_generate(acc[k as int]));
                match e.generate_otp_at(t) {
                    Err(err) => {
                        failure = Some(err);
                        break;
                    },
                    Ok(code) => {
                        let d = e.display_name();
                        let line = list_line(d.as_str(), code.as_str(), ttl);
                        let ghost before = out_views(lines@);
                        lines.push(Output::Out(line));
                        assert(out_views(lines@) =~= before.push(OutView::Out(line@)));
                        let ghost rest = list_from(acc, t, k + 1);
                        assert(list_from(acc, t, k as int).0 =~= seq![OutView::Out(line@)] + rest.0);
                        assert(out_views(lines@) + rest.0 =~= before + list_from(acc, t, k as int).0);
                    },
                }
                k = k + 1;
            }
            match failure {
                Some(err) => start_printing(lines, Err(CLIError::TotpError(err))),
                None => {
                    assert(out_views(lines@) + list_from(acc, t, k as int).0 =~= out_views(lines@));
                    start_printing(lines, Ok(()))
                },
            }
        },
    }
}

/// What the run does with the answer to the delete question.
fn on_answer(
    vault: String,
    password: String,
    accounts: Vec<TotpEntry>,
    account: String,
    answer: Result<String, std::io::Error>,
) -> (r: (Phase, Step))
    ensures
        match answer {
            Err(_) => (pview(r.0), r.1@) == failed(CliErrorView::VaultError(VaultErrorView::Io)),
            Ok(line) => if !spec_is_yes(line@) {
                (pview(r.0), r.1@) == (PhaseView::Done, StepView::Finish(Ok(())))
            } else {
                (pview(r.0), r.1@) == (
                    PhaseView::AwaitSave { after: Seq::empty() },
                    StepView::Save(
                        vault@,
                        password@,
                        kept_after_delete(entry_views(accounts@), account@),
                    ),
                )
            },
        },
        phase_inv(r.0),
{
    match answer {
        Err(e) => fail(CLIError::VaultError(VaultError::Io(e))),
        Ok(line) => {
            if !is_yes(line.as_str()) {
                return (Phase::Done, Step::Finish(Ok(())));
            }
            let ghost acc = accounts@;
            let kept = delete_named(accounts, account.as_str());
            assert(views_of(acc) == entry_views(acc));
            assert(views_of(kept@) == entry_views(kept@));
            let after: Vec<Output> = Vec::new();
            assert(out_views(after@) =~= Seq::<OutView>::empty());
            (Phase::AwaitSave { after }, Step::Save { vault, password, accounts: kept })
        },
    }
}

/// What the run does with the vault files found: their vault names, sorted,
/// one per line.
fn on_files(files: Vec<String>) -> (r: (Phase, Step))
    ensures
        exists|s: Seq<Seq<char>>|
            #![trigger sorted(s)]
            sorted(s) && s.to_multiset() == texts(files@).to_multiset() && (pview(r.0), r.1@)
                == printing(s.map_values(|n: Seq<char>| OutView::Out(stem(n))), Ok(())),
        phase_inv(r.0),
{
    let names = vault_names(files);
    let ghost nv = texts(names@);
    let mut lines: Vec<Output> = Vec::new();
    let mut k: usize = 0;
    while k < names.len()
        invariant
            k <= names@.len(),
            nv == texts(names@),
            out_views(lines@) == nv.take(k as int).map_values(|n: Seq<char>| OutView::Out(n)),
        decreases names@.len() - k,
    {
        let ghost before = out_views(lines@);
        lines.push(Output::Out(names[k].clone()));
        assert(out_views(lines@) =~= before.push(OutView::Out(nv[k as int])));
        assert(nv.take(k + 1) =~= nv.take(k as int).push(nv[k as int]));
        assert(out_views(lines@) =~= nv.take(k + 1).map_values(|n: Seq<char>| OutView::Out(n)));
        k = k + 1;
    }
    assert(nv.take(k as int) =~= nv);
    let r = start_printing(lines, Ok(()));
    proof {
        let s = choose|s: Seq<Seq<char>>|
            #![trigger sorted(s)]
            sorted(s) && s.to_multiset() == texts(files@).to_multiset() && nv == s.map_values(
                |n: Seq<char>| stem(n),
            );
        assert(out_views(lines@) =~= s.map_values(|n: Seq<char>| OutView::Out(stem(n))));
    }
    r
}

impl CommandRun {
    /// A run of the command, not started yet.
    pub fn new(cmd: Command) -> (r: Self)
        ensures
            r@ == PhaseView::Start(cmd@),
    {
        CommandRun { phase: Phase::Start(cmd) }
    }

    /// Whether the run has ended.
    pub fn is_done(&self) -> (r: bool)
        ensures
            r == (self@ is Done),
    {
        match self.phase {
            Phase::Done => true,
            _ => false,
        }
    }

    /// Whether `event` is the outcome the run waits for (see `accepts`).
    pub fn accepts(&self, event: &Event) -> (r: bool)
        ensures
            r == accepts(self@, event@),
    {
        match (&self.phase, event) {
            (Phase::Start(_), Event::Start) => true,
            (Phase::AwaitExists { .. }, Event::VaultExists(_)) => true,
            (Phase::AwaitPassword { .. }, Event::Password(_)) => true,
            (Phase::AwaitLoad { .. }, Event::Loaded(_)) => true,
            (Phase::AwaitClock { .. }, Event::Clock(_)) => true,
            (Phase::AwaitAnswer { .. }, Event::Answer(_)) => true,
            (Phase::AwaitSave { .. }, Event::Saved(_)) => true,
            (Phase::AwaitFiles, Event::VaultFiles(_)) => true,
            (Phase::Printing { .. }, Event::Printed) => true,
            _ => false,
        }
    }

    /// Takes the outcome of the last step and gives the next one (see
    /// `step_ok`). The accounts of a vault must all be able to make codes.
    pub fn step(&mut self, event: Event) -> (r: Step)
        requires
            accepts(old(self)@, event@),
            event@ matches EventView::Loaded(Ok(accounts)) ==> all_can_generate(accounts),
        ensures
            step_ok(old(self)@, event@, final(self)@, r@),
    {
        proof {
            use_type_invariant(&*self);
        }
        let mut this = CommandRun { phase: Phase::Done };
        std::mem::swap(self, &mut this);
        let CommandRun { phase } = this;
        let ghost ev = event@;
        let (next, step) = match phase {
            Phase::Start(cmd) => start(cmd),
            Phase::AwaitExists { vault, job } => match event {
                Event::VaultExists(b) => on_exists(vault, job, b),
                _ => {
                    proof {
                        assert(false);
                    }
                    (Phase::Done, Step::Finish(Ok(())))
                },
            },
            Phase::AwaitPassword { vault, job, creating } => match event {
                Event::Password(Err(e)) => fail(e),
                Event::Password(Ok(p)) => {
                    if creating {
                        let none: Vec<TotpEntry> = Vec::new();
                        assert(entry_views(none@) =~= Seq::<EntryView>::empty());
                        on_loaded(vault, p, job, none)
                    } else {
                        match check_password(p) {
                            Err(e) => fail(e),
                            Ok(p) => {
                                let step = Step::Load { vault: vault.clone(), password: p.clone() };
                                (Phase::AwaitLoad { vault, password: p, job }, step)
                            },
                        }
                    }
                },
                _ => {
                    proof {
                        assert(false);
                    }
                    (Phase::Done, Step::Finish(Ok(())))
                },
            },
            Phase::AwaitLoad { vault, password, job } => match event {
                Event::Loaded(Err(e)) => fail(CLIError::VaultError(e)),
                Event::Loaded(Ok(accounts)) => on_loaded(vault, password, job, accounts),
                _ => {
                    proof {
                        assert(false);
                    }
                    (Phase::Done, Step::Finish(Ok(())))
                },
            },
            Phase::AwaitClock { accounts, job, index } => match event {
                Event::Clock(c) => on_clock(accounts, job, index, c),
                _ => {
                    proof {
                        assert(false);
                    }
                    (Phase::Done, Step::Finish(Ok(())))
                },
            },
            Phase::AwaitAnswer { vault, password, accounts, account } => match event {
                Event::Answer(a) => on_answer(vault, password, accounts, account, a),
                _ => {
                    proof {
                        assert(false);
                    }
                    (Phase::Done, Step::Finish(Ok(())))
                },
            },
            Phase::AwaitSave { after } => match event {
                Event::Saved(Err(e)) => fail(CLIError::VaultError(e)),
                Event::Saved(Ok(())) => start_printing(after, Ok(())),
                _ => {
                    proof {
                        assert(false);
                    }
                    (Phase::Done, Step::Finish(Ok(())))
                },
            },
            Phase::AwaitFiles => match event {
                Event::VaultFiles(files) => on_files(files),
                _ => {
                    proof {
                        assert(false);
                    }
                    (Phase::Done, Step::Finish(Ok(())))
                },
            },
            Phase::Printing { lines, next, result } => {
                if next < lines.len() {
                    let line = lines[next].duplicate();
                    (Phase::Printing { lines, next: next + 1, result }, Step::Print(line))
                } else {
                    (Phase::Done, Step::Finish(result))
                }
            },
            Phase::Done => {
                proof {
                    assert(false);
                }
                (Phase::Done, Step::Finish(Ok(())))
            },
        };
        *self = CommandRun { phase: next };
        step
    }
}

} // verus!
