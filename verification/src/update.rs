//! Self-update of a source installation: the decisions between the outside
//! steps (git, cargo, copying the binary), as step functions. The caller
//! performs each step and hands back what it gave.
use vstd::prelude::*;
use crate::text::{
    chars_of, contains, contains_str, decimal, parse_usize, parse_usize_exec, push_str,
    push_string, string_from_range, trim, trim_bounds, u64_to_string,
};

verus! {

/// Manages the update process for the Prometheus CLI application.
pub struct UpdateManager {
    install_dir: String,
    bin_dir: String,
    binary_name: String,
}

/// Represents the current update status of the installation.
#[derive(Debug, Clone, PartialEq)]
pub enum UpdateStatus {
    /// The installation is up to date
    UpToDate,
    /// Updates are available with commit count and change summary
    UpdatesAvailable { commits_behind: usize, changes: String },
}

/// What running an outside command gave.
#[derive(Debug, Clone)]
pub enum CommandOutcome {
    /// The command could not be started.
    NotStarted,
    /// The command ran; its output is decoded as UTF-8 with replacement.
    Finished { success: bool, stdout: String, stderr: String },
}

/// The steps of checking for updates, each a git command run in the
/// installation directory, and the end.
#[derive(Debug)]
pub enum CheckStep {
    Fetch,
    CurrentCommit,
    RemoteCommit { current: String },
    CountCommits { current: String, remote: String },
    Log { current: String, remote: String, behind: usize },
    Done(Result<UpdateStatus, String>),
}

/// The steps of an update, and the end with the new version or an error.
#[derive(Debug)]
pub enum UpdateStep {
    /// Run the pull command; then `after_pull`.
    Pull,
    /// Run the build command; then `after_build`.
    Build,
    /// Check that the built binary exists; then `after_source_check`.
    CheckSource,
    /// Find out whether installing needs elevated permissions (see
    /// `check_needs_sudo`); then `after_sudo_check`.
    CheckSudo,
    /// Run the sudo probe command; then `after_sudo_probe`.
    ProbeSudo,
    /// Run the sudo copy command; then `after_sudo_copy`.
    SudoCopy,
    /// Copy the built binary into place; then `after_copy`.
    Copy,
    /// Run the installed binary for its version; then `after_verify`.
    Verify,
    Done(Result<String, String>),
}

/// What an update step leads to: progress messages, notices for the user,
/// and the next step.
pub struct UpdateTransition {
    pub progress: Vec<String>,
    pub notices: Vec<String>,
    pub next: UpdateStep,
}

/// What copying the binary gave.
#[derive(Debug, Clone)]
pub enum CopyOutcome {
    Copied,
    PermissionDenied,
    NotFound,
    AlreadyExists,
    /// Another failure, with its message.
    Failed(String),
}

/// The permission bits and owners of the binary directory, and the
/// process's own user and group.
#[derive(Debug, Clone, Copy)]
pub struct DirAccess {
    pub mode: u32,
    pub owner_uid: u32,
    pub owner_gid: u32,
    pub uid: u32,
    pub gid: u32,
}

/// Whether installing needs elevated permissions, or must be found out by
/// trying to write into the directory.
#[derive(Debug, Clone, Copy, PartialEq, Eq)]
pub enum SudoDecision {
    Needed(bool),
    ProbeWrite,
}

// ---------------------------------------------------------------------------
// Models
// ---------------------------------------------------------------------------

pub struct ManagerView {
    pub install_dir: Seq<char>,
    pub bin_dir: Seq<char>,
    pub binary_name: Seq<char>,
}

impl View for UpdateManager {
    type V = ManagerView;

    closed spec fn view(&self) -> ManagerView {
        ManagerView {
            install_dir: self.install_dir@,
            bin_dir: self.bin_dir@,
            binary_name: self.binary_name@,
        }
    }
}

pub enum StatusView {
    UpToDate,
    UpdatesAvailable { commits_behind: usize, changes: Seq<char> },
}

impl View for UpdateStatus {
    type V = StatusView;

    open spec fn view(&self) -> StatusView {
        match self {
            UpdateStatus::UpToDate => StatusView::UpToDate,
            UpdateStatus::UpdatesAvailable { commits_behind, changes } => StatusView::UpdatesAvailable {
                commits_behind: *commits_behind,
                changes: changes@,
            },
        }
    }
}

pub enum OutcomeView {
    NotStarted,
    Finished { success: bool, stdout: Seq<char>, stderr: Seq<char> },
}

impl View for CommandOutcome {
    type V = OutcomeView;

    open spec fn view(&self) -> OutcomeView {
        match self {
            CommandOutcome::NotStarted => OutcomeView::NotStarted,
            CommandOutcome::Finished { success, stdout, stderr } => OutcomeView::Finished {
                success: *success,
                stdout: stdout@,
                stderr: stderr@,
            },
        }
    }
}

pub enum CheckView {
    Fetch,
    CurrentCommit,
    RemoteCommit { current: Seq<char> },
    CountCommits { current: Seq<char>, remote: Seq<char> },
    Log { current: Seq<char>, remote: Seq<char>, behind: usize },
    Done(Result<StatusView, Seq<char>>),
}

impl View for CheckStep {
    type V = CheckView;

    open spec fn view(&self) -> CheckView {
        match self {
            CheckStep::Fetch => CheckView::Fetch,
            CheckStep::CurrentCommit => CheckView::CurrentCommit,
            CheckStep::RemoteCommit { current } => CheckView::RemoteCommit { current: current@ },
            CheckStep::CountCommits { current, remote } => CheckView::CountCommits {
                current: current@,
                remote: remote@,
            },
            CheckStep::Log { current, remote, behind } => CheckView::Log {
                current: current@,
                remote: remote@,
                behind: *behind,
            },
            CheckStep::Done(r) => CheckView::Done(
                match r {
                    Ok(s) => Ok(s@),
                    Err(e) => Err(e@),
                },
            ),
        }
    }
}

pub enum StepView {
    Pull,
    Build,
    CheckSource,
    CheckSudo,
    ProbeSudo,
    SudoCopy,
    Copy,
    Verify,
    Done(Result<Seq<char>, Seq<char>>),
}

impl View for UpdateStep {
    type V = StepView;

    open spec fn view(&self) -> StepView {
        match self {
            UpdateStep::Pull => StepView::Pull,
            UpdateStep::Build => StepView::Build,
            UpdateStep::CheckSource => StepView::CheckSource,
            UpdateStep::CheckSudo => StepView::CheckSudo,
            UpdateStep::ProbeSudo => StepView::ProbeSudo,
            UpdateStep::SudoCopy => StepView::SudoCopy,
            UpdateStep::Copy => StepView::Copy,
            UpdateStep::Verify => StepView::Verify,
            UpdateStep::Done(r) => StepView::Done(
                match r {
                    Ok(v) => Ok(v@),
                    Err(e) => Err(e@),
                },
            ),
        }
    }
}

pub struct TransitionView {
    pub progress: Seq<Seq<char>>,
    pub notices: Seq<Seq<char>>,
    pub next: StepView,
}

/// The views of some strings.
pub open spec fn strings_view(v: Seq<String>) -> Seq<Seq<char>> {
    Seq::new(v.len(), |i: int| v[i]@)
}

impl View for UpdateTransition {
    type V = TransitionView;

    open spec fn view(&self) -> TransitionView {
        TransitionView {
            progress: strings_view(self.progress@),
            notices: strings_view(self.notices@),
            next: self.next@,
        }
    }
}

// ---------------------------------------------------------------------------
// Paths
// ---------------------------------------------------------------------------

/// `Path::join` on Unix: an absolute `b` replaces `a`; else a separator is
/// put between them unless `a` is empty or already ends with one.
pub open spec fn path_join(a: Seq<char>, b: Seq<char>) -> Seq<char> {
    if b.len() > 0 && b[0] == '/' {
        b
    } else if a.len() == 0 {
        b
    } else if a.last() == '/' {
        a + b
    } else {
        a + seq!['/'] + b
    }
}

/// Where the build puts the binary.
pub open spec fn source_binary_path(m: ManagerView) -> Seq<char> {
    path_join(path_join(path_join(m.install_dir, "target"@), "release"@), m.binary_name)
}

/// Where the binary is installed.
pub open spec fn dest_binary_path(m: ManagerView) -> Seq<char> {
    path_join(m.bin_dir, m.binary_name)
}

fn path_join_exec(a: &str, b: &str) -> (r: String)
    ensures
        r@ == path_join(a@, b@),
{
    let av = chars_of(a);
    let bv = chars_of(b);
    let mut r = String::new();
    if bv.len() > 0 && bv[0] == '/' {
        push_str(&mut r, b);
    } else if av.len() == 0 {
        push_str(&mut r, b);
    } else if av[av.len() - 1] == '/' {
        push_str(&mut r, a);
        push_str(&mut r, b);
    } else {
        push_str(&mut r, a);
        push_str(&mut r, "/");
        proof {
            reveal_strlit("/");
        }
        push_str(&mut r, b);
    }
    r
}

// ---------------------------------------------------------------------------
// String helpers
// ---------------------------------------------------------------------------

fn trimmed(s: &String) -> (r: String)
    ensures
        r@ == trim(s@),
{
    let v = chars_of(s.as_str());
    let (a, b) = trim_bounds(&v);
    string_from_range(&v, a, b)
}

fn has(s: &String, t: &str) -> (b: bool)
    ensures
        b == contains(s@, t@),
{
    let v = chars_of(s.as_str());
    contains_str(&v, t)
}

/// `a + b + c` as a `String`.
fn concat3(a: &str, b: &str, c: &str) -> (r: String)
    ensures
        r@ == a@ + b@ + c@,
{
    let mut r = String::new();
    push_str(&mut r, a);
    push_str(&mut r, b);
    push_str(&mut r, c);
    r
}

fn strings2(a: &str, b: &str) -> (r: Vec<String>)
    ensures
        strings_view(r@) == seq![a@, b@],
{
    let mut v: Vec<String> = Vec::new();
    v.push(a.to_owned());
    v.push(b.to_owned());
    assert(strings_view(v@) =~= seq![a@, b@]);
    v
}

fn strings1(a: String) -> (r: Vec<String>)
    ensures
        strings_view(r@) == seq![a@],
{
    let mut v: Vec<String> = Vec::new();
    v.push(a);
    assert(strings_view(v@) =~= seq![a@]);
    v
}

fn no_strings() -> (r: Vec<String>)
    ensures
        strings_view(r@) == Seq::<Seq<char>>::empty(),
{
    let v: Vec<String> = Vec::new();
    assert(strings_view(v@) =~= Seq::<Seq<char>>::empty());
    v
}

// ---------------------------------------------------------------------------
// Checking for updates
// ---------------------------------------------------------------------------

pub open spec fn fetch_error_text(e: Seq<char>) -> Seq<char> {
    if contains(e, "Could not resolve host"@) || contains(e, "Name or service not known"@) {
        "Network error: Unable to reach the remote repository. Please check your internet connection."@
    } else if contains(e, "Permission denied"@) || contains(e, "Authentication failed"@) {
        "Authentication error: Unable to access the remote repository. Please check your git credentials."@
    } else if contains(e, "fatal: not a git repository"@) {
        "Git repository error: The installation directory is not a valid git repository."@
    } else {
        "Git fetch failed: "@ + trim(e)
    }
}

pub open spec fn remote_error_text(e: Seq<char>) -> Seq<char> {
    if contains(e, "unknown revision"@) {
        "Remote branch 'main' not found. The repository structure may have changed."@
    } else {
        "Unable to determine remote version: "@ + trim(e)
    }
}

/// The change summary of `n` commits: git's log, with a note on the
/// commits beyond the ten it lists.
pub open spec fn changes_text(log: Seq<char>, n: usize) -> Seq<char> {
    if n > 10 {
        log + "\n... and "@ + decimal((n - 10) as nat) + " more commit(s)"@
    } else {
        log
    }
}

pub open spec fn no_log_text(n: usize) -> Seq<char> {
    "Unable to retrieve change details. "@ + decimal(n as nat) + " commit(s) available."@
}

pub open spec fn check_done(r: Result<StatusView, Seq<char>>) -> CheckView {
    CheckView::Done(r)
}

/// The step after `step`, given what its command gave.
pub open spec fn spec_check_next(step: CheckView, o: OutcomeView) -> CheckView {
    match step {
        CheckView::Fetch => match o {
            OutcomeView::NotStarted => check_done(
                Err(
                    "Failed to execute git fetch. Please check your internet connection and ensure git is installed."@,
                ),
            ),
            OutcomeView::Finished { success, stderr, .. } => if !success {
                check_done(Err(fetch_error_text(stderr)))
            } else {
                CheckView::CurrentCommit
            },
        },
        CheckView::CurrentCommit => match o {
            OutcomeView::NotStarted => check_done(
                Err("Failed to get current commit. The git repository may be corrupted."@),
            ),
            OutcomeView::Finished { success, stdout, stderr } => if !success {
                check_done(Err("Unable to determine current version: "@ + trim(stderr)))
            } else {
                CheckView::RemoteCommit { current: trim(stdout) }
            },
        },
        CheckView::RemoteCommit { current } => match o {
            OutcomeView::NotStarted => check_done(
                Err("Failed to get remote commit. The remote branch may not exist."@),
            ),
            OutcomeView::Finished { success, stdout, stderr } => if !success {
                check_done(Err(remote_error_text(stderr)))
            } else {
                CheckView::CountCommits { current, remote: trim(stdout) }
            },
        },
        CheckView::CountCommits { current, remote } => match o {
            OutcomeView::NotStarted => check_done(Err("Failed to count commits behind remote"@)),
            OutcomeView::Finished { success, stdout, stderr } => if !success {
                check_done(Err("Unable to compare versions: "@ + trim(stderr)))
            } else {
                match parse_usize(trim(stdout)) {
                    None => check_done(Err("Invalid commit count returned by git"@)),
                    Some(n) => if n == 0 {
                        check_done(Ok(StatusView::UpToDate))
                    } else {
                        CheckView::Log { current, remote, behind: n }
                    },
                }
            },
        },
        CheckView::Log { behind, .. } => match o {
            OutcomeView::NotStarted => check_done(Err("Failed to get commit log"@)),
            OutcomeView::Finished { success, stdout, .. } => if !success {
                check_done(
                    Ok(
                        StatusView::UpdatesAvailable {
                            commits_behind: behind,
                            changes: no_log_text(behind),
                        },
                    ),
                )
            } else {
                check_done(
                    Ok(
                        StatusView::UpdatesAvailable {
                            commits_behind: behind,
                            changes: changes_text(stdout, behind),
                        },
                    ),
                )
            },
        },
        CheckView::Done(r) => CheckView::Done(r),
    }
}

/// The git arguments of a step of the check.
pub open spec fn spec_check_args(step: CheckView) -> Seq<Seq<char>> {
    match step {
        CheckView::Fetch => seq!["fetch"@, "origin"@],
        CheckView::CurrentCommit => seq!["rev-parse"@, "HEAD"@],
        CheckView::RemoteCommit { .. } => seq!["rev-parse"@, "origin/main"@],
        CheckView::CountCommits { current, remote } => seq![
            "rev-list"@,
            "--count"@,
            current + ".."@ + remote,
        ],
        CheckView::Log { current, remote, .. } => seq![
            "log"@,
            "--oneline"@,
            "--max-count=10"@,
            current + ".."@ + remote,
        ],
        CheckView::Done(_) => Seq::empty(),
    }
}

fn check_fail(msg: String) -> (r: CheckStep)
    ensures
        r@ == check_done(Err(msg@)),
{
    CheckStep::Done(Err(msg))
}

// ---------------------------------------------------------------------------
// Performing an update
// ---------------------------------------------------------------------------

pub open spec fn fail_view(msg: Seq<char>) -> TransitionView {
    TransitionView { progress: Seq::empty(), notices: Seq::empty(), next: StepView::Done(Err(msg)) }
}

pub open spec fn go_view(progress: Seq<Seq<char>>, next: StepView) -> TransitionView {
    TransitionView { progress, notices: Seq::empty(), next }
}

pub open spec fn pull_error_text(m: ManagerView, e: Seq<char>) -> Seq<char> {
    if contains(e, "Could not resolve host"@) || contains(e, "Name or service not known"@) {
        "Network error during update: Unable to reach the remote repository. Please check your internet connection and try again."@
    } else if contains(e, "Permission denied"@) || contains(e, "Authentication failed"@) {
        "Authentication error during update: Unable to access the remote repository. Please check your git credentials."@
    } else if contains(e, "Your local changes"@) || contains(e, "would be overwritten"@) {
        "Local changes detected: Your installation has local modifications that would be overwritten. Please backup your changes and run 'git reset --hard' in "@
            + m.install_dir + " before updating."@
    } else if contains(e, "Merge conflict"@) {
        "Merge conflict detected: Unable to automatically merge changes. Please resolve conflicts manually in "@
            + m.install_dir + " and try again."@
    } else {
        "Git pull failed: "@ + trim(e) + ". Your existing installation remains unchanged."@
    }
}

/// Cargo's output for a failed build: both streams trimmed when both have
/// text, else whichever has.
pub open spec fn build_output_text(out: Seq<char>, err: Seq<char>) -> Seq<char> {
    if out.len() > 0 && err.len() > 0 {
        trim(out) + "\n"@ + trim(err)
    } else if out.len() > 0 {
        trim(out)
    } else {
        trim(err)
    }
}

pub open spec fn build_error_text(out: Seq<char>, err: Seq<char>) -> Seq<char> {
    if contains(err, "could not find `Cargo.toml`"@) || contains(out, "could not find `Cargo.toml`"@) {
        "Build error: Cargo.toml not found. The installation directory may be corrupted."@
    } else if contains(err, "failed to resolve dependencies"@) || contains(
        out,
        "failed to resolve dependencies"@,
    ) {
        "Build error: Failed to resolve dependencies. Please check your internet connection and try again."@
    } else if contains(err, "rustc"@) && contains(err, "not found"@) {
        "Build error: Rust compiler not found. Please ensure Rust is properly installed."@
    } else if contains(err, "linker"@) && contains(err, "not found"@) {
        "Build error: System linker not found. Please install build tools for your system."@
    } else {
        "Cargo build failed: "@ + build_output_text(out, err)
            + ". Your existing installation remains unchanged."@
    }
}

pub open spec fn spec_after_pull(m: ManagerView, o: OutcomeView) -> TransitionView {
    match o {
        OutcomeView::NotStarted => fail_view(
            "Failed to execute git pull. Please ensure git is installed and accessible."@,
        ),
        OutcomeView::Finished { success, stderr, .. } => if !success {
            fail_view(pull_error_text(m, stderr))
        } else {
            go_view(
                seq![
                    "✅ Successfully fetched latest changes"@,
                    "🔨 Building updated binary (this may take a few minutes)..."@,
                ],
                StepView::Build,
            )
        },
    }
}

pub open spec fn spec_after_build(o: OutcomeView) -> TransitionView {
    match o {
        OutcomeView::NotStarted => fail_view(
            "Failed to execute cargo build. Please ensure Rust and Cargo are installed."@,
        ),
        OutcomeView::Finished { success, stdout, stderr } => if !success {
            fail_view(build_error_text(stdout, stderr))
        } else {
            go_view(
                seq!["✅ Successfully built updated binary"@, "📦 Installing updated binary..."@],
                StepView::CheckSource,
            )
        },
    }
}

pub open spec fn spec_after_source_check(m: ManagerView, exists: bool) -> TransitionView {
    if !exists {
        fail_view(
            "Build completed but binary not found at "@ + source_binary_path(m)
                + ". The build may have failed silently."@,
        )
    } else {
        go_view(Seq::empty(), StepView::CheckSudo)
    }
}

/// The lines that tell the user why elevated permissions are asked for.
pub open spec fn sudo_notice_lines(m: ManagerView) -> Seq<Seq<char>> {
    seq![
        "🔐 Administrator privileges required to install the binary to "@ + m.bin_dir,
        "   The system will prompt for your password to complete the installation."@,
        "   This is necessary to update the prometheus-cli executable in the system directory."@,
        Seq::empty(),
    ]
}

pub open spec fn spec_after_sudo_check(m: ManagerView, needs_sudo: bool) -> TransitionView {
    if needs_sudo {
        TransitionView {
            progress: seq!["🔐 Elevated permissions required for installation..."@],
            notices: sudo_notice_lines(m),
            next: StepView::ProbeSudo,
        }
    } else {
        go_view(Seq::empty(), StepView::Copy)
    }
}

pub open spec fn spec_after_sudo_probe(o: OutcomeView) -> TransitionView {
    match o {
        OutcomeView::NotStarted => fail_view(
            "Sudo command not found. Please install sudo or run the update as an administrator."@,
        ),
        OutcomeView::Finished { success, .. } => TransitionView {
            progress: Seq::empty(),
            notices: if success {
                seq!["✅ Sudo privileges confirmed"@]
            } else {
                seq!["Please enter your password when prompted by sudo:"@]
            },
            next: StepView::SudoCopy,
        },
    }
}

pub open spec fn dir_not_found_text(m: ManagerView) -> Seq<char> {
    "Installation directory not found: "@ + m.bin_dir
        + ". Please create the directory or install to a different location."@
}

/// Progress after the binary is in place, then the version check.
pub open spec fn installed_view() -> TransitionView {
    go_view(
        seq!["✅ Successfully installed updated binary"@, "🔍 Verifying installation..."@],
        StepView::Verify,
    )
}

pub open spec fn spec_after_sudo_copy(m: ManagerView, o: OutcomeView) -> TransitionView {
    match o {
        OutcomeView::NotStarted => fail_view(
            "Failed to execute sudo command for binary installation"@,
        ),
        OutcomeView::Finished { success, stderr, .. } => if !success {
            if contains(stderr, "Permission denied"@) || contains(
                stderr,
                "Operation not permitted"@,
            ) {
                fail_view(
                    "Permission denied: Unable to install binary even with sudo. Please check that "@
                        + m.bin_dir + " is writable."@,
                )
            } else if contains(stderr, "No such file or directory"@) {
                fail_view(dir_not_found_text(m))
            } else {
                fail_view(
                    "Failed to install binary with sudo: "@ + trim(stderr)
                        + ". Your existing installation remains unchanged."@,
                )
            }
        } else {
            installed_view()
        },
    }
}

pub open spec fn spec_after_copy(m: ManagerView, c: CopyOutcome) -> TransitionView {
    match c {
        CopyOutcome::Copied => installed_view(),
        CopyOutcome::PermissionDenied => fail_view(
            "Permission denied: Unable to install binary to "@ + dest_binary_path(m)
                + ". You may need to run the update with sudo or install to a different location."@,
        ),
        CopyOutcome::NotFound => fail_view(dir_not_found_text(m)),
        CopyOutcome::AlreadyExists => fail_view(
            "Installation failed: Target file already exists and cannot be overwritten at "@
                + dest_binary_path(m) + "."@,
        ),
        CopyOutcome::Failed(e) => fail_view(
            "Failed to install binary: "@ + e@ + ". Your existing installation remains unchanged."@,
        ),
    }
}

pub open spec fn spec_after_verify(o: OutcomeView) -> TransitionView {
    match o {
        OutcomeView::NotStarted => fail_view("Failed to verify new installation"@),
        OutcomeView::Finished { success, stdout, stderr } => if !success {
            fail_view(
                "Installation verification failed: The new binary was installed but cannot be executed. Error: "@
                    + trim(stderr),
            )
        } else if trim(stdout).len() == 0 {
            fail_view(
                "Installation verification failed: The new binary was installed but returned no version information."@,
            )
        } else {
            go_view(seq!["✅ Installation verified successfully"@], StepView::Done(Ok(trim(stdout))))
        },
    }
}

/// The directory is writable for the process: by owner, group or other
/// permission bits.
pub open spec fn can_write(a: DirAccess) -> bool {
    (a.uid == a.owner_uid && a.mode & 0o200u32 != 0) || (a.gid == a.owner_gid && a.mode
        & 0o020u32 != 0) || a.mode & 0o002u32 != 0
}

fn fail(msg: String) -> (r: UpdateTransition)
    ensures
        r@ == fail_view(msg@),
{
    UpdateTransition { progress: no_strings(), notices: no_strings(), next: UpdateStep::Done(Err(msg)) }
}

fn go(progress: Vec<String>, next: UpdateStep) -> (r: UpdateTransition)
    ensures
        r@ == go_view(strings_view(progress@), next@),
{
    UpdateTransition { progress, notices: no_strings(), next }
}

fn installed() -> (r: UpdateTransition)
    ensures
        r@ == installed_view(),
{
    go(
        strings2("✅ Successfully installed updated binary", "🔍 Verifying installation..."),
        UpdateStep::Verify,
    )
}

impl UpdateManager {
    /// A manager for the installation in `install_dir`, installing the
    /// `prometheus-cli` binary into `/usr/local/bin`.
    pub fn new(install_dir: String) -> (r: Self)
        ensures
            r@.install_dir == install_dir@,
            r@.bin_dir == "/usr/local/bin"@,
            r@.binary_name == "prometheus-cli"@,
    {
        UpdateManager {
            install_dir,
            bin_dir: "/usr/local/bin".to_owned(),
            binary_name: "prometheus-cli".to_owned(),
        }
    }

    /// A manager for the given directories and binary name.
    pub fn with_paths(install_dir: String, bin_dir: String, binary_name: String) -> (r: Self)
        ensures
            r@.install_dir == install_dir@,
            r@.bin_dir == bin_dir@,
            r@.binary_name == binary_name@,
    {
        UpdateManager { install_dir, bin_dir, binary_name }
    }

    /// Get the installation directory path.
    pub fn install_dir(&self) -> (r: &str)
        ensures
            r@ == self@.install_dir,
    {
        self.install_dir.as_str()
    }

    /// Get the binary directory path.
    pub fn bin_dir(&self) -> (r: &str)
        ensures
            r@ == self@.bin_dir,
    {
        self.bin_dir.as_str()
    }

    /// Get the binary name.
    pub fn binary_name(&self) -> (r: &str)
        ensures
            r@ == self@.binary_name,
    {
        self.binary_name.as_str()
    }

    /// Where the build puts the binary.
    pub fn source_binary(&self) -> (r: String)
        ensures
            r@ == source_binary_path(self@),
    {
        let a = path_join_exec(self.install_dir.as_str(), "target");
        let b = path_join_exec(a.as_str(), "release");
        path_join_exec(b.as_str(), self.binary_name.as_str())
    }

    /// Where the binary is installed.
    pub fn dest_binary(&self) -> (r: String)
        ensures
            r@ == dest_binary_path(self@),
    {
        path_join_exec(self.bin_dir.as_str(), self.binary_name.as_str())
    }

    /// Validates the installation directory from what the file system says
    /// of it: it must exist, be a git repository and hold a `Cargo.toml`.
    pub fn validate_installation(&self, dir_exists: bool, git_exists: bool, cargo_toml_exists: bool) -> (r:
        Result<(), String>)
        ensures
            !dir_exists ==> (r matches Err(e) && e@ == "Installation directory does not exist: "@
                + self@.install_dir),
            dir_exists && !git_exists ==> (r matches Err(e) && e@
                == "Installation directory is not a git repository. Update command requires git-based installation."@),
            dir_exists && git_exists && !cargo_toml_exists ==> (r matches Err(e) && e@
                == "Invalid installation: Cargo.toml not found in "@ + self@.install_dir),
            dir_exists && git_exists && cargo_toml_exists ==> r is Ok,
    {
        if !dir_exists {
            let mut e = String::new();
            push_str(&mut e, "Installation directory does not exist: ");
            push_string(&mut e, &self.install_dir);
            return Err(e);
        }
        if !git_exists {
            return Err(
                "Installation directory is not a git repository. Update command requires git-based installation.".to_owned(),
            );
        }
        if !cargo_toml_exists {
            let mut e = String::new();
            push_str(&mut e, "Invalid installation: Cargo.toml not found in ");
            push_string(&mut e, &self.install_dir);
            return Err(e);
        }
        Ok(())
    }

    /// The git arguments of a step of the check for updates (none once it
    /// is done).
    pub fn check_args(step: &CheckStep) -> (r: Vec<String>)
        ensures
            strings_view(r@) == spec_check_args(step@),
    {
        let mut v: Vec<String> = Vec::new();
        match step {
            CheckStep::Fetch => {
                v.push("fetch".to_owned());
                v.push("origin".to_owned());
            },
            CheckStep::CurrentCommit => {
                v.push("rev-parse".to_owned());
                v.push("HEAD".to_owned());
            },
            CheckStep::RemoteCommit { .. } => {
                v.push("rev-parse".to_owned());
                v.push("origin/main".to_owned());
            },
            CheckStep::CountCommits { current, remote } => {
                v.push("rev-list".to_owned());
                v.push("--count".to_owned());
                v.push(concat3(current.as_str(), "..", remote.as_str()));
            },
            CheckStep::Log { current, remote, .. } => {
                v.push("log".to_owned());
                v.push("--oneline".to_owned());
                v.push("--max-count=10".to_owned());
                v.push(concat3(current.as_str(), "..", remote.as_str()));
            },
            CheckStep::Done(_) => {},
        }
        assert(strings_view(v@) =~= spec_check_args(step@));
        v
    }

    /// The step of the check for updates after `step`, given what its git
    /// command gave: the current and the remote commit, the number of
    /// commits between them, then the log of the changes.
    pub fn check_next(step: CheckStep, outcome: CommandOutcome) -> (r: CheckStep)
        ensures
            r@ == spec_check_next(step@, outcome@),
    {
        match step {
            CheckStep::Fetch => match outcome {
                CommandOutcome::NotStarted => check_fail(
                    "Failed to execute git fetch. Please check your internet connection and ensure git is installed.".to_owned(),
                ),
                CommandOutcome::Finished { success, stderr, .. } => {
                    if !success {
                        let e = if has(&stderr, "Could not resolve host") || has(
                            &stderr,
                            "Name or service not known",
                        ) {
                            "Network error: Unable to reach the remote repository. Please check your internet connection.".to_owned()
                        } else if has(&stderr, "Permission denied") || has(
                            &stderr,
                            "Authentication failed",
                        ) {
                            "Authentication error: Unable to access the remote repository. Please check your git credentials.".to_owned()
                        } else if has(&stderr, "fatal: not a git repository") {
                            "Git repository error: The installation directory is not a valid git repository.".to_owned()
                        } else {
                            let mut e = String::new();
                            push_str(&mut e, "Git fetch failed: ");
                            push_string(&mut e, &trimmed(&stderr));
                            e
                        };
                        check_fail(e)
                    } else {
                        CheckStep::CurrentCommit
                    }
                },
            },
            CheckStep::CurrentCommit => match outcome {
                CommandOutcome::NotStarted => check_fail(
                    "Failed to get current commit. The git repository may be corrupted.".to_owned(),
                ),
                CommandOutcome::Finished { success, stdout, stderr } => {
                    if !success {
                        let mut e = String::new();
                        push_str(&mut e, "Unable to determine current version: ");
                        push_string(&mut e, &trimmed(&stderr));
                        check_fail(e)
                    } else {
                        CheckStep::RemoteCommit { current: trimmed(&stdout) }
                    }
                },
            },
            CheckStep::RemoteCommit { current } => match outcome {
                CommandOutcome::NotStarted => check_fail(
                    "Failed to get remote commit. The remote branch may not exist.".to_owned(),
                ),
                CommandOutcome::Finished { success, stdout, stderr } => {
                    if !success {
                        if has(&stderr, "unknown revision") {
                            check_fail(
                                "Remote branch 'main' not found. The repository structure may have changed.".to_owned(),
                            )
                        } else {
                            let mut e = String::new();
                            push_str(&mut e, "Unable to determine remote version: ");
                            push_string(&mut e, &trimmed(&stderr));
                            check_fail(e)
                        }
                    } else {
                        CheckStep::CountCommits { current, remote: trimmed(&stdout) }
                    }
                },
            },
            CheckStep::CountCommits { current, remote } => match outcome {
                CommandOutcome::NotStarted => check_fail(
                    "Failed to count commits behind remote".to_owned(),
                ),
                CommandOutcome::Finished { success, stdout, stderr } => {
                    if !success {
                        let mut e = String::new();
                        push_str(&mut e, "Unable to compare versions: ");
                        push_string(&mut e, &trimmed(&stderr));
                        check_fail(e)
                    } else {
                        let t = trimmed(&stdout);
                        let tv = chars_of(t.as_str());
                        match parse_usize_exec(&tv) {
                            None => check_fail("Invalid commit count returned by git".to_owned()),
                            Some(n) => {
                                if n == 0 {
                                    CheckStep::Done(Ok(UpdateStatus::UpToDate))
                                } else {
                                    CheckStep::Log { current, remote, behind: n }
                                }
                            },
                        }
                    }
                },
            },
            CheckStep::Log { behind, .. } => match outcome {
                CommandOutcome::NotStarted => check_fail("Failed to get commit log".to_owned()),
                CommandOutcome::Finished { success, stdout, .. } => {
                    if !success {
                        let mut changes = String::new();
                        push_str(&mut changes, "Unable to retrieve change details. ");
                        push_string(&mut changes, &u64_to_string(behind as u64));
                        push_str(&mut changes, " commit(s) available.");
                        CheckStep::Done(
                            Ok(UpdateStatus::UpdatesAvailable { commits_behind: behind, changes }),
                        )
                    } else {
                        let mut changes = stdout;
                        if behind > 10 {
                            push_str(&mut changes, "\n... and ");
                            push_string(&mut changes, &u64_to_string((behind - 10) as u64));
                            push_str(&mut changes, " more commit(s)");
                        }
                        CheckStep::Done(
                            Ok(UpdateStatus::UpdatesAvailable { commits_behind: behind, changes }),
                        )
                    }
                },
            },
            CheckStep::Done(r) => CheckStep::Done(r),
        }
    }

    /// The start of an update: announce the fetch, then pull.
    pub fn perform_update_start(&self) -> (r: UpdateTransition)
        ensures
            r@ == go_view(seq!["🔄 Fetching latest changes from repository..."@], StepView::Pull),
    {
        go(strings1("🔄 Fetching latest changes from repository...".to_owned()), UpdateStep::Pull)
    }

    /// The command of a step that runs one: the program, its arguments, and
    /// whether it runs in the installation directory.
    pub fn step_command(&self, step: &UpdateStep) -> (r: Option<(String, Vec<String>, bool)>)
        ensures
            match step@ {
                StepView::Pull => (r matches Some((p, a, d)) && p@ == "git"@ && strings_view(a@)
                    == seq!["pull"@, "origin"@, "main"@] && d),
                StepView::Build => (r matches Some((p, a, d)) && p@ == "cargo"@ && strings_view(
                    a@,
                ) == seq!["build"@, "--release"@, "-p"@, "prometheus-cli"@] && d),
                StepView::ProbeSudo => (r matches Some((p, a, d)) && p@ == "sudo"@ && strings_view(
                    a@,
                ) == seq!["-n"@, "true"@] && !d),
                StepView::SudoCopy => (r matches Some((p, a, d)) && p@ == "sudo"@ && strings_view(
                    a@,
                ) == seq!["cp"@, source_binary_path(self@), dest_binary_path(self@)] && !d),
                StepView::Verify => (r matches Some((p, a, d)) && p@ == dest_binary_path(self@)
                    && strings_view(a@) == seq!["--version"@] && !d),
                _ => r is None,
            },
    {
        match step {
            UpdateStep::Pull => {
                let mut a: Vec<String> = Vec::new();
                a.push("pull".to_owned());
                a.push("origin".to_owned());
                a.push("main".to_owned());
                assert(strings_view(a@) =~= seq!["pull"@, "origin"@, "main"@]);
                Some(("git".to_owned(), a, true))
            },
            UpdateStep::Build => {
                let mut a: Vec<String> = Vec::new();
                a.push("build".to_owned());
                a.push("--release".to_owned());
                a.push("-p".to_owned());
                a.push("prometheus-cli".to_owned());
                assert(strings_view(a@) =~= seq![
                    "build"@,
                    "--release"@,
                    "-p"@,
                    "prometheus-cli"@,
                ]);
                Some(("cargo".to_owned(), a, true))
            },
            UpdateStep::ProbeSudo => Some(("sudo".to_owned(), strings2("-n", "true"), false)),
            UpdateStep::SudoCopy => {
                let mut a: Vec<String> = Vec::new();
                a.push("cp".to_owned());
                a.push(self.source_binary());
                a.push(self.dest_binary());
                assert(strings_view(a@) =~= seq![
                    "cp"@,
                    source_binary_path(self@),
                    dest_binary_path(self@),
                ]);
                Some(("sudo".to_owned(), a, false))
            },
            UpdateStep::Verify => Some(
                (self.dest_binary(), strings1("--version".to_owned()), false),
            ),
            _ => None,
        }
    }

    /// After the pull: build, or stop with an error that names the cause.
    pub fn after_pull(&self, outcome: CommandOutcome) -> (r: UpdateTransition)
        ensures
            r@ == spec_after_pull(self@, outcome@),
    {
        match outcome {
            CommandOutcome::NotStarted => fail(
                "Failed to execute git pull. Please ensure git is installed and accessible.".to_owned(),
            ),
            CommandOutcome::Finished { success, stderr, .. } => {
                if success {
                    return go(
                        strings2(
                            "✅ Successfully fetched latest changes",
                            "🔨 Building updated binary (this may take a few minutes)...",
                        ),
                        UpdateStep::Build,
                    );
                }
                if has(&stderr, "Could not resolve host") || has(
                    &stderr,
                    "Name or service not known",
                ) {
                    fail(
                        "Network error during update: Unable to reach the remote repository. Please check your internet connection and try again.".to_owned(),
                    )
                } else if has(&stderr, "Permission denied") || has(&stderr, "Authentication failed") {
                    fail(
                        "Authentication error during update: Unable to access the remote repository. Please check your git credentials.".to_owned(),
                    )
                } else if has(&stderr, "Your local changes") || has(&stderr, "would be overwritten") {
                    fail(
                        concat3(
                            "Local changes detected: Your installation has local modifications that would be overwritten. Please backup your changes and run 'git reset --hard' in ",
                            self.install_dir.as_str(),
                            " before updating.",
                        ),
                    )
                } else if has(&stderr, "Merge conflict") {
                    fail(
                        concat3(
                            "Merge conflict detected: Unable to automatically merge changes. Please resolve conflicts manually in ",
                            self.install_dir.as_str(),
                            " and try again.",
                        ),
                    )
                } else {
                    let t = trimmed(&stderr);
                    fail(
                        concat3(
                            "Git pull failed: ",
                            t.as_str(),
                            ". Your existing installation remains unchanged.",
                        ),
                    )
                }
            },
        }
    }

    /// After the build: install, or stop with an error that names the cause.
    pub fn after_build(&self, outcome: CommandOutcome) -> (r: UpdateTransition)
        ensures
            r@ == spec_after_build(outcome@),
    {
        match outcome {
            CommandOutcome::NotStarted => fail(
                "Failed to execute cargo build. Please ensure Rust and Cargo are installed.".to_owned(),
            ),
            CommandOutcome::Finished { success, stdout, stderr } => {
                if success {
                    return go(
                        strings2(
                            "✅ Successfully built updated binary",
                            "📦 Installing updated binary...",
                        ),
                        UpdateStep::CheckSource,
                    );
                }
                if has(&stderr, "could not find `Cargo.toml`") || has(
                    &stdout,
                    "could not find `Cargo.toml`",
                ) {
                    fail(
                        "Build error: Cargo.toml not found. The installation directory may be corrupted.".to_owned(),
                    )
                } else if has(&stderr, "failed to resolve dependencies") || has(
                    &stdout,
                    "failed to resolve dependencies",
                ) {
                    fail(
                        "Build error: Failed to resolve dependencies. Please check your internet connection and try again.".to_owned(),
                    )
                } else if has(&stderr, "rustc") && has(&stderr, "not found") {
                    fail(
                        "Build error: Rust compiler not found. Please ensure Rust is properly installed.".to_owned(),
                    )
                } else if has(&stderr, "linker") && has(&stderr, "not found") {
                    fail(
                        "Build error: System linker not found. Please install build tools for your system.".to_owned(),
                    )
                } else {
                    let out_v = chars_of(stdout.as_str());
                    let err_v = chars_of(stderr.as_str());
                    let full = if out_v.len() > 0 && err_v.len() > 0 {
                        let a = trimmed(&stdout);
                        let b = trimmed(&stderr);
                        concat3(a.as_str(), "\n", b.as_str())
                    } else if out_v.len() > 0 {
                        trimmed(&stdout)
                    } else {
                        trimmed(&stderr)
                    };
                    fail(
                        concat3(
                            "Cargo build failed: ",
                            full.as_str(),
                            ". Your existing installation remains unchanged.",
                        ),
                    )
                }
            },
        }
    }

    /// After looking for the built binary: on to the permission check, or
    /// stop when it is missing.
    pub fn after_source_check(&self, exists: bool) -> (r: UpdateTransition)
        ensures
            r@ == spec_after_source_check(self@, exists),
    {
        if !exists {
            let s = self.source_binary();
            fail(concat3("Build completed but binary not found at ", s.as_str(), ". The build may have failed silently."))
        } else {
            go(no_strings(), UpdateStep::CheckSudo)
        }
    }

    /// Whether installing needs elevated permissions: always when the binary
    /// directory is missing; by the permission bits when they are known;
    /// else by trying to write into the directory.
    pub fn check_needs_sudo(&self, bin_dir_exists: bool, access: Option<DirAccess>) -> (r:
        SudoDecision)
        ensures
            !bin_dir_exists ==> r == SudoDecision::Needed(true),
            bin_dir_exists ==> match access {
                Some(a) => r == SudoDecision::Needed(!can_write(a)),
                None => r == SudoDecision::ProbeWrite,
            },
    {
        if !bin_dir_exists {
            return SudoDecision::Needed(true);
        }
        match access {
            Some(a) => {
                if a.uid == a.owner_uid && (a.mode & 0o200) != 0 {
                    return SudoDecision::Needed(false);
                }
                if a.gid == a.owner_gid && (a.mode & 0o020) != 0 {
                    return SudoDecision::Needed(false);
                }
                if (a.mode & 0o002) != 0 {
                    return SudoDecision::Needed(false);
                }
                SudoDecision::Needed(true)
            },
            None => SudoDecision::ProbeWrite,
        }
    }

    /// Whether elevated permissions are needed after trying to write into
    /// the binary directory: whenever the write failed, for any reason.
    pub fn needs_sudo_after_probe(write_succeeded: bool) -> (b: bool)
        ensures
            b == !write_succeeded,
    {
        !write_succeeded
    }

    /// After the permission check: tell the user and probe sudo, or copy
    /// directly.
    pub fn after_sudo_check(&self, needs_sudo: bool) -> (r: UpdateTransition)
        ensures
            r@ == spec_after_sudo_check(self@, needs_sudo),
    {
        if needs_sudo {
            let mut notices: Vec<String> = Vec::new();
            let mut first = String::new();
            push_str(&mut first, "🔐 Administrator privileges required to install the binary to ");
            push_string(&mut first, &self.bin_dir);
            notices.push(first);
            notices.push(
                "   The system will prompt for your password to complete the installation.".to_owned(),
            );
            notices.push(
                "   This is necessary to update the prometheus-cli executable in the system directory.".to_owned(),
            );
            notices.push(String::new());
            assert(strings_view(notices@) =~= sudo_notice_lines(self@));
            UpdateTransition {
                progress: strings1("🔐 Elevated permissions required for installation...".to_owned()),
                notices,
                next: UpdateStep::ProbeSudo,
            }
        } else {
            go(no_strings(), UpdateStep::Copy)
        }
    }

    /// After probing sudo: copy with sudo, or stop when there is no sudo.
    pub fn after_sudo_probe(&self, outcome: CommandOutcome) -> (r: UpdateTransition)
        ensures
            r@ == spec_after_sudo_probe(outcome@),
    {
        match outcome {
            CommandOutcome::NotStarted => fail(
                "Sudo command not found. Please install sudo or run the update as an administrator.".to_owned(),
            ),
            CommandOutcome::Finished { success, .. } => {
                let line = if success {
                    "✅ Sudo privileges confirmed".to_owned()
                } else {
                    "Please enter your password when prompted by sudo:".to_owned()
                };
                UpdateTransition {
                    progress: no_strings(),
                    notices: strings1(line),
                    next: UpdateStep::SudoCopy,
                }
            },
        }
    }

    /// After copying with sudo: verify, or stop with an error that names
    /// the cause.
    pub fn after_sudo_copy(&self, outcome: CommandOutcome) -> (r: UpdateTransition)
        ensures
            r@ == spec_after_sudo_copy(self@, outcome@),
    {
        match outcome {
            CommandOutcome::NotStarted => fail(
                "Failed to execute sudo command for binary installation".to_owned(),
            ),
            CommandOutcome::Finished { success, stderr, .. } => {
                if success {
                    installed()
                } else if has(&stderr, "Permission denied") || has(&stderr, "Operation not permitted") {
                    fail(
                        concat3(
                            "Permission denied: Unable to install binary even with sudo. Please check that ",
                            self.bin_dir.as_str(),
                            " is writable.",
                        ),
                    )
                } else if has(&stderr, "No such file or directory") {
                    fail(
                        concat3(
                            "Installation directory not found: ",
                            self.bin_dir.as_str(),
                            ". Please create the directory or install to a different location.",
                        ),
                    )
                } else {
                    let t = trimmed(&stderr);
                    fail(
                        concat3(
                            "Failed to install binary with sudo: ",
                            t.as_str(),
                            ". Your existing installation remains unchanged.",
                        ),
                    )
                }
            },
        }
    }

    /// After copying directly: verify, or stop with an error that names the
    /// cause.
    pub fn after_copy(&self, copy: CopyOutcome) -> (r: UpdateTransition)
        ensures
            r@ == spec_after_copy(self@, copy),
    {
        match copy {
            CopyOutcome::Copied => installed(),
            CopyOutcome::PermissionDenied => {
                let d = self.dest_binary();
                fail(
                    concat3(
                        "Permission denied: Unable to install binary to ",
                        d.as_str(),
                        ". You may need to run the update with sudo or install to a different location.",
                    ),
                )
            },
            CopyOutcome::NotFound => fail(
                concat3(
                    "Installation directory not found: ",
                    self.bin_dir.as_str(),
                    ". Please create the directory or install to a different location.",
                ),
            ),
            CopyOutcome::AlreadyExists => {
                let d = self.dest_binary();
                fail(
                    concat3(
                        "Installation failed: Target file already exists and cannot be overwritten at ",
                        d.as_str(),
                        ".",
                    ),
                )
            },
            CopyOutcome::Failed(e) => fail(
                concat3(
                    "Failed to install binary: ",
                    e.as_str(),
                    ". Your existing installation remains unchanged.",
                ),
            ),
        }
    }

    /// After running the new binary: the update ends with its version, or
    /// with an error when it cannot run or reports nothing.
    pub fn after_verify(&self, outcome: CommandOutcome) -> (r: UpdateTransition)
        ensures
            r@ == spec_after_verify(outcome@),
    {
        match outcome {
            CommandOutcome::NotStarted => fail("Failed to verify new installation".to_owned()),
            CommandOutcome::Finished { success, stdout, stderr } => {
                if !success {
                    let t = trimmed(&stderr);
                    let mut e = String::new();
                    push_str(
                        &mut e,
                        "Installation verification failed: The new binary was installed but cannot be executed. Error: ",
                    );
                    push_string(&mut e, &t);
                    return fail(e);
                }
                let version = trimmed(&stdout);
                let vv = chars_of(version.as_str());
                if vv.len() == 0 {
                    fail(
                        "Installation verification failed: The new binary was installed but returned no version information.".to_owned(),
                    )
                } else {
                    go(
                        strings1("✅ Installation verified successfully".to_owned()),
                        UpdateStep::Done(Ok(version)),
                    )
                }
            },
        }
    }
}

// ---------------------------------------------------------------------------
// Laws
// ---------------------------------------------------------------------------

/// The installation is reported up to date exactly when git counts no
/// commits between the local and the remote head; otherwise the count is
/// carried into the report.
pub proof fn law_up_to_date_iff_no_commits(current: Seq<char>, remote: Seq<char>, out: Seq<char>, err: Seq<char>)
    ensures
        ({
            let next = spec_check_next(
                CheckView::CountCommits { current, remote },
                OutcomeView::Finished { success: true, stdout: out, stderr: err },
            );
            &&& (next == CheckView::Done(Ok(StatusView::UpToDate))) <==> parse_usize(trim(out))
                == Some(0usize)
            &&& parse_usize(trim(out)) matches Some(n) ==> (n > 0 ==> next == (CheckView::Log {
                current,
                remote,
                behind: n,
            }))
        }),
{
}

/// Once checking or updating is done, it stays done.
pub proof fn law_done_is_final(r: Result<StatusView, Seq<char>>, o: OutcomeView)
    ensures
        spec_check_next(CheckView::Done(r), o) == CheckView::Done(r),
{
}

/// A completed update always reports a version: a non-empty text with no
/// surrounding whitespace.
pub proof fn law_update_reports_version(o: OutcomeView)
    ensures
        spec_after_verify(o).next matches StepView::Done(Ok(v)) ==> v.len() > 0 && v == trim(v),
{
    if let OutcomeView::Finished { stdout, .. } = o {
        crate::text::lemma_trim_idempotent(stdout);
    }
}

/// The binary is never installed unless the pull and the build succeeded:
/// a failed or unstarted pull or build ends the update with an error.
pub proof fn law_failed_step_stops_update(m: ManagerView, o: OutcomeView)
    requires
        !(o matches OutcomeView::Finished { success, .. } && success),
    ensures
        spec_after_pull(m, o).next is Done && spec_after_pull(m, o).next->Done_0 is Err,
        spec_after_build(o).next is Done && spec_after_build(o).next->Done_0 is Err,
{
}

} // verus!
