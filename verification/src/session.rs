//! What the interactive session shows: the welcome, the model choice, the
//! handling of typed input, and the reports of the update commands. The
//! terminal writes the lines.
use vstd::prelude::*;
use crate::error::{lines_view, LineKind, TerminalLine};
use crate::text::{
    chars_of, decimal, lines, parse_usize, parse_usize_exec, push_str, push_string, split_lines,
    starts_with, string_from_range, trim, trim_bounds, u64_to_string, char_vec_views,
};
use crate::non_interactive::GenerationEnd;
use crate::update::{dest_binary_path, StatusView, UpdateManager, UpdateStatus};

verus! {

/// What a line typed at the prompt is.
#[derive(Debug, Clone, Copy, PartialEq, Eq)]
pub enum InputKind {
    /// Blank: ignored.
    Empty,
    /// Starts with `/`: a command.
    Command,
    /// Anything else: a prompt for the model.
    Prompt,
}

pub open spec fn info(s: Seq<char>) -> (LineKind, Seq<char>) {
    (LineKind::Info, s)
}

pub open spec fn error_line(s: Seq<char>) -> (LineKind, Seq<char>) {
    (LineKind::Error, s)
}

pub open spec fn plain(s: Seq<char>) -> (LineKind, Seq<char>) {
    (LineKind::Plain, s)
}

/// How typed input is handled.
pub open spec fn spec_classify(input: Seq<char>) -> InputKind {
    if trim(input).len() == 0 {
        InputKind::Empty
    } else if input.len() > 0 && input[0] == '/' {
        InputKind::Command
    } else {
        InputKind::Prompt
    }
}

/// The choice of a model by its number in a list of `count`.
pub open spec fn spec_select_model(input: Seq<char>, count: usize) -> Result<usize, Seq<char>> {
    match parse_usize(trim(input)) {
        None => Err("Please enter a valid number"@),
        Some(n) => if 0 < n <= count {
            Ok((n - 1) as usize)
        } else {
            Err(
                "Invalid selection. Please enter a number between 1 and "@ + decimal(count as nat),
            )
        },
    }
}

/// The numbered list of models to choose from.
pub open spec fn spec_model_choices(models: Seq<Seq<char>>) -> Seq<Seq<char>> {
    Seq::new(models.len(), |i: int| "  "@ + decimal((i + 1) as nat) + ". "@ + models[i])
}

/// The welcome shown when the session starts.
pub open spec fn spec_welcome(version: Seq<char>, url: Seq<char>, model: Seq<char>) -> Seq<
    (LineKind, Seq<char>),
> {
    seq![
        plain("\n"@),
        info("Prometheus CLI v"@ + version + " - Terminal AI Chat"@),
        info("Connected to: "@ + url),
        info("Model: "@ + model),
        info("Type /help for available commands"@),
        plain("\n"@),
    ]
}

/// The listing of the models the backend has.
pub open spec fn spec_models_listing(models: Seq<Seq<char>>) -> Seq<Seq<char>> {
    seq!["\nAvailable models:\n"@] + Seq::new(models.len(), |i: int| "  - "@ + models[i] + "\n"@)
        + seq!["\n"@]
}

pub open spec fn unknown_command_text(cmd: Seq<char>) -> Seq<char> {
    "Unknown command: /"@ + cmd + ". Type /help for available commands"@
}

// ---------------------------------------------------------------------------
// Update reports
// ---------------------------------------------------------------------------

pub open spec fn setup_tips() -> Seq<(LineKind, Seq<char>)> {
    seq![
        info("Troubleshooting tips:"@),
        plain("  • Ensure Prometheus CLI was installed from source (git clone)"@),
        plain("  • Check that git is installed and accessible"@),
        plain("  • Verify the installation directory exists and is readable"@),
    ]
}

pub open spec fn install_tips() -> Seq<(LineKind, Seq<char>)> {
    seq![
        info("Troubleshooting tips:"@),
        plain("  • Ensure you installed Prometheus CLI using the git-based installer"@),
        plain("  • Manual installations or binary downloads cannot be updated automatically"@),
        plain("  • Consider reinstalling from source: https://github.com/your-repo/prometheus"@),
    ]
}

pub open spec fn network_tips() -> Seq<(LineKind, Seq<char>)> {
    seq![
        info("Troubleshooting tips:"@),
        plain("  • Check your internet connection"@),
        plain("  • Ensure git credentials are configured if the repository requires authentication"@),
        plain("  • Try running 'git fetch' manually in the installation directory"@),
    ]
}

/// The report when no installation could be found: `prefix` names the
/// command that failed.
pub open spec fn spec_setup_failure(prefix: Seq<char>, e: Seq<char>) -> Seq<(LineKind, Seq<char>)> {
    seq![error_line(prefix + e)] + setup_tips()
}

/// The report when the installation is not one that can be updated.
pub open spec fn spec_validation_failure(e: Seq<char>) -> Seq<(LineKind, Seq<char>)> {
    seq![error_line("Installation validation failed: "@ + e)] + install_tips()
}

/// The lines of a change log that are not blank, indented.
pub open spec fn change_lines(ls: Seq<Seq<char>>) -> Seq<(LineKind, Seq<char>)>
    decreases ls.len(),
{
    if ls.len() == 0 {
        Seq::empty()
    } else {
        change_lines(ls.drop_last()) + (if trim(ls.last()).len() > 0 {
            seq![plain("   "@ + ls.last())]
        } else {
            Seq::empty()
        })
    }
}

/// The report of a check for updates.
pub open spec fn spec_check_report(
    r: Result<StatusView, Seq<char>>,
    dir: Seq<char>,
    binary: Seq<char>,
) -> Seq<(LineKind, Seq<char>)> {
    match r {
        Ok(StatusView::UpToDate) => seq![
            info("✅ Your installation is up to date!"@),
            plain("   Installation directory: "@ + dir),
            plain("   Binary location: "@ + binary),
        ],
        Ok(StatusView::UpdatesAvailable { commits_behind, changes }) => seq![
            info(
                "🆕 Updates available! "@ + decimal(commits_behind as nat)
                    + " commit(s) behind the latest version."@,
            ),
            plain("\n📋 Recent changes:"@),
        ] + change_lines(lines(changes)) + seq![
            plain("\n💡 Run '/update' to install these updates."@),
            plain("   Note: The update process will require a few minutes to complete."@),
        ],
        Err(e) => seq![error_line("Update check failed: "@ + e)] + network_tips() + seq![
            plain("  • Installation directory: "@ + dir),
        ],
    }
}

/// The preview of the changes an update applies: the first three lines of
/// the log.
pub open spec fn spec_preview(changes: Seq<char>) -> Seq<(LineKind, Seq<char>)> {
    if trim(changes).len() == 0 {
        Seq::empty()
    } else {
        seq![plain("\n📋 Changes to be applied:"@)] + change_lines(first_lines(lines(changes))) + (if lines(
            changes,
        ).len() > 3 {
            seq![plain("   ... and more"@)]
        } else {
            Seq::empty()
        }) + seq![plain(Seq::empty())]
    }
}

/// The first three lines (all, when there are fewer).
pub open spec fn first_lines(ls: Seq<Seq<char>>) -> Seq<Seq<char>> {
    if ls.len() < 3 {
        ls
    } else {
        ls.take(3)
    }
}

pub open spec fn interruption_warning() -> Seq<(LineKind, Seq<char>)> {
    seq![
        info("⚠️  Important: Do not interrupt the update process once it begins."@),
        plain(
            "   Interrupting during binary installation could leave your system in an inconsistent state.\n"@,
        ),
    ]
}

/// The report of the check that precedes an update, and whether the update
/// goes ahead.
pub open spec fn spec_update_precheck(r: Result<StatusView, Seq<char>>) -> (
    Seq<(LineKind, Seq<char>)>,
    bool,
) {
    match r {
        Ok(StatusView::UpToDate) => (
            seq![
                info("✅ Your installation is already up to date!"@),
                plain("   No update is necessary at this time."@),
            ],
            false,
        ),
        Ok(StatusView::UpdatesAvailable { commits_behind, changes }) => (
            seq![
                info(
                    "📦 Found "@ + decimal(commits_behind as nat)
                        + " commit(s) to update. Proceeding with installation..."@,
                ),
            ] + spec_preview(changes) + interruption_warning(),
            true,
        ),
        Err(e) => (seq![error_line("Failed to check for updates: "@ + e)] + network_tips(), false),
    }
}

/// The report of an update.
pub open spec fn spec_update_result(r: Result<Seq<char>, Seq<char>>, dir: Seq<char>, binary: Seq<char>) -> Seq<
    (LineKind, Seq<char>),
> {
    match r {
        Ok(v) => seq![
            plain(Seq::empty()),
            info("🎉 Update completed successfully!"@),
            plain("   New version: "@ + v),
            plain("   Installation location: "@ + binary),
            plain(Seq::empty()),
            info("📝 Next steps:"@),
            plain("   • The CLI will now exit to apply the update"@),
            plain("   • Restart the CLI to use the new version"@),
            plain("   • Run '/help' to see any new commands or features"@),
            plain(Seq::empty()),
        ],
        Err(e) => seq![
            plain(Seq::empty()),
            error_line("❌ Update failed: "@ + e),
            info("🛡️  Your existing installation remains unchanged and functional."@),
            plain(Seq::empty()),
            info("🔧 Troubleshooting options:"@),
            plain("   • Check your internet connection and try again"@),
            plain("   • Ensure you have sufficient disk space"@),
            plain("   • Verify that Rust/Cargo is properly installed"@),
            plain("   • Check the installation directory permissions"@),
            plain("   • Installation directory: "@ + dir),
            plain("   • Consider running the update with administrator privileges if needed"@),
            plain(Seq::empty()),
            info("💡 For persistent issues, consider reinstalling from source."@),
        ],
    }
}

// ---------------------------------------------------------------------------
// Building lines
// ---------------------------------------------------------------------------

fn put(out: &mut Vec<TerminalLine>, kind: LineKind, text: &str)
    ensures
        lines_view(final(out)@) == lines_view(old(out)@).push((kind, text@)),
{
    out.push(TerminalLine { kind, text: text.to_owned() });
    assert(lines_view(out@) =~= lines_view(old(out)@).push((kind, text@)));
}

fn put2(out: &mut Vec<TerminalLine>, kind: LineKind, a: &str, b: &str)
    ensures
        lines_view(final(out)@) == lines_view(old(out)@).push((kind, a@ + b@)),
{
    let mut s = String::new();
    push_str(&mut s, a);
    push_str(&mut s, b);
    out.push(TerminalLine { kind, text: s });
    assert(lines_view(out@) =~= lines_view(old(out)@).push((kind, a@ + b@)));
}

fn put_empty(out: &mut Vec<TerminalLine>)
    ensures
        lines_view(final(out)@) == lines_view(old(out)@).push(plain(Seq::empty())),
{
    out.push(TerminalLine { kind: LineKind::Plain, text: String::new() });
    assert(lines_view(out@) =~= lines_view(old(out)@).push(plain(Seq::empty())));
}

/// Appends the non-blank lines among `ls[..n]`, indented.
fn put_change_lines(out: &mut Vec<TerminalLine>, ls: &Vec<Vec<char>>, n: usize)
    requires
        n <= ls@.len(),
    ensures
        lines_view(final(out)@) == lines_view(old(out)@) + change_lines(
            char_vec_views(ls@).take(n as int),
        ),
{
    let ghost lv = char_vec_views(ls@);
    let mut i: usize = 0;
    assert(lv.take(0) =~= Seq::<Seq<char>>::empty());
    assert(lines_view(out@) =~= lines_view(old(out)@) + change_lines(lv.take(0)));
    while i < n
        invariant
            i <= n <= ls@.len(),
            lv == char_vec_views(ls@),
            lv.len() == ls@.len(),
            lines_view(out@) == lines_view(old(out)@) + change_lines(lv.take(i as int)),
        decreases n - i,
    {
        let line = &ls[i];
        assert(lv[i as int] == line@);
        assert(lv.take(i + 1).drop_last() =~= lv.take(i as int));
        assert(lv.take(i + 1).last() == line@);
        let ghost before = lines_view(out@);
        let (a, b) = trim_bounds(line);
        if a < b {
            let text = string_from_range(line, 0, line.len());
            assert(line@.subrange(0, line@.len() as int) =~= line@);
            put2(out, LineKind::Plain, "   ", text.as_str());
            assert(lines_view(out@) =~= lines_view(old(out)@) + change_lines(lv.take(i + 1)));
        } else {
            assert(lines_view(out@) =~= lines_view(old(out)@) + change_lines(lv.take(i + 1)));
        }
        i = i + 1;
    }
}

fn put_setup_tips(out: &mut Vec<TerminalLine>)
    ensures
        lines_view(final(out)@) == lines_view(old(out)@) + setup_tips(),
{
    put(out, LineKind::Info, "Troubleshooting tips:");
    put(out, LineKind::Plain, "  • Ensure Prometheus CLI was installed from source (git clone)");
    put(out, LineKind::Plain, "  • Check that git is installed and accessible");
    put(out, LineKind::Plain, "  • Verify the installation directory exists and is readable");
    assert(lines_view(out@) =~= lines_view(old(out)@) + setup_tips());
}

fn put_install_tips(out: &mut Vec<TerminalLine>)
    ensures
        lines_view(final(out)@) == lines_view(old(out)@) + install_tips(),
{
    put(out, LineKind::Info, "Troubleshooting tips:");
    put(out, LineKind::Plain, "  • Ensure you installed Prometheus CLI using the git-based installer");
    put(
        out,
        LineKind::Plain,
        "  • Manual installations or binary downloads cannot be updated automatically",
    );
    put(
        out,
        LineKind::Plain,
        "  • Consider reinstalling from source: https://github.com/your-repo/prometheus",
    );
    assert(lines_view(out@) =~= lines_view(old(out)@) + install_tips());
}

fn put_network_tips(out: &mut Vec<TerminalLine>)
    ensures
        lines_view(final(out)@) == lines_view(old(out)@) + network_tips(),
{
    put(out, LineKind::Info, "Troubleshooting tips:");
    put(out, LineKind::Plain, "  • Check your internet connection");
    put(
        out,
        LineKind::Plain,
        "  • Ensure git credentials are configured if the repository requires authentication",
    );
    put(out, LineKind::Plain, "  • Try running 'git fetch' manually in the installation directory");
    assert(lines_view(out@) =~= lines_view(old(out)@) + network_tips());
}

fn no_lines() -> (r: Vec<TerminalLine>)
    ensures
        lines_view(r@) == Seq::<(LineKind, Seq<char>)>::empty(),
{
    let v: Vec<TerminalLine> = Vec::new();
    assert(lines_view(v@) =~= Seq::<(LineKind, Seq<char>)>::empty());
    v
}

// ---------------------------------------------------------------------------
// Public functions
// ---------------------------------------------------------------------------

/// How a line typed at the prompt is handled.
pub fn classify_input(input: &str) -> (k: InputKind)
    ensures
        k == spec_classify(input@),
{
    let v = chars_of(input);
    let (a, b) = trim_bounds(&v);
    if a == b {
        InputKind::Empty
    } else if v.len() > 0 && v[0] == '/' {
        InputKind::Command
    } else {
        InputKind::Prompt
    }
}

/// The model chosen by the number typed, as an index into the list of
/// `count` models, or the message that asks again.
pub fn select_model(input: &str, count: usize) -> (r: Result<usize, String>)
    ensures
        match spec_select_model(input@, count) {
            Ok(i) => r == Ok::<usize, String>(i),
            Err(e) => (r matches Err(m) && m@ == e),
        },
{
    let v = chars_of(input);
    let (a, b) = trim_bounds(&v);
    let t = crate::text::sub_vec(&v, a, b);
    match parse_usize_exec(&t) {
        None => Err("Please enter a valid number".to_owned()),
        Some(n) => {
            if n > 0 && n <= count {
                Ok(n - 1)
            } else {
                let mut e = String::new();
                push_str(&mut e, "Invalid selection. Please enter a number between 1 and ");
                push_string(&mut e, &u64_to_string(count as u64));
                Err(e)
            }
        },
    }
}

/// The numbered list of models to choose from.
pub fn model_choices(models: &Vec<String>) -> (r: Vec<String>)
    ensures
        crate::url_validator::views(r@) == spec_model_choices(crate::url_validator::views(models@)),
{
    let mut out: Vec<String> = Vec::new();
    let mut i: usize = 0;
    while i < models.len()
        invariant
            i <= models@.len(),
            crate::url_validator::views(out@) == Seq::new(
                i as nat,
                |k: int| "  "@ + decimal((k + 1) as nat) + ". "@ + models@[k]@,
            ),
        decreases models.len() - i,
    {
        let mut s = String::new();
        push_str(&mut s, "  ");
        push_string(&mut s, &u64_to_string((i + 1) as u64));
        push_str(&mut s, ". ");
        push_string(&mut s, &models[i]);
        let ghost prev = crate::url_validator::views(out@);
        out.push(s);
        assert(crate::url_validator::views(out@) =~= prev.push(s@));
        i = i + 1;
        assert(crate::url_validator::views(out@) =~= Seq::new(
            i as nat,
            |k: int| "  "@ + decimal((k + 1) as nat) + ". "@ + models@[k]@,
        ));
    }
    assert(crate::url_validator::views(out@) =~= spec_model_choices(
        crate::url_validator::views(models@),
    ));
    out
}

/// The welcome shown when the session starts.
pub fn welcome_lines(version: &str, url: &str, model: &str) -> (r: Vec<TerminalLine>)
    ensures
        lines_view(r@) == spec_welcome(version@, url@, model@),
{
    let mut out = no_lines();
    put(&mut out, LineKind::Plain, "\n");
    let mut s = String::new();
    push_str(&mut s, "Prometheus CLI v");
    push_str(&mut s, version);
    push_str(&mut s, " - Terminal AI Chat");
    put(&mut out, LineKind::Info, s.as_str());
    put2(&mut out, LineKind::Info, "Connected to: ", url);
    put2(&mut out, LineKind::Info, "Model: ", model);
    put(&mut out, LineKind::Info, "Type /help for available commands");
    put(&mut out, LineKind::Plain, "\n");
    assert(lines_view(out@) =~= spec_welcome(version@, url@, model@));
    out
}

/// The listing of the models the backend has.
pub fn models_listing(models: &Vec<String>) -> (r: Vec<String>)
    ensures
        crate::url_validator::views(r@) == spec_models_listing(crate::url_validator::views(models@)),
{
    let mut out: Vec<String> = Vec::new();
    out.push("\nAvailable models:\n".to_owned());
    assert(crate::url_validator::views(out@) =~= seq!["\nAvailable models:\n"@]);
    let mut i: usize = 0;
    while i < models.len()
        invariant
            i <= models@.len(),
            crate::url_validator::views(out@) == seq!["\nAvailable models:\n"@] + Seq::new(
                i as nat,
                |k: int| "  - "@ + models@[k]@ + "\n"@,
            ),
        decreases models.len() - i,
    {
        let mut s = String::new();
        push_str(&mut s, "  - ");
        push_string(&mut s, &models[i]);
        push_str(&mut s, "\n");
        let ghost prev = crate::url_validator::views(out@);
        out.push(s);
        assert(crate::url_validator::views(out@) =~= prev.push(s@));
        i = i + 1;
        assert(crate::url_validator::views(out@) =~= seq!["\nAvailable models:\n"@] + Seq::new(
            i as nat,
            |k: int| "  - "@ + models@[k]@ + "\n"@,
        ));
    }
    let ghost prev = crate::url_validator::views(out@);
    out.push("\n".to_owned());
    assert(crate::url_validator::views(out@) =~= prev.push("\n"@));
    assert(crate::url_validator::views(out@) =~= spec_models_listing(
        crate::url_validator::views(models@),
    ));
    out
}

/// The error for a command that does not exist.
pub fn unknown_command_message(cmd: &str) -> (r: String)
    ensures
        r@ == unknown_command_text(cmd@),
{
    let mut s = String::new();
    push_str(&mut s, "Unknown command: /");
    push_str(&mut s, cmd);
    push_str(&mut s, ". Type /help for available commands");
    s
}

/// The report when no installation could be found; `update` tells the
/// update command from the check.
pub fn setup_failure_report(update: bool, error: &str) -> (r: Vec<TerminalLine>)
    ensures
        lines_view(r@) == spec_setup_failure(
            if update {
                "Update initialization failed: "@
            } else {
                "Update check failed: "@
            },
            error@,
        ),
{
    let mut out = no_lines();
    if update {
        put2(&mut out, LineKind::Error, "Update initialization failed: ", error);
    } else {
        put2(&mut out, LineKind::Error, "Update check failed: ", error);
    }
    put_setup_tips(&mut out);
    out
}

/// The report when the installation cannot be updated.
pub fn validation_failure_report(error: &str) -> (r: Vec<TerminalLine>)
    ensures
        lines_view(r@) == spec_validation_failure(error@),
{
    let mut out = no_lines();
    put2(&mut out, LineKind::Error, "Installation validation failed: ", error);
    put_install_tips(&mut out);
    out
}

/// The report of a check for updates.
pub fn check_report(result: &Result<UpdateStatus, String>, manager: &UpdateManager) -> (r: Vec<
    TerminalLine,
>)
    ensures
        lines_view(r@) == spec_check_report(
            match result {
                Ok(s) => Ok(s@),
                Err(e) => Err(e@),
            },
            manager@.install_dir,
            dest_binary_path(manager@),
        ),
{
    let mut out = no_lines();
    match result {
        Ok(UpdateStatus::UpToDate) => {
            put(&mut out, LineKind::Info, "✅ Your installation is up to date!");
            put2(&mut out, LineKind::Plain, "   Installation directory: ", manager.install_dir());
            let bin = manager.dest_binary();
            put2(&mut out, LineKind::Plain, "   Binary location: ", bin.as_str());
            assert(lines_view(out@) =~= spec_check_report(
                Ok(StatusView::UpToDate),
                manager@.install_dir,
                dest_binary_path(manager@),
            ));
        },
        Ok(UpdateStatus::UpdatesAvailable { commits_behind, changes }) => {
            let mut s = String::new();
            push_str(&mut s, "🆕 Updates available! ");
            push_string(&mut s, &u64_to_string(*commits_behind as u64));
            push_str(&mut s, " commit(s) behind the latest version.");
            put(&mut out, LineKind::Info, s.as_str());
            put(&mut out, LineKind::Plain, "\n📋 Recent changes:");
            let ghost head = lines_view(out@);
            let cv = chars_of(changes.as_str());
            let ls = split_lines(&cv);
            put_change_lines(&mut out, &ls, ls.len());
            proof {
                assert(char_vec_views(ls@).take(ls@.len() as int) =~= lines(changes@));
            }
            let ghost mid = lines_view(out@);
            put(&mut out, LineKind::Plain, "\n💡 Run '/update' to install these updates.");
            put(
                &mut out,
                LineKind::Plain,
                "   Note: The update process will require a few minutes to complete.",
            );
            assert(lines_view(out@) =~= spec_check_report(
                Ok(result->Ok_0@),
                manager@.install_dir,
                dest_binary_path(manager@),
            ));
        },
        Err(e) => {
            put2(&mut out, LineKind::Error, "Update check failed: ", e.as_str());
            put_network_tips(&mut out);
            put2(&mut out, LineKind::Plain, "  • Installation directory: ", manager.install_dir());
            assert(lines_view(out@) =~= spec_check_report(
                Err(e@),
                manager@.install_dir,
                dest_binary_path(manager@),
            ));
        },
    }
    out
}

/// The report of the check that precedes an update, and whether the update
/// goes ahead.
pub fn update_precheck_report(result: &Result<UpdateStatus, String>) -> (r: (
    Vec<TerminalLine>,
    bool,
))
    ensures
        ({
            let s = spec_update_precheck(
                match result {
                    Ok(s) => Ok(s@),
                    Err(e) => Err(e@),
                },
            );
            lines_view(r.0@) == s.0 && r.1 == s.1
        }),
{
    let mut out = no_lines();
    match result {
        Ok(UpdateStatus::UpToDate) => {
            put(&mut out, LineKind::Info, "✅ Your installation is already up to date!");
            put(&mut out, LineKind::Plain, "   No update is necessary at this time.");
            assert(lines_view(out@) =~= spec_update_precheck(Ok(StatusView::UpToDate)).0);
            (out, false)
        },
        Ok(UpdateStatus::UpdatesAvailable { commits_behind, changes }) => {
            let mut s = String::new();
            push_str(&mut s, "📦 Found ");
            push_string(&mut s, &u64_to_string(*commits_behind as u64));
            push_str(&mut s, " commit(s) to update. Proceeding with installation...");
            put(&mut out, LineKind::Info, s.as_str());
            let ghost head = lines_view(out@);
            let cv = chars_of(changes.as_str());
            let (a, b) = trim_bounds(&cv);
            if a < b {
                put(&mut out, LineKind::Plain, "\n📋 Changes to be applied:");
                let ls = split_lines(&cv);
                let n = if ls.len() < 3 {
                    ls.len()
                } else {
                    3
                };
                put_change_lines(&mut out, &ls, n);
                proof {
                    assert(char_vec_views(ls@).take(n as int) =~= first_lines(lines(changes@)));
                }
                if ls.len() > 3 {
                    put(&mut out, LineKind::Plain, "   ... and more");
                }
                put_empty(&mut out);
            }
            assert(lines_view(out@) =~= head + spec_preview(changes@));
            let ghost mid = lines_view(out@);
            put(
                &mut out,
                LineKind::Info,
                "⚠️  Important: Do not interrupt the update process once it begins.",
            );
            put(
                &mut out,
                LineKind::Plain,
                "   Interrupting during binary installation could leave your system in an inconsistent state.\n",
            );
            assert(lines_view(out@) =~= spec_update_precheck(Ok(result->Ok_0@)).0);
            (out, true)
        },
        Err(e) => {
            put2(&mut out, LineKind::Error, "Failed to check for updates: ", e.as_str());
            put_network_tips(&mut out);
            assert(lines_view(out@) =~= spec_update_precheck(Err(e@)).0);
            (out, false)
        },
    }
}

/// The report of an update.
pub fn update_result_report(result: &Result<String, String>, manager: &UpdateManager) -> (r: Vec<
    TerminalLine,
>)
    ensures
        lines_view(r@) == spec_update_result(
            match result {
                Ok(v) => Ok(v@),
                Err(e) => Err(e@),
            },
            manager@.install_dir,
            dest_binary_path(manager@),
        ),
{
    let mut out = no_lines();
    match result {
        Ok(v) => {
            put_empty(&mut out);
            put(&mut out, LineKind::Info, "🎉 Update completed successfully!");
            put2(&mut out, LineKind::Plain, "   New version: ", v.as_str());
            let bin = manager.dest_binary();
            put2(&mut out, LineKind::Plain, "   Installation location: ", bin.as_str());
            put_empty(&mut out);
            put(&mut out, LineKind::Info, "📝 Next steps:");
            put(&mut out, LineKind::Plain, "   • The CLI will now exit to apply the update");
            put(&mut out, LineKind::Plain, "   • Restart the CLI to use the new version");
            put(&mut out, LineKind::Plain, "   • Run '/help' to see any new commands or features");
            put_empty(&mut out);
            assert(lines_view(out@) =~= spec_update_result(
                Ok(v@),
                manager@.install_dir,
                dest_binary_path(manager@),
            ));
        },
        Err(e) => {
            put_empty(&mut out);
            put2(&mut out, LineKind::Error, "❌ Update failed: ", e.as_str());
            put(
                &mut out,
                LineKind::Info,
                "🛡️  Your existing installation remains unchanged and functional.",
            );
            put_empty(&mut out);
            put(&mut out, LineKind::Info, "🔧 Troubleshooting options:");
            put(&mut out, LineKind::Plain, "   • Check your internet connection and try again");
            put(&mut out, LineKind::Plain, "   • Ensure you have sufficient disk space");
            put(&mut out, LineKind::Plain, "   • Verify that Rust/Cargo is properly installed");
            put(&mut out, LineKind::Plain, "   • Check the installation directory permissions");
            put2(&mut out, LineKind::Plain, "   • Installation directory: ", manager.install_dir());
            put(
                &mut out,
                LineKind::Plain,
                "   • Consider running the update with administrator privileges if needed",
            );
            put_empty(&mut out);
            put(
                &mut out,
                LineKind::Info,
                "💡 For persistent issues, consider reinstalling from source.",
            );
            assert(lines_view(out@) =~= spec_update_result(
                Err(e@),
                manager@.install_dir,
                dest_binary_path(manager@),
            ));
        },
    }
    out
}

/// The assistant's reply kept in the conversation once a generation has
/// ended: the whole response when it completed; after a failure or an
/// interruption, what had arrived, if anything had.
pub open spec fn spec_reply_to_keep(end: GenerationEnd, response: Seq<char>) -> Option<Seq<char>> {
    if end == GenerationEnd::Completed || response.len() > 0 {
        Some(response)
    } else {
        None
    }
}

/// The reply kept in the conversation once a generation has ended.
pub fn reply_to_keep(end: GenerationEnd, response: String) -> (r: Option<String>)
    ensures
        match r {
            Some(x) => spec_reply_to_keep(end, response@) == Some(x@),
            None => spec_reply_to_keep(end, response@) is None,
        },
{
    let completed = match end {
        GenerationEnd::Completed => true,
        _ => false,
    };
    if completed || !response.as_str().is_empty() {
        Some(response)
    } else {
        None
    }
}

/// The first saved URL in which `name` occurs.
pub open spec fn saved_endpoint(saved: Seq<Seq<char>>, name: Seq<char>) -> Option<Seq<char>>
    decreases saved.len(),
{
    if saved.len() == 0 {
        None
    } else if crate::text::contains(saved[0], name) {
        Some(saved[0])
    } else {
        saved_endpoint(saved.drop_first(), name)
    }
}

/// Where `/switch <target>` goes: the target itself when it is a valid
/// backend URL, else the first saved endpoint whose URL holds the target
/// (a name such as its host); otherwise the target's validation error.
pub open spec fn spec_switch_target(target: Seq<char>, saved: Seq<Seq<char>>) -> Result<
    Seq<char>,
    Seq<char>,
> {
    match crate::url_validator::spec_validate(target) {
        Ok(()) => Ok(target),
        Err(v) => match saved_endpoint(saved, target) {
            Some(u) => Ok(u),
            None => Err(crate::url_validator::error_message(v)),
        },
    }
}

/// The endpoint that `/switch <target>` switches to, or why there is none.
pub fn switch_target(target: &str, saved: &Vec<String>) -> (r: Result<String, String>)
    ensures
        match spec_switch_target(target@, crate::url_validator::views(saved@)) {
            Ok(u) => (r matches Ok(x) && x@ == u),
            Err(e) => (r matches Err(m) && m@ == e),
        },
{
    match crate::url_validator::UrlValidator::validate_backend_url(target) {
        Ok(()) => Ok(target.to_owned()),
        Err(v) => {
            let ghost sv = crate::url_validator::views(saved@);
            let mut i: usize = 0;
            assert(sv.skip(0) =~= sv);
            while i < saved.len()
                invariant
                    i <= saved@.len(),
                    sv == crate::url_validator::views(saved@),
                    crate::url_validator::spec_validate(target@) == Err::<(), crate::url_validator::UrlValidationErrorView>(v@),
                    saved_endpoint(sv, target@) == saved_endpoint(sv.skip(i as int), target@),
                decreases saved.len() - i,
            {
                assert(sv.skip(i as int)[0] == sv[i as int]);
                assert(sv.skip(i as int).drop_first() =~= sv.skip(i + 1));
                let cv = chars_of(saved[i].as_str());
                assert(sv[i as int] == saved@[i as int]@);
                if crate::text::contains_str(&cv, target) {
                    assert(saved_endpoint(sv.skip(i as int), target@) == Some(sv[i as int]));
                    let u = saved[i].clone();
                    assert(u@ == sv[i as int]);
                    return Ok(u);
                }
                i = i + 1;
            }
            assert(sv.skip(i as int) =~= Seq::<Seq<char>>::empty());
            Err(v.to_string())
        },
    }
}

/// A valid choice always names one of the listed models.
pub proof fn law_selection_in_range(input: Seq<char>, count: usize)
    ensures
        spec_select_model(input, count) matches Ok(i) ==> i < count,
{
}

/// Typing the number a model is listed with chooses that model: for a
/// listing of `count` models, the number `n` (1 to `count`), as the listing
/// writes it and with any surrounding whitespace, selects index `n - 1`,
/// the model on the listing's line `n`.
pub proof fn law_listed_number_selects_that_model(
    models: Seq<Seq<char>>,
    n: nat,
    w1: Seq<char>,
    w2: Seq<char>,
)
    requires
        1 <= n <= models.len() <= usize::MAX,
        crate::text::all_ws(w1),
        crate::text::all_ws(w2),
    ensures
        spec_select_model(w1 + decimal(n) + w2, models.len() as usize) == Ok::<usize, Seq<char>>(
            (n - 1) as usize,
        ),
        spec_model_choices(models)[n - 1] == "  "@ + decimal(n) + ". "@ + models[n - 1],
{
    let d = decimal(n);
    crate::text::lemma_decimal_digits(n);
    assert(crate::text::is_digit(d[0]));
    assert(crate::text::is_digit(d[d.len() - 1]));
    crate::text::lemma_trim_padded(w1, d, w2);
    assert(crate::text::unsigned_digits(d) == d);
}

} // verus!
