//! Slash commands of the interactive session.
use vstd::prelude::*;
use crate::text::{
    chars_of, char_vec_views, eq_str, fold_case, lower_case, push_char, push_str, push_string, string_from_chars,
    split_whitespace, starts_with, starts_with_str, string_from_range, trim, all_ascii, all_ws,
    ascii_lower, ascii_lower_char, is_ws, no_ws, lemma_trim_padded, lemma_words_single, lemma_words_pair,
    trim_bounds, words,
};

verus! {

/// Commands that can be executed in the CLI.
#[derive(Debug, Clone, PartialEq, Eq)]
pub enum Command {
    /// Exit the application
    Exit,
    /// Quit the application (alias for Exit)
    Quit,
    /// Clear the terminal screen
    Clear,
    /// Start a new conversation
    New,
    /// Display help information
    Help,
    /// List available models
    Models,
    /// Update the CLI to the latest version
    Update,
    /// Check for available updates
    UpdateCheck,
    /// Start local Ollama instance and switch to it
    StartLocal,
    /// Switch to another endpoint: a URL or the name of a saved endpoint
    Switch(String),
    /// Unknown command
    Unknown(String),
}

/// Mathematical model of `Command`.
pub enum CommandView {
    Exit,
    Quit,
    Clear,
    New,
    Help,
    Models,
    Update,
    UpdateCheck,
    StartLocal,
    Switch(Seq<char>),
    Unknown(Seq<char>),
}

impl View for Command {
    type V = CommandView;

    open spec fn view(&self) -> CommandView {
        match self {
            Command::Exit => CommandView::Exit,
            Command::Quit => CommandView::Quit,
            Command::Clear => CommandView::Clear,
            Command::New => CommandView::New,
            Command::Help => CommandView::Help,
            Command::Models => CommandView::Models,
            Command::Update => CommandView::Update,
            Command::UpdateCheck => CommandView::UpdateCheck,
            Command::StartLocal => CommandView::StartLocal,
            Command::Switch(t) => CommandView::Switch(t@),
            Command::Unknown(s) => CommandView::Unknown(s@),
        }
    }
}

/// The command text: the trimmed input without one leading `/`.
pub open spec fn command_text(input: Seq<char>) -> Seq<char> {
    if starts_with(trim(input), "/"@) {
        trim(input).skip(1)
    } else {
        trim(input)
    }
}

/// The command that a command text denotes, given its lower-case form.
/// `switch <target>` switches endpoints; `switch local` is `start-local`.
pub open spec fn command_of(command: Seq<char>, lower: Seq<char>) -> CommandView {
    if starts_with(lower, "update"@) {
        if words(command).len() > 1 && words(command)[1] == "--check"@ {
            CommandView::UpdateCheck
        } else if words(command).len() == 1 {
            CommandView::Update
        } else {
            CommandView::Unknown(command)
        }
    } else if words(command).len() == 2 && fold_case(words(command)[0]) == "switch"@ {
        if fold_case(words(command)[1]) == "local"@ {
            CommandView::StartLocal
        } else {
            CommandView::Switch(words(command)[1])
        }
    } else if lower == "exit"@ {
        CommandView::Exit
    } else if lower == "quit"@ {
        CommandView::Quit
    } else if lower == "clear"@ {
        CommandView::Clear
    } else if lower == "new"@ {
        CommandView::New
    } else if lower == "help"@ {
        CommandView::Help
    } else if lower == "models"@ {
        CommandView::Models
    } else if lower == "start-local"@ {
        CommandView::StartLocal
    } else {
        CommandView::Unknown(command)
    }
}

/// What `Command::parse` answers for an input line.
pub open spec fn spec_parse(input: Seq<char>) -> CommandView {
    command_of(command_text(input), fold_case(command_text(input)))
}

/// The name of a command, as `/help` lists it.
pub open spec fn command_name(c: CommandView) -> Seq<char> {
    match c {
        CommandView::Exit => "exit"@,
        CommandView::Quit => "quit"@,
        CommandView::Clear => "clear"@,
        CommandView::New => "new"@,
        CommandView::Help => "help"@,
        CommandView::Models => "models"@,
        CommandView::Update => "update"@,
        CommandView::UpdateCheck => "update --check"@,
        CommandView::StartLocal => "start-local"@,
        CommandView::Switch(t) => "switch "@ + t,
        CommandView::Unknown(s) => s,
    }
}

/// The description of a command.
pub open spec fn command_description(c: CommandView) -> Seq<char> {
    match c {
        CommandView::Exit => "Exit the application"@,
        CommandView::Quit => "Quit the application (alias for /exit)"@,
        CommandView::Clear => "Clear the terminal screen"@,
        CommandView::New => "Start a new conversation"@,
        CommandView::Help => "Display this help message"@,
        CommandView::Models => "List available models from the backend"@,
        CommandView::Update => "Update the CLI to the latest version"@,
        CommandView::UpdateCheck => "Check for available updates"@,
        CommandView::StartLocal => "Start local Ollama instance and switch to it"@,
        CommandView::Switch(_) => "Switch to a URL, a saved endpoint, or local"@,
        CommandView::Unknown(_) => "Unknown command"@,
    }
}

fn string_of(s: &str) -> (r: String)
    ensures
        r@ == s@,
{
    let mut r = String::new();
    push_str(&mut r, s);
    r
}

impl Command {
    /// Parses an input line into a command. Commands are case-insensitive;
    /// surrounding whitespace and one leading `/` are ignored.
    pub fn parse(input: &str) -> (c: Command)
        ensures
            c@ == spec_parse(input@),
    {
        let v = chars_of(input);
        let (a, b) = trim_bounds(&v);
        let t = string_from_range(&v, a, b);
        let tv = chars_of(t.as_str());
        let command = if starts_with_str(&tv, "/") {
            proof {
                reveal_strlit("/");
            }
            string_from_range(&tv, 1, tv.len())
        } else {
            string_from_range(&tv, 0, tv.len())
        };
        proof {
            assert(tv@.subrange(1, tv@.len() as int) =~= tv@.skip(1));
            assert(tv@.subrange(0, tv@.len() as int) =~= tv@);
        }
        let lower = lower_case(command.as_str());
        Self::from_command_text(command, lower)
    }

    /// The command that a command text denotes, given its lower-case form
    /// (the text after the `/`, as `parse` computes both).
    pub fn from_command_text(command: String, lower: String) -> (c: Command)
        ensures
            c@ == command_of(command@, lower@),
    {
        let lv = chars_of(lower.as_str());
        if starts_with_str(&lv, "update") {
            let cv = chars_of(command.as_str());
            let parts = split_whitespace(&cv);
            proof {
                assert(char_vec_views(parts@).len() == parts@.len());
            }
            if parts.len() > 1 && eq_str(&parts[1], "--check") {
                return Command::UpdateCheck;
            }
            if parts.len() == 1 {
                return Command::Update;
            }
            return Command::Unknown(command);
        }
        let cv = chars_of(command.as_str());
        let parts = split_whitespace(&cv);
        proof {
            assert(char_vec_views(parts@).len() == parts@.len());
        }
        if parts.len() == 2 {
            let first = string_from_chars(&parts[0]);
            let first_lower = lower_case(first.as_str());
            let flv = chars_of(first_lower.as_str());
            if eq_str(&flv, "switch") {
                let target = string_from_chars(&parts[1]);
                let target_lower = lower_case(target.as_str());
                let tlv = chars_of(target_lower.as_str());
                if eq_str(&tlv, "local") {
                    return Command::StartLocal;
                }
                return Command::Switch(target);
            }
        }
        if eq_str(&lv, "exit") {
            Command::Exit
        } else if eq_str(&lv, "quit") {
            Command::Quit
        } else if eq_str(&lv, "clear") {
            Command::Clear
        } else if eq_str(&lv, "new") {
            Command::New
        } else if eq_str(&lv, "help") {
            Command::Help
        } else if eq_str(&lv, "models") {
            Command::Models
        } else if eq_str(&lv, "start-local") {
            Command::StartLocal
        } else {
            Command::Unknown(command)
        }
    }

    /// The description of the command.
    pub fn description(&self) -> (s: &'static str)
        ensures
            s@ == command_description(self@),
    {
        match self {
            Command::Exit => "Exit the application",
            Command::Quit => "Quit the application (alias for /exit)",
            Command::Clear => "Clear the terminal screen",
            Command::New => "Start a new conversation",
            Command::Help => "Display this help message",
            Command::Models => "List available models from the backend",
            Command::Update => "Update the CLI to the latest version",
            Command::UpdateCheck => "Check for available updates",
            Command::StartLocal => "Start local Ollama instance and switch to it",
            Command::Switch(_) => "Switch to a URL, a saved endpoint, or local",
            Command::Unknown(_) => "Unknown command",
        }
    }

    /// The command name as a string.
    pub fn name(&self) -> (s: String)
        ensures
            s@ == command_name(self@),
    {
        match self {
            Command::Exit => string_of("exit"),
            Command::Quit => string_of("quit"),
            Command::Clear => string_of("clear"),
            Command::New => string_of("new"),
            Command::Help => string_of("help"),
            Command::Models => string_of("models"),
            Command::Update => string_of("update"),
            Command::UpdateCheck => string_of("update --check"),
            Command::StartLocal => string_of("start-local"),
            Command::Switch(t) => {
                let mut s = String::new();
                push_str(&mut s, "switch ");
                push_string(&mut s, t);
                s
            },
            Command::Unknown(cmd) => {
                let mut s = String::new();
                push_string(&mut s, cmd);
                s
            },
        }
    }
}

/// `s` left-aligned in a field of `width` characters (`{:<width}`).
pub open spec fn pad_right(s: Seq<char>, width: nat) -> Seq<char> {
    if s.len() >= width {
        s
    } else {
        s + Seq::new((width - s.len()) as nat, |i: int| ' ')
    }
}

/// One line of the help text.
pub open spec fn help_line(c: CommandView) -> Seq<char> {
    "  /"@ + pad_right(command_name(c), 15) + " - "@ + command_description(c) + "\n"@
}

/// The commands listed by `/help`, in order.
pub open spec fn help_commands() -> Seq<CommandView> {
    seq![
        CommandView::Exit,
        CommandView::Quit,
        CommandView::Clear,
        CommandView::New,
        CommandView::Help,
        CommandView::Models,
        CommandView::Update,
        CommandView::UpdateCheck,
        CommandView::StartLocal,
        CommandView::Switch("<target>"@),
    ]
}

/// The help text: a heading and one line per command.
pub open spec fn help_text_upto(n: int) -> Seq<char>
    decreases n,
{
    if n <= 0 {
        "Available commands:\n\n"@
    } else {
        help_text_upto(n - 1) + help_line(help_commands()[n - 1])
    }
}

fn push_help_line(s: &mut String, cmd: &Command)
    ensures
        final(s)@ == old(s)@ + help_line(cmd@),
{
    push_str(s, "  /");
    let name = cmd.name();
    let nv = chars_of(name.as_str());
    push_string(s, &name);
    let mut k = nv.len();
    let ghost base = s@;
    while k < 15
        invariant
            nv.len() <= k,
            k <= 15 || k == nv.len(),
            nv@ == command_name(cmd@),
            s@ == base + Seq::new((k - nv.len()) as nat, |i: int| ' '),
        decreases 15 - k,
    {
        push_char(s, ' ');
        k = k + 1;
        assert(s@ =~= base + Seq::new((k - nv.len()) as nat, |i: int| ' '));
    }
    proof {
        if nv.len() >= 15 {
            assert(s@ =~= base);
        }
        assert(s@ =~= old(s)@ + "  /"@ + pad_right(command_name(cmd@), 15));
    }
    push_str(s, " - ");
    push_str(s, cmd.description());
    push_str(s, "\n");
    assert(s@ =~= old(s)@ + help_line(cmd@));
}

/// The help text listing every command with its description.
pub fn display_help() -> (s: String)
    ensures
        s@ == help_text_upto(10),
{
    let mut help = String::new();
    push_str(&mut help, "Available commands:\n\n");
    let commands = vec![
        Command::Exit,
        Command::Quit,
        Command::Clear,
        Command::New,
        Command::Help,
        Command::Models,
        Command::Update,
        Command::UpdateCheck,
        Command::StartLocal,
        Command::Switch("<target>".to_owned()),
    ];
    let mut i: usize = 0;
    while i < commands.len()
        invariant
            commands@.len() == 10,
            forall|k: int| 0 <= k < 10 ==> #[trigger] commands@[k]@ == help_commands()[k],
            i <= 10,
            help@ == help_text_upto(i as int),
        decreases 10 - i,
    {
        push_help_line(&mut help, &commands[i]);
        i = i + 1;
    }
    help
}

/// The command words that name a command on their own.
pub open spec fn command_word(k: Seq<char>) -> bool {
    ||| k == "exit"@
    ||| k == "quit"@
    ||| k == "clear"@
    ||| k == "new"@
    ||| k == "help"@
    ||| k == "models"@
    ||| k == "start-local"@
    ||| k == "update"@
}

/// `v` is `k` with its ASCII letters in any case.
pub open spec fn recased(v: Seq<char>, k: Seq<char>) -> bool {
    all_ascii(v) && ascii_lower(v) == k
}

proof fn lemma_command_word_facts(k: Seq<char>)
    requires
        command_word(k),
    ensures
        k.len() > 0,
        no_ws(k),
        all_ascii(k),
        ascii_lower(k) == k,
        k[0] != '/',
        (k == "update"@) == starts_with(k, "update"@),
{
    reveal_strlit("exit");
    reveal_strlit("quit");
    reveal_strlit("clear");
    reveal_strlit("new");
    reveal_strlit("help");
    reveal_strlit("models");
    reveal_strlit("start-local");
    reveal_strlit("update");
    assert(ascii_lower(k) =~= k);
    if k != "update"@ && starts_with(k, "update"@) {
        assert(k.subrange(0, 6)[0] == k[0]);
    }
    if k == "update"@ {
        assert(k.subrange(0, 6) =~= "update"@);
    }
}

/// What a command text in any letter case denotes, when its lower-case
/// form is a command word: the same as the command word itself.
proof fn lemma_recased_command_text(k: Seq<char>, v: Seq<char>)
    requires
        command_word(k),
        recased(v, k),
    ensures
        v.len() > 0,
        no_ws(v),
        v[0] != '/',
        fold_case(v) == k,
        command_of(v, fold_case(v)) == command_of(k, k),
        !(command_of(k, k) is Unknown),
{
    lemma_command_word_facts(k);
    assert(v.len() == k.len());
    assert forall|i: int| 0 <= i < v.len() implies !is_ws(#[trigger] v[i]) by {
        assert(ascii_lower(v)[i] == k[i]);
        if is_ws(v[i]) {
            assert(ascii_lower_char(v[i]) == v[i]);
        }
    }
    assert(ascii_lower(v)[0] == k[0]);
    lemma_words_single(v);
    lemma_words_single(k);
    reveal_strlit("exit");
    reveal_strlit("quit");
    reveal_strlit("clear");
    reveal_strlit("new");
    reveal_strlit("help");
    reveal_strlit("models");
    reveal_strlit("start-local");
    reveal_strlit("update");
}

/// Letter case, one leading `/` and surrounding whitespace do not change
/// which command a command word names, and it names a command.
pub proof fn law_parse_ignores_case_slash_and_padding(
    k: Seq<char>,
    v: Seq<char>,
    w1: Seq<char>,
    w2: Seq<char>,
)
    requires
        command_word(k),
        recased(v, k),
        all_ws(w1),
        all_ws(w2),
    ensures
        spec_parse(w1 + "/"@ + v + w2) == spec_parse(k),
        spec_parse(w1 + v + w2) == spec_parse(k),
        !(spec_parse(k) is Unknown),
{
    reveal_strlit("/");
    lemma_command_word_facts(k);
    lemma_recased_command_text(k, v);
    lemma_recased_command_text(k, k);
    let empty = Seq::<char>::empty();
    // The command word itself.
    lemma_trim_padded(empty, k, empty);
    assert(empty + k + empty =~= k);
    if starts_with(k, "/"@) {
        assert(k.subrange(0, 1)[0] == k[0]);
    }
    assert(command_text(k) == k);
    // Without a slash.
    lemma_trim_padded(w1, v, w2);
    if starts_with(v, "/"@) {
        assert(v.subrange(0, 1)[0] == v[0]);
    }
    assert(command_text(w1 + v + w2) == v);
    // With a slash.
    let x = "/"@ + v;
    assert(x[0] == '/');
    assert(x[x.len() - 1] == v[v.len() - 1]);
    lemma_trim_padded(w1, x, w2);
    assert(w1 + "/"@ + v + w2 =~= w1 + x + w2);
    assert(x.subrange(0, 1) =~= "/"@);
    assert(x.skip(1) =~= v);
    assert(command_text(w1 + "/"@ + v + w2) == v);
}

/// The command that `/help` names: the command word of each command.
pub open spec fn named_command(c: CommandView) -> bool {
    ||| c == CommandView::Exit
    ||| c == CommandView::Quit
    ||| c == CommandView::Clear
    ||| c == CommandView::New
    ||| c == CommandView::Help
    ||| c == CommandView::Models
    ||| c == CommandView::Update
    ||| c == CommandView::UpdateCheck
    ||| c == CommandView::StartLocal
}

/// A command's name parses back to the command, with or without the
/// leading `/`; an unknown command's name is its text as typed.
pub proof fn law_name_parses_back(c: CommandView, s: Seq<char>)
    requires
        named_command(c),
    ensures
        spec_parse("/"@ + command_name(c)) == c,
        spec_parse(command_name(c)) == c,
        command_name(CommandView::Unknown(s)) == s,
{
    reveal_strlit("exit");
    reveal_strlit("quit");
    reveal_strlit("clear");
    reveal_strlit("new");
    reveal_strlit("help");
    reveal_strlit("models");
    reveal_strlit("start-local");
    reveal_strlit("update");
    reveal_strlit("update --check");
    reveal_strlit("--check");
    reveal_strlit("/");
    let empty = Seq::<char>::empty();
    let n = command_name(c);
    if c != CommandView::UpdateCheck {
        assert(command_word(n));
        lemma_command_word_facts(n);
        law_parse_ignores_case_slash_and_padding(n, n, empty, empty);
        assert(empty + "/"@ + n + empty =~= "/"@ + n);
        assert(empty + n + empty =~= n);
        lemma_recased_command_text(n, n);
        lemma_words_single(n);
        lemma_trim_padded(empty, n, empty);
        if starts_with(n, "/"@) {
            assert(n.subrange(0, 1)[0] == n[0]);
        }
        assert(command_text(n) == n);
        assert(spec_parse(n) == command_of(n, n));
        assert(command_of(n, n) == c);
        assert(spec_parse("/"@ + n) == spec_parse(empty + "/"@ + n + empty));
    } else {
        let a = "update"@;
        let b = "--check"@;
        assert(n =~= a + seq![' '] + b);
        lemma_words_pair(a, b);
        assert(!is_ws(n[0]) && !is_ws(n[n.len() - 1]));
        assert(all_ascii(n));
        assert(ascii_lower(n) =~= n);
        assert(fold_case(n) == n);
        assert(n.subrange(0, 6) =~= a);
        lemma_trim_padded(empty, n, empty);
        assert(empty + n + empty =~= n);
        assert(command_text(n) == n);
        let x = "/"@ + n;
        lemma_trim_padded(empty, x, empty);
        assert(empty + x + empty =~= x);
        assert(x.subrange(0, 1) =~= "/"@);
        assert(x.skip(1) =~= n);
        assert(command_text(x) == n);
    }
}

} // verus!
