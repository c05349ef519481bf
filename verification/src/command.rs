//! Command records: what a line asks for once it has been split into words.

use crate::lexer::{split_words, words_of, SyntaxError};
use crate::text::{is_blank, same_text, texts};
use vstd::prelude::*;

verus! {

/// What kind of command a name stands for. `Unknown` is every name that is
/// not a builtin: the name of an external program.
#[derive(Debug, Clone, Copy, PartialEq, Eq, Structural)]
pub enum CommandKind {
    Cat,
    Cd,
    Echo,
    Exit,
    Unknown,
    Pwd,
    Type,
}

/// The name by which a builtin is called; `Unknown` has none and yields the
/// empty text.
pub open spec fn builtin_name(kind: CommandKind) -> Seq<char> {
    match kind {
        CommandKind::Cat => seq!['c', 'a', 't'],
        CommandKind::Cd => seq!['c', 'd'],
        CommandKind::Echo => seq!['e', 'c', 'h', 'o'],
        CommandKind::Exit => seq!['e', 'x', 'i', 't'],
        CommandKind::Pwd => seq!['p', 'w', 'd'],
        CommandKind::Type => seq!['t', 'y', 'p', 'e'],
        CommandKind::Unknown => Seq::empty(),
    }
}

/// The kind that `name` stands for: the builtin of exactly that name, or
/// `Unknown`.
pub open spec fn classify(name: Seq<char>) -> CommandKind {
    if name == builtin_name(CommandKind::Cat) {
        CommandKind::Cat
    } else if name == builtin_name(CommandKind::Cd) {
        CommandKind::Cd
    } else if name == builtin_name(CommandKind::Echo) {
        CommandKind::Echo
    } else if name == builtin_name(CommandKind::Exit) {
        CommandKind::Exit
    } else if name == builtin_name(CommandKind::Pwd) {
        CommandKind::Pwd
    } else if name == builtin_name(CommandKind::Type) {
        CommandKind::Type
    } else {
        CommandKind::Unknown
    }
}

/// Classification is exact: a name is classified as a builtin only if it is
/// that builtin's name, character for character, and each builtin's name is
/// classified as that builtin.
pub proof fn lemma_classify_exact(name: Seq<char>, kind: CommandKind)
    requires
        kind != CommandKind::Unknown,
    ensures
        classify(name) == kind <==> name == builtin_name(kind),
{
    assert(builtin_name(CommandKind::Cd).len() == 2);
    assert(builtin_name(CommandKind::Cat)[0] == 'c');
    assert(builtin_name(CommandKind::Pwd).len() == 3);
    assert(builtin_name(CommandKind::Echo)[1] == 'c');
    assert(builtin_name(CommandKind::Exit)[1] == 'x');
    assert(builtin_name(CommandKind::Type)[1] == 'y');
    assert(builtin_name(CommandKind::Cd)[0] == 'c');
    assert(builtin_name(CommandKind::Pwd)[0] == 'p');
}

impl CommandKind {
    /// Classifies a command name.
    pub fn new(s: &str) -> (kind: CommandKind)
        ensures
            kind == classify(s@),
    {
        proof {
            reveal_strlit("cat");
            assert("cat"@ =~= builtin_name(CommandKind::Cat));
            reveal_strlit("cd");
            reveal_strlit("echo");
            reveal_strlit("exit");
            reveal_strlit("pwd");
            reveal_strlit("type");
            assert("cd"@ =~= builtin_name(CommandKind::Cd));
            assert("echo"@ =~= builtin_name(CommandKind::Echo));
            assert("exit"@ =~= builtin_name(CommandKind::Exit));
            assert("pwd"@ =~= builtin_name(CommandKind::Pwd));
            assert("type"@ =~= builtin_name(CommandKind::Type));
        }
        if same_text(s, "cat") {
            CommandKind::Cat
        } else if same_text(s, "cd") {
            CommandKind::Cd
        } else if same_text(s, "echo") {
            CommandKind::Echo
        } else if same_text(s, "exit") {
            CommandKind::Exit
        } else if same_text(s, "pwd") {
            CommandKind::Pwd
        } else if same_text(s, "type") {
            CommandKind::Type
        } else {
            CommandKind::Unknown
        }
    }
}

/// A command: its kind and its arguments in the order in which the line gave
/// them. For a builtin the arguments are its operands; for `Unknown` the
/// first argument is the program's name and the others are its operands.
#[derive(Debug, PartialEq, Eq)]
pub struct ShellCommand {
    pub kind: CommandKind,
    pub args: Vec<String>,
}

/// A command as contracts see it.
pub struct CommandView {
    pub kind: CommandKind,
    pub args: Seq<Seq<char>>,
}

impl View for ShellCommand {
    type V = CommandView;

    open spec fn view(&self) -> CommandView {
        CommandView { kind: self.kind, args: texts(self.args@) }
    }
}

impl ShellCommand {
    pub fn new(kind: CommandKind, args: Vec<String>) -> (cmd: ShellCommand)
        ensures
            cmd.kind == kind,
            cmd.args == args,
    {
        Self { kind, args }
    }
}

/// Whether an external command names its program: a record of kind
/// `Unknown` starts with a name that is no builtin's.
pub open spec fn names_its_program(cmd: CommandView) -> bool {
    cmd.kind == CommandKind::Unknown ==> cmd.args.len() > 0 && classify(cmd.args[0])
        == CommandKind::Unknown
}

/// The command that a line's words make up: none without words; else the
/// first word names the command, and the words after it are its operands. A
/// name that is no builtin's stays in front of the operands.
pub open spec fn command_of(words: Seq<Seq<char>>) -> Option<CommandView> {
    if words.len() == 0 {
        None
    } else {
        let kind = classify(words[0]);
        Some(
            CommandView {
                kind,
                args: if kind == CommandKind::Unknown {
                    words
                } else {
                    words.drop_first()
                },
            },
        )
    }
}

/// What a line asks for: a command, nothing, or a syntax error.
pub open spec fn parse_line(line: Seq<char>) -> Result<Option<CommandView>, SyntaxError> {
    match words_of(line) {
        Ok(words) => Ok(command_of(words)),
        Err(e) => Err(e),
    }
}

/// A command that may be absent, as contracts see it.
pub open spec fn view_of(cmd: Option<ShellCommand>) -> Option<CommandView> {
    match cmd {
        Some(c) => Some(c@),
        None => None,
    }
}

/// Makes a command of the words of a line.
pub fn command_from_words(words: Vec<String>) -> (r: Option<ShellCommand>)
    ensures
        view_of(r) == command_of(texts(words@)),
        r matches Some(cmd) ==> names_its_program(cmd@),
{
    if words.len() == 0 {
        return None;
    }
    let kind = CommandKind::new(words[0].as_str());
    let mut args = words;
    if kind != CommandKind::Unknown {
        args.remove(0);
        assert(texts(args@) =~= texts(words@).drop_first());
    }
    Some(ShellCommand::new(kind, args))
}

/// Reads one line: splits it into words and makes a command of them. A
/// line of white space alone, the empty line among them, asks for nothing.
pub fn parse_input_string(s: String) -> (r: Result<Option<ShellCommand>, SyntaxError>)
    ensures
        match r {
            Ok(cmd) => parse_line(s@) == Ok::<Option<CommandView>, SyntaxError>(view_of(cmd)),
            Err(e) => parse_line(s@) == Err::<Option<CommandView>, SyntaxError>(e),
        },
        r matches Ok(Some(cmd)) ==> names_its_program(cmd@),
        is_blank(s@) ==> r matches Ok(None),
{
    match split_words(s.as_str()) {
        Ok(words) => Ok(command_from_words(words)),
        Err(e) => Err(e),
    }
}

} // verus!
