use shell_core::builtins::echo_line;
use shell_core::command::{command_from_words, parse_input_string, CommandKind, ShellCommand};
use shell_core::cursor::Cursor;
use shell_core::lexer::{
    read_double_quoted_string, read_single_quoted_string, split_words, SyntaxError,
};
use shell_core::text::{chars_of, is_whitespace, same_text};

fn parse(line: &str) -> ShellCommand {
    parse_input_string(String::from(line)).unwrap().unwrap()
}

fn words(line: &str) -> Vec<String> {
    split_words(line).unwrap()
}

#[test]
fn double_quoted() {
    let s = String::from("/tmp/qux/'f  \\92'\"");

    let mut chars = Cursor::new(&s);

    let mut res = String::new();

    let closed = read_double_quoted_string(&mut chars, &mut res);

    assert_eq!(res, String::from("/tmp/qux/'f  \\92'"));
    assert_eq!(closed, Ok(()));
    assert_eq!(chars.peek(), None);
}

#[test]
fn escapes() {
    let s = String::from("echo shell\\ \\ \\ \\ example\n");

    let res = parse_input_string(s).unwrap().unwrap();

    assert_eq!(res.args.get(0).unwrap(), "shell    example");
    assert_eq!(res.args.len(), 1);
    assert_eq!(res.kind, CommandKind::Echo);
}

#[test]
fn test_input_parser() {
    let s = String::from("echo hok'stuff'bok\n");
    let result = parse_input_string(s).unwrap().unwrap();
    assert_eq!(result.kind, CommandKind::Echo);
    assert_eq!(result.args.len(), 1);
    assert_eq!(result.args.get(0).unwrap(), "hokstuffbok");

    let s = String::from("echo 'hok  bonk'    blurp\n");
    let result = parse_input_string(s).unwrap().unwrap();
    assert_eq!(result.kind, CommandKind::Echo);
    assert_eq!(result.args.len(), 2);
    assert_eq!(result.args.get(0).unwrap(), "hok  bonk");
    assert_eq!(result.args.get(1).unwrap(), "blurp");
}

#[test]
fn blank_lines_ask_for_nothing() {
    for line in ["", "\n", " ", "   \n", "\t \r\n", "\u{a0}\u{2003}\u{3000}\n"] {
        assert_eq!(parse_input_string(String::from(line)), Ok(None), "line {:?}", line);
        assert_eq!(split_words(line), Ok(vec![]));
    }
}

#[test]
fn quotes_join_and_keep_spaces() {
    let cmd = parse("echo a'b c'd\n");
    assert_eq!(cmd.kind, CommandKind::Echo);
    assert_eq!(cmd.args, vec!["ab cd"]);
}

#[test]
fn outer_white_space_collapses_inner_stays() {
    let cmd = parse("echo 'hok  bonk'    blurp\n");
    assert_eq!(cmd.args, vec!["hok  bonk", "blurp"]);
}

#[test]
fn double_quotes_unescape_three_characters_only() {
    assert_eq!(words("\"a\\\\b\""), vec!["a\\b"]);
    assert_eq!(words("\"a\\$b\""), vec!["a$b"]);
    assert_eq!(words("\"a\\\"b\""), vec!["a\"b"]);
    assert_eq!(words("\"a\\nb\""), vec!["a\\nb"]);
    assert_eq!(words("\"a\\'b\""), vec!["a\\'b"]);
    assert_eq!(words("\"a\\ b\""), vec!["a\\ b"]);
    assert_eq!(words("\"/tmp/qux/'f  \\92'\""), vec!["/tmp/qux/'f  \\92'"]);
    assert_eq!(words("\"it's\""), vec!["it's"]);
}

#[test]
fn single_quotes_keep_everything() {
    assert_eq!(words("'a \\ \"b\" $c\\'"), vec!["a \\ \"b\" $c\\"]);
    assert_eq!(words("'a\nb'"), vec!["a\nb"]);
}

#[test]
fn bare_backslash_takes_the_next_character() {
    assert_eq!(words("a\\ b"), vec!["a b"]);
    assert_eq!(words("\\'a\\'"), vec!["'a'"]);
    assert_eq!(words("\\\"a"), vec!["\"a"]);
    assert_eq!(words("a\\\\b"), vec!["a\\b"]);
    assert_eq!(words("a\\nb"), vec!["anb"]);
    assert_eq!(words("a\\\n"), vec!["a\n"]);
}

#[test]
fn words_split_on_white_space() {
    assert_eq!(words("  a\tb \u{3000} c\n"), vec!["a", "b", "c"]);
    assert_eq!(words("a b"), vec!["a", "b"]);
    assert_eq!(words("a\u{200b}b"), vec!["a\u{200b}b"]);
}

#[test]
fn no_word_is_empty() {
    assert_eq!(words("a'' b"), vec!["a", "b"]);
    assert_eq!(words("'' \"\" a"), vec!["a"]);
    assert_eq!(words("''"), Vec::<String>::new());
    assert_eq!(parse_input_string(String::from("\"\"\n")), Ok(None));
}

#[test]
fn unfinished_lines_are_syntax_errors() {
    assert_eq!(split_words("echo 'abc"), Err(SyntaxError::UnterminatedSingleQuote));
    assert_eq!(split_words("'"), Err(SyntaxError::UnterminatedSingleQuote));
    assert_eq!(split_words("echo \"abc"), Err(SyntaxError::UnterminatedDoubleQuote));
    assert_eq!(split_words("echo \"abc\\"), Err(SyntaxError::UnterminatedDoubleQuote));
    assert_eq!(split_words("echo \"abc\\\""), Err(SyntaxError::UnterminatedDoubleQuote));
    assert_eq!(split_words("echo abc\\"), Err(SyntaxError::DanglingEscape));
    assert_eq!(split_words("echo \"a'\n"), Err(SyntaxError::UnterminatedDoubleQuote));
    assert_eq!(split_words("echo 'a\"\n"), Err(SyntaxError::UnterminatedSingleQuote));
    assert_eq!(
        parse_input_string(String::from("echo 'abc\n")),
        Err(SyntaxError::UnterminatedSingleQuote)
    );
    assert_eq!(
        parse_input_string(String::from("echo \"abc\n")),
        Err(SyntaxError::UnterminatedDoubleQuote)
    );
    assert_eq!(parse_input_string(String::from("echo abc\\")), Err(SyntaxError::DanglingEscape));
}

#[test]
fn a_line_needs_no_line_end() {
    assert_eq!(parse("echo a b").args, vec!["a", "b"]);
    assert_eq!(parse("pwd").kind, CommandKind::Pwd);
}

#[test]
fn builtins_keep_operands_only() {
    let cmd = parse("echo\n");
    assert_eq!(cmd.kind, CommandKind::Echo);
    assert!(cmd.args.is_empty());
    let cmd = parse("echo \n");
    assert!(cmd.args.is_empty());
    let cmd = parse("cd /tmp\n");
    assert_eq!(cmd.kind, CommandKind::Cd);
    assert_eq!(cmd.args, vec!["/tmp"]);
    let cmd = parse("type echo ls\n");
    assert_eq!(cmd.kind, CommandKind::Type);
    assert_eq!(cmd.args, vec!["echo", "ls"]);
}

#[test]
fn external_commands_keep_their_name() {
    let cmd = parse("ls -l /tmp\n");
    assert_eq!(cmd.kind, CommandKind::Unknown);
    assert_eq!(cmd.args, vec!["ls", "-l", "/tmp"]);
    let cmd = parse("  'my prog'  b a\n");
    assert_eq!(cmd.kind, CommandKind::Unknown);
    assert_eq!(cmd.args, vec!["my prog", "b", "a"]);
}

#[test]
fn the_command_name_follows_the_same_rules() {
    assert_eq!(parse("'echo' a\n").kind, CommandKind::Echo);
    assert_eq!(parse("ec\"ho\" a\n").kind, CommandKind::Echo);
    assert_eq!(parse("e\\cho a\n").kind, CommandKind::Echo);
    assert_eq!(parse("e\\cho a\n").args, vec!["a"]);
}

#[test]
fn commands_from_words() {
    assert_eq!(command_from_words(vec![]), None);
    let cmd = command_from_words(vec![String::from("pwd"), String::from("x")]).unwrap();
    assert_eq!(cmd, ShellCommand::new(CommandKind::Pwd, vec![String::from("x")]));
    let cmd = command_from_words(vec![String::from("x"), String::from("pwd")]).unwrap();
    assert_eq!(cmd.kind, CommandKind::Unknown);
    assert_eq!(cmd.args, vec!["x", "pwd"]);
}

#[test]
fn echo_output_reads_back_as_the_same_words() {
    let args = vec![String::from("hello"), String::from("wor$ld"), String::from("a=b")];
    let line = echo_line(&args);
    assert_eq!(line, "hello wor$ld a=b");
    assert_eq!(split_words(&line), Ok(args.clone()));
    let mut printed = line.clone();
    printed.push('\n');
    assert_eq!(split_words(&printed), Ok(args.clone()));
    let again = parse(&format!("echo {}", printed));
    assert_eq!(again.kind, CommandKind::Echo);
    assert_eq!(again.args, args);
    assert_eq!(echo_line(&again.args), line);
}

#[test]
fn echo_output_of_quoted_input_holds_no_quotes() {
    let cmd = parse("echo 'a'\"b\"  c\\ d\n");
    let line = echo_line(&cmd.args);
    assert_eq!(line, "ab c d");
    // A word that holds a space is read back as two.
    assert_eq!(words(&line), vec!["ab", "c", "d"]);
}

#[test]
fn echo_joins_with_single_spaces() {
    assert_eq!(echo_line(&vec![]), "");
    assert_eq!(echo_line(&vec![String::from("a")]), "a");
    assert_eq!(echo_line(&vec![String::from("a"), String::from("b  c"), String::from("d")]), "a b  c d");
    assert_eq!(echo_line(&vec![String::from(" a"), String::from("b ")]), " a b ");
}

#[test]
fn single_quoted_reads_up_to_the_closing_quote() {
    let mut chars = Cursor::new("a \\ \"b' rest");
    let mut res = String::from("x");
    assert_eq!(read_single_quoted_string(&mut chars, &mut res), Ok(()));
    assert_eq!(res, "xa \\ \"b");
    assert_eq!(chars.next(), Some(' '));
    assert_eq!(chars.next(), Some('r'));
}

#[test]
fn single_quoted_without_closing_quote() {
    let mut chars = Cursor::new("abc");
    let mut res = String::new();
    assert_eq!(
        read_single_quoted_string(&mut chars, &mut res),
        Err(SyntaxError::UnterminatedSingleQuote)
    );
    assert_eq!(res, "abc");
    assert_eq!(chars.next(), None);
    assert_eq!(chars.next(), None);
}

#[test]
fn double_quoted_stops_after_the_closing_quote() {
    let mut chars = Cursor::new("a\\\"b\\\\\" tail");
    let mut res = String::from(">");
    assert_eq!(read_double_quoted_string(&mut chars, &mut res), Ok(()));
    assert_eq!(res, ">a\"b\\");
    assert_eq!(chars.peek(), Some(' '));
}

#[test]
fn double_quoted_without_closing_quote() {
    let mut chars = Cursor::new("ab\\");
    let mut res = String::new();
    assert_eq!(
        read_double_quoted_string(&mut chars, &mut res),
        Err(SyntaxError::UnterminatedDoubleQuote)
    );
    assert_eq!(res, "ab\\");
    assert_eq!(chars.peek(), None);
}

#[test]
fn cursor_walks_the_characters() {
    let mut chars = Cursor::new("hé");
    assert_eq!(chars.peek(), Some('h'));
    assert_eq!(chars.next(), Some('h'));
    assert_eq!(chars.peek(), Some('é'));
    assert_eq!(chars.next(), Some('é'));
    assert_eq!(chars.peek(), None);
    assert_eq!(chars.next(), None);
}

#[test]
fn white_space_is_what_the_standard_library_says() {
    let mut n: u32 = 0;
    while n <= 0x10ffff {
        if let Some(c) = char::from_u32(n) {
            assert_eq!(is_whitespace(c), c.is_whitespace(), "U+{:04X}", n);
        }
        n += 1;
    }
}

#[test]
fn text_helpers() {
    assert_eq!(chars_of("añb"), vec!['a', 'ñ', 'b']);
    assert!(same_text("abc", "abc"));
    assert!(!same_text("abc", "abd"));
    assert!(!same_text("abc", "ab"));
    assert!(same_text("", ""));
}
