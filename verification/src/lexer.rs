//! The tokenizer: how a raw line falls into words.
//!
//! A line is read left to right by a small automaton. Outside quotes, white
//! space separates words and a backslash takes the next character as it is.
//! Between single quotes everything is literal. Between double quotes a
//! backslash escapes only `\`, `$` and `"`. Quote characters themselves are
//! never part of a word, and no word is empty.
//!
//! A line that ends inside a quote, or on a backslash with nothing after it,
//! is rejected with a [`SyntaxError`]; nothing is guessed.

use crate::cursor::Cursor;
use crate::lexer_laws::{lemma_blank_line, lemma_words_are_filled, no_empty_word};
use crate::text::{
    is_blank, is_space, is_whitespace, lemma_prefix_len, lemma_texts_push, prefix_len,
    push_char, texts,
};
use vstd::prelude::*;

verus! {

/// Why a line could not be split into words.
#[derive(Debug, Clone, Copy, PartialEq, Eq, Structural)]
pub enum SyntaxError {
    /// The line ended between single quotes.
    UnterminatedSingleQuote,
    /// The line ended between double quotes.
    UnterminatedDoubleQuote,
    /// The line ended on an unquoted backslash.
    DanglingEscape,
}

/// The words in which a syntax error is reported.
pub open spec fn error_text(e: SyntaxError) -> Seq<char> {
    match e {
        SyntaxError::UnterminatedSingleQuote => "syntax error: unterminated single quote"@,
        SyntaxError::UnterminatedDoubleQuote => "syntax error: unterminated double quote"@,
        SyntaxError::DanglingEscape => "syntax error: nothing follows the last backslash"@,
    }
}

impl SyntaxError {
    /// The line that reports this error.
    pub fn message(&self) -> (line: &'static str)
        ensures
            line@ == error_text(*self),
    {
        match self {
            SyntaxError::UnterminatedSingleQuote => "syntax error: unterminated single quote",
            SyntaxError::UnterminatedDoubleQuote => "syntax error: unterminated double quote",
            SyntaxError::DanglingEscape => "syntax error: nothing follows the last backslash",
        }
    }
}

/// Where the automaton stands between two characters.
pub enum Mode {
    /// Outside any quote.
    Bare,
    /// Outside any quote, right after a backslash.
    Escaped,
    /// Between single quotes.
    Single,
    /// Between double quotes.
    Double,
    /// Between double quotes, right after a backslash.
    DoubleEscaped,
}

/// The automaton's state: the words closed so far, the word being built, and
/// the mode.
pub struct Scan {
    pub words: Seq<Seq<char>>,
    pub word: Seq<char>,
    pub mode: Mode,
}

/// The characters that a backslash escapes between double quotes.
pub open spec fn is_double_escapable(c: char) -> bool {
    c == '\\' || c == '$' || c == '"'
}

/// `words` with `word` added at the end, unless `word` is empty.
pub open spec fn close_word(words: Seq<Seq<char>>, word: Seq<char>) -> Seq<Seq<char>> {
    if word.len() > 0 {
        words.push(word)
    } else {
        words
    }
}

/// The state before the first character.
pub open spec fn start() -> Scan {
    Scan { words: Seq::empty(), word: Seq::empty(), mode: Mode::Bare }
}

/// The state after reading `c` in state `st`.
pub open spec fn step(st: Scan, c: char) -> Scan {
    match st.mode {
        Mode::Bare => if c == '\'' {
            Scan { mode: Mode::Single, ..st }
        } else if c == '"' {
            Scan { mode: Mode::Double, ..st }
        } else if c == '\\' {
            Scan { mode: Mode::Escaped, ..st }
        } else if is_space(c) {
            Scan { words: close_word(st.words, st.word), word: Seq::empty(), mode: Mode::Bare }
        } else {
            Scan { word: st.word.push(c), ..st }
        },
        Mode::Escaped => Scan { word: st.word.push(c), mode: Mode::Bare, ..st },
        Mode::Single => if c == '\'' {
            Scan { mode: Mode::Bare, ..st }
        } else {
            Scan { word: st.word.push(c), ..st }
        },
        Mode::Double => if c == '"' {
            Scan { mode: Mode::Bare, ..st }
        } else if c == '\\' {
            Scan { mode: Mode::DoubleEscaped, ..st }
        } else {
            Scan { word: st.word.push(c), ..st }
        },
        Mode::DoubleEscaped => if is_double_escapable(c) {
            Scan { word: st.word.push(c), mode: Mode::Double, ..st }
        } else {
            Scan { word: st.word.push('\\').push(c), mode: Mode::Double, ..st }
        },
    }
}

/// The state after reading all of `input`, starting in state `st`.
pub open spec fn run(st: Scan, input: Seq<char>) -> Scan
    decreases input.len(),
{
    if input.len() == 0 {
        st
    } else {
        run(step(st, input[0]), input.drop_first())
    }
}

/// What a line amounts to when it ends in state `st`.
pub open spec fn finish(st: Scan) -> Result<Seq<Seq<char>>, SyntaxError> {
    match st.mode {
        Mode::Bare => Ok(close_word(st.words, st.word)),
        Mode::Escaped => Err(SyntaxError::DanglingEscape),
        Mode::Single => Err(SyntaxError::UnterminatedSingleQuote),
        Mode::Double | Mode::DoubleEscaped => Err(SyntaxError::UnterminatedDoubleQuote),
    }
}

/// The words of `line`, or the reason it has none.
pub open spec fn words_of(line: Seq<char>) -> Result<Seq<Seq<char>>, SyntaxError> {
    finish(run(start(), line))
}

/// The number of characters of `s` before its first `'`; all of them if it
/// has none.
pub open spec fn single_len(s: Seq<char>) -> int {
    prefix_len(s, '\'')
}

/// The number of characters of `s` before the `"` that closes a double
/// quote opened just before `s`; all of them if none does.
pub open spec fn double_len(s: Seq<char>) -> int
    decreases s.len(),
{
    if s.len() == 0 || s[0] == '"' {
        0
    } else if s[0] == '\\' && s.len() >= 2 && is_double_escapable(s[1]) {
        2 + double_len(s.drop_first().drop_first())
    } else {
        1 + double_len(s.drop_first())
    }
}

/// The text that those characters stand for.
pub open spec fn double_text(s: Seq<char>) -> Seq<char>
    decreases s.len(),
{
    if s.len() == 0 || s[0] == '"' {
        Seq::empty()
    } else if s[0] == '\\' && s.len() >= 2 && is_double_escapable(s[1]) {
        seq![s[1]] + double_text(s.drop_first().drop_first())
    } else {
        seq![s[0]] + double_text(s.drop_first())
    }
}

/// `double_len(s)` is where the closing `"` stands, if there is one.
pub proof fn lemma_double_len_bounds(s: Seq<char>)
    ensures
        0 <= double_len(s) <= s.len(),
        double_len(s) < s.len() ==> s[double_len(s)] == '"',
    decreases s.len(),
{
    if s.len() == 0 || s[0] == '"' {
    } else if s[0] == '\\' && s.len() >= 2 && is_double_escapable(s[1]) {
        lemma_double_len_bounds(s.drop_first().drop_first());
    } else {
        lemma_double_len_bounds(s.drop_first());
    }
}

/// Reads what follows an opening `'`: appends every character up to the
/// closing `'` to `arg` and consumes them and the closing quote. Fails, with
/// all of the input consumed and appended, when no `'` is left.
pub fn read_single_quoted_string(chars: &mut Cursor, arg: &mut String) -> (r: Result<
    (),
    SyntaxError,
>)
    ensures
        final(arg)@ == old(arg)@ + old(chars).rest().take(single_len(old(chars).rest())),
        single_len(old(chars).rest()) < old(chars).rest().len() ==> r is Ok && final(chars).rest()
            == old(chars).rest().skip(single_len(old(chars).rest()) + 1),
        single_len(old(chars).rest()) >= old(chars).rest().len() ==> r == Err::<(), SyntaxError>(
            SyntaxError::UnterminatedSingleQuote,
        ) && final(chars).rest().len() == 0,
{
    let ghost s = chars.rest();
    let ghost a = arg@;
    let ghost n: int = 0;
    proof {
        lemma_prefix_len(s, '\'');
        assert(s.skip(0) =~= s);
        assert(a + s.take(0) =~= a);
    }
    loop
        invariant
            s == old(chars).rest(),
            a == old(arg)@,
            0 <= n <= single_len(s) <= s.len(),
            chars.rest() == s.skip(n),
            arg@ == a + s.take(n),
            single_len(s) == n + single_len(chars.rest()),
        decreases chars.rest().len(),
    {
        let ghost rest = chars.rest();
        match chars.next() {
            None => {
                return Err(SyntaxError::UnterminatedSingleQuote);
            },
            Some(c) => {
                if c == '\'' {
                    proof {
                        assert(chars.rest() =~= s.skip(n + 1));
                    }
                    return Ok(());
                }
                push_char(arg, c);
                proof {
                    lemma_prefix_len(chars.rest(), '\'');
                    assert(rest[0] == s[n]);
                    assert(chars.rest() =~= s.skip(n + 1));
                    assert(arg@ =~= a + s.take(n + 1));
                    n = n + 1;
                }
            },
        }
    }
}

/// Reads what follows an opening `"`: appends to `arg` the text up to the
/// closing `"`, where a backslash before `\`, `$` or `"` stands for that
/// character alone and every other character, a backslash too, stands for
/// itself; consumes that text and the closing quote. Fails, with all of the
/// input consumed, when no closing `"` is left.
pub fn read_double_quoted_string(chars: &mut Cursor, arg: &mut String) -> (r: Result<
    (),
    SyntaxError,
>)
    ensures
        final(arg)@ == old(arg)@ + double_text(old(chars).rest()),
        double_len(old(chars).rest()) < old(chars).rest().len() ==> r is Ok && final(chars).rest()
            == old(chars).rest().skip(double_len(old(chars).rest()) + 1),
        double_len(old(chars).rest()) >= old(chars).rest().len() ==> r == Err::<(), SyntaxError>(
            SyntaxError::UnterminatedDoubleQuote,
        ) && final(chars).rest().len() == 0,
{
    let ghost s = chars.rest();
    let ghost a = arg@;
    let ghost n: int = 0;
    proof {
        lemma_double_len_bounds(s);
        assert(s.skip(0) =~= s);
    }
    loop
        invariant
            s == old(chars).rest(),
            a == old(arg)@,
            0 <= n <= s.len(),
            chars.rest() == s.skip(n),
            double_len(s) == n + double_len(chars.rest()),
            a + double_text(s) == arg@ + double_text(chars.rest()),
        decreases chars.rest().len(),
    {
        let ghost rest = chars.rest();
        let ghost before = arg@;
        match chars.next() {
            None => {
                proof {
                    assert(arg@ + double_text(rest) =~= arg@);
                }
                return Err(SyntaxError::UnterminatedDoubleQuote);
            },
            Some(c) => {
                if c == '"' {
                    proof {
                        assert(arg@ + double_text(rest) =~= arg@);
                        assert(chars.rest() =~= s.skip(n + 1));
                    }
                    return Ok(());
                }
                let escaped = if c == '\\' {
                    match chars.peek() {
                        Some(d) => d == '\\' || d == '$' || d == '"',
                        None => false,
                    }
                } else {
                    false
                };
                if escaped {
                    let d = chars.next();
                    match d {
                        Some(d) => {
                            push_char(arg, d);
                        },
                        None => {},
                    }
                    proof {
                        let tail = rest.drop_first().drop_first();
                        assert(chars.rest() == tail);
                        assert(tail =~= s.skip(n + 2));
                        assert(arg@ + double_text(tail) =~= before + (seq![rest[1]] + double_text(
                            tail,
                        )));
                        n = n + 2;
                    }
                } else {
                    push_char(arg, c);
                    proof {
                        let tail = rest.drop_first();
                        assert(tail =~= s.skip(n + 1));
                        assert(arg@ + double_text(tail) =~= before + (seq![rest[0]] + double_text(
                            tail,
                        )));
                        n = n + 1;
                    }
                }
            },
        }
    }
}

/// Reading on between single quotes: up to the closing quote the automaton
/// only collects; if there is none it never leaves the quote.
pub proof fn lemma_run_single(words: Seq<Seq<char>>, word: Seq<char>, s: Seq<char>)
    ensures
        single_len(s) < s.len() ==> run(Scan { words, word, mode: Mode::Single }, s) == run(
            Scan { words, word: word + s.take(single_len(s)), mode: Mode::Bare },
            s.skip(single_len(s) + 1),
        ),
        single_len(s) >= s.len() ==> run(Scan { words, word, mode: Mode::Single }, s).mode
            is Single,
    decreases s.len(),
{
    let st = Scan { words, word, mode: Mode::Single };
    if s.len() == 0 {
    } else if s[0] == '\'' {
        assert(word + s.take(0) =~= word);
        assert(s.skip(1) =~= s.drop_first());
    } else {
        let t = s.drop_first();
        let k = single_len(t);
        lemma_prefix_len(t, '\'');
        lemma_run_single(words, word.push(s[0]), t);
        assert(step(st, s[0]) == Scan { words, word: word.push(s[0]), mode: Mode::Single });
        if k < t.len() {
            assert(word.push(s[0]) + t.take(k) =~= word + s.take(k + 1));
            assert(t.skip(k + 1) =~= s.skip(k + 2));
        }
    }
}

/// Reading on between double quotes: up to the closing quote the automaton
/// collects the quoted text; if there is none it never leaves the quote.
pub proof fn lemma_run_double(words: Seq<Seq<char>>, word: Seq<char>, s: Seq<char>)
    ensures
        double_len(s) < s.len() ==> run(Scan { words, word, mode: Mode::Double }, s) == run(
            Scan { words, word: word + double_text(s), mode: Mode::Bare },
            s.skip(double_len(s) + 1),
        ),
        double_len(s) >= s.len() ==> finish(run(Scan { words, word, mode: Mode::Double }, s))
            == Err::<Seq<Seq<char>>, SyntaxError>(SyntaxError::UnterminatedDoubleQuote),
    decreases s.len(),
{
    let st = Scan { words, word, mode: Mode::Double };
    if s.len() == 0 {
    } else if s[0] == '"' {
        assert(word + double_text(s) =~= word);
        assert(s.skip(1) =~= s.drop_first());
    } else if s[0] == '\\' && s.len() >= 2 {
        let t = s.drop_first().drop_first();
        let k = double_len(t);
        lemma_double_len_bounds(t);
        assert(s.drop_first()[0] == s[1]);
        assert(run(st, s) == run(step(step(st, s[0]), s[1]), t));
        if is_double_escapable(s[1]) {
            lemma_run_double(words, word.push(s[1]), t);
            if k < t.len() {
                assert(word.push(s[1]) + double_text(t) =~= word + double_text(s));
                assert(t.skip(k + 1) =~= s.skip(k + 3));
            }
        } else {
            lemma_run_double(words, word.push('\\').push(s[1]), t);
            let u = s.drop_first();
            assert(u.drop_first() == t);
            assert(double_len(u) == 1 + k);
            assert(double_len(s) == 2 + k);
            assert(double_text(u) == seq![s[1]] + double_text(t));
            if k < t.len() {
                assert(word.push('\\').push(s[1]) + double_text(t) =~= word + double_text(s));
                assert(t.skip(k + 1) =~= s.skip(k + 3));
            }
        }
    } else if s[0] == '\\' {
        let t = s.drop_first();
        assert(t.len() == 0);
        assert(run(st, s) == step(st, s[0]));
    } else {
        let t = s.drop_first();
        let k = double_len(t);
        lemma_double_len_bounds(t);
        lemma_run_double(words, word.push(s[0]), t);
        if k < t.len() {
            assert(word.push(s[0]) + double_text(t) =~= word + double_text(s));
            assert(t.skip(k + 1) =~= s.skip(k + 2));
        }
    }
}

/// Splits `line` into its words, or says why it cannot be split. No word
/// is empty, and a line of white space alone has none.
pub fn split_words(line: &str) -> (r: Result<Vec<String>, SyntaxError>)
    ensures
        match r {
            Ok(words) => words_of(line@) == Ok::<Seq<Seq<char>>, SyntaxError>(texts(words@)),
            Err(e) => words_of(line@) == Err::<Seq<Seq<char>>, SyntaxError>(e),
        },
        r matches Ok(words) ==> no_empty_word(texts(words@)),
        is_blank(line@) ==> (r matches Ok(words) && words@.len() == 0),
{
    proof {
        lemma_words_are_filled(line@);
        if is_blank(line@) {
            lemma_blank_line(line@);
        }
    }
    let mut chars = Cursor::new(line);
    let mut words: Vec<String> = Vec::new();
    let mut word = String::new();
    proof {
        assert(texts(words@) =~= Seq::<Seq<char>>::empty());
    }
    loop
        invariant
            finish(run(Scan { words: texts(words@), word: word@, mode: Mode::Bare }, chars.rest()))
                == words_of(line@),
            is_blank(line@) ==> words_of(line@) == Ok::<Seq<Seq<char>>, SyntaxError>(Seq::empty()),
        ensures
            chars.rest().len() == 0,
        decreases chars.rest().len(),
    {
        let ghost rest = chars.rest();
        let ghost st = Scan { words: texts(words@), word: word@, mode: Mode::Bare };
        match chars.next() {
            None => {
                break ;
            },
            Some(c) => {
                let ghost tail = chars.rest();
                assert(run(st, rest) == run(step(st, c), tail));
                if c == '\'' {
                    proof {
                        lemma_prefix_len(tail, '\'');
                        lemma_run_single(st.words, st.word, tail);
                    }
                    match read_single_quoted_string(&mut chars, &mut word) {
                        Ok(()) => {},
                        Err(e) => {
                            return Err(e);
                        },
                    }
                } else if c == '"' {
                    proof {
                        lemma_double_len_bounds(tail);
                        lemma_run_double(st.words, st.word, tail);
                    }
                    match read_double_quoted_string(&mut chars, &mut word) {
                        Ok(()) => {},
                        Err(e) => {
                            return Err(e);
                        },
                    }
                } else if c == '\\' {
                    match chars.next() {
                        Some(d) => {
                            push_char(&mut word, d);
                        },
                        None => {
                            return Err(SyntaxError::DanglingEscape);
                        },
                    }
                } else if is_whitespace(c) {
                    if !word.as_str().is_empty() {
                        proof {
                            lemma_texts_push(words@, word);
                        }
                        words.push(word);
                        word = String::new();
                    }
                    assert(word@ =~= Seq::<char>::empty());
                } else {
                    push_char(&mut word, c);
                }
            },
        }
    }
    if !word.as_str().is_empty() {
        proof {
            lemma_texts_push(words@, word);
        }
        words.push(word);
    }
    Ok(words)
}

} // verus!
