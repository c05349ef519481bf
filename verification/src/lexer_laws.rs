//! What holds of the tokenizer on every line.

use crate::builtins::echo_text;
use crate::command::{builtin_name, classify, parse_line, CommandKind, CommandView};
use crate::lexer::{
    double_len, double_text, is_double_escapable, run, start, step, words_of, Mode, Scan,
    SyntaxError,
};
use crate::text::{is_blank, is_space, join, lemma_join_front};
use vstd::prelude::*;

verus! {

/// A character that means nothing but itself outside quotes: no quote, no
/// backslash, no white space.
pub open spec fn is_plain_char(c: char) -> bool {
    c != '\'' && c != '"' && c != '\\' && !is_space(c)
}

/// A word that needs no quoting: not empty, and plain characters only.
pub open spec fn is_plain_word(w: Seq<char>) -> bool {
    w.len() > 0 && forall|i: int| 0 <= i < w.len() ==> is_plain_char(#[trigger] w[i])
}

/// Reading a text in two parts is reading its first part and then, from
/// where that ended, its second.
pub proof fn lemma_run_concat(st: Scan, a: Seq<char>, b: Seq<char>)
    ensures
        run(st, a + b) == run(run(st, a), b),
    decreases a.len(),
{
    if a.len() == 0 {
        assert(a + b =~= b);
    } else {
        assert((a + b).drop_first() =~= a.drop_first() + b);
        lemma_run_concat(step(st, a[0]), a.drop_first(), b);
    }
}

/// Reading one more character is one more step.
pub proof fn lemma_run_push(st: Scan, a: Seq<char>, c: char)
    ensures
        run(st, a.push(c)) == step(run(st, a), c),
{
    lemma_run_concat(st, a, seq![c]);
    assert(a.push(c) =~= a + seq![c]);
    assert(seq![c].drop_first() =~= Seq::<char>::empty());
    assert(run(run(st, a), seq![c]) == run(step(run(st, a), c), seq![c].drop_first()));
}

/// Outside quotes and between words, white space changes nothing.
pub proof fn lemma_run_blank(words: Seq<Seq<char>>, s: Seq<char>)
    requires
        is_blank(s),
    ensures
        run(Scan { words, word: Seq::empty(), mode: Mode::Bare }, s) == (Scan {
            words,
            word: Seq::empty(),
            mode: Mode::Bare,
        }),
    decreases s.len(),
{
    if s.len() > 0 {
        let t = s.drop_first();
        assert(is_space(s[0]));
        assert forall|i: int| 0 <= i < t.len() implies is_space(#[trigger] t[i]) by {
            assert(t[i] == s[i + 1]);
        }
        lemma_run_blank(words, t);
    }
}

/// A line of white space alone, the empty line among them, holds no word
/// and asks for nothing.
pub proof fn lemma_blank_line(line: Seq<char>)
    requires
        is_blank(line),
    ensures
        words_of(line) == Ok::<Seq<Seq<char>>, SyntaxError>(Seq::empty()),
        parse_line(line) == Ok::<Option<CommandView>, SyntaxError>(None),
{
    lemma_run_blank(Seq::empty(), line);
}

/// Every word closed so far holds a character.
pub open spec fn no_empty_word(words: Seq<Seq<char>>) -> bool {
    forall|i: int| 0 <= i < words.len() ==> (#[trigger] words[i]).len() > 0
}

/// Reading on never closes an empty word.
pub proof fn lemma_run_keeps_words_filled(st: Scan, s: Seq<char>)
    requires
        no_empty_word(st.words),
    ensures
        no_empty_word(run(st, s).words),
    decreases s.len(),
{
    if s.len() > 0 {
        lemma_run_keeps_words_filled(step(st, s[0]), s.drop_first());
    }
}

/// No word of a line is empty.
pub proof fn lemma_words_are_filled(line: Seq<char>)
    ensures
        words_of(line) matches Ok(words) ==> no_empty_word(words),
{
    lemma_run_keeps_words_filled(start(), line);
}

/// Outside quotes, plain characters are collected as they stand.
pub proof fn lemma_run_plain(words: Seq<Seq<char>>, word: Seq<char>, w: Seq<char>)
    requires
        forall|i: int| 0 <= i < w.len() ==> is_plain_char(#[trigger] w[i]),
    ensures
        run(Scan { words, word, mode: Mode::Bare }, w) == (Scan {
            words,
            word: word + w,
            mode: Mode::Bare,
        }),
    decreases w.len(),
{
    if w.len() == 0 {
        assert(word + w =~= word);
    } else {
        let t = w.drop_first();
        assert(is_plain_char(w[0]));
        assert forall|i: int| 0 <= i < t.len() implies is_plain_char(#[trigger] t[i]) by {
            assert(t[i] == w[i + 1]);
        }
        lemma_run_plain(words, word.push(w[0]), t);
        assert(word.push(w[0]) + t =~= word + w);
    }
}

/// Plain words joined by single spaces are read back one by one: after the
/// last character all but the last word are closed, and the last is the
/// word being built.
pub proof fn lemma_run_joined(pre: Seq<Seq<char>>, words: Seq<Seq<char>>)
    requires
        words.len() > 0,
        forall|i: int| 0 <= i < words.len() ==> is_plain_word(#[trigger] words[i]),
    ensures
        run(Scan { words: pre, word: Seq::empty(), mode: Mode::Bare }, join(words, ' ')) == (Scan {
            words: pre + words.drop_last(),
            word: words.last(),
            mode: Mode::Bare,
        }),
    decreases words.len(),
{
    let st = Scan { words: pre, word: Seq::empty(), mode: Mode::Bare };
    let last = words.last();
    assert(is_plain_word(last));
    if words.len() == 1 {
        lemma_run_plain(pre, Seq::empty(), last);
        assert(Seq::<char>::empty() + last =~= last);
        assert(pre + words.drop_last() =~= pre);
    } else {
        let init = words.drop_last();
        assert forall|i: int| 0 <= i < init.len() implies is_plain_word(#[trigger] init[i]) by {
            assert(init[i] == words[i]);
        }
        lemma_run_joined(pre, init);
        let head = join(init, ' ');
        lemma_run_push(st, head, ' ');
        lemma_run_concat(st, head.push(' '), last);
        assert(is_plain_word(init.last()));
        assert((pre + init.drop_last()).push(init.last()) =~= pre + init);
        lemma_run_plain(pre + init, Seq::empty(), last);
        assert(Seq::<char>::empty() + last =~= last);
    }
}

/// The line that `echo` prints for plain words is read back as those same
/// words, with or without the line end. (Of words that are not plain this
/// fails: a word that holds a space is read back as two.)
pub proof fn lemma_echo_round_trip(args: Seq<Seq<char>>)
    requires
        forall|i: int| 0 <= i < args.len() ==> is_plain_word(#[trigger] args[i]),
    ensures
        words_of(echo_text(args)) == Ok::<Seq<Seq<char>>, SyntaxError>(args),
        words_of(echo_text(args).push('\n')) == Ok::<Seq<Seq<char>>, SyntaxError>(args),
{
    let line = echo_text(args);
    lemma_run_push(start(), line, '\n');
    if args.len() == 0 {
        assert(args =~= Seq::<Seq<char>>::empty());
    } else {
        lemma_run_joined(Seq::empty(), args);
        assert(is_plain_word(args.last()));
        assert(Seq::<Seq<char>>::empty() + args.drop_last() =~= args.drop_last());
        assert(args.drop_last().push(args.last()) =~= args);
    }
}

/// Echoing what `echo` printed prints it again: the line `echo`, a space
/// and the printed text is read as the command `echo` with the same plain
/// arguments.
pub proof fn lemma_echo_of_echo(args: Seq<Seq<char>>)
    requires
        forall|i: int| 0 <= i < args.len() ==> is_plain_word(#[trigger] args[i]),
    ensures
        parse_line((builtin_name(CommandKind::Echo).push(' ') + echo_text(args)).push('\n'))
            == Ok::<Option<CommandView>, SyntaxError>(
            Some(CommandView { kind: CommandKind::Echo, args }),
        ),
{
    let name = builtin_name(CommandKind::Echo);
    let all = seq![name] + args;
    assert(is_plain_word(name)) by {
        assert(name.len() == 4);
        assert(forall|i: int| 0 <= i < 4 ==> is_plain_char(#[trigger] name[i]));
    }
    assert forall|i: int| 0 <= i < all.len() implies is_plain_word(#[trigger] all[i]) by {
        if i > 0 {
            assert(all[i] == args[i - 1]);
        }
    }
    lemma_echo_round_trip(all);
    lemma_join_front(name, args, ' ');
    assert(all.drop_first() =~= args);
    if args.len() == 0 {
        // `echo` and a space, then the line end: the space only closes the word.
        lemma_run_push(start(), name, ' ');
        lemma_run_push(start(), name.push(' '), '\n');
        lemma_run_plain(Seq::empty(), Seq::empty(), name);
        assert(echo_text(args) =~= Seq::<char>::empty());
        assert(name.push(' ') + echo_text(args) =~= name.push(' '));
        assert(Seq::<char>::empty() + name =~= name);
        assert(Seq::<Seq<char>>::empty().push(name) =~= all);
    }
    assert(classify(name) == CommandKind::Echo) by {
        assert(name[1] == 'c');
        assert(builtin_name(CommandKind::Cat)[1] == 'a');
        assert(builtin_name(CommandKind::Cd).len() == 2);
    }
}

/// Between double quotes, text without a `"` and without a backslash in
/// front of `\`, `$` or `"` stands for itself, backslashes included: up to
/// the closing quote at `n`, or to the end of the input at `n`, the quoted
/// text is the input as it stands.
pub proof fn lemma_double_text_verbatim(s: Seq<char>, n: int)
    requires
        0 <= n <= s.len(),
        n == s.len() || s[n] == '"',
        forall|j: int| 0 <= j < n ==> s[j] != '"',
        forall|j: int|
            0 <= j < n && j + 1 < s.len() && s[j] == '\\' ==> !is_double_escapable(
                #[trigger] s[j + 1],
            ),
    ensures
        double_len(s) == n,
        double_text(s) == s.take(n),
    decreases n,
{
    if n == 0 {
        assert(s.take(0) =~= Seq::<char>::empty());
    } else {
        let t = s.drop_first();
        assert(s[0] != '"');
        if s[0] == '\\' && s.len() >= 2 {
            assert(!is_double_escapable(s[0int + 1]));
        }
        assert forall|j: int|
            0 <= j < n - 1 && j + 1 < t.len() && t[j] == '\\' implies !is_double_escapable(
            #[trigger] t[j + 1],
        ) by {
            assert(t[j] == s[j + 1]);
            assert(t[j + 1] == s[(j + 1) + 1]);
        }
        lemma_double_text_verbatim(t, n - 1);
        assert(seq![s[0]] + t.take(n - 1) =~= s.take(n));
    }
}

/// Between double quotes, a backslash in front of `\`, `$` or `"` stands,
/// together with that character, for the character alone.
pub proof fn lemma_double_text_escape(c: char, t: Seq<char>)
    requires
        is_double_escapable(c),
    ensures
        double_len(seq!['\\', c] + t) == 2 + double_len(t),
        double_text(seq!['\\', c] + t) == seq![c] + double_text(t),
{
    let s = seq!['\\', c] + t;
    assert(s.drop_first().drop_first() =~= t);
}

} // verus!
