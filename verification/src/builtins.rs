//! What the builtins compute: the line that `echo` prints, where `cd` wants
//! to go, and the lines in which `type` and the dispatcher report.

use crate::path::{
    ancestor, ancestor_dir, append_path, count_dotdot, dotdot_count, join_path,
};
use crate::text::{chars_of, join, string_of, texts};
use vstd::prelude::*;
use vstd::string::*;

verus! {

/// What `echo` prints for `args`: the arguments with one space between
/// neighbours.
pub open spec fn echo_text(args: Seq<Seq<char>>) -> Seq<char> {
    join(args, ' ')
}

/// The line that reports a directory as missing.
pub open spec fn missing_dir_text(path: Seq<char>) -> Seq<char> {
    path + ": No such file or directory"@
}

/// The line that reports a name as a builtin's.
pub open spec fn builtin_text(name: Seq<char>) -> Seq<char> {
    name + " is a shell builtin"@
}

/// The line that reports where a program was found.
pub open spec fn found_text(name: Seq<char>, path: Seq<char>) -> Seq<char> {
    name + " is "@ + path
}

/// The line in which `type` reports a name that is nothing it knows.
pub open spec fn not_found_text(name: Seq<char>) -> Seq<char> {
    name + ": not found"@
}

/// The line that reports a command for which no program was found.
pub open spec fn command_not_found_text(name: Seq<char>) -> Seq<char> {
    name + ": command not found"@
}

/// What `cd` intends to do with its argument.
#[derive(Debug, PartialEq, Eq)]
pub enum CdPlan {
    /// Stay where the session is.
    Stay,
    /// Enter this directory without asking whether it exists.
    Go(String),
    /// Enter this directory if it exists, and report it as missing if not.
    Try(String),
}

/// A plan as contracts see it.
pub enum CdPlanView {
    Stay,
    Go(Seq<char>),
    Try(Seq<char>),
}

impl View for CdPlan {
    type V = CdPlanView;

    open spec fn view(&self) -> CdPlanView {
        match self {
            CdPlan::Stay => CdPlanView::Stay,
            CdPlan::Go(p) => CdPlanView::Go(p@),
            CdPlan::Try(p) => CdPlanView::Try(p@),
        }
    }
}

/// `arg` without its first two characters.
pub open spec fn after_two(arg: Seq<char>) -> Seq<char> {
    if arg.len() >= 2 {
        arg.skip(2)
    } else {
        Seq::empty()
    }
}

/// Where `cd arg` leads from `cwd`, with `home` as the home directory.
///
/// * The empty argument asks for nothing.
/// * An argument that starts with `/` is an absolute path, entered if it
///   exists.
/// * An argument that starts with `..` climbs one component for each `..`
///   it holds; whatever else it holds is not looked at.
/// * Any other argument that starts with `.` names, by what follows its
///   first two characters, a path below `cwd`, entered if it exists.
/// * An argument that starts with `~` leads home, whatever follows the `~`.
/// * Anything else is a path relative to `cwd`, entered if it exists.
pub open spec fn cd_plan(cwd: Seq<char>, home: Seq<char>, arg: Seq<char>) -> CdPlanView {
    if arg.len() == 0 {
        CdPlanView::Stay
    } else if arg[0] == '/' {
        CdPlanView::Try(arg)
    } else if arg[0] == '.' {
        if arg.len() >= 2 && arg[1] == '.' {
            CdPlanView::Go(ancestor(cwd, count_dotdot(arg)))
        } else {
            CdPlanView::Try(append_path(cwd, after_two(arg)))
        }
    } else if arg[0] == '~' {
        CdPlanView::Go(home)
    } else {
        CdPlanView::Try(append_path(cwd, arg))
    }
}

/// The line that `echo` prints for `args`, without the line end.
pub fn echo_line(args: &Vec<String>) -> (line: String)
    ensures
        line@ == echo_text(texts(args@)),
{
    let mut line = String::new();
    let mut i: usize = 0;
    assert(texts(args@).take(0) =~= Seq::<Seq<char>>::empty());
    while i < args.len()
        invariant
            i <= args.len(),
            line@ == join(texts(args@).take(i as int), ' '),
        decreases args.len() - i,
    {
        let ghost before = texts(args@).take(i as int);
        let ghost after = texts(args@).take(i + 1);
        assert(after.drop_last() =~= before);
        assert(after.last() == args@[i as int]@);
        if i > 0 {
            line.append(" ");
            proof {
                reveal_strlit(" ");
                assert(" "@ =~= seq![' ']);
                assert(line@ =~= join(before, ' ').push(' '));
            }
        } else {
            assert(line@ + args@[i as int]@ =~= args@[i as int]@);
        }
        line.append(args[i].as_str());
        i += 1;
    }
    assert(texts(args@).take(args@.len() as int) =~= texts(args@));
    line
}

/// Decides where `cd arg` leads.
pub fn plan_cd(cwd: &str, home: &str, arg: &str) -> (plan: CdPlan)
    ensures
        plan@ == cd_plan(cwd@, home@, arg@),
{
    let a = chars_of(arg);
    if a.len() == 0 {
        CdPlan::Stay
    } else if a[0] == '/' {
        CdPlan::Try(String::from_str(arg))
    } else if a[0] == '.' {
        if a.len() >= 2 && a[1] == '.' {
            let n: usize = dotdot_count(arg);
            CdPlan::Go(ancestor_dir(cwd, n))
        } else {
            let below = if a.len() >= 2 {
                string_of(&a, 2, a.len())
            } else {
                String::new()
            };
            assert(below@ =~= after_two(arg@));
            CdPlan::Try(join_path(cwd, below.as_str()))
        }
    } else if a[0] == '~' {
        CdPlan::Go(String::from_str(home))
    } else {
        CdPlan::Try(join_path(cwd, arg))
    }
}

/// `head` followed by `tail`.
fn with_tail(head: &str, tail: &str) -> (line: String)
    ensures
        line@ == head@ + tail@,
{
    let mut line = String::from_str(head);
    line.append(tail);
    line
}

/// The line "`path`: No such file or directory".
pub fn missing_dir_line(path: &str) -> (line: String)
    ensures
        line@ == missing_dir_text(path@),
{
    with_tail(path, ": No such file or directory")
}

/// The line "`name` is a shell builtin".
pub fn builtin_line(name: &str) -> (line: String)
    ensures
        line@ == builtin_text(name@),
{
    with_tail(name, " is a shell builtin")
}

/// The line "`name` is `path`".
pub fn found_line(name: &str, path: &str) -> (line: String)
    ensures
        line@ == found_text(name@, path@),
{
    let mut line = with_tail(name, " is ");
    line.append(path);
    line
}

/// The line "`name`: not found".
pub fn not_found_line(name: &str) -> (line: String)
    ensures
        line@ == not_found_text(name@),
{
    with_tail(name, ": not found")
}

/// The line "`name`: command not found".
pub fn command_not_found_line(name: &str) -> (line: String)
    ensures
        line@ == command_not_found_text(name@),
{
    with_tail(name, ": command not found")
}

} // verus!
