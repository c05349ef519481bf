//! What holds of the dispatcher in every state.

use crate::builtins::{
    builtin_text, cd_plan, command_not_found_text, found_text, missing_dir_text, not_found_text,
    CdPlanView,
};
use crate::command::{classify, CommandKind};
use crate::dispatch::{
    consistent, describe, seek_described, seek_program, transition, DispatchView, Outcome,
    RequestView, Stage,
};
use crate::path::{append_path, first_file, resolve};
use crate::session::SessionView;
use vstd::prelude::*;

verus! {

/// A step leads from a consistent state to a consistent state.
pub proof fn lemma_step_keeps_consistent(d: DispatchView, s: SessionView, answer: bool)
    requires
        consistent(d),
        d.cmd.args.len() <= usize::MAX,
        d.dirs.len() <= usize::MAX,
    ensures
        consistent(transition(d, s, answer).state),
        transition(d, s, answer).state.cmd == d.cmd,
        transition(d, s, answer).state.dirs == d.dirs,
{
}

/// No step changes the home directory, and no step of a command other than
/// `cd` changes the working directory.
pub proof fn lemma_only_cd_moves(d: DispatchView, s: SessionView, answer: bool)
    requires
        consistent(d),
    ensures
        transition(d, s, answer).session.home == s.home,
        d.cmd.kind != CommandKind::Cd ==> transition(d, s, answer).session == s,
{
}

/// `cd` to a path that starts with `/` asks whether the path exists. If it
/// does, the path becomes the working directory and nothing is printed; if
/// not, the session stays as it was and the path is reported as missing.
pub proof fn lemma_cd_absolute(d: DispatchView, s: SessionView, exists: bool)
    requires
        d.stage == Stage::Fresh,
        d.cmd.kind == CommandKind::Cd,
        d.cmd.args.len() > 0,
        d.cmd.args[0].len() > 0,
        d.cmd.args[0][0] == '/',
    ensures
        transition(d, s, false).request == RequestView::ProbeDir(d.cmd.args[0]),
        transition(d, s, false).session == s,
        ({
            let asked = transition(d, s, false);
            let told = transition(asked.state, asked.session, exists);
            if exists {
                told.session == (SessionView { cwd: d.cmd.args[0], home: s.home }) && told.request
                    == RequestView::Done
            } else {
                told.session == s && told.request == RequestView::Print(
                    missing_dir_text(d.cmd.args[0]),
                )
            }
        }),
{
}

/// Whatever `cd` is asked and whatever it is told, the session it leaves
/// is the session it found or one whose working directory is the target of
/// its plan; a target that was asked about and does not exist is never
/// entered.
pub proof fn lemma_cd_follows_its_plan(d: DispatchView, s: SessionView, exists: bool)
    requires
        d.stage == Stage::Fresh,
        d.cmd.kind == CommandKind::Cd,
        d.cmd.args.len() > 0,
    ensures
        ({
            let first = transition(d, s, false);
            let second = transition(first.state, first.session, exists);
            match cd_plan(s.cwd, s.home, d.cmd.args[0]) {
                CdPlanView::Stay => first.session == s && first.request == RequestView::Done,
                CdPlanView::Go(path) => first.session == (SessionView { cwd: path, home: s.home })
                    && first.request == RequestView::Done,
                CdPlanView::Try(path) => first.session == s && first.request
                    == RequestView::ProbeDir(path) && second.session == if exists {
                    SessionView { cwd: path, home: s.home }
                } else {
                    s
                },
            }
        }),
{
}

/// `pwd` prints the working directory of the session, and is then
/// complete.
pub proof fn lemma_pwd_prints_cwd(d: DispatchView, s: SessionView)
    requires
        d.stage == Stage::Fresh,
        d.cmd.kind == CommandKind::Pwd,
    ensures
        transition(d, s, false).request == RequestView::Print(s.cwd),
        transition(transition(d, s, false).state, s, false).request == RequestView::Done,
{
}

/// After `cd` to an absolute path that exists, `pwd` prints that path;
/// after `cd` to one that does not exist, `pwd` prints what it printed
/// before.
pub proof fn lemma_cd_then_pwd(cd: DispatchView, pwd: DispatchView, s: SessionView, exists: bool)
    requires
        cd.stage == Stage::Fresh,
        cd.cmd.kind == CommandKind::Cd,
        cd.cmd.args.len() > 0,
        cd.cmd.args[0].len() > 0,
        cd.cmd.args[0][0] == '/',
        pwd.stage == Stage::Fresh,
        pwd.cmd.kind == CommandKind::Pwd,
    ensures
        ({
            let asked = transition(cd, s, false);
            let told = transition(asked.state, asked.session, exists);
            transition(pwd, told.session, false).request == RequestView::Print(
                if exists {
                    cd.cmd.args[0]
                } else {
                    s.cwd
                },
            )
        }),
{
    lemma_cd_absolute(cd, s, exists);
}

/// Where the machine comes to rest when each question about a file is
/// answered as `is_file` holds: the first outcome, from `o` on, that asks no
/// such question. At most `fuel` questions are answered.
pub open spec fn settle(o: Outcome, is_file: spec_fn(Seq<char>) -> bool, fuel: nat) -> Outcome
    decreases fuel,
{
    match o.request {
        RequestView::ProbeFile(path) => if fuel == 0 {
            o
        } else {
            settle(transition(o.state, o.session, is_file(path)), is_file, (fuel - 1) as nat)
        },
        _ => o,
    }
}

/// An external command runs the program that the search path resolves its
/// name to: the candidate in the first directory of the list, from `dir`
/// on, that is a regular file, with the operands as arguments. If no
/// directory holds one, the command is reported as not found. Either way
/// the session stays as it was.
pub proof fn lemma_program_is_resolved(
    d: DispatchView,
    s: SessionView,
    is_file: spec_fn(Seq<char>) -> bool,
    dir: usize,
    fuel: nat,
)
    requires
        d.cmd.kind == CommandKind::Unknown,
        d.cmd.args.len() > 0,
        dir <= d.dirs.len() <= usize::MAX,
        fuel >= d.dirs.len() - dir,
    ensures
        settle(seek_program(d, s, dir), is_file, fuel).session == s,
        settle(seek_program(d, s, dir), is_file, fuel).state.stage == Stage::Closing,
        settle(seek_program(d, s, dir), is_file, fuel).request == match first_file(
            d.cmd.args[0],
            d.dirs,
            is_file,
            dir as nat,
        ) {
            Some(path) => RequestView::Spawn(path, d.cmd.args.skip(1)),
            None => RequestView::Print(command_not_found_text(d.cmd.args[0])),
        },
    decreases d.dirs.len() - dir,
{
    if dir < d.dirs.len() {
        let path = append_path(d.dirs[dir as int], d.cmd.args[0]);
        let o = seek_program(d, s, dir);
        assert(o.request == RequestView::ProbeFile(path));
        assert(settle(o, is_file, fuel) == settle(
            transition(o.state, o.session, is_file(path)),
            is_file,
            (fuel - 1) as nat,
        ));
        if !is_file(path) {
            assert(transition(o.state, o.session, false) == seek_program(
                o.state,
                s,
                (dir + 1) as usize,
            ));
            lemma_program_is_resolved(o.state, s, is_file, (dir + 1) as usize, (fuel - 1) as nat);
        }
    }
}

/// An external command, from its first step on: it runs what the search
/// path resolves its name to, or reports the command as not found.
pub proof fn lemma_external_command(
    d: DispatchView,
    s: SessionView,
    is_file: spec_fn(Seq<char>) -> bool,
)
    requires
        d.stage == Stage::Fresh,
        d.cmd.kind == CommandKind::Unknown,
        d.cmd.args.len() > 0,
        d.dirs.len() <= usize::MAX,
    ensures
        settle(transition(d, s, false), is_file, d.dirs.len()).session == s,
        settle(transition(d, s, false), is_file, d.dirs.len()).request == match resolve(
            d.cmd.args[0],
            d.dirs,
            is_file,
        ) {
            Some(path) => RequestView::Spawn(path, d.cmd.args.skip(1)),
            None => RequestView::Print(command_not_found_text(d.cmd.args[0])),
        },
{
    lemma_program_is_resolved(d, s, is_file, 0, d.dirs.len());
}

/// `type` reports a name that is no builtin's by what the search path
/// resolves it to: the candidate in the first directory of the list, from
/// `dir` on, that is a regular file, or "not found" if no directory holds
/// one. It then goes on to its next operand, and the session stays as it
/// was.
pub proof fn lemma_described_is_resolved(
    d: DispatchView,
    s: SessionView,
    is_file: spec_fn(Seq<char>) -> bool,
    arg: usize,
    dir: usize,
    fuel: nat,
)
    requires
        d.cmd.kind == CommandKind::Type,
        arg < d.cmd.args.len() <= usize::MAX,
        dir <= d.dirs.len() <= usize::MAX,
        fuel >= d.dirs.len() - dir,
    ensures
        settle(seek_described(d, s, arg, dir), is_file, fuel).session == s,
        settle(seek_described(d, s, arg, dir), is_file, fuel).state.stage == (Stage::Describe {
            arg: (arg + 1) as usize,
        }),
        settle(seek_described(d, s, arg, dir), is_file, fuel).request == RequestView::Print(
            match first_file(d.cmd.args[arg as int], d.dirs, is_file, dir as nat) {
                Some(path) => found_text(d.cmd.args[arg as int], path),
                None => not_found_text(d.cmd.args[arg as int]),
            },
        ),
    decreases d.dirs.len() - dir,
{
    if dir < d.dirs.len() {
        let path = append_path(d.dirs[dir as int], d.cmd.args[arg as int]);
        let o = seek_described(d, s, arg, dir);
        assert(o.request == RequestView::ProbeFile(path));
        assert(settle(o, is_file, fuel) == settle(
            transition(o.state, o.session, is_file(path)),
            is_file,
            (fuel - 1) as nat,
        ));
        if !is_file(path) {
            assert(transition(o.state, o.session, false) == seek_described(
                o.state,
                s,
                arg,
                (dir + 1) as usize,
            ));
            lemma_described_is_resolved(
                o.state,
                s,
                is_file,
                arg,
                (dir + 1) as usize,
                (fuel - 1) as nat,
            );
        }
    }
}

/// The line in which `type` describes `name`: a builtin's name as such, any
/// other name by where the search path resolves it to.
pub open spec fn description(
    name: Seq<char>,
    dirs: Seq<Seq<char>>,
    is_file: spec_fn(Seq<char>) -> bool,
) -> Seq<char> {
    if classify(name) != CommandKind::Unknown {
        builtin_text(name)
    } else {
        match resolve(name, dirs, is_file) {
            Some(path) => found_text(name, path),
            None => not_found_text(name),
        }
    }
}

/// `type` prints one line for each operand, in the order of the operands:
/// at the operand `arg` it prints that operand's description and goes on
/// to the next; after the last it is complete.
pub proof fn lemma_type_describes_each(
    d: DispatchView,
    s: SessionView,
    is_file: spec_fn(Seq<char>) -> bool,
    arg: usize,
)
    requires
        d.cmd.kind == CommandKind::Type,
        arg <= d.cmd.args.len() <= usize::MAX,
        d.dirs.len() <= usize::MAX,
    ensures
        arg == d.cmd.args.len() ==> describe(d, s, arg).request == RequestView::Done,
        arg < d.cmd.args.len() ==> settle(describe(d, s, arg), is_file, d.dirs.len()).request
            == RequestView::Print(description(d.cmd.args[arg as int], d.dirs, is_file)) && settle(
            describe(d, s, arg),
            is_file,
            d.dirs.len(),
        ).state.stage == (Stage::Describe { arg: (arg + 1) as usize }),
{
    if arg < d.cmd.args.len() {
        lemma_described_is_resolved(d, s, is_file, arg, 0, d.dirs.len());
    }
}

/// What `resolve` finds is the candidate of a directory of the list that is
/// a regular file and has no such directory before it; it finds nothing
/// only if no directory of the list has such a candidate.
pub proof fn lemma_resolve_is_first(
    name: Seq<char>,
    dirs: Seq<Seq<char>>,
    is_file: spec_fn(Seq<char>) -> bool,
    from: nat,
)
    requires
        from <= dirs.len(),
    ensures
        match first_file(name, dirs, is_file, from) {
            Some(path) => exists|k: int|
                from <= k < dirs.len() && path == append_path(#[trigger] dirs[k], name) && is_file(
                    path,
                ) && forall|j: int|
                    from <= j < k ==> !is_file(append_path(#[trigger] dirs[j], name)),
            None => forall|j: int|
                from <= j < dirs.len() ==> !is_file(append_path(#[trigger] dirs[j], name)),
        },
    decreases dirs.len() - from,
{
    if from < dirs.len() {
        let here = append_path(dirs[from as int], name);
        if is_file(here) {
            assert(from <= from < dirs.len() && here == append_path(dirs[from as int], name));
        } else {
            lemma_resolve_is_first(name, dirs, is_file, from + 1);
            match first_file(name, dirs, is_file, from + 1) {
                Some(path) => {
                    let k = choose|k: int|
                        from + 1 <= k < dirs.len() && path == append_path(#[trigger] dirs[k], name)
                            && is_file(path) && forall|j: int|
                            from + 1 <= j < k ==> !is_file(append_path(#[trigger] dirs[j], name));
                    assert forall|j: int| from <= j < k implies !is_file(
                        append_path(#[trigger] dirs[j], name),
                    ) by {
                        if j == from {
                        }
                    }
                    assert(from <= k < dirs.len() && path == append_path(dirs[k], name));
                },
                None => {
                    assert forall|j: int| from <= j < dirs.len() implies !is_file(
                        append_path(#[trigger] dirs[j], name),
                    ) by {
                        if j == from {
                        }
                    }
                },
            }
        }
    }
}

/// The empty search path resolves nothing.
pub proof fn lemma_empty_search_path(name: Seq<char>, is_file: spec_fn(Seq<char>) -> bool)
    ensures
        resolve(name, crate::path::search_dirs(Seq::empty()), is_file) is None,
{
}

/// An upper bound on the steps that a command still takes before it is
/// complete.
pub open spec fn steps_left(d: DispatchView) -> int {
    let args = d.cmd.args.len() as int;
    let dirs = d.dirs.len() as int;
    match d.stage {
        Stage::Ended => 0,
        Stage::Closing => 1,
        Stage::AwaitDir => 2,
        Stage::Show { arg } => args - arg + 1,
        Stage::AwaitProgram { dir } => dirs - dir + 1,
        Stage::Describe { arg } => (args - arg) * (dirs + 1) + 1,
        Stage::AwaitFile { arg, dir } => (args - arg - 1) * (dirs + 1) + (dirs - dir) + 1,
        Stage::Fresh => args * (dirs + 1) + dirs + 3,
    }
}

/// Every command comes to an end: each step of a command that is not
/// complete brings it closer to completion, whatever the answers are.
pub proof fn lemma_step_makes_progress(d: DispatchView, s: SessionView, answer: bool)
    requires
        consistent(d),
        d.stage != Stage::Ended,
        d.cmd.args.len() <= usize::MAX,
        d.dirs.len() <= usize::MAX,
    ensures
        0 <= steps_left(transition(d, s, answer).state) < steps_left(d),
{
    let args = d.cmd.args.len() as int;
    let dirs = d.dirs.len() as int;
    let at: int = match d.stage {
        Stage::Describe { arg } => arg as int,
        Stage::AwaitFile { arg, dir } => arg as int,
        _ => 0,
    };
    lemma_span(args - at, dirs + 1);
    if at < args {
        lemma_span(args - at - 1, dirs + 1);
    }
}

/// `n * k` is not negative, grows by `k` with `n`, and is at least `n` for
/// a positive `k`.
proof fn lemma_span(n: int, k: int)
    requires
        0 <= n,
        1 <= k,
    ensures
        0 <= n * k,
        n <= n * k,
        (n + 1) * k == n * k + k,
        n == 0 ==> n * k == 0,
{
    assert(0 <= n * k && n <= n * k && (n + 1) * k == n * k + k) by (nonlinear_arith)
        requires
            0 <= n,
            1 <= k,
    ;
}

} // verus!
