//! The dispatcher: what a command does, one request at a time.
//!
//! The dispatcher performs no I/O. It is a machine that the host drives:
//! each [`Dispatch::step`] yields a [`Request`], the host carries the
//! request out and steps again, handing in the answer where the request
//! asked a question, until the machine yields [`Request::Done`] or
//! [`Request::Exit`].

use crate::builtins::{
    builtin_line, builtin_text, cd_plan, command_not_found_line, command_not_found_text,
    echo_line, echo_text, found_line, found_text, missing_dir_line, missing_dir_text,
    not_found_line, not_found_text, plan_cd, CdPlan, CdPlanView,
};
use crate::command::{classify, CommandKind, CommandView, ShellCommand};
use crate::path::{append_path, join_path, search_dirs, split_path_list};
use crate::session::{Session, SessionView};
use crate::text::{lemma_texts_push, texts};
use vstd::prelude::*;
use vstd::string::*;

verus! {

/// What the host is to do next.
#[derive(Debug, PartialEq, Eq)]
pub enum Request {
    /// Write this line to standard output.
    Print(String),
    /// Write this line to standard error.
    Complain(String),
    /// Answer whether this path is a regular file.
    ProbeFile(String),
    /// Answer whether this path exists.
    ProbeDir(String),
    /// Write the contents of this file to standard output, or report to
    /// standard error why it cannot be read.
    ShowFile(String),
    /// Run the program at this path with these arguments in the working
    /// directory of the session, wait for it and relay what it writes.
    Spawn(String, Vec<String>),
    /// Leave the read loop.
    Exit,
    /// The command is complete.
    Done,
}

/// A request as contracts see it.
pub enum RequestView {
    Print(Seq<char>),
    Complain(Seq<char>),
    ProbeFile(Seq<char>),
    ProbeDir(Seq<char>),
    ShowFile(Seq<char>),
    Spawn(Seq<char>, Seq<Seq<char>>),
    Exit,
    Done,
}

impl View for Request {
    type V = RequestView;

    open spec fn view(&self) -> RequestView {
        match self {
            Request::Print(line) => RequestView::Print(line@),
            Request::Complain(line) => RequestView::Complain(line@),
            Request::ProbeFile(path) => RequestView::ProbeFile(path@),
            Request::ProbeDir(path) => RequestView::ProbeDir(path@),
            Request::ShowFile(path) => RequestView::ShowFile(path@),
            Request::Spawn(path, args) => RequestView::Spawn(path@, texts(args@)),
            Request::Exit => RequestView::Exit,
            Request::Done => RequestView::Done,
        }
    }
}

/// How far a command has come.
#[derive(Debug, Clone, Copy, PartialEq, Eq, Structural)]
pub enum Stage {
    /// Nothing has been asked for yet.
    Fresh,
    /// `cd` has asked whether its target exists.
    AwaitDir,
    /// `type` is about to describe the operand `arg`.
    Describe { arg: usize },
    /// `type` has asked whether the operand `arg` is a file in the search
    /// directory `dir`.
    AwaitFile { arg: usize, dir: usize },
    /// An external command has asked whether its program is a file in the
    /// search directory `dir`.
    AwaitProgram { dir: usize },
    /// `cat` is about to show the operand `arg`.
    Show { arg: usize },
    /// The last request has been made; only `Done` is left.
    Closing,
    /// Nothing is left.
    Ended,
}

/// A command under way: the command, the directories of the search path,
/// the stage, and the path that the last question was about.
pub struct Dispatch {
    cmd: ShellCommand,
    dirs: Vec<String>,
    stage: Stage,
    target: String,
}

/// A command under way as contracts see it.
pub struct DispatchView {
    pub cmd: CommandView,
    pub dirs: Seq<Seq<char>>,
    pub stage: Stage,
    pub target: Seq<char>,
}

/// What one step comes to: the state and the session after it, and the
/// request it makes.
pub struct Outcome {
    pub state: DispatchView,
    pub session: SessionView,
    pub request: RequestView,
}

/// The line that `cat` writes to standard error when it has no operand.
pub open spec fn missing_operand_text() -> Seq<char> {
    "cat: missing file operand"@
}

/// Whether the stage fits the command: its indices are in range and it is a
/// stage of the command's kind.
pub open spec fn consistent(d: DispatchView) -> bool {
    match d.stage {
        Stage::Fresh | Stage::Closing | Stage::Ended => true,
        Stage::AwaitDir => d.cmd.kind == CommandKind::Cd,
        Stage::Describe { arg } => d.cmd.kind == CommandKind::Type && arg <= d.cmd.args.len(),
        Stage::AwaitFile { arg, dir } => d.cmd.kind == CommandKind::Type && arg < d.cmd.args.len()
            && dir < d.dirs.len(),
        Stage::AwaitProgram { dir } => d.cmd.kind == CommandKind::Unknown && 0 < d.cmd.args.len()
            && dir < d.dirs.len(),
        Stage::Show { arg } => d.cmd.kind == CommandKind::Cat && arg <= d.cmd.args.len(),
    }
}

/// The step that only moves to `stage` and makes `request`.
pub open spec fn proceed(
    d: DispatchView,
    s: SessionView,
    stage: Stage,
    request: RequestView,
) -> Outcome {
    Outcome { state: DispatchView { stage, ..d }, session: s, request }
}

/// The step that asks whether `path` is a file, and waits in `stage`.
pub open spec fn ask_file(
    d: DispatchView,
    s: SessionView,
    stage: Stage,
    path: Seq<char>,
) -> Outcome {
    Outcome {
        state: DispatchView { stage, target: path, ..d },
        session: s,
        request: RequestView::ProbeFile(path),
    }
}

/// `type`, looking for its operand `arg` from the search directory `dir`
/// on: asks about the candidate in that directory, or reports the operand
/// as not found when the directories are used up.
pub open spec fn seek_described(
    d: DispatchView,
    s: SessionView,
    arg: usize,
    dir: usize,
) -> Outcome {
    if dir < d.dirs.len() {
        ask_file(
            d,
            s,
            Stage::AwaitFile { arg, dir },
            append_path(d.dirs[dir as int], d.cmd.args[arg as int]),
        )
    } else {
        proceed(
            d,
            s,
            Stage::Describe { arg: (arg + 1) as usize },
            RequestView::Print(not_found_text(d.cmd.args[arg as int])),
        )
    }
}

/// `type`, at its operand `arg`: done after the last one; a builtin's name
/// is reported as such; any other name is looked for along the search path.
pub open spec fn describe(d: DispatchView, s: SessionView, arg: usize) -> Outcome {
    if arg >= d.cmd.args.len() {
        proceed(d, s, Stage::Ended, RequestView::Done)
    } else if classify(d.cmd.args[arg as int]) != CommandKind::Unknown {
        proceed(
            d,
            s,
            Stage::Describe { arg: (arg + 1) as usize },
            RequestView::Print(builtin_text(d.cmd.args[arg as int])),
        )
    } else {
        seek_described(d, s, arg, 0)
    }
}

/// An external command, looking for its program from the search directory
/// `dir` on: asks about the candidate in that directory, or reports the
/// command as not found when the directories are used up.
pub open spec fn seek_program(d: DispatchView, s: SessionView, dir: usize) -> Outcome {
    if dir < d.dirs.len() {
        ask_file(
            d,
            s,
            Stage::AwaitProgram { dir },
            append_path(d.dirs[dir as int], d.cmd.args[0]),
        )
    } else {
        proceed(
            d,
            s,
            Stage::Closing,
            RequestView::Print(command_not_found_text(d.cmd.args[0])),
        )
    }
}

/// `cat`, at its operand `arg`: done after the last one, else shows the
/// file that the operand names, seen from the working directory.
pub open spec fn show(d: DispatchView, s: SessionView, arg: usize) -> Outcome {
    if arg >= d.cmd.args.len() {
        proceed(d, s, Stage::Ended, RequestView::Done)
    } else {
        proceed(
            d,
            s,
            Stage::Show { arg: (arg + 1) as usize },
            RequestView::ShowFile(append_path(s.cwd, d.cmd.args[arg as int])),
        )
    }
}

/// `cd`, at its start: without an operand it does nothing; else it follows
/// its plan for the first operand, and asks first where the plan says so.
pub open spec fn change_dir(d: DispatchView, s: SessionView) -> Outcome {
    if d.cmd.args.len() == 0 {
        proceed(d, s, Stage::Ended, RequestView::Done)
    } else {
        match cd_plan(s.cwd, s.home, d.cmd.args[0]) {
            CdPlanView::Stay => proceed(d, s, Stage::Ended, RequestView::Done),
            CdPlanView::Go(path) => proceed(
                d,
                SessionView { cwd: path, ..s },
                Stage::Ended,
                RequestView::Done,
            ),
            CdPlanView::Try(path) => Outcome {
                state: DispatchView { stage: Stage::AwaitDir, target: path, ..d },
                session: s,
                request: RequestView::ProbeDir(path),
            },
        }
    }
}

/// The first step of a command.
pub open spec fn begin(d: DispatchView, s: SessionView) -> Outcome {
    match d.cmd.kind {
        CommandKind::Exit => proceed(d, s, Stage::Ended, RequestView::Exit),
        CommandKind::Echo => proceed(
            d,
            s,
            Stage::Closing,
            RequestView::Print(echo_text(d.cmd.args)),
        ),
        CommandKind::Pwd => proceed(d, s, Stage::Closing, RequestView::Print(s.cwd)),
        CommandKind::Cd => change_dir(d, s),
        CommandKind::Type => describe(d, s, 0),
        CommandKind::Cat => if d.cmd.args.len() == 0 {
            proceed(d, s, Stage::Closing, RequestView::Complain(missing_operand_text()))
        } else {
            show(d, s, 0)
        },
        CommandKind::Unknown => if d.cmd.args.len() == 0 {
            proceed(d, s, Stage::Ended, RequestView::Done)
        } else {
            seek_program(d, s, 0)
        },
    }
}

/// One step of the machine: from a state, a session and the answer to the
/// question last asked (of no account where none was asked) to the next
/// state, the session and the next request.
pub open spec fn transition(d: DispatchView, s: SessionView, answer: bool) -> Outcome {
    match d.stage {
        Stage::Fresh => begin(d, s),
        Stage::AwaitDir => if answer {
            proceed(d, SessionView { cwd: d.target, ..s }, Stage::Ended, RequestView::Done)
        } else {
            proceed(d, s, Stage::Closing, RequestView::Print(missing_dir_text(d.target)))
        },
        Stage::Describe { arg } => describe(d, s, arg),
        Stage::AwaitFile { arg, dir } => if answer {
            proceed(
                d,
                s,
                Stage::Describe { arg: (arg + 1) as usize },
                RequestView::Print(found_text(d.cmd.args[arg as int], d.target)),
            )
        } else {
            seek_described(d, s, arg, (dir + 1) as usize)
        },
        Stage::AwaitProgram { dir } => if answer {
            proceed(d, s, Stage::Closing, RequestView::Spawn(d.target, d.cmd.args.skip(1)))
        } else {
            seek_program(d, s, (dir + 1) as usize)
        },
        Stage::Show { arg } => show(d, s, arg),
        Stage::Closing | Stage::Ended => proceed(d, s, Stage::Ended, RequestView::Done),
    }
}

impl View for Dispatch {
    type V = DispatchView;

    closed spec fn view(&self) -> DispatchView {
        DispatchView {
            cmd: self.cmd@,
            dirs: texts(self.dirs@),
            stage: self.stage,
            target: self.target@,
        }
    }
}

/// Copies of the strings of `v` from the second one on.
fn operands(v: &Vec<String>) -> (r: Vec<String>)
    requires
        v.len() > 0,
    ensures
        texts(r@) == texts(v@).skip(1),
{
    let mut r: Vec<String> = Vec::new();
    let mut i: usize = 1;
    assert(texts(r@) =~= texts(v@).subrange(1, 1));
    while i < v.len()
        invariant
            1 <= i <= v.len(),
            texts(r@) == texts(v@).subrange(1, i as int),
        decreases v.len() - i,
    {
        let s = v[i].clone();
        proof {
            lemma_texts_push(r@, s);
            assert(texts(v@).subrange(1, i as int).push(s@) =~= texts(v@).subrange(1, i + 1));
        }
        r.push(s);
        i += 1;
    }
    assert(texts(v@).subrange(1, v@.len() as int) =~= texts(v@).skip(1));
    r
}

impl Dispatch {
    #[verifier::type_invariant]
    spec fn sound(&self) -> bool {
        consistent(self@)
    }

    /// A command about to start, with `search_path` as the value of `PATH`.
    pub fn new(cmd: ShellCommand, search_path: &str) -> (d: Dispatch)
        ensures
            d@ == (DispatchView {
                cmd: cmd@,
                dirs: search_dirs(search_path@),
                stage: Stage::Fresh,
                target: Seq::empty(),
            }),
    {
        Dispatch {
            cmd,
            dirs: split_path_list(search_path),
            stage: Stage::Fresh,
            target: String::new(),
        }
    }

    /// Whether the command is complete: a step would only say `Done` again.
    pub fn is_ended(&self) -> (r: bool)
        ensures
            r == (self@.stage == Stage::Ended),
    {
        self.stage == Stage::Ended
    }

    fn seek_described(&mut self, arg: usize, dir: usize) -> (request: Request)
        requires
            old(self)@.cmd.kind == CommandKind::Type,
            arg < old(self)@.cmd.args.len(),
            dir <= old(self)@.dirs.len(),
        ensures
            forall|s: SessionView|
                #![trigger seek_described(old(self)@, s, arg, dir)]
                seek_described(old(self)@, s, arg, dir) == (Outcome {
                    state: final(self)@,
                    session: s,
                    request: request@,
                }),
    {
        assert(self@.cmd.args.len() == self.cmd.args.len() && self@.dirs.len() == self.dirs.len());
        if dir < self.dirs.len() {
            let path = join_path(self.dirs[dir].as_str(), self.cmd.args[arg].as_str());
            self.stage = Stage::AwaitFile { arg, dir };
            self.target = path.clone();
            Request::ProbeFile(path)
        } else {
            self.stage = Stage::Describe { arg: arg + 1 };
            Request::Print(not_found_line(self.cmd.args[arg].as_str()))
        }
    }

    fn describe(&mut self, arg: usize) -> (request: Request)
        requires
            old(self)@.cmd.kind == CommandKind::Type,
            arg <= old(self)@.cmd.args.len(),
        ensures
            forall|s: SessionView|
                #![trigger describe(old(self)@, s, arg)]
                describe(old(self)@, s, arg) == (Outcome {
                    state: final(self)@,
                    session: s,
                    request: request@,
                }),
    {
        if arg >= self.cmd.args.len() {
            self.stage = Stage::Ended;
            Request::Done
        } else if CommandKind::new(self.cmd.args[arg].as_str()) != CommandKind::Unknown {
            self.stage = Stage::Describe { arg: arg + 1 };
            Request::Print(builtin_line(self.cmd.args[arg].as_str()))
        } else {
            self.seek_described(arg, 0)
        }
    }

    fn seek_program(&mut self, dir: usize) -> (request: Request)
        requires
            old(self)@.cmd.kind == CommandKind::Unknown,
            0 < old(self)@.cmd.args.len(),
            dir <= old(self)@.dirs.len(),
        ensures
            forall|s: SessionView|
                #![trigger seek_program(old(self)@, s, dir)]
                seek_program(old(self)@, s, dir) == (Outcome {
                    state: final(self)@,
                    session: s,
                    request: request@,
                }),
    {
        if dir < self.dirs.len() {
            let path = join_path(self.dirs[dir].as_str(), self.cmd.args[0].as_str());
            self.stage = Stage::AwaitProgram { dir };
            self.target = path.clone();
            Request::ProbeFile(path)
        } else {
            self.stage = Stage::Closing;
            Request::Print(command_not_found_line(self.cmd.args[0].as_str()))
        }
    }

    fn show(&mut self, session: &Session, arg: usize) -> (request: Request)
        requires
            old(self)@.cmd.kind == CommandKind::Cat,
            arg <= old(self)@.cmd.args.len(),
        ensures
            show(old(self)@, session@, arg) == (Outcome {
                state: final(self)@,
                session: session@,
                request: request@,
            }),
    {
        if arg >= self.cmd.args.len() {
            self.stage = Stage::Ended;
            Request::Done
        } else {
            self.stage = Stage::Show { arg: arg + 1 };
            Request::ShowFile(join_path(session.cwd(), self.cmd.args[arg].as_str()))
        }
    }

    fn change_dir(&mut self, session: &mut Session) -> (request: Request)
        requires
            old(self)@.cmd.kind == CommandKind::Cd,
        ensures
            change_dir(old(self)@, old(session)@) == (Outcome {
                state: final(self)@,
                session: final(session)@,
                request: request@,
            }),
    {
        if self.cmd.args.len() == 0 {
            self.stage = Stage::Ended;
            return Request::Done;
        }
        match plan_cd(session.cwd(), session.home(), self.cmd.args[0].as_str()) {
            CdPlan::Stay => {
                self.stage = Stage::Ended;
                Request::Done
            },
            CdPlan::Go(path) => {
                session.enter(path);
                self.stage = Stage::Ended;
                Request::Done
            },
            CdPlan::Try(path) => {
                self.stage = Stage::AwaitDir;
                self.target = path.clone();
                Request::ProbeDir(path)
            },
        }
    }

    fn begin(&mut self, session: &mut Session) -> (request: Request)
        ensures
            begin(old(self)@, old(session)@) == (Outcome {
                state: final(self)@,
                session: final(session)@,
                request: request@,
            }),
    {
        match self.cmd.kind {
            CommandKind::Exit => {
                self.stage = Stage::Ended;
                Request::Exit
            },
            CommandKind::Echo => {
                self.stage = Stage::Closing;
                Request::Print(echo_line(&self.cmd.args))
            },
            CommandKind::Pwd => {
                self.stage = Stage::Closing;
                Request::Print(String::from_str(session.cwd()))
            },
            CommandKind::Cd => self.change_dir(session),
            CommandKind::Type => self.describe(0),
            CommandKind::Cat => {
                if self.cmd.args.len() == 0 {
                    self.stage = Stage::Closing;
                    Request::Complain(String::from_str("cat: missing file operand"))
                } else {
                    self.show(session, 0)
                }
            },
            CommandKind::Unknown => {
                if self.cmd.args.len() == 0 {
                    self.stage = Stage::Ended;
                    Request::Done
                } else {
                    self.seek_program(0)
                }
            },
        }
    }

    /// Takes one step: `answer` answers the question that the last request
    /// asked, and is of no account if it asked none.
    pub fn step(&mut self, session: &mut Session, answer: bool) -> (request: Request)
        ensures
            consistent(final(self)@),
            transition(old(self)@, old(session)@, answer) == (Outcome {
                state: final(self)@,
                session: final(session)@,
                request: request@,
            }),
    {
        proof {
            use_type_invariant(&*self);
        }
        assert(self@.cmd.args.len() == self.cmd.args.len() && self@.dirs.len() == self.dirs.len());
        match self.stage {
            Stage::Fresh => self.begin(session),
            Stage::AwaitDir => {
                if answer {
                    session.enter(self.target.clone());
                    self.stage = Stage::Ended;
                    Request::Done
                } else {
                    self.stage = Stage::Closing;
                    Request::Print(missing_dir_line(self.target.as_str()))
                }
            },
            Stage::Describe { arg } => self.describe(arg),
            Stage::AwaitFile { arg, dir } => {
                if answer {
                    self.stage = Stage::Describe { arg: arg + 1 };
                    Request::Print(
                        found_line(self.cmd.args[arg].as_str(), self.target.as_str()),
                    )
                } else {
                    self.seek_described(arg, dir + 1)
                }
            },
            Stage::AwaitProgram { dir } => {
                if answer {
                    self.stage = Stage::Closing;
                    Request::Spawn(self.target.clone(), operands(&self.cmd.args))
                } else {
                    self.seek_program(dir + 1)
                }
            },
            Stage::Show { arg } => self.show(session, arg),
            Stage::Closing | Stage::Ended => {
                self.stage = Stage::Ended;
                Request::Done
            },
        }
    }
}

} // verus!
