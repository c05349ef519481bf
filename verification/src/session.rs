//! The state that lasts from one command to the next.

use vstd::prelude::*;
use vstd::string::*;

verus! {

/// The session: the working directory, which only `cd` changes, and the
/// home directory, which nothing changes.
pub struct Session {
    cwd: String,
    home: String,
}

/// A session as contracts see it.
pub struct SessionView {
    pub cwd: Seq<char>,
    pub home: Seq<char>,
}

impl View for Session {
    type V = SessionView;

    closed spec fn view(&self) -> SessionView {
        SessionView { cwd: self.cwd@, home: self.home@ }
    }
}

impl Session {
    /// A session that starts in `cwd`.
    pub fn new(cwd: String, home: String) -> (s: Session)
        ensures
            s@ == (SessionView { cwd: cwd@, home: home@ }),
    {
        Session { cwd, home }
    }

    /// The working directory.
    pub fn cwd(&self) -> (dir: &str)
        ensures
            dir@ == self@.cwd,
    {
        self.cwd.as_str()
    }

    /// The home directory.
    pub fn home(&self) -> (dir: &str)
        ensures
            dir@ == self@.home,
    {
        self.home.as_str()
    }

    /// Makes `dir` the working directory.
    pub(crate) fn enter(&mut self, dir: String)
        ensures
            final(self)@ == (SessionView { cwd: dir@, home: old(self)@.home }),
    {
        self.cwd = dir;
    }
}

} // verus!
