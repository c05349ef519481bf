//! A cursor over the characters of an input line.

use crate::text::chars_of;
use vstd::prelude::*;

verus! {

/// The characters of a line together with a reading position. What lies
/// before the position has been consumed; `rest` is what is still to come.
pub struct Cursor {
    chars: Vec<char>,
    pos: usize,
}

impl Cursor {
    #[verifier::type_invariant]
    spec fn in_bounds(&self) -> bool {
        self.pos <= self.chars.len()
    }

    /// The input not yet consumed.
    pub closed spec fn rest(&self) -> Seq<char> {
        self.chars@.skip(self.pos as int)
    }

    /// A cursor at the start of `line`.
    pub fn new(line: &str) -> (c: Cursor)
        ensures
            c.rest() == line@,
    {
        let chars = chars_of(line);
        let c = Cursor { chars, pos: 0 };
        assert(c.chars@.skip(0) =~= line@);
        c
    }

    /// Consumes one character and returns it, or returns `None` at the end
    /// of the input and leaves the cursor there.
    pub fn next(&mut self) -> (r: Option<char>)
        ensures
            old(self).rest().len() == 0 ==> r is None && final(self).rest() == old(self).rest(),
            old(self).rest().len() > 0 ==> r == Some(old(self).rest()[0]) && final(self).rest()
                == old(self).rest().drop_first(),
    {
        proof {
            use_type_invariant(&*self);
        }
        if self.pos < self.chars.len() {
            let c = self.chars[self.pos];
            self.pos = self.pos + 1;
            assert(self.rest() =~= old(self).rest().drop_first());
            Some(c)
        } else {
            None
        }
    }

    /// The character that `next` would return, without consuming it.
    pub fn peek(&self) -> (r: Option<char>)
        ensures
            r == (if self.rest().len() > 0 {
                Some(self.rest()[0])
            } else {
                None
            }),
    {
        proof {
            use_type_invariant(self);
        }
        if self.pos < self.chars.len() {
            Some(self.chars[self.pos])
        } else {
            None
        }
    }
}

} // verus!
