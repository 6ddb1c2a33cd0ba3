//! The list of submitted command lines, with a cursor for walking back and
//! forth through it.

use vstd::prelude::*;

verus! {

/// The command lines entered so far, oldest first, and the position being
/// shown while the user walks through them (`None` when not walking).
pub struct CommandHistory {
    history: Vec<String>,
    current_index: Option<usize>,
}

impl Clone for CommandHistory {
    fn clone(&self) -> (r: CommandHistory)
        ensures
            r.entries() == self.entries(),
            r.cursor() == self.cursor(),
    {
        let mut history: Vec<String> = Vec::new();
        let mut i: usize = 0;
        while i < self.history.len()
            invariant
                i <= self.history@.len(),
                history@.len() == i,
                forall|j: int| 0 <= j < i ==> history@[j]@ == self.history@[j]@,
            decreases self.history@.len() - i,
        {
            history.push(String::from_str(self.history[i].as_str()));
            i = i + 1;
        }
        let r = CommandHistory { history, current_index: self.current_index };
        assert(r.entries() =~= self.entries());
        r
    }
}

impl CommandHistory {
    /// The command lines, oldest first.
    pub closed spec fn entries(&self) -> Seq<Seq<char>> {
        self.history@.map_values(|s: String| s@)
    }

    /// The position being shown, if any.
    pub closed spec fn cursor(&self) -> Option<int> {
        match self.current_index {
            Some(i) => Some(i as int),
            None => None,
        }
    }

    /// The cursor, when set, points into the list.
    pub open spec fn wf(&self) -> bool {
        self.cursor() matches Some(i) ==> 0 <= i < self.entries().len()
    }

    /// Creates an empty history.
    pub fn new() -> (r: CommandHistory)
        ensures
            r.wf(),
            r.entries() == Seq::<Seq<char>>::empty(),
            r.cursor() is None,
    {
        let r = CommandHistory { history: Vec::new(), current_index: None };
        assert(r.entries() =~= Seq::<Seq<char>>::empty());
        r
    }

    /// The command lines, oldest first.
    pub fn history(&self) -> (r: &Vec<String>)
        ensures
            r@.map_values(|s: String| s@) == self.entries(),
    {
        &self.history
    }

    /// The position being shown, if any.
    pub fn current_index(&self) -> (r: Option<usize>)
        ensures
            match r {
                Some(i) => self.cursor() == Some(i as int),
                None => self.cursor() is None,
            },
    {
        self.current_index
    }

    /// Adds a command line, unless it is empty or repeats the newest one,
    /// and stops walking.
    pub fn add(&mut self, command: String)
        requires
            old(self).wf(),
        ensures
            final(self).wf(),
            final(self).cursor() is None,
            final(self).entries() == if command@.len() == 0 || (old(self).entries().len() > 0
                && old(self).entries().last() == command@) {
                old(self).entries()
            } else {
                old(self).entries().push(command@)
            },
    {
        let n = self.history.len();
        let repeat = n > 0 && crate::text::str_equal(self.history[n - 1].as_str(), command.as_str());
        if command.unicode_len() != 0 && !repeat {
            let ghost e = self.entries();
            let ghost c = command@;
            self.history.push(command);
            assert(self.entries() =~= e.push(c));
        }
        self.current_index = None;
    }

    /// Steps to the next older command line and returns it: from not walking
    /// to the newest, and at the oldest it stays there.
    pub fn navigate_up(&mut self) -> (r: Option<&str>)
        requires
            old(self).wf(),
        ensures
            final(self).wf(),
            final(self).entries() == old(self).entries(),
            old(self).entries().len() == 0 ==> r is None && final(self).cursor() == old(self).cursor(),
            old(self).entries().len() > 0 ==> {
                let i = match old(self).cursor() {
                    Some(k) => if k > 0 { k - 1 } else { 0 },
                    None => old(self).entries().len() - 1,
                };
                &&& final(self).cursor() == Some(i)
                &&& r is Some
                &&& r->Some_0@ == old(self).entries()[i]
            },
    {
        let n = self.history.len();
        if n == 0 {
            return None;
        }
        let i: usize = match self.current_index {
            Some(k) => if k > 0 {
                k - 1
            } else {
                0
            },
            None => n - 1,
        };
        self.current_index = Some(i);
        Some(self.history[i].as_str())
    }

    /// Steps to the next newer command line and returns it; past the newest,
    /// or when not walking, it stops walking and returns `None`.
    pub fn navigate_down(&mut self) -> (r: Option<&str>)
        requires
            old(self).wf(),
        ensures
            final(self).wf(),
            final(self).entries() == old(self).entries(),
            old(self).entries().len() == 0 ==> r is None && final(self).cursor() == old(self).cursor(),
            old(self).entries().len() > 0 ==> match old(self).cursor() {
                Some(k) => if k + 1 < old(self).entries().len() {
                    &&& final(self).cursor() == Some(k + 1)
                    &&& r is Some
                    &&& r->Some_0@ == old(self).entries()[k + 1]
                } else {
                    r is None && final(self).cursor() is None
                },
                None => r is None && final(self).cursor() is None,
            },
    {
        let n = self.history.len();
        if n == 0 {
            return None;
        }
        match self.current_index {
            Some(k) => {
                if k + 1 < n {
                    self.current_index = Some(k + 1);
                    Some(self.history[k + 1].as_str())
                } else {
                    self.current_index = None;
                    None
                }
            },
            None => {
                self.current_index = None;
                None
            },
        }
    }
}

} // verus!
