//! Suggestions for completing a command line: builtin names, earlier
//! command lines, and paths that the caller found on disk.

use vstd::prelude::*;
use crate::history::CommandHistory;
use crate::operands::{names_sorted, sort_strings};
use crate::parser::{shell_words, split_words, string_views};
use crate::text::str_equal;

verus! {

/// `p` is a prefix of `s`.
pub open spec fn has_prefix(s: Seq<char>, p: Seq<char>) -> bool {
    p.len() <= s.len() && s.subrange(0, p.len() as int) == p
}

/// Whether `s` starts with `p`.
pub fn starts_with(s: &str, p: &str) -> (r: bool)
    ensures
        r == has_prefix(s@, p@),
{
    let n = p.unicode_len();
    if n > s.unicode_len() {
        return false;
    }
    let mut i: usize = 0;
    while i < n
        invariant
            n == p@.len(),
            n <= s@.len(),
            i <= n,
            forall|j: int| 0 <= j < i ==> s@[j] == p@[j],
        decreases n - i,
    {
        if s.get_char(i) != p.get_char(i) {
            assert(s@.subrange(0, n as int)[i as int] != p@[i as int]);
            return false;
        }
        i = i + 1;
    }
    assert(s@.subrange(0, n as int) =~= p@);
    true
}

/// The names that completion offers for the command word.
pub open spec fn completion_names() -> Seq<Seq<char>> {
    seq!["ls"@, "cd"@, "ping"@, "clear"@, "open"@, "mkdir"@, "rm"@, "cp"@, "mv"@]
}

/// The names among `names` that start with `p`, in order.
pub open spec fn names_with_prefix(names: Seq<Seq<char>>, p: Seq<char>) -> Seq<Seq<char>>
    decreases names.len(),
{
    if names.len() == 0 {
        Seq::empty()
    } else {
        let rest = names_with_prefix(names.drop_last(), p);
        if has_prefix(names.last(), p) {
            rest.push(names.last())
        } else {
            rest
        }
    }
}

/// The builtin names suggested for `input`: while the command word is being
/// typed (at most one word, no trailing space), the names that start with it.
pub open spec fn builtin_suggestions(input: Seq<char>) -> Seq<Seq<char>> {
    let parts = match shell_words(input) {
        Some(ws) => ws,
        None => Seq::empty(),
    };
    if parts.len() <= 1 && !(input.len() > 0 && input.last() == ' ') {
        let word = if parts.len() == 0 { Seq::empty() } else { parts[0] };
        names_with_prefix(completion_names(), word)
    } else {
        Seq::empty()
    }
}

/// The earlier command lines suggested for `input`, newest first: the five
/// newest for an empty input, else those that extend the input.
pub open spec fn history_suggestions(entries: Seq<Seq<char>>, input: Seq<char>) -> Seq<Seq<char>>
    decreases entries.len(),
{
    if entries.len() == 0 {
        Seq::empty()
    } else if input.len() == 0 {
        let newest = entries.subrange(entries.len() - 5, entries.len() as int);
        if entries.len() <= 5 {
            entries.reverse()
        } else {
            newest.reverse()
        }
    } else {
        let rest = history_suggestions(entries.drop_first(), input);
        if has_prefix(entries[0], input) && entries[0] != input {
            rest.push(entries[0])
        } else {
            rest
        }
    }
}

/// `s` without repeats of the element just before.
pub open spec fn dedup_spec(s: Seq<Seq<char>>) -> Seq<Seq<char>>
    decreases s.len(),
{
    if s.len() <= 1 {
        s
    } else {
        let rest = dedup_spec(s.drop_last());
        if s.last() == s[s.len() - 2] {
            rest
        } else {
            rest.push(s.last())
        }
    }
}

proof fn lemma_dedup_last(s: Seq<Seq<char>>)
    requires
        s.len() > 0,
    ensures
        dedup_spec(s).len() > 0,
        dedup_spec(s).last() == s.last(),
    decreases s.len(),
{
    if s.len() > 1 {
        lemma_dedup_last(s.drop_last());
    }
}

/// Drops each string equal to the one just before it.
fn dedup_strings(v: Vec<String>) -> (r: Vec<String>)
    ensures
        string_views(r@) == dedup_spec(string_views(v@)),
{
    let ghost all = string_views(v@);
    let mut out: Vec<String> = Vec::new();
    let mut i: usize = 0;
    while i < v.len()
        invariant
            i <= v@.len(),
            all == string_views(v@),
            string_views(out@) == dedup_spec(all.subrange(0, i as int)),
            i > 0 ==> out@.len() > 0 && out@.last()@ == all[i - 1],
        decreases v@.len() - i,
    {
        let ghost pre = all.subrange(0, i + 1);
        assert(pre.drop_last() =~= all.subrange(0, i as int));
        let ghost before = string_views(out@);
        let n = out.len();
        let repeat = n > 0 && str_equal(out[n - 1].as_str(), v[i].as_str());
        if !repeat {
            out.push(v[i].clone());
            assert(string_views(out@) =~= before.push(all[i as int]));
        }
        proof {
            if i > 0 {
                assert(pre[pre.len() - 2] == all[i - 1]);
            }
        }
        i = i + 1;
    }
    assert(all.subrange(0, i as int) =~= all);
    out
}

/// Completion for one shell tab: its own view of the command history.
pub struct Autocompleter {
    command_history: CommandHistory,
}

impl Autocompleter {
    /// The command lines that this completer draws on.
    pub closed spec fn entries(&self) -> Seq<Seq<char>> {
        self.command_history.entries()
    }

    /// Creates a completer over a copy of a command history.
    pub fn new(command_history: CommandHistory) -> (r: Autocompleter)
        ensures
            r.entries() == command_history.entries(),
    {
        Autocompleter { command_history }
    }

    /// The builtin names that complete the command word of `input`.
    pub fn get_builtin_suggestions(&self, input: &str) -> (r: Vec<String>)
        ensures
            string_views(r@) == builtin_suggestions(input@),
    {
        proof {
            reveal_strlit("");
        }
        let parts = match split_words(input) {
            Some(ws) => ws,
            None => {
                let v: Vec<String> = Vec::new();
                assert(string_views(v@) =~= Seq::<Seq<char>>::empty());
                v
            },
        };
        let ghost pv = string_views(parts@);
        assert(pv == match shell_words(input@) {
            Some(ws) => ws,
            None => Seq::<Seq<char>>::empty(),
        });
        let n = input.unicode_len();
        let trailing_space = n > 0 && input.get_char(n - 1) == ' ';
        let mut out: Vec<String> = Vec::new();
        if parts.len() <= 1 && !trailing_space {
            let word: &str = if parts.len() == 0 { "" } else { parts[0].as_str() };
            let names: [&str; 9] = ["ls", "cd", "ping", "clear", "open", "mkdir", "rm", "cp", "mv"];
            let ghost all = completion_names();
            assert(views_of_names(names@) == all) by {
                assert(views_of_names(names@) =~= all);
            }
            let mut i: usize = 0;
            while i < 9
                invariant
                    i <= 9,
                    views_of_names(names@) == all,
                    all.len() == 9,
                    string_views(out@) == names_with_prefix(all.subrange(0, i as int), word@),
                decreases 9 - i,
            {
                assert(all.subrange(0, i + 1).drop_last() =~= all.subrange(0, i as int));
                let ghost before = string_views(out@);
                assert(names@[i as int]@ == all[i as int]);
                if starts_with(names[i], word) {
                    out.push(String::from_str(names[i]));
                    assert(string_views(out@) =~= before.push(all[i as int]));
                }
                i = i + 1;
            }
            assert(all.subrange(0, 9) =~= all);
            assert(parts.len() == 1 ==> pv[0] == parts@[0]@);
            assert(parts.len() == 0 ==> word@ =~= Seq::<char>::empty());
        } else {
            assert(string_views(out@) =~= Seq::<Seq<char>>::empty());
        }
        out
    }

    /// The earlier command lines that complete `input`, newest first.
    pub fn get_history_suggestions(&self, input: &str) -> (r: Vec<String>)
        ensures
            string_views(r@) == history_suggestions(self.entries(), input@),
    {
        let h = self.command_history.history();
        let ghost all = self.entries();
        let n = h.len();
        let mut out: Vec<String> = Vec::new();
        if n == 0 {
            return out;
        }
        if input.unicode_len() == 0 {
            let lo: usize = if n > 5 { n - 5 } else { 0 };
            let ghost want = if n <= 5 { all.reverse() } else { all.subrange(n - 5, n as int).reverse() };
            let mut i: usize = n;
            while i > lo
                invariant
                    lo <= i <= n,
                    n == all.len(),
                    all == h@.map_values(|s: String| s@),
                    lo == (if n > 5 { n - 5 } else { 0 }),
                    out@.len() == n - i,
                    forall|j: int| 0 <= j < n - i ==> out@[j]@ == all[n - 1 - j],
                decreases i,
            {
                i = i - 1;
                out.push(h[i].clone());
            }
            assert(string_views(out@) =~= want);
            return out;
        }
        // Newest first: walk from the newest entry down.
        let mut i: usize = n;
        while i > 0
            invariant
                i <= n,
                n == all.len(),
                all == h@.map_values(|s: String| s@),
                input@.len() > 0,
                string_views(out@) == history_suggestions(all.subrange(i as int, n as int), input@),
            decreases i,
        {
            i = i - 1;
            let ghost rest = all.subrange(i as int, n as int);
            assert(rest.drop_first() =~= all.subrange(i + 1, n as int));
            let ghost before = string_views(out@);
            assert(rest[0] == h@[i as int]@);
            if starts_with(h[i].as_str(), input) && !str_equal(h[i].as_str(), input) {
                out.push(h[i].clone());
                assert(string_views(out@) =~= before.push(rest[0]));
            }
        }
        assert(all.subrange(0, n as int) =~= all);
        out
    }

    /// All suggestions for `input`, given the path suggestions found on disk:
    /// sorted, each once.
    pub fn get_suggestions(&self, input: &str, path_suggestions: Vec<String>) -> (r: Vec<String>)
        ensures
            exists|s: Seq<Seq<char>>|
                s.to_multiset() == (builtin_suggestions(input@) + history_suggestions(
                    self.entries(),
                    input@,
                ) + string_views(path_suggestions@)).to_multiset() && names_sorted(s)
                    && string_views(r@) == dedup_spec(s),
    {
        let mut all = self.get_builtin_suggestions(input);
        let hist = self.get_history_suggestions(input);
        let ghost joined = builtin_suggestions(input@) + history_suggestions(self.entries(), input@)
            + string_views(path_suggestions@);
        let mut i: usize = 0;
        let ghost first = string_views(all@);
        while i < hist.len()
            invariant
                i <= hist@.len(),
                string_views(all@) == first + string_views(hist@).subrange(0, i as int),
            decreases hist@.len() - i,
        {
            let ghost b = string_views(all@);
            all.push(hist[i].clone());
            assert(string_views(all@) =~= b.push(hist@[i as int]@));
            assert(string_views(hist@)[i as int] == hist@[i as int]@);
            i = i + 1;
            assert(string_views(all@) =~= first + string_views(hist@).subrange(0, i as int));
        }
        let ghost second = string_views(all@);
        let mut j: usize = 0;
        while j < path_suggestions.len()
            invariant
                j <= path_suggestions@.len(),
                string_views(all@) == second + string_views(path_suggestions@).subrange(0, j as int),
            decreases path_suggestions@.len() - j,
        {
            let ghost b = string_views(all@);
            all.push(path_suggestions[j].clone());
            assert(string_views(all@) =~= b.push(path_suggestions@[j as int]@));
            assert(string_views(path_suggestions@)[j as int] == path_suggestions@[j as int]@);
            j = j + 1;
            assert(string_views(all@) =~= second + string_views(path_suggestions@).subrange(0, j as int));
        }
        assert(string_views(hist@).subrange(0, i as int) =~= string_views(hist@));
        assert(string_views(path_suggestions@).subrange(0, j as int) =~= string_views(path_suggestions@));
        assert(string_views(all@) == joined);
        sort_strings(&mut all);
        let ghost sorted = string_views(all@);
        let r = dedup_strings(all);
        assert(sorted.to_multiset() == joined.to_multiset() && names_sorted(sorted) && string_views(r@) == dedup_spec(sorted));
        r
    }
}

/// The views of a list of string slices.
pub open spec fn views_of_names(v: Seq<&str>) -> Seq<Seq<char>> {
    v.map_values(|s: &str| s@)
}

} // verus!
