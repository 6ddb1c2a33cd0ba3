//! The builtins that work on the session's tables and on text alone:
//! `alias`/`unalias`, `export`, `unset`, `echo` and `grep`.

use vstd::prelude::*;
use crate::table::{Entry, VarTable, lookup, table_insert, table_remove};
use crate::text::{chars_of, index_of, occurs_in, split_once, split_once_char, string_of, views};

verus! {

// ----- unset -----
/// The table and the output after `unset` removes each of `args` in turn;
/// it stops at the first name that is not set.
pub open spec fn unset_spec(es: Seq<Entry>, args: Seq<Seq<char>>) -> (Seq<Entry>, Seq<char>)
    decreases args.len(),
{
    if args.len() == 0 {
        (es, Seq::empty())
    } else if lookup(es, args[0]).is_some() {
        unset_spec(table_remove(es, args[0]), args.drop_first())
    } else {
        (es, "unset: "@ + args[0] + ": not found\n"@)
    }
}

/// The table and the output of the `unset` builtin.
pub open spec fn unset_builtin_spec(es: Seq<Entry>, args: Seq<Seq<char>>) -> (Seq<Entry>, Seq<char>) {
    if args.len() == 0 {
        (es, "unset: usage: unset <variable_name>\n"@)
    } else {
        unset_spec(es, args)
    }
}

/// Handles `unset`: removes the named variables.
pub fn unset_builtin(env_vars: &mut VarTable, args: &[&str]) -> (r: String)
    requires
        old(env_vars).wf(),
    ensures
        final(env_vars).wf(),
        (final(env_vars).entries(), r@) == unset_builtin_spec(old(env_vars).entries(), views(args@)),
{
    if args.len() == 0 {
        return String::from_str("unset: usage: unset <variable_name>\n");
    }
    let ghost all = views(args@);
    assert(all.subrange(0, all.len() as int) =~= all);
    let mut i: usize = 0;
    while i < args.len()
        invariant
            env_vars.wf(),
            i <= args@.len(),
            all == views(args@),
            unset_spec(env_vars.entries(), all.subrange(i as int, all.len() as int)) == unset_spec(
                old(env_vars).entries(),
                all,
            ),
        decreases args@.len() - i,
    {
        let ghost rest = all.subrange(i as int, all.len() as int);
        assert(rest.drop_first() =~= all.subrange(i + 1, all.len() as int));
        let arg: &str = args[i];
        if !env_vars.remove(arg) {
            let mut out = String::from_str("unset: ");
            out.append(arg);
            out.append(": not found\n");
            return out;
        }
        i = i + 1;
    }
    assert(all.subrange(i as int, all.len() as int) =~= Seq::<Seq<char>>::empty());
    String::new()
}

// ----- export -----
/// One line of the `export` listing.
pub open spec fn export_line(e: Entry) -> Seq<char> {
    "export "@ + e.0 + "="@ + e.1 + "\n"@
}

/// The `export` listing of a table: one line per entry, in order.
pub open spec fn export_listing(es: Seq<Entry>) -> Seq<char>
    decreases es.len(),
{
    if es.len() == 0 {
        Seq::empty()
    } else {
        export_listing(es.drop_last()) + export_line(es.last())
    }
}

/// The table and the output after `export` handles each of `args` in turn: a
/// `KEY=value` argument sets `KEY`; a bare name prints that variable and ends
/// the command.
pub open spec fn export_spec(es: Seq<Entry>, args: Seq<Seq<char>>) -> (Seq<Entry>, Seq<char>)
    decreases args.len(),
{
    if args.len() == 0 {
        (es, Seq::empty())
    } else {
        match split_once(args[0], '=') {
            Some((k, v)) => export_spec(table_insert(es, k, v), args.drop_first()),
            None => match lookup(es, args[0]) {
                Some(v) => (es, export_line((args[0], v))),
                None => (es, "export: "@ + args[0] + ": not found\n"@),
            },
        }
    }
}

/// The table and the output of the `export` builtin.
pub open spec fn export_builtin_spec(es: Seq<Entry>, args: Seq<Seq<char>>) -> (Seq<Entry>, Seq<char>) {
    if args.len() == 0 {
        (es, if es.len() == 0 {
            "No environment variables defined in this session.\n"@
        } else {
            export_listing(es)
        })
    } else {
        export_spec(es, args)
    }
}

/// Appends the `export` line of one entry.
fn push_export_line(out: &mut String, k: &String, v: &String)
    ensures
        final(out)@ == old(out)@ + export_line((k@, v@)),
{
    let ghost o = out@;
    out.append("export ");
    out.append(k.as_str());
    out.append("=");
    out.append(v.as_str());
    out.append("\n");
    assert(out@ =~= o + export_line((k@, v@)));
}

/// Handles `export`: sets variables, prints one, or lists them all.
pub fn export_builtin(env_vars: &mut VarTable, args: &[&str]) -> (r: String)
    requires
        old(env_vars).wf(),
    ensures
        final(env_vars).wf(),
        (final(env_vars).entries(), r@) == export_builtin_spec(old(env_vars).entries(), views(args@)),
{
    if args.len() == 0 {
        if env_vars.is_empty() {
            return String::from_str("No environment variables defined in this session.\n");
        }
        let mut out = String::new();
        let mut j: usize = 0;
        while j < env_vars.len()
            invariant
                env_vars.wf(),
                env_vars.entries() == old(env_vars).entries(),
                j <= env_vars.entries().len(),
                out@ == export_listing(env_vars.entries().subrange(0, j as int)),
            decreases env_vars.entries().len() - j,
        {
            let ghost es = env_vars.entries();
            assert(es.subrange(0, j + 1).drop_last() =~= es.subrange(0, j as int));
            push_export_line(&mut out, env_vars.key_at(j), env_vars.value_at(j));
            j = j + 1;
        }
        assert(env_vars.entries().subrange(0, j as int) =~= env_vars.entries());
        return out;
    }
    let ghost all = views(args@);
    assert(all.subrange(0, all.len() as int) =~= all);
    let mut i: usize = 0;
    while i < args.len()
        invariant
            env_vars.wf(),
            i <= args@.len(),
            all == views(args@),
            export_spec(env_vars.entries(), all.subrange(i as int, all.len() as int)) == export_spec(
                old(env_vars).entries(),
                all,
            ),
        decreases args@.len() - i,
    {
        let ghost rest = all.subrange(i as int, all.len() as int);
        assert(rest.drop_first() =~= all.subrange(i + 1, all.len() as int));
        let arg: &str = args[i];
        match split_once_char(arg, '=') {
            Some((k, v)) => {
                env_vars.insert(k, v);
            },
            None => {
                match env_vars.get(arg) {
                    Some(v) => {
                        let mut out = String::new();
                        let key = String::from_str(arg);
                        push_export_line(&mut out, &key, v);
                        assert(out@ =~= export_line((arg@, v@)));
                        return out;
                    },
                    None => {
                        let mut out = String::from_str("export: ");
                        out.append(arg);
                        out.append(": not found\n");
                        return out;
                    },
                }
            },
        }
        i = i + 1;
    }
    assert(all.subrange(i as int, all.len() as int) =~= Seq::<Seq<char>>::empty());
    String::new()
}

// ----- alias -----
/// One line of the `alias` listing.
pub open spec fn alias_line(name: Seq<char>, command: Seq<char>) -> Seq<char> {
    "alias "@ + name + "='"@ + command + "'\n"@
}

/// The `alias` listing of a table: one line per entry, in order.
pub open spec fn alias_listing(es: Seq<Entry>) -> Seq<char>
    decreases es.len(),
{
    if es.len() == 0 {
        Seq::empty()
    } else {
        alias_listing(es.drop_last()) + alias_line(es.last().0, es.last().1)
    }
}

/// Whether `v` starts with `a` and ends with `b` and has room for both.
pub open spec fn wrapped_in(v: Seq<char>, a: char, b: char) -> bool {
    v.len() >= 2 && v[0] == a && v[v.len() - 1] == b
}

/// An alias value with one wrapping pair of double quotes (or of opening
/// parentheses) taken off.
pub open spec fn strip_wrapping(v: Seq<char>) -> Seq<char> {
    if wrapped_in(v, '(', '(') || wrapped_in(v, '"', '"') {
        v.subrange(1, v.len() - 1)
    } else {
        v
    }
}

/// The table and the output after `alias` handles each of `args` in turn: a
/// `name=value` argument sets the alias (an empty value removes it); a bare
/// name prints that alias and ends the command.
pub open spec fn alias_spec(es: Seq<Entry>, args: Seq<Seq<char>>) -> (Seq<Entry>, Seq<char>)
    decreases args.len(),
{
    if args.len() == 0 {
        (es, Seq::empty())
    } else {
        match split_once(args[0], '=') {
            Some((n, v)) => if v.len() == 0 {
                alias_spec(table_remove(es, n), args.drop_first())
            } else {
                alias_spec(table_insert(es, n, strip_wrapping(v)), args.drop_first())
            },
            None => match lookup(es, args[0]) {
                Some(c) => (es, alias_line(args[0], c)),
                None => (es, "alias: "@ + args[0] + ": not found\n"@),
            },
        }
    }
}

/// The table and the output of `unalias name`.
pub open spec fn unalias_spec(es: Seq<Entry>, name: Seq<char>) -> (Seq<Entry>, Seq<char>) {
    if lookup(es, name).is_some() {
        (table_remove(es, name), "Alias '"@ + name + "' removed.\n"@)
    } else {
        (es, "unalias: "@ + name + ": not found\n"@)
    }
}

/// The table and the output of the `alias` builtin; a first argument
/// `unalias` selects removal.
pub open spec fn alias_builtin_spec(es: Seq<Entry>, args: Seq<Seq<char>>) -> (Seq<Entry>, Seq<char>) {
    if args.len() == 0 {
        (es, if es.len() == 0 { "No aliases defined.\n"@ } else { alias_listing(es) })
    } else if args[0] == "unalias"@ {
        if args.len() < 2 {
            (es, "unalias: usage: unalias <alias_name>\n"@)
        } else {
            unalias_spec(es, args[1])
        }
    } else {
        alias_spec(es, args)
    }
}

/// Appends the `alias` line of one entry.
fn push_alias_line(out: &mut String, name: &str, command: &str)
    ensures
        final(out)@ == old(out)@ + alias_line(name@, command@),
{
    let ghost o = out@;
    out.append("alias ");
    out.append(name);
    out.append("='");
    out.append(command);
    out.append("'\n");
    assert(out@ =~= o + alias_line(name@, command@));
}

/// Takes one wrapping pair of quotes off an alias value.
fn strip_wrapping_exec(v: String) -> (r: String)
    ensures
        r@ == strip_wrapping(v@),
{
    let chars = crate::text::chars_of(v.as_str());
    let n: usize = chars.len();
    if n >= 2 && ((chars[0] == '(' && chars[n - 1] == '(') || (chars[0] == '"' && chars[n - 1] == '"')) {
        crate::text::string_of(&chars, 1, n - 1)
    } else {
        v
    }
}

/// Handles `alias` and `unalias`.
pub fn alias_builtin(aliases: &mut VarTable, args: &[&str]) -> (r: String)
    requires
        old(aliases).wf(),
    ensures
        final(aliases).wf(),
        (final(aliases).entries(), r@) == alias_builtin_spec(old(aliases).entries(), views(args@)),
{
    let ghost all = views(args@);
    if args.len() == 0 {
        if aliases.is_empty() {
            return String::from_str("No aliases defined.\n");
        }
        let mut out = String::new();
        let mut j: usize = 0;
        while j < aliases.len()
            invariant
                aliases.wf(),
                aliases.entries() == old(aliases).entries(),
                j <= aliases.entries().len(),
                out@ == alias_listing(aliases.entries().subrange(0, j as int)),
            decreases aliases.entries().len() - j,
        {
            let ghost es = aliases.entries();
            assert(es.subrange(0, j + 1).drop_last() =~= es.subrange(0, j as int));
            push_alias_line(&mut out, aliases.key_at(j).as_str(), aliases.value_at(j).as_str());
            j = j + 1;
        }
        assert(aliases.entries().subrange(0, j as int) =~= aliases.entries());
        return out;
    }
    if crate::text::str_equal(args[0], "unalias") {
        if args.len() < 2 {
            return String::from_str("unalias: usage: unalias <alias_name>\n");
        }
        let name: &str = args[1];
        if aliases.remove(name) {
            let mut out = String::from_str("Alias '");
            out.append(name);
            out.append("' removed.\n");
            return out;
        } else {
            let mut out = String::from_str("unalias: ");
            out.append(name);
            out.append(": not found\n");
            return out;
        }
    }
    assert(all.subrange(0, all.len() as int) =~= all);
    assert(all[0] == args@[0]@);
    assert(alias_builtin_spec(old(aliases).entries(), all) == alias_spec(old(aliases).entries(), all));
    let mut i: usize = 0;
    while i < args.len()
        invariant
            aliases.wf(),
            i <= args@.len(),
            all == views(args@),
            alias_spec(aliases.entries(), all.subrange(i as int, all.len() as int))
                == alias_spec(old(aliases).entries(), all),
            alias_builtin_spec(old(aliases).entries(), all) == alias_spec(old(aliases).entries(), all),
        decreases args@.len() - i,
    {
        let ghost rest = all.subrange(i as int, all.len() as int);
        assert(rest.drop_first() =~= all.subrange(i + 1, all.len() as int));
        let arg: &str = args[i];
        assert(rest[0] == arg@);
        match split_once_char(arg, '=') {
            Some((name, value)) => {
                if value.unicode_len() == 0 {
                    aliases.remove(name.as_str());
                } else {
                    let clean = strip_wrapping_exec(value);
                    aliases.insert(name, clean);
                }
            },
            None => {
                match aliases.get(arg) {
                    Some(c) => {
                        let mut out = String::new();
                        push_alias_line(&mut out, arg, c.as_str());
                        assert(out@ =~= alias_line(arg@, c@));
                        return out;
                    },
                    None => {
                        let mut out = String::from_str("alias: ");
                        out.append(arg);
                        out.append(": not found\n");
                        return out;
                    },
                }
            },
        }
        i = i + 1;
    }
    assert(all.subrange(i as int, all.len() as int) =~= Seq::<Seq<char>>::empty());
    String::new()
}

// ----- echo -----
/// The words joined by single spaces.
pub open spec fn join_spaced(ws: Seq<Seq<char>>) -> Seq<char>
    decreases ws.len(),
{
    if ws.len() == 0 {
        Seq::empty()
    } else if ws.len() == 1 {
        ws[0]
    } else {
        join_spaced(ws.drop_last()) + " "@ + ws.last()
    }
}

/// `s[i..]` with each backslash followed by `c` turned into `r`, scanning
/// from the left.
pub open spec fn unescape_from(s: Seq<char>, c: char, r: char, i: int) -> Seq<char>
    decreases s.len() - i,
{
    if i < 0 || i >= s.len() {
        Seq::empty()
    } else if i + 1 < s.len() && s[i] == '\\' && s[i + 1] == c {
        seq![r] + unescape_from(s, c, r, i + 2)
    } else {
        seq![s[i]] + unescape_from(s, c, r, i + 1)
    }
}

/// `s` with the escapes `\n` and `\t` interpreted, in that order.
pub open spec fn unescape(s: Seq<char>) -> Seq<char> {
    let a = unescape_from(s, 'n', '\n', 0);
    unescape_from(a, 't', '\t', 0)
}

/// A character that may start a variable name.
pub open spec fn name_start(c: char) -> bool {
    ('A' <= c <= 'Z') || ('a' <= c <= 'z') || c == '_'
}

/// A character that may continue a variable name.
pub open spec fn name_char(c: char) -> bool {
    name_start(c) || ('0' <= c <= '9')
}

/// The position of the first `%` after position `i`, or -1.
pub open spec fn closing_percent(s: Seq<char>, i: int) -> int {
    let k = index_of(s.subrange(i + 1, s.len() as int), '%');
    if k < 0 {
        -1
    } else {
        i + 1 + k
    }
}

/// Whether a reference `%NAME%` starts at position `i`: a name of at least one
/// character, made of letters, digits and `_`, not starting with a digit.
pub open spec fn reference_at(s: Seq<char>, i: int) -> bool {
    let j = closing_percent(s, i);
    &&& 0 <= i < s.len()
    &&& s[i] == '%'
    &&& i + 1 < j < s.len()
    &&& name_start(s[i + 1])
    &&& forall|k: int| i + 1 <= k < j ==> name_char(#[trigger] s[k])
}

/// `s[i..]` with each reference `%NAME%` to a set variable replaced by its
/// value; references to unset names stay as they are.
pub open spec fn expand_from(s: Seq<char>, es: Seq<Entry>, i: int) -> Seq<char>
    decreases s.len() - i,
{
    if i < 0 || i >= s.len() {
        Seq::empty()
    } else if reference_at(s, i) {
        let j = closing_percent(s, i);
        let name = s.subrange(i + 1, j);
        let rep = match lookup(es, name) {
            Some(v) => v,
            None => s.subrange(i, j + 1),
        };
        rep + expand_from(s, es, j + 1)
    } else {
        seq![s[i]] + expand_from(s, es, i + 1)
    }
}

/// What `echo` prints for its arguments, given the session's variables.
pub open spec fn echo_spec(args: Seq<Seq<char>>, es: Seq<Entry>) -> Seq<char> {
    expand_from(unescape(join_spaced(args)), es, 0)
}

/// The words joined by single spaces.
fn join_args(args: &[&str]) -> (r: String)
    ensures
        r@ == join_spaced(views(args@)),
{
    let ghost all = views(args@);
    let mut out = String::new();
    let mut i: usize = 0;
    while i < args.len()
        invariant
            i <= args@.len(),
            all == views(args@),
            out@ == join_spaced(all.subrange(0, i as int)),
        decreases args@.len() - i,
    {
        assert(all.subrange(0, i + 1).drop_last() =~= all.subrange(0, i as int));
        if i > 0 {
            out.append(" ");
        }
        out.append(args[i]);
        i = i + 1;
    }
    assert(all.subrange(0, i as int) =~= all);
    out
}

/// Interprets one escape `\c` as the character `r`.
fn unescape_exec(s: &Vec<char>, c: char, r: char) -> (out: Vec<char>)
    ensures
        out@ == unescape_from(s@, c, r, 0),
{
    let n: usize = s.len();
    let mut out: Vec<char> = Vec::new();
    let mut i: usize = 0;
    while i < n
        invariant
            n == s@.len(),
            i <= n,
            out@ + unescape_from(s@, c, r, i as int) == unescape_from(s@, c, r, 0),
        decreases n - i,
    {
        let ghost before = out@;
        if i + 1 < n && s[i] == '\\' && s[i + 1] == c {
            out.push(r);
            assert(before + (seq![r] + unescape_from(s@, c, r, i + 2)) =~= out@ + unescape_from(
                s@,
                c,
                r,
                i + 2,
            ));
            i = i + 2;
        } else {
            out.push(s[i]);
            assert(before + (seq![s@[i as int]] + unescape_from(s@, c, r, i + 1)) =~= out@
                + unescape_from(s@, c, r, i + 1));
            i = i + 1;
        }
    }
    assert(out@ + unescape_from(s@, c, r, i as int) =~= out@);
    out
}

/// Whether all of `s[from..to]` are name characters.
fn all_name_chars(s: &Vec<char>, from: usize, to: usize) -> (r: bool)
    requires
        from <= to <= s@.len(),
    ensures
        r == (forall|k: int| from <= k < to ==> name_char(#[trigger] s@[k])),
{
    let mut k: usize = from;
    while k < to
        invariant
            from <= k <= to <= s@.len(),
            forall|m: int| from <= m < k ==> name_char(#[trigger] s@[m]),
        decreases to - k,
    {
        let ch = s[k];
        if !(('A' <= ch && ch <= 'Z') || ('a' <= ch && ch <= 'z') || ch == '_' || ('0' <= ch && ch
            <= '9')) {
            return false;
        }
        k = k + 1;
    }
    true
}

/// Replaces each reference `%NAME%` to a set variable by its value.
fn expand_exec(s: &Vec<char>, env_vars: &VarTable) -> (out: String)
    requires
        env_vars.wf(),
    ensures
        out@ == expand_from(s@, env_vars.entries(), 0),
{
    let ghost es = env_vars.entries();
    let n: usize = s.len();
    let mut out = String::new();
    let mut i: usize = 0;
    while i < n
        invariant
            n == s@.len(),
            i <= n,
            env_vars.wf(),
            es == env_vars.entries(),
            out@ + expand_from(s@, es, i as int) == expand_from(s@, es, 0),
        decreases n - i,
    {
        let ghost before = out@;
        let mut next: usize = i + 1;
        let mut matched = false;
        if s[i] == '%' && i + 1 < n {
            let c1 = s[i + 1];
            if ('A' <= c1 && c1 <= 'Z') || ('a' <= c1 && c1 <= 'z') || c1 == '_' {
                match crate::text::find_char_from(s, '%', i + 1) {
                    Some(j) => {
                        assert(closing_percent(s@, i as int) == j);
                        if j > i + 1 && all_name_chars(s, i + 1, j) {
                            assert(reference_at(s@, i as int));
                            let name = string_of(s, i + 1, j);
                            match env_vars.get(name.as_str()) {
                                Some(v) => {
                                    out.append(v.as_str());
                                },
                                None => {
                                    let whole = string_of(s, i, j + 1);
                                    out.append(whole.as_str());
                                },
                            }
                            matched = true;
                            next = j + 1;
                            let ghost rep = out@.subrange(before.len() as int, out@.len() as int);
                            assert(out@ =~= before + rep);
                            assert(expand_from(s@, es, i as int) == rep + expand_from(
                                s@,
                                es,
                                j + 1,
                            ));
                            assert(before + (rep + expand_from(s@, es, j + 1)) =~= out@
                                + expand_from(s@, es, j + 1));
                        }
                    },
                    None => {},
                }
            }
        }
        if !matched {
            assert(!reference_at(s@, i as int));
            crate::text::push_char(&mut out, s[i]);
            assert(before + (seq![s@[i as int]] + expand_from(s@, es, i + 1)) =~= out@
                + expand_from(s@, es, i + 1));
        }
        i = next;
    }
    assert(out@ + expand_from(s@, es, i as int) =~= out@);
    out
}

/// Handles `echo`: the arguments joined by single spaces, with the escapes
/// `\n` and `\t` interpreted and references `%NAME%` to set variables
/// replaced by their values.
pub fn echo_builtin(args: &[&str], env_vars: &VarTable) -> (r: String)
    requires
        env_vars.wf(),
    ensures
        r@ == echo_spec(views(args@), env_vars.entries()),
{
    let joined = join_args(args);
    let chars = chars_of(joined.as_str());
    let a = unescape_exec(&chars, 'n', '\n');
    let b = unescape_exec(&a, 't', '\t');
    expand_exec(&b, env_vars)
}

// ----- grep -----
/// The end of the line that starts at `i`: just after its newline, or the
/// end of `s` for a last line without one.
pub open spec fn line_end(s: Seq<char>, i: int) -> int {
    let k = index_of(s.subrange(i, s.len() as int), '\n');
    if k < 0 || i + k + 1 > s.len() {
        s.len() as int
    } else {
        i + k + 1
    }
}

/// The lines of `s[i..]` (each with its newline) in which `p` occurs, in order.
pub open spec fn grep_from(p: Seq<char>, s: Seq<char>, i: int) -> Seq<char>
    decreases s.len() - i,
{
    if i < 0 || i >= s.len() {
        Seq::empty()
    } else {
        let e = line_end(s, i);
        let line = s.subrange(i, e);
        (if occurs_in(p, line) { line } else { Seq::empty() }) + grep_from(p, s, e)
    }
}

/// The lines of `input` (each with its newline) that contain `pattern`.
pub fn grep_logic(pattern: &str, input: &str) -> (r: String)
    ensures
        r@ == grep_from(pattern@, input@, 0),
{
    let s = chars_of(input);
    let n: usize = s.len();
    let mut out = String::new();
    let mut i: usize = 0;
    while i < n
        invariant
            n == s@.len(),
            s@ == input@,
            i <= n,
            out@ + grep_from(pattern@, s@, i as int) == grep_from(pattern@, s@, 0),
        decreases n - i,
    {
        let ghost before = out@;
        let e: usize = match crate::text::find_char_from(&s, '\n', i) {
            Some(k) => k + 1,
            None => n,
        };
        assert(e == line_end(s@, i as int));
        let line = string_of(&s, i, e);
        if crate::text::str_contains(line.as_str(), pattern) {
            out.append(line.as_str());
        }
        assert(before + grep_from(pattern@, s@, i as int) =~= out@ + grep_from(pattern@, s@, e as int));
        i = e;
    }
    assert(out@ + grep_from(pattern@, s@, i as int) =~= out@);
    out
}

/// Handles `grep`: the lines of the previous stage's output that contain the
/// pattern given as first argument.
pub fn grep_builtin(args: &[&str], input: &str) -> (r: Result<String, String>)
    ensures
        args@.len() == 0 ==> r.is_err() && r->Err_0@ == "grep: missing pattern"@,
        args@.len() > 0 ==> r.is_ok() && r->Ok_0@ == grep_from(args@[0]@, input@, 0),
{
    if args.len() == 0 {
        return Err(String::from_str("grep: missing pattern"));
    }
    Ok(grep_logic(args[0], input))
}

} // verus!
