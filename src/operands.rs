//! The argument checks of the builtins that work on the file system or the
//! network. A check that fails ends the stage here, with its message.

use vstd::prelude::*;
use crate::executor::{Builtin, StageResult, StageView, stage_view};
use crate::parser::string_views;
use crate::text::{chars_of, views};

verus! {

/// The options of `ls`: show hidden entries, the long form, and the path.
pub struct LsOptions {
    pub show_hidden: bool,
    pub long_format: bool,
    pub target: String,
}

/// The flags `a` and `l` among `cs`, added to `h` and `l`, or the first
/// other character.
pub open spec fn ls_flags(cs: Seq<char>, h: bool, l: bool) -> Result<(bool, bool), char>
    decreases cs.len(),
{
    if cs.len() == 0 {
        Ok((h, l))
    } else if cs[0] == 'a' {
        ls_flags(cs.drop_first(), true, l)
    } else if cs[0] == 'l' {
        ls_flags(cs.drop_first(), h, true)
    } else {
        Err(cs[0])
    }
}

/// The options of `ls` from its arguments, in order: an argument that starts
/// with `-` holds flags; any other names the path (the last one counts).
pub open spec fn ls_spec(args: Seq<Seq<char>>, h: bool, l: bool, target: Seq<char>) -> Result<
    (bool, bool, Seq<char>),
    char,
>
    decreases args.len(),
{
    if args.len() == 0 {
        Ok((h, l, target))
    } else if args[0].len() > 0 && args[0][0] == '-' {
        match ls_flags(args[0].drop_first(), h, l) {
            Ok((h2, l2)) => ls_spec(args.drop_first(), h2, l2, target),
            Err(c) => Err(c),
        }
    } else {
        ls_spec(args.drop_first(), h, l, args[0])
    }
}

/// The options of `ls` for these arguments, or the invalid flag.
pub open spec fn ls_options(args: Seq<Seq<char>>) -> Result<(bool, bool, Seq<char>), char> {
    ls_spec(args, false, false, "."@)
}

/// The message for an invalid flag of `ls`.
pub open spec fn ls_invalid(c: char) -> Seq<char> {
    "ls: invalid option -- '"@ + seq![c] + "'\n"@
}

/// Parses the arguments of `ls`.
pub fn parse_ls_args(args: &[&str]) -> (r: Result<LsOptions, String>)
    ensures
        match (r, ls_options(views(args@))) {
            (Ok(o), Ok((h, l, t))) => o.show_hidden == h && o.long_format == l && o.target@ == t,
            (Err(m), Err(c)) => m@ == ls_invalid(c),
            _ => false,
        },
{
    let ghost all = views(args@);
    let mut hidden = false;
    let mut long = false;
    let mut target: &str = ".";
    assert(all.subrange(0, all.len() as int) =~= all);
    let mut i: usize = 0;
    while i < args.len()
        invariant
            i <= args@.len(),
            all == views(args@),
            ls_spec(all.subrange(i as int, all.len() as int), hidden, long, target@) == ls_options(all),
        decreases args@.len() - i,
    {
        let ghost rest = all.subrange(i as int, all.len() as int);
        assert(rest.drop_first() =~= all.subrange(i + 1, all.len() as int));
        let arg: &str = args[i];
        assert(rest[0] == arg@);
        let cs = chars_of(arg);
        if cs.len() > 0 && cs[0] == '-' {
            let ghost flags = cs@.drop_first();
            let mut h2 = hidden;
            let mut l2 = long;
            let mut j: usize = 1;
            assert(cs@.subrange(1, cs@.len() as int) =~= flags);
            while j < cs.len()
                invariant
                    1 <= j <= cs@.len(),
                    flags == cs@.drop_first(),
                    cs@.len() > 0 && cs@[0] == '-',
                    rest[0] == cs@,
                    rest.len() > 0,
                    all == views(args@),
                    ls_spec(rest, hidden, long, target@) == ls_options(all),
                    ls_flags(cs@.subrange(j as int, cs@.len() as int), h2, l2) == ls_flags(
                        flags,
                        hidden,
                        long,
                    ),
                decreases cs@.len() - j,
            {
                let ghost more = cs@.subrange(j as int, cs@.len() as int);
                assert(more.drop_first() =~= cs@.subrange(j + 1, cs@.len() as int));
                let c = cs[j];
                if c == 'a' {
                    h2 = true;
                } else if c == 'l' {
                    l2 = true;
                } else {
                    let mut m = String::from_str("ls: invalid option -- '");
                    let mut one = String::new();
                    crate::text::push_char(&mut one, c);
                    m.append(one.as_str());
                    m.append("'\n");
                    assert(m@ =~= ls_invalid(c));
                    assert(rest[0].drop_first() == flags);
                    return Err(m);
                }
                j = j + 1;
            }
            assert(cs@.subrange(j as int, cs@.len() as int) =~= Seq::<char>::empty());
            hidden = h2;
            long = l2;
        } else {
            target = arg;
        }
        i = i + 1;
    }
    assert(all.subrange(i as int, all.len() as int) =~= Seq::<Seq<char>>::empty());
    Ok(LsOptions { show_hidden: hidden, long_format: long, target: String::from_str(target) })
}

/// The result of a stage whose arguments a builtin of the outside world
/// refuses, or `None` when they pass. `cd` needs exactly one operand; `ls`
/// refuses unknown flags; the others need their operands.
pub open spec fn operand_error(k: Builtin, args: Seq<Seq<char>>) -> Option<StageView> {
    match k {
        Builtin::Cd => if args.len() != 1 {
            Some(StageView::Stop("Usage: cd <directory>\n"@))
        } else {
            None
        },
        Builtin::Ls => match ls_options(args) {
            Err(c) => Some(StageView::Output(ls_invalid(c))),
            Ok(_) => None,
        },
        Builtin::Ping => if args.len() == 0 {
            Some(StageView::Output("Usage: ping <host>\n"@))
        } else {
            None
        },
        Builtin::Open => if args.len() == 0 {
            Some(StageView::Output("Usage: open <file_or_directory>\n"@))
        } else {
            None
        },
        Builtin::Cat => if args.len() == 0 {
            Some(StageView::Abort("cat: missing operand"@))
        } else {
            None
        },
        Builtin::Mkdir => if args.len() == 0 {
            Some(StageView::Output("mkdir: missing operand\n"@))
        } else {
            None
        },
        Builtin::Rm => if args.len() == 0 {
            Some(StageView::Output("rm: missing operand\n"@))
        } else {
            None
        },
        Builtin::Cp => if args.len() < 2 {
            Some(StageView::Output("cp: missing file operand\nTry 'cp --help' for more information.\n"@))
        } else {
            None
        },
        Builtin::Mv => if args.len() < 2 {
            Some(StageView::Output("mv: missing file operand\nTry 'mv --help' for more information.\n"@))
        } else {
            None
        },
        _ => None,
    }
}

/// Checks the arguments of a builtin of the outside world.
pub fn check_operands(k: Builtin, args: &[&str]) -> (r: Option<StageResult>)
    ensures
        match r {
            Some(x) => operand_error(k, views(args@)) == Some(stage_view(&x)),
            None => operand_error(k, views(args@)) is None,
        },
{
    let n = args.len();
    match k {
        Builtin::Cd => if n != 1 {
            Some(StageResult::Stop(String::from_str("Usage: cd <directory>\n")))
        } else {
            None
        },
        Builtin::Ls => match parse_ls_args(args) {
            Err(m) => Some(StageResult::Output(m)),
            Ok(_) => None,
        },
        Builtin::Ping => if n == 0 {
            Some(StageResult::Output(String::from_str("Usage: ping <host>\n")))
        } else {
            None
        },
        Builtin::Open => if n == 0 {
            Some(StageResult::Output(String::from_str("Usage: open <file_or_directory>\n")))
        } else {
            None
        },
        Builtin::Cat => if n == 0 {
            Some(StageResult::Abort(String::from_str("cat: missing operand")))
        } else {
            None
        },
        Builtin::Mkdir => if n == 0 {
            Some(StageResult::Output(String::from_str("mkdir: missing operand\n")))
        } else {
            None
        },
        Builtin::Rm => if n == 0 {
            Some(StageResult::Output(String::from_str("rm: missing operand\n")))
        } else {
            None
        },
        Builtin::Cp => if n < 2 {
            Some(StageResult::Output(String::from_str("cp: missing file operand\nTry 'cp --help' for more information.\n")))
        } else {
            None
        },
        Builtin::Mv => if n < 2 {
            Some(StageResult::Output(String::from_str("mv: missing file operand\nTry 'mv --help' for more information.\n")))
        } else {
            None
        },
        _ => None,
    }
}

// ----- the listing of `ls` -----
/// Whether `ls` shows an entry: names starting with `.` only with `-a`.
pub open spec fn shown(name: Seq<char>, show_hidden: bool) -> bool {
    show_hidden || !(name.len() > 0 && name[0] == '.')
}

/// The entries that `ls` shows, in the order given.
pub open spec fn shown_entries(names: Seq<Seq<char>>, show_hidden: bool) -> Seq<Seq<char>>
    decreases names.len(),
{
    if names.len() == 0 {
        Seq::empty()
    } else {
        let rest = shown_entries(names.drop_last(), show_hidden);
        if shown(names.last(), show_hidden) {
            rest.push(names.last())
        } else {
            rest
        }
    }
}

/// `a` comes before `b` or equals it, comparing characters by code point.
pub open spec fn name_le(a: Seq<char>, b: Seq<char>) -> bool
    decreases a.len(),
{
    if a.len() == 0 {
        true
    } else if b.len() == 0 {
        false
    } else if a[0] != b[0] {
        (a[0] as u32) < (b[0] as u32)
    } else {
        name_le(a.drop_first(), b.drop_first())
    }
}

/// The names are in ascending order.
pub open spec fn names_sorted(s: Seq<Seq<char>>) -> bool {
    forall|i: int, j: int| 0 <= i < j < s.len() ==> name_le(s[i], s[j])
}

/// Relies on `slice::sort` on `String`: the same strings in ascending order
/// of `Ord`, which compares the UTF-8 bytes and so orders by code point.
#[verifier::external_body]
pub(crate) fn sort_strings(v: &mut Vec<String>)
    ensures
        string_views(final(v)@).to_multiset() == string_views(old(v)@).to_multiset(),
        names_sorted(string_views(final(v)@)),
{
    v.sort()
}

/// The entries of a directory that `ls` shows, sorted by name.
pub fn ls_entries(names: Vec<String>, show_hidden: bool) -> (r: Vec<String>)
    ensures
        string_views(r@).to_multiset() == shown_entries(string_views(names@), show_hidden).to_multiset(),
        names_sorted(string_views(r@)),
{
    let ghost all = string_views(names@);
    let mut kept: Vec<String> = Vec::new();
    let mut i: usize = 0;
    while i < names.len()
        invariant
            i <= names@.len(),
            all == string_views(names@),
            string_views(kept@) == shown_entries(all.subrange(0, i as int), show_hidden),
        decreases names@.len() - i,
    {
        let ghost before = string_views(kept@);
        assert(all.subrange(0, i + 1).drop_last() =~= all.subrange(0, i as int));
        let cs = chars_of(names[i].as_str());
        let hidden = cs.len() > 0 && cs[0] == '.';
        if show_hidden || !hidden {
            kept.push(names[i].clone());
            assert(string_views(kept@) =~= before.push(all[i as int]));
        }
        i = i + 1;
    }
    assert(all.subrange(0, i as int) =~= all);
    sort_strings(&mut kept);
    kept
}

/// Names, each on a line of its own.
pub open spec fn name_lines(s: Seq<Seq<char>>) -> Seq<char>
    decreases s.len(),
{
    if s.len() == 0 {
        Seq::empty()
    } else {
        name_lines(s.drop_last()) + s.last() + "\n"@
    }
}

/// The short listing of `ls`: each name on a line of its own.
pub fn ls_short_listing(names: &Vec<String>) -> (r: String)
    ensures
        r@ == name_lines(string_views(names@)),
{
    let ghost all = string_views(names@);
    let mut out = String::new();
    let mut i: usize = 0;
    while i < names.len()
        invariant
            i <= names@.len(),
            all == string_views(names@),
            out@ == name_lines(all.subrange(0, i as int)),
        decreases names@.len() - i,
    {
        assert(all.subrange(0, i + 1).drop_last() =~= all.subrange(0, i as int));
        let ghost o = out@;
        out.append(names[i].as_str());
        out.append("\n");
        assert(out@ =~= o + all[i as int] + "\n"@);
        i = i + 1;
    }
    assert(all.subrange(0, i as int) =~= all);
    out
}

// ----- the long form of `ls` -----
/// A modification time in local time, as the long listing shows it.
pub struct EntryTime {
    /// 1 to 12.
    pub month: u8,
    pub day: u8,
    pub hour: u8,
    pub minute: u8,
}

/// The decimal digits of `n`.
pub open spec fn decimal(n: nat) -> Seq<char>
    decreases n,
{
    if n < 10 {
        seq![digit_char(n)]
    } else {
        decimal(n / 10) + seq![digit_char(n % 10)]
    }
}

/// The digit for `d` below 10.
pub open spec fn digit_char(d: nat) -> char {
    ((d % 10) + 48) as char
}

/// `n` below 100 as two digits.
pub open spec fn two_digits(n: nat) -> Seq<char> {
    seq![digit_char((n / 10) % 10), digit_char(n % 10)]
}

/// `s` preceded by spaces up to width `w`.
pub open spec fn pad_left(s: Seq<char>, w: nat) -> Seq<char> {
    if s.len() < w {
        Seq::new((w - s.len()) as nat, |i: int| ' ') + s
    } else {
        s
    }
}

/// The English abbreviation of month `m` (1 to 12).
pub open spec fn month_abbrev(m: nat) -> Seq<char> {
    if m == 1 { "Jan"@ } else if m == 2 { "Feb"@ } else if m == 3 { "Mar"@ } else if m == 4 {
        "Apr"@
    } else if m == 5 { "May"@ } else if m == 6 { "Jun"@ } else if m == 7 { "Jul"@ } else if m == 8 {
        "Aug"@
    } else if m == 9 { "Sep"@ } else if m == 10 { "Oct"@ } else if m == 11 { "Nov"@ } else {
        "Dec"@
    }
}

/// The time as the long listing shows it: `Mon DD HH:MM`.
pub open spec fn time_text(t: &EntryTime) -> Seq<char> {
    month_abbrev(t.month as nat) + " "@ + two_digits(t.day as nat) + " "@ + two_digits(t.hour as nat)
        + ":"@ + two_digits(t.minute as nat)
}

/// One line of the long listing: the type (`d` or `-`), the permissions, the
/// size right-aligned in eight columns, the time and the name.
pub open spec fn long_line(is_dir: bool, size: u64, time: &EntryTime, name: Seq<char>) -> Seq<char> {
    (if is_dir { "d"@ } else { "-"@ }) + "rwx------ "@ + " "@ + pad_left(decimal(size as nat), 8)
        + " "@ + time_text(time) + " "@ + name + "\n"@
}

/// Appends the digit for `d` below 10.
fn push_digit(out: &mut String, d: u64)
    requires
        d < 10,
    ensures
        final(out)@ == old(out)@.push(digit_char(d as nat)),
{
    let c: char = if d == 0 {
        '0'
    } else if d == 1 {
        '1'
    } else if d == 2 {
        '2'
    } else if d == 3 {
        '3'
    } else if d == 4 {
        '4'
    } else if d == 5 {
        '5'
    } else if d == 6 {
        '6'
    } else if d == 7 {
        '7'
    } else if d == 8 {
        '8'
    } else {
        '9'
    };
    crate::text::push_char(out, c);
}

/// Appends the decimal digits of `n`.
fn push_decimal(out: &mut String, n: u64)
    ensures
        final(out)@ == old(out)@ + decimal(n as nat),
    decreases n,
{
    if n < 10 {
        push_digit(out, n);
        assert(old(out)@.push(digit_char(n as nat)) =~= old(out)@ + decimal(n as nat));
    } else {
        push_decimal(out, n / 10);
        push_digit(out, n % 10);
        assert(out@ =~= old(out)@ + decimal(n as nat));
    }
}

/// The decimal digits of `n`, right-aligned in `w` columns.
fn padded_decimal(n: u64, w: usize) -> (r: String)
    ensures
        r@ == pad_left(decimal(n as nat), w as nat),
{
    let mut digits = String::new();
    push_decimal(&mut digits, n);
    assert(digits@ =~= decimal(n as nat));
    let len = digits.unicode_len();
    if len >= w {
        return digits;
    }
    let mut r = String::new();
    let mut i: usize = 0;
    while i < w - len
        invariant
            len < w,
            i <= w - len,
            r@ == Seq::new(i as nat, |j: int| ' '),
        decreases w - len - i,
    {
        crate::text::push_char(&mut r, ' ');
        i = i + 1;
        assert(r@ =~= Seq::new(i as nat, |j: int| ' '));
    }
    r.append(digits.as_str());
    r
}

/// Appends `n` below 100 as two digits.
fn push_two_digits(out: &mut String, n: u8)
    requires
        n < 100,
    ensures
        final(out)@ == old(out)@ + two_digits(n as nat),
{
    push_digit(out, (n / 10) as u64);
    push_digit(out, (n % 10) as u64);
    assert(((n / 10) as nat) % 10 == (n / 10) as nat);
    assert(out@ =~= old(out)@ + two_digits(n as nat));
}

/// The English abbreviation of a month.
fn month_name(m: u8) -> (r: &'static str)
    ensures
        r@ == month_abbrev(m as nat),
{
    if m == 1 { "Jan" } else if m == 2 { "Feb" } else if m == 3 { "Mar" } else if m == 4 {
        "Apr"
    } else if m == 5 { "May" } else if m == 6 { "Jun" } else if m == 7 { "Jul" } else if m == 8 {
        "Aug"
    } else if m == 9 { "Sep" } else if m == 10 { "Oct" } else if m == 11 { "Nov" } else {
        "Dec"
    }
}

/// One line of the long listing of `ls`.
pub fn format_long_entry(is_dir: bool, size: u64, time: &EntryTime, name: &str) -> (r: String)
    requires
        time.day < 100,
        time.hour < 100,
        time.minute < 100,
    ensures
        r@ == long_line(is_dir, size, time, name@),
{
    let mut r = String::from_str(if is_dir { "d" } else { "-" });
    r.append("rwx------ ");
    r.append(" ");
    let size_text = padded_decimal(size, 8);
    r.append(size_text.as_str());
    r.append(" ");
    r.append(month_name(time.month));
    r.append(" ");
    push_two_digits(&mut r, time.day);
    r.append(" ");
    push_two_digits(&mut r, time.hour);
    r.append(":");
    push_two_digits(&mut r, time.minute);
    r.append(" ");
    r.append(name);
    r.append("\n");
    assert(r@ =~= long_line(is_dir, size, time, name@));
    r
}

} // verus!
