//! The line parser: a command line becomes a pipeline of commands with an
//! optional redirection of the last command's output to a file.

use vstd::prelude::*;
use crate::text::{chars_of, string_of, trim, trim_str};

verus! {

/// One command of a pipeline: its name and its arguments.
pub struct Command {
    pub name: String,
    pub args: Vec<String>,
}

/// Where the output of the last command goes instead of the result text.
pub enum Redirection {
    ToFile(String),
}

/// A parsed command line: at least one command, and an optional redirection.
pub struct Pipeline {
    pub commands: Vec<Command>,
    pub redirection: Option<Redirection>,
}

/// Why a command line could not be parsed.
pub enum ParseError {
    /// Nothing follows the redirection sign.
    EmptyRedirectionTarget,
    /// A stage between pipe signs is empty.
    EmptyPipelineStage,
    /// The quoting of this stage text is malformed.
    UnbalancedQuote(String),
}

impl ParseError {
    /// The message shown for this error.
    pub fn message(&self) -> (r: String)
        ensures
            r@ == parse_error_message(parse_error_view(self)),
    {
        match self {
            ParseError::EmptyRedirectionTarget => String::from_str("Redirection filename is missing."),
            ParseError::EmptyPipelineStage => String::from_str("Empty command in pipeline."),
            ParseError::UnbalancedQuote(t) => {
                let mut r = String::from_str("Invalid quoting: '");
                r.append(t.as_str());
                r.append("'");
                r
            },
        }
    }
}

/// What parsing a line comes to, over plain values: the word lists of the
/// stages (name first) and the redirection target, or an error.
pub enum ParseOutcome {
    Parsed(Seq<Seq<Seq<char>>>, Option<Seq<char>>),
    EmptyRedirectionTarget,
    EmptyPipelineStage,
    UnbalancedQuote(Seq<char>),
}

/// The words of a command, name first.
pub open spec fn command_words(c: &Command) -> Seq<Seq<char>> {
    seq![c.name@] + c.args@.map_values(|a: String| a@)
}

/// The word lists of a sequence of commands.
pub open spec fn command_list(cs: Seq<Command>) -> Seq<Seq<Seq<char>>> {
    cs.map_values(|c: Command| command_words(&c))
}

/// The word lists of a pipeline's commands.
pub open spec fn pipeline_stages(p: &Pipeline) -> Seq<Seq<Seq<char>>> {
    command_list(p.commands@)
}

/// The target file of a redirection.
pub open spec fn target_of(r: &Option<Redirection>) -> Option<Seq<char>> {
    match r {
        Some(Redirection::ToFile(f)) => Some(f@),
        None => None,
    }
}

/// The redirection target of a pipeline.
pub open spec fn pipeline_target(p: &Pipeline) -> Option<Seq<char>> {
    target_of(&p.redirection)
}

/// The outcome that a parse error stands for.
pub open spec fn parse_error_view(e: &ParseError) -> ParseOutcome {
    match e {
        ParseError::EmptyRedirectionTarget => ParseOutcome::EmptyRedirectionTarget,
        ParseError::EmptyPipelineStage => ParseOutcome::EmptyPipelineStage,
        ParseError::UnbalancedQuote(t) => ParseOutcome::UnbalancedQuote(t@),
    }
}

/// The outcome that a parse result stands for.
pub open spec fn outcome_of(r: &Result<Pipeline, ParseError>) -> ParseOutcome {
    match r {
        Ok(p) => ParseOutcome::Parsed(pipeline_stages(p), pipeline_target(p)),
        Err(e) => parse_error_view(e),
    }
}

/// The message of a parse error.
pub open spec fn parse_error_message(o: ParseOutcome) -> Seq<char> {
    match o {
        ParseOutcome::EmptyRedirectionTarget => "Redirection filename is missing."@,
        ParseOutcome::EmptyPipelineStage => "Empty command in pipeline."@,
        ParseOutcome::UnbalancedQuote(t) => "Invalid quoting: '"@ + t + "'"@,
        ParseOutcome::Parsed(_, _) => Seq::empty(),
    }
}

// ----- quoting -----
/// The quoting in force after reading character `c` in quoting `q`:
/// 0 outside quotes, 1 inside single quotes, 2 inside double quotes.
pub open spec fn quote_step(q: int, c: char) -> int {
    if q == 0 {
        if c == '\'' {
            1
        } else if c == '"' {
            2
        } else {
            0
        }
    } else if q == 1 {
        if c == '\'' {
            0
        } else {
            1
        }
    } else {
        if c == '"' {
            0
        } else {
            2
        }
    }
}

/// The quoting in force just before position `i` of `s`.
pub open spec fn quote_before(s: Seq<char>, i: int) -> int
    decreases i,
{
    if i <= 0 {
        0
    } else {
        quote_step(quote_before(s, i - 1), s[i - 1])
    }
}

/// The last position below `n` that holds `c` outside quotes, or -1.
pub open spec fn last_unquoted(s: Seq<char>, c: char, n: int) -> int
    decreases n,
{
    if n <= 0 {
        -1
    } else if s[n - 1] == c && quote_before(s, n - 1) == 0 {
        n - 1
    } else {
        last_unquoted(s, c, n - 1)
    }
}

/// The texts of `s[..end]` between pipe signs outside quotes.
pub open spec fn segments(s: Seq<char>, end: int) -> Seq<Seq<char>>
    decreases end,
{
    let p = last_unquoted(s, '|', end);
    if end <= 0 || p < 0 || p >= end {
        seq![s.subrange(0, end)]
    } else {
        segments(s, p).push(s.subrange(p + 1, end))
    }
}

// ----- words -----
/// What shell-style word splitting gives for a text: its words, or `None`
/// when the quoting is malformed.
pub uninterp spec fn shell_words(s: Seq<char>) -> Option<Seq<Seq<char>>>;

/// Relies on `shlex::split`: the words of a text split as a POSIX shell
/// would, honouring quotes, or `None` when the text is erroneous.
#[verifier::external_body]
pub(crate) fn split_words(s: &str) -> (r: Option<Vec<String>>)
    ensures
        match r {
            Some(v) => shell_words(s@) == Some(string_views(v@)),
            None => shell_words(s@).is_none(),
        },
{
    shlex::split(s)
}

/// What a stage text comes to: its words, or an error.
pub open spec fn stage_outcome(seg: Seq<char>) -> ParseOutcome {
    let t = trim(seg);
    if t.len() == 0 {
        ParseOutcome::EmptyPipelineStage
    } else {
        match shell_words(t) {
            None => ParseOutcome::UnbalancedQuote(t),
            Some(ws) => if ws.len() == 0 {
                ParseOutcome::EmptyPipelineStage
            } else {
                ParseOutcome::Parsed(seq![ws], None)
            },
        }
    }
}

/// The words of a stage text that parses.
pub open spec fn stage_words(seg: Seq<char>) -> Seq<Seq<char>> {
    shell_words(trim(seg)).unwrap()
}

/// The first error among the stage texts, in order, if any.
pub open spec fn first_failure(segs: Seq<Seq<char>>) -> Option<ParseOutcome>
    decreases segs.len(),
{
    if segs.len() == 0 {
        None
    } else if stage_outcome(segs[0]) is Parsed {
        first_failure(segs.drop_first())
    } else {
        Some(stage_outcome(segs[0]))
    }
}

/// The words of each of a sequence of stage texts.
pub open spec fn stage_word_list(segs: Seq<Seq<char>>) -> Seq<Seq<Seq<char>>> {
    segs.map_values(|t: Seq<char>| stage_words(t))
}

/// What parsing `line` comes to. The last `>` outside quotes starts the
/// redirection target; the text before it is split at each `|` outside
/// quotes into stages, each split into words.
pub open spec fn parse_spec(line: Seq<char>) -> ParseOutcome {
    let g = last_unquoted(line, '>', line.len() as int);
    let end = if g >= 0 { g } else { line.len() as int };
    let target = if g >= 0 { Some(trim(line.subrange(g + 1, line.len() as int))) } else { None };
    let segs = segments(line, end);
    if g >= 0 && trim(line.subrange(g + 1, line.len() as int)).len() == 0 {
        ParseOutcome::EmptyRedirectionTarget
    } else {
        match first_failure(segs) {
            Some(f) => f,
            None => ParseOutcome::Parsed(stage_word_list(segs), target),
        }
    }
}

/// The views of a list of strings.
pub open spec fn string_views(v: Seq<String>) -> Seq<Seq<char>> {
    v.map_values(|w: String| w@)
}

/// The texts between pipe signs outside quotes in `s[..end]`, given the
/// quoting before each position.
fn split_stages(s: &Vec<char>, qs: &Vec<u8>, end: usize) -> (r: Vec<String>)
    requires
        end <= s@.len(),
        qs@.len() == s@.len(),
        forall|j: int| 0 <= j < s@.len() ==> qs@[j] as int == quote_before(s@, j),
    ensures
        string_views(r@) == segments(s@, end as int),
{
    let mut segs: Vec<String> = Vec::new();
    let mut start: usize = 0;
    let mut has_cut = false;
    let mut i: usize = 0;
    while i < end
        invariant
            end <= s@.len(),
            qs@.len() == s@.len(),
            forall|j: int| 0 <= j < s@.len() ==> qs@[j] as int == quote_before(s@, j),
            start <= i <= end,
            has_cut ==> start >= 1,
            !has_cut ==> start == 0,
            last_unquoted(s@, '|', i as int) == (if has_cut { start - 1 } else { -1 }),
            string_views(segs@) == (if has_cut {
                segments(s@, start - 1)
            } else {
                Seq::<Seq<char>>::empty()
            }),
        decreases end - i,
    {
        if s[i] == '|' && qs[i] == 0 {
            let seg = string_of(s, start, i);
            segs.push(seg);
            proof {
                let prev = if has_cut { start - 1 } else { -1 };
                assert(last_unquoted(s@, '|', i as int) == prev);
                if has_cut {
                    assert(segments(s@, i as int) == segments(s@, start - 1).push(
                        s@.subrange(start as int, i as int),
                    ));
                } else {
                    assert(segments(s@, i as int) == seq![s@.subrange(0, i as int)]);
                }
                assert(string_views(segs@) =~= segments(s@, i as int));
            }
            has_cut = true;
            start = i + 1;
        }
        i = i + 1;
    }
    let last = string_of(s, start, end);
    segs.push(last);
    proof {
        if has_cut {
            assert(segments(s@, end as int) == segments(s@, start - 1).push(
                s@.subrange(start as int, end as int),
            ));
        } else {
            assert(segments(s@, end as int) == seq![s@.subrange(0, end as int)]);
        }
        assert(string_views(segs@) =~= segments(s@, end as int));
    }
    segs
}

/// A command from its words, name first.
fn command_from_words(ws: Vec<String>) -> (c: Command)
    requires
        ws@.len() > 0,
    ensures
        command_words(&c) == string_views(ws@),
{
    let mut args = ws;
    let ghost all = args@;
    let name = args.remove(0);
    let c = Command { name, args };
    assert(command_words(&c) =~= string_views(all));
    c
}

/// Parses a command line into a pipeline.
pub fn parse_line(line: &str) -> (r: Result<Pipeline, ParseError>)
    ensures
        outcome_of(&r) == parse_spec(line@),
        r.is_ok() ==> r->Ok_0.commands@.len() > 0,
{
    let s = chars_of(line);
    let n: usize = s.len();
    // The quoting before each position, and the last `>` outside quotes.
    let mut qs: Vec<u8> = Vec::new();
    let mut q: u8 = 0;
    let mut gt: Option<usize> = None;
    let mut i: usize = 0;
    while i < n
        invariant
            n == s@.len(),
            s@ == line@,
            i <= n,
            q as int == quote_before(s@, i as int),
            q <= 2,
            qs@.len() == i,
            forall|j: int| 0 <= j < i ==> qs@[j] as int == quote_before(s@, j),
            match gt {
                Some(g) => g < i && last_unquoted(s@, '>', i as int) == g as int,
                None => last_unquoted(s@, '>', i as int) == -1,
            },
        decreases n - i,
    {
        let c = s[i];
        qs.push(q);
        if c == '>' && q == 0 {
            gt = Some(i);
        }
        q = if q == 0 {
            if c == '\'' {
                1
            } else if c == '"' {
                2
            } else {
                0
            }
        } else if q == 1 {
            if c == '\'' {
                0
            } else {
                1
            }
        } else {
            if c == '"' {
                0
            } else {
                2
            }
        };
        i = i + 1;
    }
    let mut end: usize = n;
    let mut redirection: Option<Redirection> = None;
    match gt {
        Some(g) => {
            let rest = string_of(&s, g + 1, n);
            let target = trim_str(rest.as_str());
            if target.unicode_len() == 0 {
                return Err(ParseError::EmptyRedirectionTarget);
            }
            redirection = Some(Redirection::ToFile(String::from_str(target)));
            end = g;
        },
        None => {},
    }
    let segs = split_stages(&s, &qs, end);
    let ghost sv = string_views(segs@);
    let ghost target = target_of(&redirection);
    assert(parse_spec(line@) == match first_failure(sv) {
        Some(f) => f,
        None => ParseOutcome::Parsed(stage_word_list(sv), target),
    });
    assert(sv.subrange(0, sv.len() as int) =~= sv);
    let mut commands: Vec<Command> = Vec::new();
    let mut k: usize = 0;
    while k < segs.len()
        invariant
            sv == string_views(segs@),
            k <= segs@.len(),
            first_failure(sv.subrange(k as int, sv.len() as int)) == first_failure(sv),
            parse_spec(line@) == match first_failure(sv) {
                Some(f) => f,
                None => ParseOutcome::Parsed(stage_word_list(sv), target),
            },
            target == target_of(&redirection),
            command_list(commands@) == stage_word_list(sv.subrange(0, k as int)),
        decreases segs@.len() - k,
    {
        let ghost rest = sv.subrange(k as int, sv.len() as int);
        assert(rest.drop_first() =~= sv.subrange(k + 1, sv.len() as int));
        assert(rest[0] == segs@[k as int]@);
        let t = trim_str(segs[k].as_str());
        if t.unicode_len() == 0 {
            assert(stage_outcome(rest[0]) == ParseOutcome::EmptyPipelineStage);
            assert(first_failure(rest) == Some(ParseOutcome::EmptyPipelineStage));
            return Err(ParseError::EmptyPipelineStage);
        }
        match split_words(t) {
            None => {
                assert(stage_outcome(rest[0]) == ParseOutcome::UnbalancedQuote(t@));
                assert(first_failure(rest) == Some(ParseOutcome::UnbalancedQuote(t@)));
                return Err(ParseError::UnbalancedQuote(String::from_str(t)));
            },
            Some(ws) => {
                if ws.len() == 0 {
                    return Err(ParseError::EmptyPipelineStage);
                }
                let ghost wv = string_views(ws@);
                assert(stage_words(sv[k as int]) == wv);
                let c = command_from_words(ws);
                let ghost before = commands@;
                commands.push(c);
                assert(commands@ == before.push(c));
                proof {
                    let lhs = command_list(commands@);
                    let old_l = command_list(before);
                    let rhs = stage_word_list(sv.subrange(0, k + 1));
                    let old_r = stage_word_list(sv.subrange(0, k as int));
                    assert(old_l.len() == k);
                    assert(before.len() == k);
                    assert forall|j: int| 0 <= j < k + 1 implies lhs[j] == rhs[j] by {
                        if j < k {
                            assert(commands@[j] == before[j]);
                            assert(lhs[j] == old_l[j]);
                            assert(rhs[j] == old_r[j]);
                        }
                    }
                    assert(lhs =~= rhs);
                }
            },
        }
        k = k + 1;
    }
    assert(sv.subrange(0, k as int) =~= sv);
    assert(sv.subrange(k as int, sv.len() as int) =~= Seq::<Seq<char>>::empty());
    Ok(Pipeline { commands, redirection })
}

} // verus!
