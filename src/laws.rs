//! Properties of the executor that relate several of its functions.

use vstd::prelude::*;
use crate::executor::{
    Builtin, Event, Progress, StageView, StepView, advance_spec, builtin_named, inside_stage,
    request_for, resume_spec, runs_inside,
};
use crate::table::Entry;
use crate::builtins::join_spaced;
use crate::parser::{
    ParseOutcome, first_failure, last_unquoted, parse_spec, quote_before, segments, shell_words,
    stage_outcome, stage_word_list, stage_words,
};
use crate::text::{is_space, trim, trim_end, trim_start};

verus! {

/// The text that ends a line whose only stage came to `res`.
pub open spec fn line_result(res: StageView) -> Seq<char> {
    match res {
        StageView::Output(t) => t,
        StageView::Stop(t) => t,
        StageView::Abort(m) => "Error: "@ + m,
    }
}

/// A line of a single stage that runs here, without redirection, ends with
/// exactly what that builtin gives for the same arguments, and leaves the
/// session's tables as the builtin leaves them.
pub proof fn lemma_single_stage_inside(a: Seq<Entry>, e: Seq<Entry>, w: Seq<Seq<char>>, k: Builtin)
    requires
        w.len() > 0,
        builtin_named(w[0]) == Some(k),
        runs_inside(k, w.drop_first()),
    ensures
        ({
            let (a2, e2, res) = inside_stage(a, e, k, w.drop_first(), Seq::empty());
            let p = advance_spec(a, e, seq![w], None, 0, Seq::empty());
            &&& p.aliases == a2
            &&& p.vars == e2
            &&& p.step == StepView::Done(line_result(res))
        }),
{
    let (a2, e2, res) = inside_stage(a, e, k, w.drop_first(), Seq::empty());
    assert(seq![w][0] == w);
    match res {
        StageView::Output(t) => {},
        StageView::Stop(t) => {},
        StageView::Abort(m) => {},
    }
}

/// A line of a single stage that needs the outside world, without
/// redirection, first asks for that stage's work, and then ends with exactly
/// the output that the work reports.
pub proof fn lemma_single_stage_outside(a: Seq<Entry>, e: Seq<Entry>, w: Seq<Seq<char>>, t: String)
    requires
        w.len() > 0,
        !(builtin_named(w[0]) matches Some(k) && runs_inside(k, w.drop_first())),
    ensures
        advance_spec(a, e, seq![w], None, 0, Seq::empty()).step == request_for(w, Seq::empty()),
        resume_spec(a, e, seq![w], None, 0, Seq::empty(), false, &Event::Output(t)).step
            == StepView::Done(t@),
{
    assert(seq![w][0] == w);
}

/// A command that is neither a builtin nor a program ends the whole line
/// with a `command not found` error, whatever its position: no later stage
/// runs.
pub proof fn lemma_not_found_aborts(
    a: Seq<Entry>,
    e: Seq<Entry>,
    stages: Seq<Seq<Seq<char>>>,
    target: Option<Seq<char>>,
    i: int,
    input: Seq<char>,
)
    requires
        0 <= i < stages.len(),
        stages[i].len() > 0,
        builtin_named(stages[i][0]) is None,
    ensures
        advance_spec(a, e, stages, target, i, input).step == StepView::External(
            stages[i][0],
            stages[i].drop_first(),
            input,
        ),
        ({
            let p = resume_spec(a, e, stages, target, i, input, false, &Event::NotFound);
            &&& p.step == StepView::Done("Error: "@ + stages[i][0] + ": command not found"@)
            &&& p.next == stages.len()
            &&& p.aliases == a
            &&& p.vars == e
        }),
{
    let w0 = stages[i][0];
    assert(("Error: "@ + w0) + ": command not found"@ =~= "Error: "@ + (w0 + ": command not found"@));
}

// ----- re-parsing a rendered pipeline -----
/// A character that needs no quoting and is no sign of the line syntax.
pub open spec fn plain_char(c: char) -> bool {
    !is_space(c) && c != '\'' && c != '"' && c != '|' && c != '>'
}

/// A word made of plain characters only.
pub open spec fn plain_word(w: Seq<char>) -> bool {
    w.len() > 0 && forall|i: int| 0 <= i < w.len() ==> plain_char(#[trigger] w[i])
}

/// A character that is no quote and no sign of the line syntax.
pub open spec fn quiet_char(c: char) -> bool {
    c != '\'' && c != '"' && c != '|' && c != '>'
}

/// A text of quiet characters that neither starts nor ends with whitespace.
pub open spec fn tidy_text(t: Seq<char>) -> bool {
    &&& t.len() > 0
    &&& !is_space(t[0])
    &&& !is_space(t.last())
    &&& forall|i: int| 0 <= i < t.len() ==> quiet_char(#[trigger] t[i])
}

/// Texts joined by ` | `.
pub open spec fn join_pipes(ts: Seq<Seq<char>>) -> Seq<char>
    decreases ts.len(),
{
    if ts.len() == 0 {
        Seq::empty()
    } else if ts.len() == 1 {
        ts[0]
    } else {
        join_pipes(ts.drop_last()) + seq![' ', '|', ' '] + ts.last()
    }
}

/// The text of each stage: its words joined by single spaces.
pub open spec fn stage_texts(stages: Seq<Seq<Seq<char>>>) -> Seq<Seq<char>> {
    stages.map_values(|w: Seq<Seq<char>>| join_spaced(w))
}

/// The line that writes a pipeline out: the stages joined by ` | `, then
/// ` > ` and the target when there is one.
pub open spec fn render_line(stages: Seq<Seq<Seq<char>>>, target: Option<Seq<char>>) -> Seq<char> {
    let body = join_pipes(stage_texts(stages));
    match target {
        Some(t) => body + seq![' ', '>', ' '] + t,
        None => body,
    }
}

/// The pieces between the pipe signs of `join_pipes(ts) + x`.
pub open spec fn pieces(ts: Seq<Seq<char>>, x: Seq<char>) -> Seq<Seq<char>>
    decreases ts.len(),
{
    if ts.len() <= 1 {
        seq![ts[0] + x]
    } else {
        pieces(ts.drop_last(), seq![' ']).push(seq![' '] + ts.last() + x)
    }
}

proof fn lemma_quote_zero(s: Seq<char>, i: int)
    requires
        0 <= i <= s.len(),
        forall|j: int| 0 <= j < i ==> s[j] != '\'' && s[j] != '"',
    ensures
        quote_before(s, i) == 0,
    decreases i,
{
    if i > 0 {
        lemma_quote_zero(s, i - 1);
    }
}

proof fn lemma_last_none(s: Seq<char>, c: char, n: int)
    requires
        n <= s.len(),
        forall|j: int| 0 <= j < n ==> s[j] != c,
    ensures
        last_unquoted(s, c, n) == -1,
    decreases n,
{
    if n > 0 {
        lemma_last_none(s, c, n - 1);
    }
}

proof fn lemma_last_at(s: Seq<char>, c: char, n: int, k: int)
    requires
        0 <= k < n <= s.len(),
        s[k] == c,
        quote_before(s, k) == 0,
        forall|j: int| k < j < n ==> s[j] != c,
    ensures
        last_unquoted(s, c, n) == k,
    decreases n,
{
    if n - 1 > k {
        lemma_last_at(s, c, n - 1, k);
    }
}

proof fn lemma_prefix_quote(s: Seq<char>, t: Seq<char>, n: int, i: int)
    requires
        0 <= i <= n <= s.len(),
        n <= t.len(),
        s.subrange(0, n) == t.subrange(0, n),
    ensures
        quote_before(s, i) == quote_before(t, i),
    decreases i,
{
    if i > 0 {
        lemma_prefix_quote(s, t, n, i - 1);
        assert(s[i - 1] == s.subrange(0, n)[i - 1]);
        assert(t[i - 1] == t.subrange(0, n)[i - 1]);
    }
}

proof fn lemma_prefix_last(s: Seq<char>, t: Seq<char>, c: char, n: int, m: int)
    requires
        0 <= m <= n <= s.len(),
        n <= t.len(),
        s.subrange(0, n) == t.subrange(0, n),
    ensures
        last_unquoted(s, c, m) == last_unquoted(t, c, m),
    decreases m,
{
    if m > 0 {
        lemma_prefix_quote(s, t, n, m - 1);
        assert(s[m - 1] == s.subrange(0, n)[m - 1]);
        assert(t[m - 1] == t.subrange(0, n)[m - 1]);
        lemma_prefix_last(s, t, c, n, m - 1);
    }
}

proof fn lemma_last_range(s: Seq<char>, c: char, n: int)
    requires
        0 <= n,
    ensures
        last_unquoted(s, c, n) < n,
        last_unquoted(s, c, n) >= -1,
    decreases n,
{
    if n > 0 {
        lemma_last_range(s, c, n - 1);
    }
}

proof fn lemma_prefix_segments(s: Seq<char>, t: Seq<char>, n: int, m: int)
    requires
        0 <= m <= n <= s.len(),
        n <= t.len(),
        s.subrange(0, n) == t.subrange(0, n),
    ensures
        segments(s, m) == segments(t, m),
    decreases m,
{
    lemma_prefix_last(s, t, '|', n, m);
    lemma_last_range(s, '|', m);
    let p = last_unquoted(s, '|', m);
    if m > 0 && p >= 0 {
        lemma_prefix_segments(s, t, n, p);
        assert(s.subrange(p + 1, m) =~= s.subrange(0, n).subrange(p + 1, m));
        assert(t.subrange(p + 1, m) =~= t.subrange(0, n).subrange(p + 1, m));
    } else {
        assert(s.subrange(0, m) =~= s.subrange(0, n).subrange(0, m));
        assert(t.subrange(0, m) =~= t.subrange(0, n).subrange(0, m));
    }
}

/// The characters of `join_pipes(ts)` are quiet but for the pipe signs.
proof fn lemma_join_pipes_chars(ts: Seq<Seq<char>>)
    requires
        ts.len() > 0,
        forall|k: int| 0 <= k < ts.len() ==> tidy_text(#[trigger] ts[k]),
    ensures
        forall|i: int| 0 <= i < join_pipes(ts).len() ==> (#[trigger] join_pipes(ts)[i] == '|' || quiet_char(join_pipes(ts)[i])),
        forall|i: int| 0 <= i < join_pipes(ts).len() ==> (#[trigger] join_pipes(ts)[i] != '\'' && join_pipes(ts)[i] != '"' && join_pipes(ts)[i] != '>'),
    decreases ts.len(),
{
    if ts.len() > 1 {
        let init = ts.drop_last();
        assert forall|k: int| 0 <= k < init.len() implies tidy_text(#[trigger] init[k]) by {
            assert(init[k] == ts[k]);
        }
        lemma_join_pipes_chars(init);
        let j = join_pipes(init);
        let last = ts.last();
        assert(tidy_text(ts[ts.len() - 1]));
        let s = j + seq![' ', '|', ' '] + last;
        assert forall|i: int| 0 <= i < s.len() implies (#[trigger] s[i] == '|' || quiet_char(s[i])) by {
            if i < j.len() {
                assert(s[i] == j[i]);
            } else if i < j.len() + 3 {
            } else {
                assert(s[i] == last[i - j.len() - 3]);
            }
        }
    } else {
        assert(tidy_text(ts[0]));
    }
}

/// Between the pipe signs of `join_pipes(ts) + x` stand the pieces.
proof fn lemma_segments_join(ts: Seq<Seq<char>>, x: Seq<char>)
    requires
        ts.len() > 0,
        forall|k: int| 0 <= k < ts.len() ==> tidy_text(#[trigger] ts[k]),
        x == Seq::<char>::empty() || x == seq![' '],
    ensures
        segments(join_pipes(ts) + x, (join_pipes(ts) + x).len() as int) == pieces(ts, x),
    decreases ts.len(),
{
    let s = join_pipes(ts) + x;
    let n = s.len() as int;
    lemma_join_pipes_chars(ts);
    assert forall|i: int| 0 <= i < n implies s[i] != '\'' && s[i] != '"' by {
        if i < join_pipes(ts).len() {
            assert(s[i] == join_pipes(ts)[i]);
        }
    }
    if ts.len() == 1 {
        assert(tidy_text(ts[0]));
        assert forall|j: int| 0 <= j < n implies s[j] != '|' by {
            if j < ts[0].len() {
                assert(s[j] == ts[0][j]);
            }
        }
        lemma_last_none(s, '|', n);
        assert(s.subrange(0, n) =~= ts[0] + x);
    } else {
        let init = ts.drop_last();
        assert forall|k: int| 0 <= k < init.len() implies tidy_text(#[trigger] init[k]) by {
            assert(init[k] == ts[k]);
        }
        let j = join_pipes(init);
        let last = ts.last();
        assert(tidy_text(ts[ts.len() - 1]));
        let p = j.len() as int + 1;
        assert(s =~= j + seq![' ', '|', ' '] + last + x);
        assert(s[p] == '|');
        lemma_quote_zero(s, p);
        assert forall|q: int| p < q < n implies s[q] != '|' by {
            if q == p + 1 {
            } else if q < p + 2 + last.len() {
                assert(s[q] == last[q - p - 2]);
            } else {
                assert(s[q] == x[q - p - 2 - last.len()]);
            }
        }
        lemma_last_at(s, '|', n, p);
        lemma_segments_join(init, seq![' ']);
        let s2 = j + seq![' '];
        assert(s.subrange(0, p) =~= s2.subrange(0, p));
        assert(s2.len() == p);
        lemma_prefix_segments(s, s2, p, p);
        assert(s.subrange(p + 1, n) =~= seq![' '] + last + x);
    }
}

/// The pieces, trimmed, are the texts.
proof fn lemma_trim_piece(t: Seq<char>, lead: bool, x: Seq<char>)
    requires
        tidy_text(t),
        x == Seq::<char>::empty() || x == seq![' '],
    ensures
        trim((if lead { seq![' '] } else { Seq::<char>::empty() }) + t + x) == t,
{
    let pre = if lead { seq![' '] } else { Seq::<char>::empty() };
    let s = pre + t + x;
    assert((t + x)[0] == t[0]);
    assert(trim_start(t + x) == t + x);
    if lead {
        assert(is_space(' '));
        assert(s[0] == ' ');
        assert(s.drop_first() =~= t + x);
        assert(trim_start(s) == trim_start(s.drop_first()));
    } else {
        assert(s =~= t + x);
    }
    assert(trim_start(s) == t + x);
    assert(trim_end(t) == t);
    if x.len() == 1 {
        assert(is_space(' '));
        assert((t + x).last() == ' ');
        assert((t + x).drop_last() =~= t);
        assert(trim_end(t + x) == trim_end((t + x).drop_last()));
    } else {
        assert(t + x =~= t);
    }
    assert(trim_end(t + x) == t);
}

proof fn lemma_pieces_trim(ts: Seq<Seq<char>>, x: Seq<char>)
    requires
        ts.len() > 0,
        forall|k: int| 0 <= k < ts.len() ==> tidy_text(#[trigger] ts[k]),
        x == Seq::<char>::empty() || x == seq![' '],
    ensures
        pieces(ts, x).len() == ts.len(),
        forall|k: int| 0 <= k < ts.len() ==> trim(#[trigger] pieces(ts, x)[k]) == ts[k],
    decreases ts.len(),
{
    if ts.len() == 1 {
        assert(tidy_text(ts[0]));
        lemma_trim_piece(ts[0], false, x);
        assert(Seq::<char>::empty() + ts[0] + x =~= ts[0] + x);
    } else {
        let init = ts.drop_last();
        assert forall|k: int| 0 <= k < init.len() implies tidy_text(#[trigger] init[k]) by {
            assert(init[k] == ts[k]);
        }
        lemma_pieces_trim(init, seq![' ']);
        assert(tidy_text(ts[ts.len() - 1]));
        lemma_trim_piece(ts.last(), true, x);
        assert forall|k: int| 0 <= k < ts.len() implies trim(#[trigger] pieces(ts, x)[k]) == ts[k] by {
            if k < init.len() {
                assert(pieces(ts, x)[k] == pieces(init, seq![' '])[k]);
                assert(init[k] == ts[k]);
            }
        }
    }
}

proof fn lemma_no_failure(segs: Seq<Seq<char>>)
    requires
        forall|k: int| 0 <= k < segs.len() ==> (#[trigger] stage_outcome(segs[k])) is Parsed,
    ensures
        first_failure(segs) is None,
    decreases segs.len(),
{
    if segs.len() > 0 {
        assert(stage_outcome(segs[0]) is Parsed);
        assert forall|k: int| 0 <= k < segs.drop_first().len() implies (#[trigger] stage_outcome(
            segs.drop_first()[k],
        )) is Parsed by {
            assert(segs.drop_first()[k] == segs[k + 1]);
        }
        lemma_no_failure(segs.drop_first());
    }
}

/// Words joined by spaces make a tidy text.
proof fn lemma_join_spaced_tidy(ws: Seq<Seq<char>>)
    requires
        ws.len() > 0,
        forall|j: int| 0 <= j < ws.len() ==> plain_word(#[trigger] ws[j]),
    ensures
        tidy_text(join_spaced(ws)),
        join_spaced(ws)[0] == ws[0][0],
    decreases ws.len(),
{
    reveal_strlit(" ");
    if ws.len() == 1 {
        assert(plain_word(ws[0]));
        assert(join_spaced(ws) == ws[0]);
    } else {
        let init = ws.drop_last();
        assert forall|j: int| 0 <= j < init.len() implies plain_word(#[trigger] init[j]) by {
            assert(init[j] == ws[j]);
        }
        lemma_join_spaced_tidy(init);
        let a = join_spaced(init);
        let last = ws.last();
        assert(plain_word(ws[ws.len() - 1]));
        let s = a + " "@ + last;
        assert(join_spaced(ws) == s);
        assert(" "@ =~= seq![' ']);
        assert(s[0] == a[0]);
        assert(init[0] == ws[0]);
        assert(s.last() == last.last());
        assert forall|i: int| 0 <= i < s.len() implies quiet_char(#[trigger] s[i]) by {
            if i < a.len() {
                assert(s[i] == a[i]);
            } else if i == a.len() {
            } else {
                assert(s[i] == last[i - a.len() - 1]);
            }
        }
    }
}

/// Parsing the written-out form of a normalized pipeline gives that
/// pipeline back. A pipeline is normalized when its words and its target
/// are plain (no whitespace, quotes, `|` or `>`) and word splitting gives
/// back each stage's words from their space-joined text.
pub proof fn lemma_parse_render(stages: Seq<Seq<Seq<char>>>, target: Option<Seq<char>>)
    requires
        stages.len() > 0,
        forall|k: int| 0 <= k < stages.len() ==> (#[trigger] stages[k]).len() > 0,
        forall|k: int, j: int| 0 <= k < stages.len() && 0 <= j < stages[k].len() ==> plain_word(
            #[trigger] stages[k][j],
        ),
        forall|k: int| 0 <= k < stages.len() ==> shell_words(join_spaced(#[trigger] stages[k]))
            == Some(stages[k]),
        target matches Some(t) ==> plain_word(t),
    ensures
        parse_spec(render_line(stages, target)) == ParseOutcome::Parsed(stages, target),
{
    let ts = stage_texts(stages);
    assert forall|k: int| 0 <= k < ts.len() implies tidy_text(#[trigger] ts[k]) by {
        let ws = stages[k];
        assert forall|j: int| 0 <= j < ws.len() implies plain_word(#[trigger] ws[j]) by {
            assert(plain_word(stages[k][j]));
        }
        lemma_join_spaced_tidy(ws);
    }
    let body = join_pipes(ts);
    let line = render_line(stages, target);
    lemma_join_pipes_chars(ts);
    let x = match target {
        Some(_) => seq![' '],
        None => Seq::<char>::empty(),
    };
    lemma_segments_join(ts, x);
    lemma_pieces_trim(ts, x);
    let segs = pieces(ts, x);
    assert forall|k: int| 0 <= k < segs.len() implies (#[trigger] stage_outcome(segs[k])) is Parsed
        && stage_words(segs[k]) == stages[k] by {
        assert(trim(segs[k]) == ts[k]);
        assert(tidy_text(ts[k]));
        assert(shell_words(join_spaced(stages[k])) == Some(stages[k]));
    }
    lemma_no_failure(segs);
    assert(stage_word_list(segs) =~= stages);
    match target {
        Some(t) => {
            let g = body.len() as int + 1;
            assert(line =~= body + seq![' ', '>', ' '] + t);
            assert forall|j: int| 0 <= j < line.len() implies line[j] != '\'' && line[j] != '"' by {
                if j < body.len() {
                    assert(line[j] == body[j]);
                } else if j >= body.len() + 3 {
                    assert(line[j] == t[j - body.len() - 3]);
                }
            }
            lemma_quote_zero(line, g);
            assert forall|j: int| g < j < line.len() implies line[j] != '>' by {
                if j >= body.len() + 3 {
                    assert(line[j] == t[j - body.len() - 3]);
                }
            }
            lemma_last_at(line, '>', line.len() as int, g);
            let tail = line.subrange(g + 1, line.len() as int);
            assert(tail =~= seq![' '] + t + Seq::<char>::empty());
            assert(tidy_text(t)) by {
                assert forall|i: int| 0 <= i < t.len() implies quiet_char(#[trigger] t[i]) by {
                    assert(plain_char(t[i]));
                }
                assert(plain_char(t[0]));
                assert(plain_char(t[t.len() - 1]));
            }
            lemma_trim_piece(t, true, Seq::<char>::empty());
            let s2 = body + seq![' '];
            assert(line.subrange(0, g) =~= s2.subrange(0, g));
            lemma_prefix_segments(line, s2, g, g);
        },
        None => {
            assert(line =~= body + Seq::<char>::empty());
            assert forall|j: int| 0 <= j < line.len() implies line[j] != '>' by {
                assert(line[j] == body[j]);
            }
            lemma_last_none(line, '>', line.len() as int);
        },
    }
}

} // verus!
