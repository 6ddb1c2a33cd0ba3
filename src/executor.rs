//! The pipeline executor. It runs the stages of a parsed line in order,
//! feeding each stage's output to the next. Builtins that only need the
//! session and the text run here; a stage that needs the outside world (the
//! file system, a process, the network) is handed to the caller as a
//! request, and the caller reports back what came of it.

use vstd::prelude::*;
use crate::builtins::{
    alias_builtin, alias_builtin_spec, echo_builtin, echo_spec, export_builtin,
    export_builtin_spec, grep_from, grep_logic, join_spaced, unset_builtin, unset_builtin_spec,
};
use crate::parser::{
    Command, Pipeline, Redirection, command_list, command_words, parse_error_message, parse_line,
    parse_spec, shell_words, split_words, string_views, target_of, ParseOutcome,
};
use crate::operands::{check_operands, operand_error};
use crate::session::ShellCore;
use crate::table::{Entry, lookup};
use crate::text::{str_equal, trim, trim_str, views};

verus! {

/// The commands that the shell provides itself. A name in this table is
/// never looked up among the programs of the system.
#[derive(PartialEq, Eq, Structural, Clone, Copy, Debug)]
pub enum Builtin {
    Ls,
    Echo,
    Ping,
    Grep,
    Cat,
    Alias,
    Unalias,
    Export,
    Unset,
    Cd,
    Open,
    Mkdir,
    Rm,
    Cp,
    Mv,
}

/// The builtin that a command name selects, if any.
pub open spec fn builtin_named(name: Seq<char>) -> Option<Builtin> {
    if name == "ls"@ {
        Some(Builtin::Ls)
    } else if name == "echo"@ {
        Some(Builtin::Echo)
    } else if name == "ping"@ {
        Some(Builtin::Ping)
    } else if name == "grep"@ {
        Some(Builtin::Grep)
    } else if name == "cat"@ {
        Some(Builtin::Cat)
    } else if name == "alias"@ {
        Some(Builtin::Alias)
    } else if name == "unalias"@ {
        Some(Builtin::Unalias)
    } else if name == "export"@ {
        Some(Builtin::Export)
    } else if name == "unset"@ {
        Some(Builtin::Unset)
    } else if name == "cd"@ {
        Some(Builtin::Cd)
    } else if name == "open"@ {
        Some(Builtin::Open)
    } else if name == "mkdir"@ {
        Some(Builtin::Mkdir)
    } else if name == "rm"@ {
        Some(Builtin::Rm)
    } else if name == "cp"@ {
        Some(Builtin::Cp)
    } else if name == "mv"@ {
        Some(Builtin::Mv)
    } else {
        None
    }
}

/// Looks a command name up in the table of builtins.
pub fn lookup_builtin(name: &str) -> (r: Option<Builtin>)
    ensures
        r == builtin_named(name@),
{
    if str_equal(name, "ls") {
        Some(Builtin::Ls)
    } else if str_equal(name, "echo") {
        Some(Builtin::Echo)
    } else if str_equal(name, "ping") {
        Some(Builtin::Ping)
    } else if str_equal(name, "grep") {
        Some(Builtin::Grep)
    } else if str_equal(name, "cat") {
        Some(Builtin::Cat)
    } else if str_equal(name, "alias") {
        Some(Builtin::Alias)
    } else if str_equal(name, "unalias") {
        Some(Builtin::Unalias)
    } else if str_equal(name, "export") {
        Some(Builtin::Export)
    } else if str_equal(name, "unset") {
        Some(Builtin::Unset)
    } else if str_equal(name, "cd") {
        Some(Builtin::Cd)
    } else if str_equal(name, "open") {
        Some(Builtin::Open)
    } else if str_equal(name, "mkdir") {
        Some(Builtin::Mkdir)
    } else if str_equal(name, "rm") {
        Some(Builtin::Rm)
    } else if str_equal(name, "cp") {
        Some(Builtin::Cp)
    } else if str_equal(name, "mv") {
        Some(Builtin::Mv)
    } else {
        None
    }
}

/// Whether the builtin `k` with arguments `args` runs here, on the session
/// and the text alone.
pub open spec fn runs_inside(k: Builtin, args: Seq<Seq<char>>) -> bool {
    match k {
        Builtin::Echo | Builtin::Grep | Builtin::Alias | Builtin::Unalias | Builtin::Export
        | Builtin::Unset => true,
        _ => operand_error(k, args) is Some,
    }
}

/// What one stage comes to: output for the next stage, an error that aborts
/// the pipeline, or a text that ends the pipeline as its result.
pub enum StageResult {
    Output(String),
    Abort(String),
    Stop(String),
}

/// What a stage comes to, over plain values.
pub enum StageView {
    Output(Seq<char>),
    Abort(Seq<char>),
    Stop(Seq<char>),
}

/// A stage result over plain values.
pub open spec fn stage_view(r: &StageResult) -> StageView {
    match r {
        StageResult::Output(t) => StageView::Output(t@),
        StageResult::Abort(t) => StageView::Abort(t@),
        StageResult::Stop(t) => StageView::Stop(t@),
    }
}

/// The aliases, the variables and the result after a builtin that runs
/// here, given the previous stage's output `input`.
pub open spec fn inside_stage(
    a: Seq<Entry>,
    e: Seq<Entry>,
    k: Builtin,
    args: Seq<Seq<char>>,
    input: Seq<char>,
) -> (Seq<Entry>, Seq<Entry>, StageView) {
    match k {
        Builtin::Echo => (a, e, StageView::Output(echo_spec(args, e))),
        Builtin::Grep => if args.len() == 0 {
            (a, e, StageView::Abort("grep: missing pattern"@))
        } else {
            (a, e, StageView::Output(grep_from(args[0], input, 0)))
        },
        Builtin::Alias => {
            let (a2, t) = alias_builtin_spec(a, args);
            (a2, e, StageView::Output(t))
        },
        Builtin::Unalias => {
            let (a2, t) = alias_builtin_spec(a, seq!["unalias"@] + args);
            (a2, e, StageView::Output(t))
        },
        Builtin::Export => {
            let (e2, t) = export_builtin_spec(e, args);
            (a, e2, StageView::Output(t))
        },
        Builtin::Unset => {
            let (e2, t) = unset_builtin_spec(e, args);
            (a, e2, StageView::Output(t))
        },
        _ => (a, e, operand_error(k, args)->Some_0),
    }
}

/// Runs a builtin that runs here.
fn run_inside(core: &mut ShellCore, k: Builtin, args: &[&str], input: &str) -> (r: StageResult)
    requires
        old(core).wf(),
        runs_inside(k, views(args@)),
    ensures
        final(core).wf(),
        final(core).current_dir == old(core).current_dir,
        (final(core).aliases.entries(), final(core).env_vars.entries(), stage_view(&r))
            == inside_stage(
            old(core).aliases.entries(),
            old(core).env_vars.entries(),
            k,
            views(args@),
            input@,
        ),
{
    match k {
        Builtin::Echo => StageResult::Output(echo_builtin(args, &core.env_vars)),
        Builtin::Grep => {
            if args.len() == 0 {
                StageResult::Abort(String::from_str("grep: missing pattern"))
            } else {
                StageResult::Output(grep_logic(args[0], input))
            }
        },
        Builtin::Alias => StageResult::Output(alias_builtin(&mut core.aliases, args)),
        Builtin::Unalias => {
            let mut all: Vec<&str> = Vec::new();
            all.push("unalias");
            let mut i: usize = 0;
            while i < args.len()
                invariant
                    i <= args@.len(),
                    all@.len() == i + 1,
                    all@[0]@ == "unalias"@,
                    forall|j: int| 0 <= j < i ==> all@[j + 1]@ == args@[j]@,
                decreases args@.len() - i,
            {
                all.push(args[i]);
                i = i + 1;
            }
            proof {
                let want = seq!["unalias"@] + views(args@);
                assert forall|j: int| 0 <= j < all@.len() implies views(all@)[j] == want[j] by {
                    if j > 0 {
                        assert(all@[(j - 1) + 1]@ == args@[j - 1]@);
                    }
                }
                assert(views(all@) =~= want);
            }
            StageResult::Output(alias_builtin(&mut core.aliases, all.as_slice()))
        },
        Builtin::Export => StageResult::Output(export_builtin(&mut core.env_vars, args)),
        Builtin::Unset => StageResult::Output(unset_builtin(&mut core.env_vars, args)),
        _ => match check_operands(k, args) {
            Some(x) => x,
            None => StageResult::Output(String::new()),
        },
    }
}

/// Outside work that the caller performs for the current stage.
pub enum Request {
    /// Run a builtin that needs the file system or the network, with these
    /// arguments, in the session's directory.
    Builtin(Builtin, Vec<String>),
    /// Resolve this operand of `cd` against the session's directory.
    ChangeDir(String),
    /// Run this program with these arguments in the session's directory and
    /// environment, with this text on its standard input.
    External(String, Vec<String>, String),
}

/// What the executor asks of its caller next.
pub enum Step {
    /// Perform the request and report what came of it.
    Perform(Request),
    /// Write this text to this file, relative to the session's directory, and
    /// report whether that worked.
    WriteFile(String, String),
    /// The line is done: this is its result text.
    Done(String),
}

/// What the caller reports back.
pub enum Event {
    /// The stage succeeded with this output.
    Output(String),
    /// The stage failed with this message; the pipeline is abandoned.
    Failed(String),
    /// No program of the stage's name was found.
    NotFound,
    /// The `cd` operand is a directory, with this canonical path.
    Directory(String),
    /// The `cd` operand does not exist.
    Missing,
    /// The `cd` operand exists but is not a directory.
    NotDirectory,
    /// The redirection file was written.
    Written,
    /// Writing the redirection file failed with this message.
    WriteFailed(String),
}

/// What a step asks for, over plain values.
pub enum StepView {
    Builtin(Builtin, Seq<Seq<char>>),
    ChangeDir(Seq<char>),
    External(Seq<char>, Seq<Seq<char>>, Seq<char>),
    WriteFile(Seq<char>, Seq<char>),
    Done(Seq<char>),
}

/// A step over plain values.
pub open spec fn step_view(s: &Step) -> StepView {
    match s {
        Step::Perform(Request::Builtin(k, args)) => StepView::Builtin(*k, string_views(args@)),
        Step::Perform(Request::ChangeDir(p)) => StepView::ChangeDir(p@),
        Step::Perform(Request::External(n, args, input)) => StepView::External(
            n@,
            string_views(args@),
            input@,
        ),
        Step::WriteFile(f, t) => StepView::WriteFile(f@, t@),
        Step::Done(t) => StepView::Done(t@),
    }
}

/// The request for a stage with words `w` that does not run here.
pub open spec fn request_for(w: Seq<Seq<char>>, input: Seq<char>) -> StepView {
    match builtin_named(w[0]) {
        Some(k) => if k == Builtin::Cd {
            StepView::ChangeDir(w[1])
        } else {
            StepView::Builtin(k, w.drop_first())
        },
        None => StepView::External(w[0], w.drop_first(), input),
    }
}

/// The step after the last stage produced `t`.
pub open spec fn finish(target: Option<Seq<char>>, t: Seq<char>) -> StepView {
    match target {
        Some(f) => StepView::WriteFile(f, t),
        None => StepView::Done(t),
    }
}

/// The state of a run over plain values, with the step it asks for.
pub struct Progress {
    pub aliases: Seq<Entry>,
    pub vars: Seq<Entry>,
    pub next: int,
    pub input: Seq<char>,
    pub writing: bool,
    pub step: StepView,
}

/// Where a run goes from stage `i` with input `input`: the stages that run
/// here are run in turn, until the line is done, its output is to be
/// written, or a stage needs outside work.
pub open spec fn advance_spec(
    a: Seq<Entry>,
    e: Seq<Entry>,
    stages: Seq<Seq<Seq<char>>>,
    target: Option<Seq<char>>,
    i: int,
    input: Seq<char>,
) -> Progress
    decreases stages.len() - i, 1int,
{
    let n = stages.len() as int;
    if i < 0 || i >= n {
        Progress { aliases: a, vars: e, next: n, input, writing: false, step: StepView::Done(input) }
    } else {
        let w = stages[i];
        let args = w.drop_first();
        match builtin_named(w[0]) {
            Some(k) if runs_inside(k, args) => {
                let (a2, e2, res) = inside_stage(a, e, k, args, input);
                after_stage(a2, e2, stages, target, i, input, res)
            },
            _ => Progress { aliases: a, vars: e, next: i, input, writing: false, step: request_for(w, input) },
        }
    }
}

/// Where a run goes once stage `i` came to `res`: an abort or a stop ends the
/// line; output feeds the next stage, or, after the last stage, is the
/// line's result or goes to the redirection file.
pub open spec fn after_stage(
    a: Seq<Entry>,
    e: Seq<Entry>,
    stages: Seq<Seq<Seq<char>>>,
    target: Option<Seq<char>>,
    i: int,
    input: Seq<char>,
    res: StageView,
) -> Progress
    decreases stages.len() - i, 0int,
{
    let n = stages.len() as int;
    match res {
        StageView::Abort(m) => Progress { aliases: a, vars: e, next: n, input, writing: false, step: StepView::Done("Error: "@ + m) },
        StageView::Stop(t) => Progress { aliases: a, vars: e, next: n, input, writing: false, step: StepView::Done(t) },
        StageView::Output(t) => if 0 <= i && i + 1 < n {
            advance_spec(a, e, stages, target, i + 1, t)
        } else {
            Progress { aliases: a, vars: e, next: n, input: t, writing: target is Some, step: finish(target, t) }
        },
    }
}

/// A pipeline being run: its commands, its redirection, the stage to run
/// next, the output of the stage before it, and whether the output of the
/// last stage is being written to the redirection file.
pub struct PipelineRun {
    commands: Vec<Command>,
    redirection: Option<Redirection>,
    next: usize,
    input: String,
    writing: bool,
}

impl PipelineRun {
    /// The word lists of the stages.
    pub closed spec fn stages(&self) -> Seq<Seq<Seq<char>>> {
        command_list(self.commands@)
    }

    /// The redirection target, if any.
    pub closed spec fn target(&self) -> Option<Seq<char>> {
        target_of(&self.redirection)
    }

    /// The stage to run next; past the last stage when the stages are over.
    pub closed spec fn next(&self) -> int {
        self.next as int
    }

    /// The output of the stage before the next one.
    pub closed spec fn input(&self) -> Seq<char> {
        self.input@
    }

    /// Whether the run waits for the outcome of the redirection write.
    pub closed spec fn writing(&self) -> bool {
        self.writing
    }

    /// At least one stage, and the next stage is at most one past the last.
    pub open spec fn wf(&self) -> bool {
        &&& self.stages().len() > 0
        &&& 0 <= self.next() <= self.stages().len()
        &&& self.writing() ==> self.next() == self.stages().len()
    }

    /// Starts a run of a parsed pipeline at its first stage.
    pub fn new(p: Pipeline) -> (r: PipelineRun)
        requires
            p.commands@.len() > 0,
        ensures
            r.wf(),
            r.stages() == crate::parser::pipeline_stages(&p),
            r.target() == crate::parser::pipeline_target(&p),
            r.next() == 0,
            r.input() == Seq::<char>::empty(),
            !r.writing(),
    {
        PipelineRun {
            commands: p.commands,
            redirection: p.redirection,
            next: 0,
            input: String::new(),
            writing: false,
        }
    }

    /// Whether the run waits for the outcome of a stage or of the write.
    pub fn is_pending(&self) -> (r: bool)
        requires
            self.wf(),
        ensures
            r == (self.writing() || self.next() < self.stages().len()),
    {
        self.writing || self.next < self.commands.len()
    }
}

/// The state of a session and a run, with a step, over plain values.
pub open spec fn progress_of(core: &ShellCore, run: &PipelineRun, step: &Step) -> Progress {
    Progress {
        aliases: core.aliases.entries(),
        vars: core.env_vars.entries(),
        next: run.next(),
        input: run.input(),
        writing: run.writing(),
        step: step_view(step),
    }
}

/// The arguments of a command as string slices.
fn arg_slices(args: &Vec<String>) -> (r: Vec<&str>)
    ensures
        views(r@) == string_views(args@),
{
    let mut r: Vec<&str> = Vec::new();
    let mut i: usize = 0;
    while i < args.len()
        invariant
            i <= args@.len(),
            r@.len() == i,
            forall|j: int| 0 <= j < i ==> r@[j]@ == args@[j]@,
        decreases args@.len() - i,
    {
        r.push(args[i].as_str());
        i = i + 1;
    }
    assert(views(r@) =~= string_views(args@));
    r
}

/// A copy of a list of strings.
fn copy_strings(v: &Vec<String>) -> (r: Vec<String>)
    ensures
        string_views(r@) == string_views(v@),
{
    let mut r: Vec<String> = Vec::new();
    let mut i: usize = 0;
    while i < v.len()
        invariant
            i <= v@.len(),
            r@.len() == i,
            forall|j: int| 0 <= j < i ==> r@[j]@ == v@[j]@,
        decreases v@.len() - i,
    {
        r.push(v[i].clone());
        i = i + 1;
    }
    assert(string_views(r@) =~= string_views(v@));
    r
}

/// The request for a command that does not run here.
fn request_of(c: &Command, input: &String) -> (r: Step)
    requires
        builtin_named(c.name@) matches Some(k) ==> !runs_inside(k, string_views(c.args@)),
    ensures
        step_view(&r) == request_for(command_words(c), input@),
{
    let ghost w = command_words(c);
    assert(w[0] == c.name@);
    assert(w.drop_first() =~= string_views(c.args@));
    match lookup_builtin(c.name.as_str()) {
        Some(k) => {
            if k == Builtin::Cd {
                assert(w[1] == c.args@[0]@);
                Step::Perform(Request::ChangeDir(c.args[0].clone()))
            } else {
                Step::Perform(Request::Builtin(k, copy_strings(&c.args)))
            }
        },
        None => Step::Perform(Request::External(c.name.clone(), copy_strings(&c.args), input.clone())),
    }
}

/// Whether the builtin `k` with these arguments runs here.
fn is_inside(k: Builtin, args: &Vec<String>) -> (r: bool)
    ensures
        r == runs_inside(k, string_views(args@)),
{
    match k {
        Builtin::Echo | Builtin::Grep | Builtin::Alias | Builtin::Unalias | Builtin::Export
        | Builtin::Unset => true,
        _ => {
            let slices = arg_slices(args);
            check_operands(k, slices.as_slice()).is_some()
        },
    }
}

/// "Error: " followed by `m`.
fn error_text(m: &str) -> (r: String)
    ensures
        r@ == "Error: "@ + m@,
{
    let mut t = String::from_str("Error: ");
    t.append(m);
    t
}

/// Runs stages from the next one on, as `advance_spec` says.
fn advance(core: &mut ShellCore, run: &mut PipelineRun) -> (r: Step)
    requires
        old(core).wf(),
        old(run).wf(),
        !old(run).writing(),
        old(run).next() < old(run).stages().len(),
    ensures
        final(core).wf(),
        final(run).wf(),
        final(run).stages() == old(run).stages(),
        final(run).target() == old(run).target(),
        final(core).current_dir == old(core).current_dir,
        progress_of(final(core), final(run), &r) == advance_spec(
            old(core).aliases.entries(),
            old(core).env_vars.entries(),
            old(run).stages(),
            old(run).target(),
            old(run).next(),
            old(run).input(),
        ),
{
    let n: usize = run.commands.len();
    loop
        invariant
            core.wf(),
            run.wf(),
            !run.writing(),
            run.next() < run.stages().len(),
            n == run.stages().len(),
            run.stages() == old(run).stages(),
            run.target() == old(run).target(),
            core.current_dir == old(core).current_dir,
            advance_spec(
                core.aliases.entries(),
                core.env_vars.entries(),
                run.stages(),
                run.target(),
                run.next(),
                run.input(),
            ) == advance_spec(
                old(core).aliases.entries(),
                old(core).env_vars.entries(),
                old(run).stages(),
                old(run).target(),
                old(run).next(),
                old(run).input(),
            ),
        decreases run.stages().len() - run.next(),
    {
        let i: usize = run.next;
        let ghost w = run.stages()[i as int];
        assert(w == command_words(&run.commands@[i as int]));
        assert(w[0] == run.commands@[i as int].name@);
        assert(w.drop_first() =~= string_views(run.commands@[i as int].args@));
        let kind = lookup_builtin(run.commands[i].name.as_str());
        let k = match kind {
            Some(k) => {
                if !is_inside(k, &run.commands[i].args) {
                    return request_of(&run.commands[i], &run.input);
                }
                k
            },
            None => {
                return request_of(&run.commands[i], &run.input);
            },
        };
        let res = {
            let args = arg_slices(&run.commands[i].args);
            run_inside(core, k, args.as_slice(), run.input.as_str())
        };
        match res {
            StageResult::Abort(m) => {
                run.next = n;
                return Step::Done(error_text(m.as_str()));
            },
            StageResult::Stop(t) => {
                run.next = n;
                return Step::Done(t);
            },
            StageResult::Output(t) => {
                if i + 1 < n {
                    run.next = i + 1;
                    run.input = t;
                } else {
                    run.next = n;
                    run.input = t.clone();
                    match &run.redirection {
                        Some(Redirection::ToFile(f)) => {
                            run.writing = true;
                            return Step::WriteFile(f.clone(), t);
                        },
                        None => {
                            return Step::Done(t);
                        },
                    }
                }
            },
        }
    }
}

/// The operand of a `cd` stage with words `w`.
pub open spec fn cd_operand(w: Seq<Seq<char>>) -> Seq<char> {
    if w.len() > 1 {
        w[1]
    } else {
        Seq::empty()
    }
}

/// What the reported event makes of the stage with words `w`.
pub open spec fn event_result(w: Seq<Seq<char>>, ev: &Event) -> StageView {
    match ev {
        Event::Output(t) => StageView::Output(t@),
        Event::Failed(m) => StageView::Abort(m@),
        Event::NotFound => StageView::Abort(w[0] + ": command not found"@),
        Event::Directory(_) => StageView::Output(Seq::empty()),
        Event::Missing => StageView::Stop("cd: '"@ + cd_operand(w) + "': No such file or directory\n"@),
        Event::NotDirectory => StageView::Stop("cd: '"@ + cd_operand(w) + "': Not a directory\n"@),
        Event::Written => StageView::Output(Seq::empty()),
        Event::WriteFailed(m) => StageView::Abort(m@),
    }
}

/// Where a run goes when the caller reports `ev`: after a write the line is
/// done; after a stage the run goes on as after a stage that ran here.
pub open spec fn resume_spec(
    a: Seq<Entry>,
    e: Seq<Entry>,
    stages: Seq<Seq<Seq<char>>>,
    target: Option<Seq<char>>,
    next: int,
    input: Seq<char>,
    writing: bool,
    ev: &Event,
) -> Progress {
    if writing {
        Progress {
            aliases: a,
            vars: e,
            next,
            input,
            writing: false,
            step: match ev {
                Event::WriteFailed(m) => StepView::Done("Error: "@ + m@),
                _ => StepView::Done(Seq::empty()),
            },
        }
    } else if next < 0 || next >= stages.len() {
        Progress { aliases: a, vars: e, next, input, writing: false, step: StepView::Done(Seq::empty()) }
    } else {
        after_stage(a, e, stages, target, next, input, event_result(stages[next], ev))
    }
}

/// The working directory after the caller reports `ev`: a stage that
/// resolved a directory moves there.
pub open spec fn resume_dir(cwd: Seq<char>, pending_stage: bool, ev: &Event) -> Seq<char> {
    match ev {
        Event::Directory(p) => if pending_stage { p@ } else { cwd },
        _ => cwd,
    }
}

/// The message that ends a `cd` stage whose operand could not be entered.
fn cd_failure(c: &Command, what: &str) -> (r: String)
    ensures
        r@ == "cd: '"@ + cd_operand(command_words(c)) + what@,
{
    let ghost w = command_words(c);
    let mut t = String::from_str("cd: '");
    if c.args.len() > 0 {
        assert(w[1] == c.args@[0]@);
        t.append(c.args[0].as_str());
    } else {
        assert(cd_operand(w) =~= Seq::<char>::empty());
    }
    t.append(what);
    t
}

/// Takes the outcome of the outside work for the current stage, or of the
/// write, and goes on with the run.
pub fn resume(core: &mut ShellCore, run: &mut PipelineRun, event: Event) -> (r: Step)
    requires
        old(core).wf(),
        old(run).wf(),
    ensures
        final(core).wf(),
        final(run).wf(),
        final(run).stages() == old(run).stages(),
        final(run).target() == old(run).target(),
        final(core).current_dir@ == resume_dir(
            old(core).current_dir@,
            !old(run).writing() && old(run).next() < old(run).stages().len(),
            &event,
        ),
        progress_of(final(core), final(run), &r) == resume_spec(
            old(core).aliases.entries(),
            old(core).env_vars.entries(),
            old(run).stages(),
            old(run).target(),
            old(run).next(),
            old(run).input(),
            old(run).writing(),
            &event,
        ),
{
    if run.writing {
        run.writing = false;
        return match event {
            Event::WriteFailed(m) => Step::Done(error_text(m.as_str())),
            _ => Step::Done(String::new()),
        };
    }
    let n: usize = run.commands.len();
    if run.next >= n {
        return Step::Done(String::new());
    }
    let i: usize = run.next;
    let ghost w = run.stages()[i as int];
    assert(w == command_words(&run.commands@[i as int]));
    assert(w[0] == run.commands@[i as int].name@);
    let res = match event {
        Event::Output(t) => StageResult::Output(t),
        Event::Failed(m) => StageResult::Abort(m),
        Event::NotFound => {
            let mut t = run.commands[i].name.clone();
            t.append(": command not found");
            StageResult::Abort(t)
        },
        Event::Directory(p) => {
            core.current_dir = p;
            StageResult::Output(String::new())
        },
        Event::Missing => StageResult::Stop(cd_failure(&run.commands[i], "': No such file or directory\n")),
        Event::NotDirectory => StageResult::Stop(cd_failure(&run.commands[i], "': Not a directory\n")),
        Event::Written => StageResult::Output(String::new()),
        Event::WriteFailed(m) => StageResult::Abort(m),
    };
    assert(stage_view(&res) == event_result(w, &event));
    match res {
        StageResult::Abort(m) => {
            run.next = n;
            Step::Done(error_text(m.as_str()))
        },
        StageResult::Stop(t) => {
            run.next = n;
            Step::Done(t)
        },
        StageResult::Output(t) => {
            if i + 1 < n {
                run.next = i + 1;
                run.input = t;
                advance(core, run)
            } else {
                run.next = n;
                run.input = t.clone();
                match &run.redirection {
                    Some(Redirection::ToFile(f)) => {
                        run.writing = true;
                        Step::WriteFile(f.clone(), t)
                    },
                    None => Step::Done(t),
                }
            }
        },
    }
}

/// A line with nothing to run: only whitespace, or no words at all.
pub open spec fn is_blank(line: Seq<char>) -> bool {
    trim(line).len() == 0 || shell_words(line) == Some(Seq::<Seq<char>>::empty())
}

/// The line after alias expansion: when its first word names an alias, the
/// words, with that one replaced by the alias's value, joined by spaces.
pub open spec fn expand_alias(a: Seq<Entry>, line: Seq<char>) -> Seq<char> {
    match shell_words(line) {
        Some(ws) => if ws.len() > 0 && lookup(a, ws[0]) is Some {
            join_spaced(ws.update(0, lookup(a, ws[0])->Some_0))
        } else {
            line
        },
        None => line,
    }
}

/// The strings joined by single spaces.
fn join_strings(v: &Vec<String>) -> (r: String)
    ensures
        r@ == join_spaced(string_views(v@)),
{
    let ghost all = string_views(v@);
    let mut out = String::new();
    let mut i: usize = 0;
    while i < v.len()
        invariant
            i <= v@.len(),
            all == string_views(v@),
            out@ == join_spaced(all.subrange(0, i as int)),
        decreases v@.len() - i,
    {
        assert(all.subrange(0, i + 1).drop_last() =~= all.subrange(0, i as int));
        if i > 0 {
            out.append(" ");
        }
        out.append(v[i].as_str());
        i = i + 1;
    }
    assert(all.subrange(0, i as int) =~= all);
    out
}

/// Expands an alias in the first word of the line.
fn expand_alias_exec(core: &ShellCore, line: &str) -> (r: String)
    requires
        core.wf(),
    ensures
        r@ == expand_alias(core.aliases.entries(), line@),
{
    match split_words(line) {
        Some(ws) => {
            if ws.len() > 0 {
                match core.aliases.get(ws[0].as_str()) {
                    Some(v) => {
                        let mut parts = ws;
                        let ghost before = string_views(parts@);
                        parts.set(0, v.clone());
                        assert(string_views(parts@) =~= before.update(0, v@));
                        join_strings(&parts)
                    },
                    None => String::from_str(line),
                }
            } else {
                String::from_str(line)
            }
        },
        None => String::from_str(line),
    }
}

/// Starts running a command line: expands an alias, parses the line and
/// runs its stages as far as they run here. Without a run the returned
/// step is `Done`.
pub fn start_command(core: &mut ShellCore, line: &str) -> (r: (Option<PipelineRun>, Step))
    requires
        old(core).wf(),
    ensures
        final(core).wf(),
        final(core).current_dir == old(core).current_dir,
        is_blank(line@) ==> r.0 is None && step_view(&r.1) == StepView::Done(Seq::empty())
            && final(core).aliases.entries() == old(core).aliases.entries()
            && final(core).env_vars.entries() == old(core).env_vars.entries(),
        !is_blank(line@) ==> match parse_spec(expand_alias(old(core).aliases.entries(), line@)) {
            ParseOutcome::Parsed(stages, target) => {
                &&& r.0 is Some
                &&& r.0->Some_0.wf()
                &&& r.0->Some_0.stages() == stages
                &&& r.0->Some_0.target() == target
                &&& progress_of(final(core), &r.0->Some_0, &r.1) == advance_spec(
                    old(core).aliases.entries(),
                    old(core).env_vars.entries(),
                    stages,
                    target,
                    0,
                    Seq::empty(),
                )
            },
            o => {
                &&& r.0 is None
                &&& step_view(&r.1) == StepView::Done(parse_error_message(o))
                &&& final(core).aliases.entries() == old(core).aliases.entries()
                &&& final(core).env_vars.entries() == old(core).env_vars.entries()
            },
        },
{
    let t = trim_str(line);
    if t.unicode_len() == 0 {
        return (None, Step::Done(String::new()));
    }
    match split_words(line) {
        Some(ws) => {
            if ws.len() == 0 {
                assert(string_views(ws@) =~= Seq::<Seq<char>>::empty());
                return (None, Step::Done(String::new()));
            }
        },
        None => {},
    }
    let expanded = expand_alias_exec(core, line);
    match parse_line(expanded.as_str()) {
        Ok(p) => {
            let mut run = PipelineRun::new(p);
            let step = advance(core, &mut run);
            (Some(run), step)
        },
        Err(e) => (None, Step::Done(e.message())),
    }
}

} // verus!
