//! Programs that are to be run, and what comes of running them.

use crate::text;
use vstd::prelude::*;

verus! {

/// A program to run.
#[derive(Debug)]
pub enum Run {
    /// A program with its arguments.
    Program { program: String, args: Vec<String> },
    /// A line for a login shell.
    Shell(String),
}

/// A program to run as part of something larger. Unless it is `required`, nothing
/// depends on whether it succeeds.
#[derive(Debug)]
pub struct Step {
    pub run: Run,
    pub required: bool,
}

/// What came of running a program.
#[derive(Debug)]
pub enum Ran {
    /// It could not be started.
    NotStarted,
    /// It ended; `status` is what the system says of how.
    Ended { success: bool, status: String },
}

#[verifier::ext_equal]
pub enum RunView {
    Program { program: Seq<char>, args: Seq<Seq<char>> },
    Shell(Seq<char>),
}

#[verifier::ext_equal]
pub struct StepView {
    pub run: RunView,
    pub required: bool,
}

impl View for Run {
    type V = RunView;

    open spec fn view(&self) -> RunView {
        match self {
            Run::Program { program, args } => RunView::Program {
                program: program@,
                args: text::texts(args@),
            },
            Run::Shell(s) => RunView::Shell(s@),
        }
    }
}

impl View for Step {
    type V = StepView;

    open spec fn view(&self) -> StepView {
        StepView { run: self.run@, required: self.required }
    }
}

/// Several programs.
pub open spec fn runs(v: Seq<Run>) -> Seq<RunView> {
    v.map_values(|r: Run| r@)
}

/// Several steps.
pub open spec fn steps(v: Seq<Step>) -> Seq<StepView> {
    v.map_values(|s: Step| s@)
}

/// A step that has to succeed.
pub open spec fn must(run: RunView) -> StepView {
    StepView { run, required: true }
}

/// A step that may fail.
pub open spec fn may(run: RunView) -> StepView {
    StepView { run, required: false }
}

/// What is said of a program after it was run.
pub open spec fn run_outcome(run: RunView, ran: Ran) -> Result<(), Seq<char>> {
    match (run, ran) {
        (RunView::Shell(line), Ran::NotStarted) => Err("failed to run `"@ + line + "`"@),
        (RunView::Program { program, args }, Ran::NotStarted) => Err("failed to run "@ + program),
        (RunView::Shell(line), Ran::Ended { success, status }) => if success {
            Ok(())
        } else {
            Err("command failed: "@ + line)
        },
        (RunView::Program { program, args }, Ran::Ended { success, status }) => if success {
            Ok(())
        } else {
            Err(program + " failed with status "@ + status@)
        },
    }
}

/// What is said of a program after it was run.
pub fn check_run(run: &Run, ran: &Ran) -> (r: Result<(), String>)
    ensures
        text::unit_outcome(r) == run_outcome(run@, *ran),
{
    match (run, ran) {
        (Run::Shell(line), Ran::NotStarted) => Err(
            "failed to run `".to_owned().concat(line.as_str()).concat("`"),
        ),
        (Run::Program { program, args }, Ran::NotStarted) => Err(
            "failed to run ".to_owned().concat(program.as_str()),
        ),
        (Run::Shell(line), Ran::Ended { success, status }) => if *success {
            Ok(())
        } else {
            Err("command failed: ".to_owned().concat(line.as_str()))
        },
        (Run::Program { program, args }, Ran::Ended { success, status }) => if *success {
            Ok(())
        } else {
            Err(program.clone().concat(" failed with status ").concat(status.as_str()))
        },
    }
}

/// What is said of a step after it was run: a step that is not required never fails.
pub open spec fn step_outcome(step: StepView, ran: Ran) -> Result<(), Seq<char>> {
    if step.required {
        run_outcome(step.run, ran)
    } else {
        Ok(())
    }
}

/// What is said of a step after it was run.
pub fn check_step(step: &Step, ran: &Ran) -> (r: Result<(), String>)
    ensures
        text::unit_outcome(r) == step_outcome(step@, *ran),
{
    if step.required {
        check_run(&step.run, ran)
    } else {
        Ok(())
    }
}

// ---------------------------------------------------------------------------
// One step after the other.

/// What is to be done next where steps are taken one after the other.
#[derive(Debug)]
pub enum NextStep {
    /// Run the step with this number.
    Run(usize),
    /// Nothing: all steps were run, and none failed.
    Finished,
    /// Nothing: a step failed, of which this is said.
    Failed(String),
}

#[verifier::ext_equal]
pub enum NextView {
    Run(int),
    Finished,
    Failed(Seq<char>),
}

impl View for NextStep {
    type V = NextView;

    open spec fn view(&self) -> NextView {
        match self {
            NextStep::Run(i) => NextView::Run(*i as int),
            NextStep::Finished => NextView::Finished,
            NextStep::Failed(e) => NextView::Failed(e@),
        }
    }
}

/// What is said of the first of these steps that failed.
pub open spec fn first_failure(steps: Seq<StepView>, ran: Seq<Ran>) -> Option<Seq<char>>
    decreases ran.len(),
{
    if steps.len() == 0 || ran.len() == 0 {
        None
    } else {
        match step_outcome(steps[0], ran[0]) {
            Err(e) => Some(e),
            Ok(_) => first_failure(steps.skip(1), ran.skip(1)),
        }
    }
}

/// What is to be done next, where `ran` is what came of the first of these steps: after
/// a step that failed nothing, else the first step that was not run.
pub open spec fn next_of(steps: Seq<StepView>, ran: Seq<Ran>) -> NextView {
    match first_failure(steps, ran) {
        Some(e) => NextView::Failed(e),
        None => if ran.len() < steps.len() {
            NextView::Run(ran.len() as int)
        } else {
            NextView::Finished
        },
    }
}

/// Finds out what is to be done next, where `ran` is what came of the first of these
/// steps.
pub fn next_step(steps: &Vec<Step>, ran: &Vec<Ran>) -> (r: NextStep)
    ensures
        r@ == next_of(self::steps(steps@), ran@),
{
    let ghost all = self::steps(steps@);
    let mut i: usize = 0;
    proof {
        assert(all.skip(0) == all);
        assert(ran@.skip(0) == ran@);
    }
    while i < steps.len() && i < ran.len()
        invariant
            i <= steps.len(),
            i <= ran.len(),
            all == self::steps(steps@),
            first_failure(all, ran@) == first_failure(all.skip(i as int), ran@.skip(i as int)),
        decreases steps.len() - i,
    {
        proof {
            assert(all.skip(i as int)[0] == steps@[i as int]@);
            assert(ran@.skip(i as int)[0] == ran@[i as int]);
            assert(all.skip(i as int).skip(1) =~= all.skip(i + 1));
            assert(ran@.skip(i as int).skip(1) =~= ran@.skip(i + 1));
        }
        if let Err(e) = check_step(&steps[i], &ran[i]) {
            return NextStep::Failed(e);
        }
        i += 1;
    }
    if ran.len() < steps.len() {
        NextStep::Run(ran.len())
    } else {
        NextStep::Finished
    }
}

/// Programs each of which has to succeed.
pub open spec fn all_must(runs: Seq<RunView>) -> Seq<StepView> {
    runs.map_values(|r: RunView| must(r))
}

/// Finds out what is to be done next, where `ran` is what came of the first of these
/// programs, each of which has to succeed.
pub fn next_run(runs: &Vec<Run>, ran: &Vec<Ran>) -> (r: NextStep)
    ensures
        r@ == next_of(all_must(self::runs(runs@)), ran@),
{
    let ghost all = all_must(self::runs(runs@));
    let mut i: usize = 0;
    proof {
        assert(all.skip(0) == all);
        assert(ran@.skip(0) == ran@);
    }
    while i < runs.len() && i < ran.len()
        invariant
            i <= runs.len(),
            i <= ran.len(),
            all == all_must(self::runs(runs@)),
            first_failure(all, ran@) == first_failure(all.skip(i as int), ran@.skip(i as int)),
        decreases runs.len() - i,
    {
        proof {
            assert(all.skip(i as int)[0] == must(runs@[i as int]@));
            assert(ran@.skip(i as int)[0] == ran@[i as int]);
            assert(all.skip(i as int).skip(1) =~= all.skip(i + 1));
            assert(ran@.skip(i as int).skip(1) =~= ran@.skip(i + 1));
        }
        if let Err(e) = check_run(&runs[i], &ran[i]) {
            return NextStep::Failed(e);
        }
        i += 1;
    }
    if ran.len() < runs.len() {
        NextStep::Run(ran.len())
    } else {
        NextStep::Finished
    }
}

proof fn lemma_first_failure(steps: Seq<StepView>, ran: Seq<Ran>, i: int)
    requires
        0 <= i < steps.len(),
        i < ran.len(),
        step_outcome(steps[i], ran[i]) is Err,
        forall|j: int| 0 <= j < i ==> step_outcome(#[trigger] steps[j], ran[j]) is Ok,
    ensures
        first_failure(steps, ran) == Some(step_outcome(steps[i], ran[i])->Err_0),
    decreases i,
{
    if i > 0 {
        assert(step_outcome(steps[0], ran[0]) is Ok);
        let (s, t) = (steps.skip(1), ran.skip(1));
        assert forall|j: int| 0 <= j < i - 1 implies step_outcome(#[trigger] s[j], t[j]) is Ok by {
            assert(step_outcome(steps[j + 1], ran[j + 1]) is Ok);
        }
        assert(s[i - 1] == steps[i] && t[i - 1] == ran[i]);
        lemma_first_failure(s, t, i - 1);
    }
}

proof fn lemma_no_failure(steps: Seq<StepView>, ran: Seq<Ran>)
    requires
        forall|j: int|
            0 <= j < steps.len() && j < ran.len() ==> step_outcome(#[trigger] steps[j], ran[j]) is Ok,
    ensures
        first_failure(steps, ran) is None,
    decreases ran.len(),
{
    if steps.len() > 0 && ran.len() > 0 {
        assert(step_outcome(steps[0], ran[0]) is Ok);
        let (s, t) = (steps.skip(1), ran.skip(1));
        assert forall|j: int| 0 <= j < s.len() && j < t.len() implies step_outcome(
            #[trigger] s[j],
            t[j],
        ) is Ok by {
            assert(step_outcome(steps[j + 1], ran[j + 1]) is Ok);
        }
        lemma_no_failure(s, t);
    }
}

/// The first step that fails ends it all: what is said is said of that step, and nothing
/// is run after it.
pub proof fn law_a_failed_step_ends_it(steps: Seq<StepView>, ran: Seq<Ran>, i: int)
    requires
        0 <= i < steps.len(),
        i < ran.len(),
        step_outcome(steps[i], ran[i]) is Err,
        forall|j: int| 0 <= j < i ==> step_outcome(#[trigger] steps[j], ran[j]) is Ok,
    ensures
        next_of(steps, ran) == NextView::Failed(step_outcome(steps[i], ran[i])->Err_0),
{
    lemma_first_failure(steps, ran, i);
}

/// While no step fails, they are run one after the other up to the last.
pub proof fn law_steps_are_run_in_order(steps: Seq<StepView>, ran: Seq<Ran>)
    requires
        ran.len() <= steps.len(),
        forall|j: int| 0 <= j < ran.len() ==> step_outcome(#[trigger] steps[j], ran[j]) is Ok,
    ensures
        next_of(steps, ran) == (if ran.len() < steps.len() {
            NextView::Run(ran.len() as int)
        } else {
            NextView::Finished
        }),
{
    lemma_no_failure(steps, ran);
}

/// A program with two arguments.
pub fn program2(program: &str, a: &str, b: &str) -> (r: Run)
    ensures
        r@ == (RunView::Program { program: program@, args: seq![a@, b@] }),
{
    let args = vec![a.to_owned(), b.to_owned()];
    proof {
        assert(text::texts(args@) == seq![a@, b@]);
    }
    Run::Program { program: program.to_owned(), args }
}

/// A program with three arguments.
pub fn program3(program: &str, a: &str, b: &str, c: &str) -> (r: Run)
    ensures
        r@ == (RunView::Program { program: program@, args: seq![a@, b@, c@] }),
{
    let args = vec![a.to_owned(), b.to_owned(), c.to_owned()];
    proof {
        assert(text::texts(args@) == seq![a@, b@, c@]);
    }
    Run::Program { program: program.to_owned(), args }
}

/// A program with four arguments.
pub fn program4(program: &str, a: &str, b: &str, c: &str, d: &str) -> (r: Run)
    ensures
        r@ == (RunView::Program { program: program@, args: seq![a@, b@, c@, d@] }),
{
    let args = vec![a.to_owned(), b.to_owned(), c.to_owned(), d.to_owned()];
    proof {
        assert(text::texts(args@) == seq![a@, b@, c@, d@]);
    }
    Run::Program { program: program.to_owned(), args }
}

// ---------------------------------------------------------------------------
// Quoting for a shell.

/// A string in single quotes, as a shell reads it.
pub open spec fn quoted(s: Seq<char>) -> Seq<char> {
    "'"@ + text::replaced(s, '\'', "'\\''"@) + "'"@
}

/// The word that a shell reads from `s`, if it consists of text in single quotes
/// and characters behind a backslash only. `inside` says whether reading starts
/// between quotes.
pub open spec fn shell_word(s: Seq<char>, inside: bool) -> Option<Seq<char>>
    decreases s.len(),
{
    if s.len() == 0 {
        if inside {
            None
        } else {
            Some(Seq::empty())
        }
    } else if inside {
        if s[0] == '\'' {
            shell_word(s.skip(1), false)
        } else {
            prepend(seq![s[0]], shell_word(s.skip(1), true))
        }
    } else if s[0] == '\'' {
        shell_word(s.skip(1), true)
    } else if s[0] == '\\' && s.len() >= 2 {
        prepend(seq![s[1]], shell_word(s.skip(2), false))
    } else {
        None
    }
}

/// What was read, with `a` before it.
pub open spec fn prepend(a: Seq<char>, r: Option<Seq<char>>) -> Option<Seq<char>> {
    match r {
        Some(s) => Some(a + s),
        None => None,
    }
}

proof fn lemma_read_replaced(s: Seq<char>, rest: Seq<char>)
    ensures
        shell_word(text::replaced(s, '\'', "'\\''"@) + rest, true) == prepend(
            s,
            shell_word(rest, true),
        ),
    decreases s.len(),
{
    let esc = "'\\''"@;
    reveal_strlit("'\\''");
    let all = text::replaced(s, '\'', esc);
    if s.len() == 0 {
        assert(all + rest == rest);
        if shell_word(rest, true) is Some {
            let w = shell_word(rest, true)->Some_0;
            assert(s + w == w);
        }
    } else {
        let p = s.drop_last();
        let c = s.last();
        let piece = if c == '\'' {
            esc
        } else {
            seq![c]
        };
        let tail = piece + rest;
        assert(all + rest == text::replaced(p, '\'', esc) + tail);
        lemma_read_replaced(p, tail);
        if c == '\'' {
            let t1 = tail.skip(1);
            let t2 = t1.skip(2);
            assert(tail[0] == '\'');
            assert(t1[0] == '\\');
            assert(t1[1] == '\'');
            assert(t2[0] == '\'');
            assert(t2.skip(1) == rest);
            assert(shell_word(t2, false) == shell_word(rest, true));
            assert(shell_word(t1, false) == prepend(seq!['\''], shell_word(t2, false)));
            assert(shell_word(tail, true) == prepend(seq![c], shell_word(rest, true)));
        } else {
            assert(tail[0] == c);
            assert(tail.skip(1) == rest);
        }
        if shell_word(rest, true) is Some {
            let w = shell_word(rest, true)->Some_0;
            assert(p + (seq![c] + w) == s + w);
        }
    }
}

/// A shell reads a quoted string back as one word, whatever the string holds.
pub proof fn law_quoted_is_one_word(s: Seq<char>)
    ensures
        shell_word(quoted(s), false) == Some(s),
{
    reveal_strlit("'");
    let body = text::replaced(s, '\'', "'\\''"@);
    let q = quoted(s);
    assert(q[0] == '\'');
    assert(q.skip(1) == body + "'"@);
    lemma_read_replaced(s, "'"@);
    let end = "'"@;
    assert(end.skip(1) == Seq::<char>::empty());
    assert(shell_word(end.skip(1), false) == Some(Seq::<char>::empty()));
    assert(end[0] == '\'');
    assert(shell_word(end, true) == Some(Seq::<char>::empty()));
    assert(s + Seq::<char>::empty() == s);
}

/// The string in single quotes, as a shell reads it.
pub fn shell_escape_arg(value: &str) -> (r: String)
    ensures
        r@ == quoted(value@),
{
    "'".to_owned().concat(text::replace_char(value, '\'', "'\\''").as_str()).concat("'")
}

/// An assignment of a string to an environment variable.
pub fn shell_escape_env(name: &str, value: &str) -> (r: String)
    ensures
        r@ == name@ + "="@ + quoted(value@),
{
    name.to_owned().concat("=").concat(shell_escape_arg(value).as_str())
}

/// The string in single quotes, as a shell reads it.
pub fn shell_quote(value: &str) -> (r: String)
    ensures
        r@ == quoted(value@),
{
    if value.is_empty() {
        proof {
            reveal_strlit("''");
            reveal_strlit("'");
            assert(quoted(value@) =~= "''"@);
        }
        return "''".to_owned();
    }
    shell_escape_arg(value)
}

} // verus!
