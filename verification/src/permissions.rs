//! Tightening the permissions of a credential file: a fixed sequence of
//! access-control operations on one path, run one after another until one
//! fails, and the report of how it went.
//!
//! The sequence decides which operation is next and what the report says;
//! the caller runs each operation on its platform and hands back the outcome.

use vstd::prelude::*;
use vstd::string::StringExecFns;
use crate::text::{decimal, decimal_text};

verus! {

/// The text that `Debug` formatting gives for a list of strings: the strings
/// in double quotes, with escapes, between square brackets.
pub uninterp spec fn debug_text(args: Seq<Seq<char>>) -> Seq<char>;

/// Formats a list of strings by `format!("{:?}", ..)`, the `Debug` form of a
/// `Vec<String>`. Assumed, not proved: the result is `debug_text` of the
/// strings. That names the result and claims no more of it than that it
/// depends on the strings alone.
#[verifier::external_body]
fn debug_args(args: &Vec<String>) -> (r: String)
    ensures
        r@ == debug_text(args.deep_view()),
{
    format!("{:?}", args)
}

/// How one operation went.
#[derive(Debug)]
pub enum OpOutcome {
    /// The command ran and ended with this exit code, if it had one, and
    /// this captured output.
    Exited { code: Option<i32>, stdout: String, stderr: String },
    /// The command could not be started.
    NotStarted { error: String },
}

/// An outcome as a mathematical value.
pub enum OutcomeView {
    Exited { code: Option<i32>, stdout: Seq<char>, stderr: Seq<char> },
    NotStarted { error: Seq<char> },
}

impl View for OpOutcome {
    type V = OutcomeView;

    open spec fn view(&self) -> OutcomeView {
        match self {
            OpOutcome::Exited { code, stdout, stderr } => OutcomeView::Exited {
                code: *code,
                stdout: stdout@,
                stderr: stderr@,
            },
            OpOutcome::NotStarted { error } => OutcomeView::NotStarted { error: error@ },
        }
    }
}

impl OutcomeView {
    /// An operation succeeded when its command ran and ended with exit code
    /// zero.
    pub open spec fn succeeded(self) -> bool {
        match self {
            OutcomeView::Exited { code, .. } => code == Some(0i32),
            OutcomeView::NotStarted { .. } => false,
        }
    }
}

impl OpOutcome {
    /// Whether the operation succeeded.
    pub fn succeeded(&self) -> (r: bool)
        ensures
            r == self@.succeeded(),
    {
        match self {
            OpOutcome::Exited { code, .. } => match code {
                Some(c) => *c == 0,
                None => false,
            },
            OpOutcome::NotStarted { .. } => false,
        }
    }
}

/// The aggregate result of a sequence: its text, and the number of
/// operations that were attempted.
#[derive(Debug)]
pub struct Report {
    pub text: String,
    pub attempted: usize,
}

/// A report as a mathematical value.
pub struct ReportView {
    pub text: Seq<char>,
    pub attempted: nat,
}

impl View for Report {
    type V = ReportView;

    open spec fn view(&self) -> ReportView {
        ReportView { text: self.text@, attempted: self.attempted as nat }
    }
}

/// The view of an optional result.
pub open spec fn result_view(r: Option<Result<Report, Report>>) -> Option<
    Result<ReportView, ReportView>,
> {
    match r {
        Some(Ok(report)) => Some(Ok(report@)),
        Some(Err(report)) => Some(Err(report@)),
        None => None,
    }
}

/// How a command is shown: the program and its argument list, where `shown`
/// is the text of the list.
pub open spec fn command_text(program: Seq<char>, shown: Seq<char>) -> Seq<char> {
    program + " "@ + shown
}

/// A titled part of the captured output; nothing where the body is empty.
pub open spec fn section(title: Seq<char>, body: Seq<char>) -> Seq<char> {
    if body.len() > 0 {
        title + body + "\n"@
    } else {
        Seq::empty()
    }
}

/// What one attempted operation adds to the captured output: the command,
/// and what it wrote. A command that could not be started adds nothing.
pub open spec fn captured(program: Seq<char>, shown: Seq<char>, outcome: OutcomeView) -> Seq<char> {
    match outcome {
        OutcomeView::Exited { stdout, stderr, .. } => "> "@ + command_text(program, shown) + "\n"@
            + section("stdout:\n"@, stdout) + section("stderr:\n"@, stderr),
        OutcomeView::NotStarted { .. } => Seq::empty(),
    }
}

/// The exit code that is reported: the command's own, or -1 where it ended
/// without one.
pub open spec fn reported_code(code: Option<i32>) -> int {
    match code {
        Some(c) => c as int,
        None => -1,
    }
}

/// The first line of a failure report.
pub open spec fn failure_line(program: Seq<char>, shown: Seq<char>, outcome: OutcomeView) -> Seq<
    char,
> {
    match outcome {
        OutcomeView::Exited { code, .. } => "❌ "@ + command_text(program, shown)
            + " failed with code "@ + decimal(reported_code(code)),
        OutcomeView::NotStarted { error } => "❌ Failed to run "@ + command_text(program, shown)
            + ": "@ + error,
    }
}

/// The first line of a success report.
pub open spec fn success_line(path: Seq<char>) -> Seq<char> {
    "✔ Permissions fixed for "@ + path
}

/// The operations that tighten a file's access-control list: reset it, stop
/// inheritance, remove the grants to the broad built-in groups, and grant
/// read access to the user alone.
pub open spec fn acl_operations(user: Seq<char>) -> Seq<Seq<Seq<char>>> {
    seq![
        seq!["/reset"@],
        seq!["/inheritance:r"@],
        seq!["/remove"@, "NT AUTHORITY\\Authenticated Users"@],
        seq!["/remove"@, "BUILTIN\\Users"@],
        seq!["/remove"@, "Everyone"@],
        seq!["/grant:r"@, user + ":R"@],
    ]
}

/// The operation that tightens a file's mode bits: read access for the
/// owner, none for anyone else.
pub open spec fn mode_operations() -> Seq<Seq<Seq<char>>> {
    seq![seq!["400"@]]
}

/// A permission sequence as a mathematical value: the program, the path, the
/// operations, and the outcomes of those that were attempted, in order.
pub struct FixerView {
    pub program: Seq<char>,
    pub path: Seq<char>,
    pub operations: Seq<Seq<Seq<char>>>,
    pub attempted: Seq<OutcomeView>,
}

impl FixerView {
    /// No more operations were attempted than there are, and every one
    /// before the last attempted succeeded.
    pub open spec fn wf(self) -> bool {
        &&& self.attempted.len() <= self.operations.len()
        &&& forall|i: int| 0 <= i < self.attempted.len() - 1 ==> (#[trigger] self.attempted[i]).succeeded()
    }

    /// The sequence before its first operation.
    pub open spec fn starting(
        program: Seq<char>,
        path: Seq<char>,
        operations: Seq<Seq<Seq<char>>>,
    ) -> FixerView {
        FixerView { program, path, operations, attempted: Seq::empty() }
    }

    /// Whether the operation attempted last failed.
    pub open spec fn failed(self) -> bool {
        self.attempted.len() > 0 && !self.attempted.last().succeeded()
    }

    /// Whether the sequence is over: an operation failed, or all were
    /// attempted.
    pub open spec fn finished(self) -> bool {
        self.failed() || self.attempted.len() >= self.operations.len()
    }

    /// The operation to run next; none once the sequence is over.
    pub open spec fn next(self) -> Option<Seq<Seq<char>>> {
        if self.finished() {
            None
        } else {
            Some(self.operations[self.attempted.len() as int])
        }
    }

    /// The sequence after the outcome of the next operation. Once the
    /// sequence is over, an outcome changes nothing.
    pub open spec fn record(self, outcome: OutcomeView) -> FixerView {
        if self.finished() {
            self
        } else {
            FixerView { attempted: self.attempted.push(outcome), ..self }
        }
    }

    /// The captured output of the first `n` attempted operations.
    pub open spec fn output_of(self, n: nat) -> Seq<char>
        decreases n,
    {
        if n == 0 {
            Seq::empty()
        } else {
            self.output_of((n - 1) as nat) + captured(
                self.program,
                debug_text(self.operations[n - 1]),
                self.attempted[n - 1],
            )
        }
    }

    /// The captured output of every operation attempted so far.
    pub open spec fn output(self) -> Seq<char> {
        self.output_of(self.attempted.len())
    }

    /// The aggregate result, once the sequence is over. It is a failure where
    /// the operation attempted last failed, and a success where all
    /// operations were attempted and none failed. Either carries the output
    /// of every operation that was attempted.
    pub open spec fn result(self) -> Option<Result<ReportView, ReportView>> {
        let n = self.attempted.len();
        if self.failed() {
            Some(
                Err(
                    ReportView {
                        text: failure_line(
                            self.program,
                            debug_text(self.operations[n - 1]),
                            self.attempted[n - 1],
                        ) + "\n"@ + self.output(),
                        attempted: n,
                    },
                ),
            )
        } else if n >= self.operations.len() {
            Some(Ok(ReportView { text: success_line(self.path) + "\n"@ + self.output(), attempted: n }))
        } else {
            None
        }
    }
}

/// An operation that fails ends the sequence: no operation follows it,
/// further outcomes change nothing, and the result is a failure that counts
/// the failed operation among those attempted and carries the output
/// captured up to it.
pub proof fn lemma_failure_ends_sequence(f: FixerView, outcome: OutcomeView)
    requires
        f.wf(),
        !f.finished(),
        !outcome.succeeded(),
    ensures
        ({
            let g = f.record(outcome);
            &&& g.wf()
            &&& g.next() is None
            &&& forall|later: OutcomeView| g.record(later) == g
            &&& g.result() matches Some(Err(report))
            &&& report.attempted == f.attempted.len() + 1
            &&& report.text == failure_line(
                f.program,
                debug_text(f.operations[f.attempted.len() as int]),
                outcome,
            ) + "\n"@ + g.output()
            &&& g.output() == f.output() + captured(
                f.program,
                debug_text(f.operations[f.attempted.len() as int]),
                outcome,
            )
        }),
{
    let g = f.record(outcome);
    lemma_output_grows(f, outcome);
    assert(g.attempted.last() == outcome);
    assert forall|i: int| 0 <= i < g.attempted.len() - 1 implies (#[trigger] g.attempted[i]).succeeded() by {
        assert(g.attempted[i] == f.attempted[i]);
        if i == f.attempted.len() - 1 {
            assert(f.attempted[i] == f.attempted.last());
        }
    }
}

/// An operation that succeeds lets the sequence go on with the operation
/// after it, or ends it in success where it was the last.
pub proof fn lemma_success_goes_on(f: FixerView, outcome: OutcomeView)
    requires
        f.wf(),
        !f.finished(),
        outcome.succeeded(),
    ensures
        ({
            let g = f.record(outcome);
            let n = f.attempted.len();
            &&& g.wf()
            &&& g.output() == f.output() + captured(
                f.program,
                debug_text(f.operations[n as int]),
                outcome,
            )
            &&& n + 1 < f.operations.len() ==> g.next() == Some(f.operations[n as int + 1])
                && g.result() is None
            &&& n + 1 == f.operations.len() ==> g.next() is None && g.result() == Some(
                Ok::<ReportView, ReportView>(
                    ReportView {
                        text: success_line(f.path) + "\n"@ + g.output(),
                        attempted: n + 1,
                    },
                ),
            )
        }),
{
    let g = f.record(outcome);
    lemma_output_grows(f, outcome);
    assert(g.attempted.last() == outcome);
    assert forall|i: int| 0 <= i < g.attempted.len() - 1 implies (#[trigger] g.attempted[i]).succeeded() by {
        assert(g.attempted[i] == f.attempted[i]);
        if i == f.attempted.len() - 1 {
            assert(f.attempted[i] == f.attempted.last());
        }
    }
}

/// The output captured so far does not depend on what is attempted later.
proof fn lemma_output_prefix(f: FixerView, outcome: OutcomeView, n: nat)
    requires
        n <= f.attempted.len(),
    ensures
        (FixerView { attempted: f.attempted.push(outcome), ..f }).output_of(n) == f.output_of(n),
    decreases n,
{
    if n > 0 {
        lemma_output_prefix(f, outcome, (n - 1) as nat);
    }
}

/// Recording an outcome adds what it captured to the output.
proof fn lemma_output_grows(f: FixerView, outcome: OutcomeView)
    requires
        !f.finished(),
    ensures
        f.record(outcome).output() == f.output() + captured(
            f.program,
            debug_text(f.operations[f.attempted.len() as int]),
            outcome,
        ),
{
    lemma_output_prefix(f, outcome, f.attempted.len());
}

/// The outcomes of a list, as mathematical values.
pub open spec fn outcome_views(outcomes: Seq<OpOutcome>) -> Seq<OutcomeView> {
    Seq::new(outcomes.len(), |i: int| outcomes[i]@)
}

/// A permission sequence on one path.
pub struct PermissionFixer {
    program: String,
    path: String,
    operations: Vec<Vec<String>>,
    attempted: Vec<OpOutcome>,
}

impl View for PermissionFixer {
    type V = FixerView;

    closed spec fn view(&self) -> FixerView {
        FixerView {
            program: self.program@,
            path: self.path@,
            operations: self.operations.deep_view(),
            attempted: outcome_views(self.attempted@),
        }
    }
}

/// A list of one argument.
fn one_argument(a: &str) -> (r: Vec<String>)
    ensures
        r.deep_view() == seq![a@],
{
    let mut r: Vec<String> = Vec::new();
    r.push(a.to_owned());
    assert(r.deep_view() =~= seq![a@]);
    r
}

/// A list of two arguments.
fn two_arguments(a: &str, b: &str) -> (r: Vec<String>)
    ensures
        r.deep_view() == seq![a@, b@],
{
    let mut r: Vec<String> = Vec::new();
    r.push(a.to_owned());
    r.push(b.to_owned());
    assert(r.deep_view() =~= seq![a@, b@]);
    r
}

/// Appends a titled part of the captured output.
fn push_section(out: &mut String, title: &str, body: &str)
    ensures
        final(out)@ == old(out)@ + section(title@, body@),
{
    if !body.is_empty() {
        out.append(title);
        out.append(body);
        out.append("\n");
        assert(out@ =~= old(out)@ + (title@ + body@ + "\n"@));
    } else {
        assert(old(out)@ + Seq::<char>::empty() =~= old(out)@);
    }
}

/// Appends how a command is shown, where `shown` is the text of its
/// argument list.
fn push_command(out: &mut String, program: &str, shown: &str)
    ensures
        final(out)@ == old(out)@ + command_text(program@, shown@),
{
    out.append(program);
    out.append(" ");
    out.append(shown);
    assert(out@ =~= old(out)@ + command_text(program@, shown@));
}

/// What one attempted operation adds to the captured output, where `shown` is
/// the text of its argument list.
pub fn captured_text(program: &str, shown: &str, outcome: &OpOutcome) -> (out: String)
    ensures
        out@ == captured(program@, shown@, outcome@),
{
    let mut out = String::new();
    match outcome {
        OpOutcome::Exited { stdout, stderr, .. } => {
            out.append("> ");
            push_command(&mut out, program, shown);
            out.append("\n");
            push_section(&mut out, "stdout:\n", stdout.as_str());
            push_section(&mut out, "stderr:\n", stderr.as_str());
            assert(out@ =~= captured(program@, shown@, outcome@));
        },
        OpOutcome::NotStarted { .. } => {},
    }
    out
}

/// The first line of the report of a failed operation, where `shown` is the
/// text of its argument list.
pub fn failure_text(program: &str, shown: &str, outcome: &OpOutcome) -> (out: String)
    ensures
        out@ == failure_line(program@, shown@, outcome@),
{
    let mut out = String::new();
    match outcome {
        OpOutcome::Exited { code, .. } => {
            let reported = match code {
                Some(c) => *c,
                None => -1,
            };
            out.append("❌ ");
            push_command(&mut out, program, shown);
            out.append(" failed with code ");
            out.append(decimal_text(reported).as_str());
        },
        OpOutcome::NotStarted { error } => {
            out.append("❌ Failed to run ");
            push_command(&mut out, program, shown);
            out.append(": ");
            out.append(error.as_str());
        },
    }
    assert(out@ =~= failure_line(program@, shown@, outcome@));
    out
}

/// The first line of the report of a sequence that succeeded.
pub fn success_text(path: &str) -> (out: String)
    ensures
        out@ == success_line(path@),
{
    let mut out = "✔ Permissions fixed for ".to_owned();
    out.append(path);
    out
}

impl PermissionFixer {
    /// A sequence of the given operations on `path`, each an argument list
    /// for `program`.
    pub fn new(program: String, path: String, operations: Vec<Vec<String>>) -> (f: PermissionFixer)
        ensures
            f@ == FixerView::starting(program@, path@, operations.deep_view()),
            f@.wf(),
    {
        let f = PermissionFixer { program, path, operations, attempted: Vec::new() };
        assert(outcome_views(f.attempted@) =~= Seq::<OutcomeView>::empty());
        f
    }

    /// The sequence that tightens the access-control list of `path` with
    /// `icacls`, granting read access to `user` alone.
    pub fn acl(path: String, user: &str) -> (f: PermissionFixer)
        ensures
            f@ == FixerView::starting("icacls"@, path@, acl_operations(user@)),
            f@.wf(),
    {
        let mut grant = user.to_owned();
        grant.append(":R");
        let mut operations: Vec<Vec<String>> = Vec::new();
        operations.push(one_argument("/reset"));
        operations.push(one_argument("/inheritance:r"));
        operations.push(two_arguments("/remove", "NT AUTHORITY\\Authenticated Users"));
        operations.push(two_arguments("/remove", "BUILTIN\\Users"));
        operations.push(two_arguments("/remove", "Everyone"));
        operations.push(two_arguments("/grant:r", grant.as_str()));
        assert(operations.deep_view() =~= acl_operations(user@));
        PermissionFixer::new("icacls".to_owned(), path, operations)
    }

    /// The sequence that tightens the mode bits of `path` with `chmod`.
    pub fn mode_bits(path: String) -> (f: PermissionFixer)
        ensures
            f@ == FixerView::starting("chmod"@, path@, mode_operations()),
            f@.wf(),
    {
        let mut operations: Vec<Vec<String>> = Vec::new();
        operations.push(one_argument("400"));
        assert(operations.deep_view() =~= mode_operations());
        PermissionFixer::new("chmod".to_owned(), path, operations)
    }

    /// The program that the operations are arguments for.
    pub fn program(&self) -> (r: &String)
        ensures
            r@ == self@.program,
    {
        &self.program
    }

    /// The path that the operations act on.
    pub fn path(&self) -> (r: &String)
        ensures
            r@ == self@.path,
    {
        &self.path
    }

    /// The number of operations attempted so far.
    pub fn attempted(&self) -> (n: usize)
        ensures
            n == self@.attempted.len(),
    {
        self.attempted.len()
    }

    /// Whether the sequence is over.
    pub fn is_finished(&self) -> (r: bool)
        requires
            self@.wf(),
        ensures
            r == self@.finished(),
    {
        let n = self.attempted.len();
        if n > 0 && !self.attempted[n - 1].succeeded() {
            assert(outcome_views(self.attempted@).last() == self.attempted[n - 1]@);
            true
        } else {
            n >= self.operations.len()
        }
    }

    /// The arguments of the operation to run next; `None` once the sequence
    /// is over.
    pub fn next_operation(&self) -> (r: Option<&Vec<String>>)
        requires
            self@.wf(),
        ensures
            match r {
                Some(args) => self@.next() == Some(args.deep_view()),
                None => self@.next() is None,
            },
    {
        if self.is_finished() {
            None
        } else {
            Some(&self.operations[self.attempted.len()])
        }
    }

    /// Takes the outcome of the operation that `next_operation` gave. Once
    /// the sequence is over, an outcome changes nothing.
    pub fn record(&mut self, outcome: OpOutcome)
        requires
            old(self)@.wf(),
        ensures
            final(self)@.wf(),
            final(self)@ == old(self)@.record(outcome@),
    {
        if !self.is_finished() {
            proof {
                let before = outcome_views(self.attempted@);
                assert(outcome_views(self.attempted@.push(outcome)) =~= before.push(outcome@));
                assert forall|i: int| 0 <= i < before.len() implies (#[trigger] before.push(
                    outcome@,
                )[i]).succeeded() by {
                    assert(before.push(outcome@)[i] == before[i]);
                    if i == before.len() - 1 {
                        assert(before[i] == before.last());
                    }
                }
            }
            self.attempted.push(outcome);
        }
    }

    /// The captured output of every operation attempted so far.
    pub fn output(&self) -> (out: String)
        requires
            self@.wf(),
        ensures
            out@ == self@.output(),
    {
        let mut out = String::new();
        let mut i: usize = 0;
        while i < self.attempted.len()
            invariant
                i <= self.attempted.len(),
                self@.wf(),
                out@ == self@.output_of(i as nat),
            decreases self.attempted.len() - i,
        {
            assert(outcome_views(self.attempted@)[i as int] == self.attempted[i as int]@);
            let shown = debug_args(&self.operations[i]);
            let part = captured_text(self.program.as_str(), shown.as_str(), &self.attempted[i]);
            out.append(part.as_str());
            i += 1;
        }
        out
    }

    /// The aggregate result; `None` while the sequence is not over.
    pub fn result(&self) -> (r: Option<Result<Report, Report>>)
        requires
            self@.wf(),
        ensures
            result_view(r) == self@.result(),
    {
        let n = self.attempted.len();
        if n > 0 && !self.attempted[n - 1].succeeded() {
            assert(outcome_views(self.attempted@).last() == self.attempted[n - 1]@);
            let shown = debug_args(&self.operations[n - 1]);
            let mut text = failure_text(
                self.program.as_str(),
                shown.as_str(),
                &self.attempted[n - 1],
            );
            text.append("\n");
            text.append(self.output().as_str());
            Some(Err(Report { text, attempted: n }))
        } else if n >= self.operations.len() {
            let mut text = success_text(self.path.as_str());
            text.append("\n");
            text.append(self.output().as_str());
            Some(Ok(Report { text, attempted: n }))
        } else {
            None
        }
    }
}

} // verus!
