use vstd::prelude::*;

verus! {

/// An external program together with the arguments it is given.
pub struct Invocation {
    pub program: Seq<char>,
    pub args: Seq<Seq<char>>,
}

/// One finished run of an external program, as a runner saw it.
pub struct RunRecord {
    pub invocation: Invocation,
    pub succeeded: bool,
}

pub open spec fn invocation(program: Seq<char>, args: Seq<Seq<char>>) -> Invocation {
    Invocation { program, args }
}

pub open spec fn run_record(inv: Invocation, succeeded: bool) -> RunRecord {
    RunRecord { invocation: inv, succeeded }
}

/// `after` is `before` followed by the runs of a prefix of `plan`, made in order
/// and stopped at the first failure: every run but the last succeeded, and the
/// plan was cut short only by a failed run.
pub open spec fn ran_until_failure(
    before: Seq<RunRecord>,
    after: Seq<RunRecord>,
    plan: Seq<Invocation>,
) -> bool {
    let runs = after.skip(before.len() as int);
    &&& before.len() <= after.len()
    &&& after.take(before.len() as int) == before
    &&& 0 < runs.len() <= plan.len()
    &&& forall|i: int| 0 <= i < runs.len() ==> (#[trigger] runs[i]).invocation == plan[i]
    &&& forall|i: int| 0 <= i < runs.len() - 1 ==> (#[trigger] runs[i]).succeeded
    &&& runs.len() < plan.len() ==> !runs.last().succeeded
}

/// The runs that `after` adds to `before` cover the whole plan and all succeeded.
pub open spec fn completed(before: Seq<RunRecord>, after: Seq<RunRecord>, plan: Seq<Invocation>) -> bool {
    &&& after.len() == before.len() + plan.len()
    &&& forall|i: int| before.len() <= i < after.len() ==> (#[trigger] after[i]).succeeded
}

/// `after` is `before` followed by successful runs of the first `k` steps of `plan`.
pub open spec fn ran_steps(before: Seq<RunRecord>, after: Seq<RunRecord>, plan: Seq<Invocation>, k: int) -> bool {
    &&& 0 <= k <= plan.len()
    &&& after.len() == before.len() + k
    &&& after.take(before.len() as int) == before
    &&& forall|i: int|
        0 <= i < k ==> (#[trigger] after[before.len() + i]).invocation == plan[i]
            && after[before.len() + i].succeeded
}

/// Nothing of a plan has run yet.
pub proof fn lemma_no_steps(before: Seq<RunRecord>, plan: Seq<Invocation>)
    ensures
        ran_steps(before, before, plan, 0),
{
    assert(before.take(before.len() as int) =~= before);
}

/// The run of step `k`, after the earlier steps all succeeded, either lets the
/// plan go on, or ends it: by a failure, or as the last step.
pub proof fn lemma_next_step(
    before: Seq<RunRecord>,
    mid: Seq<RunRecord>,
    plan: Seq<Invocation>,
    k: int,
    rec: RunRecord,
)
    requires
        ran_steps(before, mid, plan, k),
        k < plan.len(),
        rec.invocation == plan[k],
    ensures
        rec.succeeded ==> ran_steps(before, mid.push(rec), plan, k + 1),
        (!rec.succeeded || k + 1 == plan.len()) ==> ran_until_failure(before, mid.push(rec), plan),
        completed(before, mid.push(rec), plan) <==> (rec.succeeded && k + 1 == plan.len()),
{
    let after = mid.push(rec);
    let runs = after.skip(before.len() as int);
    assert(after.take(before.len() as int) =~= before);
    assert forall|i: int| 0 <= i < k + 1 implies #[trigger] runs[i] == after[before.len() + i] by {}
    assert forall|i: int| 0 <= i < k implies (#[trigger] after[before.len() + i]) == mid[before.len() + i] by {}
    if completed(before, after, plan) {
        assert(after[before.len() + k].succeeded);
    }
    if rec.succeeded && k + 1 == plan.len() {
        assert forall|i: int| before.len() <= i < after.len() implies (#[trigger] after[i]).succeeded by {
            if i < mid.len() {
                assert(after[before.len() + (i - before.len())] == after[i]);
            }
        }
    }
}

/// The invocation of `snarkjs` with `args`.
pub open spec fn snarkjs(args: Seq<Seq<char>>) -> Invocation {
    invocation("snarkjs"@, args)
}

/// The text of each argument.
pub open spec fn arg_texts(args: Seq<&str>) -> Seq<Seq<char>> {
    args.map_values(|a: &str| a@)
}

/// Something that can run an external program and report whether it succeeded.
///
/// `history` is the sequence of every run made through the runner, oldest
/// first. It exists only for proofs; a runner that is not verified need not
/// define it, and nothing is proved of such a runner.
pub trait CommandRunner {
    closed spec fn history(&self) -> Seq<RunRecord> {
        Seq::empty()
    }

    /// Runs `command` with `args`. `Ok` when the program ran and exited successfully.
    fn run(&mut self, command: &str, args: &[&str]) -> (r: Result<(), String>)
        ensures
            final(self).history() == old(self).history().push(
                run_record(invocation(command@, arg_texts(args@)), r is Ok),
            ),
    ;
}

/// A runner that runs nothing: it records each request and reports success.
pub struct MockCommandRunner {
    calls: Vec<(String, Vec<String>)>,
}

impl View for MockCommandRunner {
    type V = Seq<(Seq<char>, Seq<Seq<char>>)>;

    closed spec fn view(&self) -> Self::V {
        self.calls.deep_view()
    }
}

impl MockCommandRunner {
    /// A runner that has recorded nothing yet.
    pub fn new() -> (r: Self)
        ensures
            r@ == Seq::<(Seq<char>, Seq<Seq<char>>)>::empty(),
    {
        let r = MockCommandRunner { calls: Vec::new() };
        assert(r@ =~= Seq::<(Seq<char>, Seq<Seq<char>>)>::empty());
        r
    }

    /// Each program and argument list requested so far, oldest first.
    pub fn calls(&self) -> (r: Vec<(String, Vec<String>)>)
        ensures
            r.deep_view() == self@,
    {
        let mut r: Vec<(String, Vec<String>)> = Vec::new();
        let mut i: usize = 0;
        while i < self.calls.len()
            invariant
                i <= self.calls@.len(),
                r@.len() == i,
                forall|j: int| 0 <= j < i ==> #[trigger] r@[j].deep_view() == self.calls@[j].deep_view(),
            decreases self.calls@.len() - i,
        {
            let args = copy_strings(&self.calls[i].1);
            r.push((self.calls[i].0.clone(), args));
            i = i + 1;
        }
        assert(r.deep_view() =~= self@);
        r
    }
}

/// A copy of `v`, string by string.
pub(crate) fn copy_strings(v: &Vec<String>) -> (r: Vec<String>)
    ensures
        r.deep_view() == v.deep_view(),
{
    let mut r: Vec<String> = Vec::new();
    let mut i: usize = 0;
    while i < v.len()
        invariant
            i <= v@.len(),
            r@.len() == i,
            forall|j: int| 0 <= j < i ==> #[trigger] r@[j]@ == v@[j]@,
        decreases v@.len() - i,
    {
        r.push(v[i].clone());
        i = i + 1;
    }
    assert(r.deep_view() =~= v.deep_view());
    r
}

/// Owned copies of `args`, in order.
pub(crate) fn owned_strings(args: &[&str]) -> (r: Vec<String>)
    ensures
        r.deep_view() == arg_texts(args@),
{
    let mut r: Vec<String> = Vec::new();
    let mut i: usize = 0;
    while i < args.len()
        invariant
            i <= args@.len(),
            r@.len() == i,
            forall|j: int| 0 <= j < i ==> #[trigger] r@[j]@ == args@[j]@,
        decreases args@.len() - i,
    {
        r.push(args[i].to_string());
        i = i + 1;
    }
    assert(r.deep_view() =~= arg_texts(args@));
    r
}

impl CommandRunner for MockCommandRunner {
    open spec fn history(&self) -> Seq<RunRecord> {
        self@.map_values(
            |c: (Seq<char>, Seq<Seq<char>>)| run_record(invocation(c.0, c.1), true),
        )
    }

    fn run(&mut self, command: &str, args: &[&str]) -> (r: Result<(), String>)
        ensures
            r is Ok,
            final(self)@ == old(self)@.push((command@, arg_texts(args@))),
    {
        let entry = (command.to_string(), owned_strings(args));
        self.calls.push(entry);
        assert(self@ =~= old(self)@.push((command@, arg_texts(args@))));
        assert(self.history() =~= old(self).history().push(
            run_record(invocation(command@, arg_texts(args@)), true),
        ));
        Ok(())
    }
}

#[verifier::external_type_specification]
#[verifier::external_body]
pub struct ExIoError(std::io::Error);

/// Relies on std::io::Error::new: wraps a message as an I/O error of kind `Other`.
#[verifier::external_body]
pub(crate) fn other_error(message: String) -> std::io::Error {
    std::io::Error::new(std::io::ErrorKind::Other, message)
}

/// Runs `snarkjs` with `args` through `runner`; a failure comes back as an I/O error.
pub fn run_snarkjs_command<R: CommandRunner>(runner: &mut R, args: &[&str]) -> (r: std::io::Result<()>)
    ensures
        final(runner).history() == old(runner).history().push(
            run_record(snarkjs(arg_texts(args@)), r is Ok),
        ),
{
    match runner.run("snarkjs", args) {
        Ok(()) => Ok(()),
        Err(e) => Err(other_error(e)),
    }
}

} // verus!
