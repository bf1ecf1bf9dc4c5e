//! Branch publisher: the decision logic of the publish sequence. Six git
//! commands run in a fixed order, each only after all earlier ones succeeded;
//! after the last, the local metadata directory is removed. The first failure
//! aborts everything that follows, with no rollback. The caller performs each
//! action and reports its outcome back.

use vstd::prelude::*;

verus! {

use vstd::string::StringExecFns;

/// Number of git commands in the publish sequence.
pub const GIT_STEPS: u8 = 6;

/// The arguments of the `i`-th git command of the publish sequence.
pub open spec fn git_command(i: int, remote: Seq<char>, branch: Seq<char>) -> Seq<Seq<char>> {
    if i == 0 {
        seq!["init"@]
    } else if i == 1 {
        seq!["remote"@, "add"@, "origin"@, remote]
    } else if i == 2 {
        seq!["add"@, "."@]
    } else if i == 3 {
        seq!["commit"@, "-am"@, "Update "@ + branch]
    } else if i == 4 {
        seq!["branch"@, branch]
    } else {
        seq!["push"@, "-uf"@, "origin"@, branch]
    }
}

/// Builds the argument list of the `i`-th git command.
pub fn git_command_args(i: u8, remote: &str, branch: &str) -> (r: Vec<String>)
    requires
        i < GIT_STEPS,
    ensures
        r.deep_view() == git_command(i as int, remote@, branch@),
{
    let mut v: Vec<String> = Vec::new();
    if i == 0 {
        v.push("init".to_owned());
    } else if i == 1 {
        v.push("remote".to_owned());
        v.push("add".to_owned());
        v.push("origin".to_owned());
        v.push(remote.to_owned());
    } else if i == 2 {
        v.push("add".to_owned());
        v.push(".".to_owned());
    } else if i == 3 {
        let mut msg = "Update ".to_owned();
        msg.append(branch);
        v.push("commit".to_owned());
        v.push("-am".to_owned());
        v.push(msg);
    } else if i == 4 {
        v.push("branch".to_owned());
        v.push(branch.to_owned());
    } else {
        v.push("push".to_owned());
        v.push("-uf".to_owned());
        v.push("origin".to_owned());
        v.push(branch.to_owned());
    }
    proof {
        assert(v.deep_view() =~~= git_command(i as int, remote@, branch@));
    }
    v
}

/// What the caller must do next.
pub enum PublishAction {
    /// Run git in the publish directory with these arguments.
    RunGit(Vec<String>),
    /// All git commands succeeded: remove the local metadata directory.
    RemoveMetadata,
    /// Everything, cleanup included, succeeded: stop.
    Done,
    /// A step failed: stop; nothing further may run.
    Aborted,
}

/// The publish sequence's state: how many steps have succeeded, and whether
/// one has failed.
#[derive(Clone, Copy, Debug, PartialEq, Eq, Structural)]
pub struct Publisher {
    /// Steps completed so far: positions `0` to `5` are the git commands,
    /// `6` is the metadata cleanup, `7` means everything is done.
    pub pos: u8,
    /// A step has failed; the sequence is abandoned.
    pub failed: bool,
}

/// The state before any step has run.
pub open spec fn initial_publisher() -> Publisher {
    Publisher { pos: 0, failed: false }
}

/// The state after one recorded outcome: a failure is permanent, a success
/// advances the position.
pub open spec fn step_spec(p: Publisher, ok: bool) -> Publisher {
    if p.failed {
        p
    } else if !ok {
        Publisher { pos: p.pos, failed: true }
    } else if p.pos < 7 {
        Publisher { pos: (p.pos + 1) as u8, failed: false }
    } else {
        p
    }
}

/// The state after a whole sequence of recorded outcomes.
pub open spec fn run_steps(p: Publisher, results: Seq<bool>) -> Publisher
    decreases results.len(),
{
    if results.len() == 0 {
        p
    } else {
        run_steps(step_spec(p, results[0]), results.drop_first())
    }
}

impl Publisher {
    /// A publisher that has run nothing yet.
    pub fn new() -> (p: Publisher)
        ensures
            p == initial_publisher(),
    {
        Publisher { pos: 0, failed: false }
    }

    /// The next action of the sequence: the current git command, then the
    /// metadata cleanup, then done — or nothing at all after a failure.
    pub fn next_action(&self, remote: &str, branch: &str) -> (a: PublishAction)
        ensures
            self.failed ==> a is Aborted,
            !self.failed && self.pos < 6 ==> (a matches PublishAction::RunGit(args)
                && args.deep_view() == git_command(self.pos as int, remote@, branch@)),
            !self.failed && self.pos == 6 ==> a is RemoveMetadata,
            !self.failed && self.pos > 6 ==> a is Done,
    {
        if self.failed {
            PublishAction::Aborted
        } else if self.pos < GIT_STEPS {
            PublishAction::RunGit(git_command_args(self.pos, remote, branch))
        } else if self.pos == GIT_STEPS {
            PublishAction::RemoveMetadata
        } else {
            PublishAction::Done
        }
    }

    /// Records whether the action just performed succeeded.
    pub fn record(&mut self, ok: bool)
        ensures
            *final(self) == step_spec(*old(self), ok),
    {
        if self.failed {
        } else if !ok {
            self.failed = true;
        } else if self.pos < 7 {
            self.pos = self.pos + 1;
        }
    }
}

/// A failure is final: whatever outcomes are recorded afterwards, the state
/// stays failed and its position frozen, so no later command is ever issued.
pub proof fn lemma_failure_is_final(p: Publisher, results: Seq<bool>)
    requires
        p.failed,
    ensures
        run_steps(p, results) == p,
    decreases results.len(),
{
    if results.len() > 0 {
        lemma_failure_is_final(p, results.drop_first());
    }
}

/// Recorded outcomes compose: running `a` then `b` is running `a + b`.
pub proof fn lemma_run_steps_app(p: Publisher, a: Seq<bool>, b: Seq<bool>)
    ensures
        run_steps(p, a + b) == run_steps(run_steps(p, a), b),
    decreases a.len(),
{
    if a.len() == 0 {
        assert(a + b =~= b);
    } else {
        assert((a + b)[0] == a[0]);
        assert((a + b).drop_first() =~= a.drop_first() + b);
        lemma_run_steps_app(step_spec(p, a[0]), a.drop_first(), b);
    }
}

/// A run of successes advances the position by their number.
pub proof fn lemma_run_all_success(p: Publisher, results: Seq<bool>)
    requires
        !p.failed,
        forall|j: int| 0 <= j < results.len() ==> results[j],
        p.pos + results.len() <= 7,
    ensures
        run_steps(p, results) == (Publisher { pos: (p.pos + results.len()) as u8, failed: false }),
    decreases results.len(),
{
    if results.len() > 0 {
        lemma_run_all_success(step_spec(p, results[0]), results.drop_first());
    }
}

/// A full run of seven successes — the six git commands and the cleanup —
/// completes the sequence.
pub proof fn lemma_all_success_completes(results: Seq<bool>)
    requires
        results.len() == 7,
        forall|j: int| 0 <= j < results.len() ==> results[j],
    ensures
        run_steps(initial_publisher(), results) == (Publisher { pos: 7, failed: false }),
{
    lemma_run_all_success(initial_publisher(), results);
}

/// The first failure stops the sequence where it happened: if every outcome
/// before position `k` was a success and the one at `k` was a failure, the
/// machine ends failed at position `k` — the steps after `k`, cleanup
/// included, never execute.
pub proof fn lemma_first_failure_stops(results: Seq<bool>, k: int)
    requires
        0 <= k < results.len(),
        k <= 7,
        !results[k],
        forall|j: int| 0 <= j < k ==> results[j],
    ensures
        run_steps(initial_publisher(), results) == (Publisher { pos: k as u8, failed: true }),
{
    let head = results.take(k);
    let tail = results.skip(k);
    assert(results =~= head + tail);
    lemma_run_steps_app(initial_publisher(), head, tail);
    lemma_run_all_success(initial_publisher(), head);
    let at_k = Publisher { pos: k as u8, failed: false };
    assert(run_steps(initial_publisher(), head) == at_k);
    assert(tail[0] == results[k]);
    assert(step_spec(at_k, tail[0]) == (Publisher { pos: k as u8, failed: true }));
    lemma_failure_is_final(Publisher { pos: k as u8, failed: true }, tail.drop_first());
}

} // verus!

