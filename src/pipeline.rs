//! The pipeline executor's decisions for one statement: every stage is
//! resolved before any is spawned; stages are then spawned in order, each
//! non-last stage's output piped into the next stage's input.
//!
//! The caller performs each action that a step returns and hands its result
//! back to the next step.

use vstd::prelude::*;

use crate::parser::{Stage, Statement};
use crate::text::{opt_view, views};

verus! {

/// Where a spawned stage reads its standard input from.
#[derive(PartialEq, Eq, Structural, Clone, Copy, Debug)]
pub enum StdinPlan {
    /// The interpreter's own standard input.
    Inherit,
    /// The captured standard output of the stage spawned just before.
    FromPrevious,
}

/// Where a spawned stage writes its standard output to.
#[derive(PartialEq, Eq, Structural, Clone, Copy, Debug)]
pub enum StdoutPlan {
    /// The interpreter's own standard output.
    Inherit,
    /// A pipe that the next stage reads.
    Piped,
}

/// How the standard streams of one stage are connected.
#[derive(PartialEq, Eq, Structural, Clone, Copy, Debug)]
pub struct Wiring {
    pub stdin: StdinPlan,
    pub stdout: StdoutPlan,
}

/// The wiring of stage `i` in a pipeline of `n` stages.
pub open spec fn wiring_spec(n: int, i: int) -> Wiring {
    Wiring {
        stdin: if i == 0 {
            StdinPlan::Inherit
        } else {
            StdinPlan::FromPrevious
        },
        stdout: if i == n - 1 {
            StdoutPlan::Inherit
        } else {
            StdoutPlan::Piped
        },
    }
}

/// Connects stage `i` of a pipeline of `n` stages.
pub fn wiring_for(n: usize, i: usize) -> (r: Wiring)
    requires
        i < n,
    ensures
        r == wiring_spec(n as int, i as int),
{
    let stdin = if i == 0 {
        StdinPlan::Inherit
    } else {
        StdinPlan::FromPrevious
    };
    let stdout = if i == n - 1 {
        StdoutPlan::Inherit
    } else {
        StdoutPlan::Piped
    };
    Wiring { stdin, stdout }
}

/// Why a statement did not start.
#[derive(PartialEq, Eq, Debug)]
pub enum ExecError {
    /// No directory of the search path holds this command.
    CommandNotFound(String),
    /// The operating system could not start this command; the cause is given.
    SpawnFailed(String, String),
}

/// What the caller is to do next.
pub enum Action {
    /// Resolve the command word of this stage.
    Resolve(usize),
    /// Spawn this stage from the resolved path, wired as given.
    Spawn { stage: usize, path: String, wiring: Wiring },
    /// The statement is set up; its foreground process, if any, has this id.
    Finished(Option<u32>),
    /// The statement is abandoned.
    Failed(ExecError),
}

/// An action, with its strings as character sequences.
pub enum ActionView {
    Resolve(nat),
    Spawn(nat, Seq<char>, Wiring),
    Finished(Option<u32>),
    NotFound(Seq<char>),
    SpawnFailed(Seq<char>, Seq<char>),
}

impl View for Action {
    type V = ActionView;

    open spec fn view(&self) -> ActionView {
        match self {
            Action::Resolve(i) => ActionView::Resolve(*i as nat),
            Action::Spawn { stage, path, wiring } => ActionView::Spawn(*stage as nat, path@, *wiring),
            Action::Finished(p) => ActionView::Finished(*p),
            Action::Failed(ExecError::CommandNotFound(n)) => ActionView::NotFound(n@),
            Action::Failed(ExecError::SpawnFailed(n, c)) => ActionView::SpawnFailed(n@, c@),
        }
    }
}

/// The state of a run: the stages' words, the paths resolved so far, the
/// ids of the processes spawned so far, and whether the run has ended.
pub struct RunView {
    pub stages: Seq<Seq<Seq<char>>>,
    pub paths: Seq<Seq<char>>,
    pub spawned: Seq<u32>,
    pub ended: bool,
}

/// Every process spawned belongs to a fully resolved statement, and every
/// stage has a command word.
pub open spec fn run_wf(v: RunView) -> bool {
    &&& v.paths.len() <= v.stages.len()
    &&& v.spawned.len() <= v.stages.len()
    &&& v.spawned.len() > 0 ==> v.paths.len() == v.stages.len()
    &&& forall|k: int| 0 <= k < v.stages.len() ==> (#[trigger] v.stages[k]).len() > 0
}

/// The run waits for the resolution of the next stage.
pub open spec fn is_resolving(v: RunView) -> bool {
    !v.ended && v.paths.len() < v.stages.len()
}

/// The run waits for the spawn of the next stage.
pub open spec fn is_spawning(v: RunView) -> bool {
    !v.ended && v.paths.len() == v.stages.len() && v.spawned.len() < v.stages.len()
}

/// The request to spawn the stage after those already spawned.
pub open spec fn spawn_request(v: RunView) -> ActionView {
    let k = v.spawned.len();
    ActionView::Spawn(k, v.paths[k as int], wiring_spec(v.stages.len() as int, k as int))
}

/// The run and the action after the next stage resolved to `p`, or did not
/// resolve at all.
pub open spec fn resolved_step(v: RunView, p: Option<Seq<char>>) -> (RunView, ActionView) {
    match p {
        None => (RunView { ended: true, ..v }, ActionView::NotFound(v.stages[v.paths.len() as int][0])),
        Some(path) => {
            let w = RunView { paths: v.paths.push(path), ..v };
            if w.paths.len() < w.stages.len() {
                (w, ActionView::Resolve(w.paths.len()))
            } else {
                (w, spawn_request(w))
            }
        },
    }
}

/// The run and the action after the next stage was spawned with id `pid`,
/// or failed to spawn for `cause`.
pub open spec fn spawned_step(v: RunView, r: Result<u32, Seq<char>>) -> (RunView, ActionView) {
    match r {
        Err(cause) => (
            RunView { ended: true, ..v },
            ActionView::SpawnFailed(v.stages[v.spawned.len() as int][0], cause),
        ),
        Ok(pid) => {
            let w = RunView { spawned: v.spawned.push(pid), ..v };
            if w.spawned.len() < w.stages.len() {
                (w, spawn_request(w))
            } else {
                (RunView { ended: true, ..w }, ActionView::Finished(Some(pid)))
            }
        },
    }
}

/// The run and the actions after the resolution results `found` are handed
/// to it in order, for as long as it asks for resolutions.
pub open spec fn feed_resolutions(v: RunView, found: Seq<Option<Seq<char>>>) -> (
    RunView,
    Seq<ActionView>,
)
    decreases found.len(),
{
    if found.len() == 0 || !is_resolving(v) {
        (v, Seq::empty())
    } else {
        let (w, a) = resolved_step(v, found[0]);
        let (x, rest) = feed_resolutions(w, found.drop_first());
        (x, seq![a] + rest)
    }
}

/// The run and the actions after the spawn results `pids` are handed to it
/// in order, for as long as it asks for spawns.
pub open spec fn feed_spawns(v: RunView, pids: Seq<u32>) -> (RunView, Seq<ActionView>)
    decreases pids.len(),
{
    if pids.len() == 0 || !is_spawning(v) {
        (v, Seq::empty())
    } else {
        let (w, a) = spawned_step(v, Ok(pids[0]));
        let (x, rest) = feed_spawns(w, pids.drop_first());
        (x, seq![a] + rest)
    }
}

/// The paths in resolution results that all succeeded.
pub open spec fn found_paths(found: Seq<Option<Seq<char>>>) -> Seq<Seq<char>> {
    found.map_values(|o: Option<Seq<char>>| o->Some_0)
}

/// The progress of one statement through resolution and spawning.
pub struct PipelineRun {
    /// The stages of the statement.
    pub stages: Vec<Stage>,
    /// The resolved paths of the first stages, in order.
    pub paths: Vec<String>,
    /// The process ids of the stages spawned so far, in order.
    pub spawned: Vec<u32>,
    /// Whether the run has ended, by success or failure.
    pub ended: bool,
}

impl View for PipelineRun {
    type V = RunView;

    open spec fn view(&self) -> RunView {
        RunView {
            stages: self.stages@.map_values(|st: Stage| st@),
            paths: views(self.paths@),
            spawned: self.spawned@,
            ended: self.ended,
        }
    }
}

impl PipelineRun {
    /// Starts a run of `statement`. A statement without stages ends at once
    /// with no foreground process; otherwise the first stage is resolved.
    pub fn start(statement: Statement) -> (r: (PipelineRun, Action))
        ensures
            run_wf(r.0@),
            r.0@ == (RunView {
                stages: statement@,
                paths: Seq::empty(),
                spawned: Seq::empty(),
                ended: statement@.len() == 0,
            }),
            statement@.len() == 0 ==> r.1@ == ActionView::Finished(None),
            statement@.len() > 0 ==> r.1@ == ActionView::Resolve(0),
    {
        let n = statement.stages.len();
        let run = PipelineRun {
            stages: statement.stages,
            paths: Vec::new(),
            spawned: Vec::new(),
            ended: n == 0,
        };
        proof {
            assert(run@.paths =~= Seq::<Seq<char>>::empty());
            assert(run@.spawned =~= Seq::<u32>::empty());
        }
        if n == 0 {
            (run, Action::Finished(None))
        } else {
            (run, Action::Resolve(0))
        }
    }

    /// Whether the run waits for a resolution.
    pub fn is_resolving(&self) -> (r: bool)
        ensures
            r == is_resolving(self@),
    {
        !self.ended && self.paths.len() < self.stages.len()
    }

    /// Whether the run waits for a spawn.
    pub fn is_spawning(&self) -> (r: bool)
        ensures
            r == is_spawning(self@),
    {
        !self.ended && self.paths.len() == self.stages.len() && self.spawned.len()
            < self.stages.len()
    }

    fn next_spawn(&self) -> (r: Action)
        requires
            run_wf(self@),
            self@.paths.len() == self@.stages.len(),
            self@.spawned.len() < self@.stages.len(),
        ensures
            r@ == spawn_request(self@),
    {
        let k = self.spawned.len();
        let path = self.paths[k].clone();
        Action::Spawn { stage: k, path, wiring: wiring_for(self.stages.len(), k) }
    }

    /// Takes the result of resolving the next stage. A stage that does not
    /// resolve ends the run with `CommandNotFound` before any process is
    /// spawned; after the last stage resolves, the first stage is spawned.
    pub fn on_resolved(&mut self, path: Option<String>) -> (r: Action)
        requires
            run_wf(old(self)@),
            is_resolving(old(self)@),
        ensures
            run_wf(final(self)@),
            (final(self)@, r@) == resolved_step(old(self)@, opt_view(path)),
    {
        match path {
            None => {
                let k = self.paths.len();
                let name = self.stages[k].program.clone();
                self.ended = true;
                Action::Failed(ExecError::CommandNotFound(name))
            },
            Some(p) => {
                let ghost before = self.paths@;
                self.paths.push(p);
                proof {
                    assert(views(self.paths@) =~= views(before).push(p@));
                }
                if self.paths.len() < self.stages.len() {
                    Action::Resolve(self.paths.len())
                } else {
                    self.next_spawn()
                }
            },
        }
    }

    /// Takes the result of spawning the next stage: its process id, or the
    /// cause of the failure. A failure ends the run with `SpawnFailed`; the
    /// stages spawned before it are left running. After the last stage is
    /// spawned, its process is the foreground process.
    pub fn on_spawned(&mut self, result: Result<u32, String>) -> (r: Action)
        requires
            run_wf(old(self)@),
            is_spawning(old(self)@),
        ensures
            run_wf(final(self)@),
            (final(self)@, r@) == spawned_step(
                old(self)@,
                match result {
                    Ok(pid) => Ok(pid),
                    Err(c) => Err(c@),
                },
            ),
    {
        match result {
            Err(cause) => {
                let k = self.spawned.len();
                let name = self.stages[k].program.clone();
                self.ended = true;
                Action::Failed(ExecError::SpawnFailed(name, cause))
            },
            Ok(pid) => {
                self.spawned.push(pid);
                if self.spawned.len() < self.stages.len() {
                    self.next_spawn()
                } else {
                    self.ended = true;
                    Action::Finished(Some(pid))
                }
            },
        }
    }
}

proof fn lemma_feed_all_resolved(v: RunView, found: Seq<Option<Seq<char>>>)
    requires
        run_wf(v),
        !v.ended,
        v.spawned.len() == 0,
        found.len() >= 1,
        v.paths.len() + found.len() == v.stages.len(),
        forall|i: int| 0 <= i < found.len() ==> (#[trigger] found[i]) is Some,
    ensures
        feed_resolutions(v, found).0 == (RunView { paths: v.paths + found_paths(found), ..v }),
        feed_resolutions(v, found).1.len() == found.len(),
        forall|k: int|
            0 <= k < found.len() - 1 ==> (#[trigger] feed_resolutions(v, found).1[k])
                == ActionView::Resolve((v.paths.len() + k + 1) as nat),
        feed_resolutions(v, found).1[found.len() - 1] == spawn_request(
            feed_resolutions(v, found).0,
        ),
    decreases found.len(),
{
    let (w, a) = resolved_step(v, found[0]);
    let rest = found.drop_first();
    assert(w.paths == v.paths.push(found[0]->Some_0));
    if found.len() == 1 {
        assert(found_paths(found) =~= seq![found[0]->Some_0]);
        assert(v.paths + found_paths(found) =~= w.paths);
        assert(feed_resolutions(w, rest).1 =~= Seq::<ActionView>::empty());
        assert(seq![a] + Seq::<ActionView>::empty() =~= seq![a]);
    } else {
        assert forall|i: int| 0 <= i < rest.len() implies (#[trigger] rest[i]) is Some by {
            assert(rest[i] == found[i + 1]);
        }
        lemma_feed_all_resolved(w, rest);
        assert(w.paths + found_paths(rest) =~= v.paths + found_paths(found));
        let acts = feed_resolutions(v, found).1;
        let tail = feed_resolutions(w, rest).1;
        assert(acts =~= seq![a] + tail);
        assert forall|k: int| 0 <= k < found.len() - 1 implies (#[trigger] acts[k])
            == ActionView::Resolve((v.paths.len() + k + 1) as nat) by {
            if k > 0 {
                assert(acts[k] == tail[k - 1]);
            }
        }
        assert(acts[found.len() - 1] == tail[rest.len() - 1]);
    }
}

proof fn lemma_feed_all_spawned(v: RunView, pids: Seq<u32>)
    requires
        run_wf(v),
        is_spawning(v),
        pids.len() >= 1,
        v.spawned.len() + pids.len() == v.stages.len(),
    ensures
        feed_spawns(v, pids).0 == (RunView { spawned: v.spawned + pids, ended: true, ..v }),
        feed_spawns(v, pids).1.len() == pids.len(),
        forall|k: int|
            0 <= k < pids.len() - 1 ==> (#[trigger] feed_spawns(v, pids).1[k]) == ActionView::Spawn(
                (v.spawned.len() + k + 1) as nat,
                v.paths[v.spawned.len() + k + 1],
                wiring_spec(v.stages.len() as int, v.spawned.len() + k + 1),
            ),
        feed_spawns(v, pids).1[pids.len() - 1] == ActionView::Finished(Some(pids[pids.len() - 1])),
    decreases pids.len(),
{
    let (w, a) = spawned_step(v, Ok(pids[0]));
    let rest = pids.drop_first();
    if pids.len() == 1 {
        assert(v.spawned + pids =~= v.spawned.push(pids[0]));
        assert(feed_spawns(w, rest).1 =~= Seq::<ActionView>::empty());
        assert(seq![a] + Seq::<ActionView>::empty() =~= seq![a]);
    } else {
        lemma_feed_all_spawned(w, rest);
        assert(w.spawned + rest =~= v.spawned + pids);
        let acts = feed_spawns(v, pids).1;
        let tail = feed_spawns(w, rest).1;
        assert(acts =~= seq![a] + tail);
        assert forall|k: int| 0 <= k < pids.len() - 1 implies (#[trigger] acts[k])
            == ActionView::Spawn(
            (v.spawned.len() + k + 1) as nat,
            v.paths[v.spawned.len() + k + 1],
            wiring_spec(v.stages.len() as int, v.spawned.len() + k + 1),
        ) by {
            if k > 0 {
                assert(acts[k] == tail[k - 1]);
            }
        }
        assert(acts[pids.len() - 1] == tail[rest.len() - 1]);
    }
}

/// When every stage of a statement resolves and spawns, the stages are
/// spawned in order, stage `k` from the path found for it and wired by
/// `wiring_spec`: each stage's captured output feeds the next stage's
/// input, the first stage reads the interpreter's input, only the last
/// stage writes to the interpreter's output, and the last stage's process
/// is the foreground process.
pub proof fn lemma_resolved_chain(
    stages: Seq<Seq<Seq<char>>>,
    found: Seq<Option<Seq<char>>>,
    pids: Seq<u32>,
)
    requires
        forall|k: int| 0 <= k < stages.len() ==> (#[trigger] stages[k]).len() > 0,
        stages.len() >= 1,
        found.len() == stages.len(),
        pids.len() == stages.len(),
        forall|i: int| 0 <= i < found.len() ==> (#[trigger] found[i]) is Some,
    ensures
        ({
            let n = stages.len() as int;
            let start = RunView { stages, paths: Seq::empty(), spawned: Seq::empty(), ended: false };
            let (resolved, acts1) = feed_resolutions(start, found);
            let (end, acts2) = feed_spawns(resolved, pids);
            let requests = seq![acts1[n - 1]] + acts2.take(n - 1);
            &&& forall|k: int| 0 <= k < n - 1 ==> (#[trigger] acts1[k]) == ActionView::Resolve((k + 1) as nat)
            &&& requests.len() == n
            &&& forall|k: int|
                0 <= k < n ==> (#[trigger] requests[k]) == ActionView::Spawn(
                    k as nat,
                    found[k]->Some_0,
                    wiring_spec(n, k),
                )
            &&& forall|k: int|
                0 <= k < n - 1 ==> (#[trigger] wiring_spec(n, k)).stdout == StdoutPlan::Piped
                    && wiring_spec(n, k + 1).stdin == StdinPlan::FromPrevious
            &&& forall|k: int|
                0 <= k < n ==> ((#[trigger] wiring_spec(n, k)).stdout == StdoutPlan::Inherit
                    <==> k == n - 1)
            &&& wiring_spec(n, 0).stdin == StdinPlan::Inherit
            &&& acts2.len() == n
            &&& acts2[n - 1] == ActionView::Finished(Some(pids[n - 1]))
            &&& end.ended
            &&& end.spawned == pids
        }),
{
    let n = stages.len() as int;
    let start = RunView { stages, paths: Seq::empty(), spawned: Seq::empty(), ended: false };
    lemma_feed_all_resolved(start, found);
    let (resolved, acts1) = feed_resolutions(start, found);
    assert(resolved.paths =~= found_paths(found));
    lemma_feed_all_spawned(resolved, pids);
    let (end, acts2) = feed_spawns(resolved, pids);
    assert(Seq::<u32>::empty() + pids =~= pids);
    let requests = seq![acts1[n - 1]] + acts2.take(n - 1);
    assert forall|k: int| 0 <= k < n implies (#[trigger] requests[k]) == ActionView::Spawn(
        k as nat,
        found[k]->Some_0,
        wiring_spec(n, k),
    ) by {
        if k > 0 {
            assert(requests[k] == acts2[k - 1]);
        }
    }
}

proof fn lemma_feed_until_missing(v: RunView, found: Seq<Option<Seq<char>>>, j: int)
    requires
        run_wf(v),
        !v.ended,
        v.spawned.len() == 0,
        0 <= j < found.len(),
        v.paths.len() + j < v.stages.len(),
        found[j] is None,
        forall|i: int| 0 <= i < j ==> (#[trigger] found[i]) is Some,
    ensures
        feed_resolutions(v, found).0.ended,
        feed_resolutions(v, found).0.spawned.len() == 0,
        feed_resolutions(v, found).1.len() == j + 1,
        feed_resolutions(v, found).1[j] == ActionView::NotFound(v.stages[v.paths.len() + j][0]),
        forall|i: int|
            0 <= i < feed_resolutions(v, found).1.len() ==> !((#[trigger] feed_resolutions(
                v,
                found,
            ).1[i]) is Spawn),
    decreases j,
{
    let (w, a) = resolved_step(v, found[0]);
    let rest = found.drop_first();
    if j == 0 {
        assert(feed_resolutions(w, rest).1 =~= Seq::<ActionView>::empty());
        assert(seq![a] + Seq::<ActionView>::empty() =~= seq![a]);
    } else {
        assert(found[0] is Some);
        assert forall|i: int| 0 <= i < j - 1 implies (#[trigger] rest[i]) is Some by {
            assert(rest[i] == found[i + 1]);
        }
        assert(rest[j - 1] == found[j]);
        lemma_feed_until_missing(w, rest, j - 1);
        let acts = feed_resolutions(v, found).1;
        let tail = feed_resolutions(w, rest).1;
        assert(acts =~= seq![a] + tail);
        assert forall|i: int| 0 <= i < acts.len() implies !((#[trigger] acts[i]) is Spawn) by {
            if i > 0 {
                assert(acts[i] == tail[i - 1]);
            }
        }
    }
}

/// A statement with a stage that does not resolve, wherever that stage
/// stands, spawns no process: handed the resolution results in order, the
/// run asks for no spawn, ends, and reports `CommandNotFound` with the
/// command word of the first stage that did not resolve.
pub proof fn lemma_unresolved_spawns_nothing(
    stages: Seq<Seq<Seq<char>>>,
    found: Seq<Option<Seq<char>>>,
    j: int,
)
    requires
        forall|k: int| 0 <= k < stages.len() ==> (#[trigger] stages[k]).len() > 0,
        0 <= j < stages.len(),
        j < found.len(),
        found[j] is None,
        forall|i: int| 0 <= i < j ==> (#[trigger] found[i]) is Some,
    ensures
        ({
            let start = RunView { stages, paths: Seq::empty(), spawned: Seq::empty(), ended: false };
            let (end, acts) = feed_resolutions(start, found);
            &&& end.ended
            &&& end.spawned.len() == 0
            &&& acts.len() == j + 1
            &&& acts[j] == ActionView::NotFound(stages[j][0])
            &&& forall|i: int| 0 <= i < acts.len() ==> !((#[trigger] acts[i]) is Spawn)
        }),
{
    let start = RunView { stages, paths: Seq::empty(), spawned: Seq::empty(), ended: false };
    lemma_feed_until_missing(start, found, j);
}

} // verus!
