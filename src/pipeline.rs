use vstd::prelude::*;
use vstd::string::*;

use crate::plan::{config_valid, parse_config, tags_of, ConfigError};

verus! {

/// Where a run stands: each stage but the last two waits for the outcome of
/// the action that led into it.
#[derive(Clone, Copy, Debug, PartialEq, Eq, Structural)]
pub enum Stage {
    PreHook,
    Resolving,
    Writing { container: usize },
    Hashing { container: usize, hash: usize },
    Deploying { target: usize },
    PostHook,
    Done,
    Aborted,
}

/// Why a run stopped before its end.
#[derive(Clone, Copy, Debug, PartialEq, Eq, Structural)]
pub enum AbortReason {
    /// A tag of the configuration is unsupported.
    Config(ConfigError),
    /// The pre-cook hook exited non-zero and the run was told to stop on that.
    PreCookFailed,
    /// A step failed fatally: a hook could not be launched, an ingredient
    /// could not be resolved, an archive or a sidecar could not be written.
    StepFailed,
}

/// What the caller is to do next.
#[derive(Clone, Copy, Debug, PartialEq, Eq, Structural)]
pub enum Action {
    RunPreHook,
    Resolve,
    WriteArchive(usize),
    WriteHash(usize, usize),
    Deploy(usize),
    RunPostHook,
    Finish,
    Abort(AbortReason),
    /// The run is over; nothing is left to do.
    Stop,
}

/// The outcome of the last action.
#[derive(Clone, Copy, Debug, PartialEq, Eq, Structural)]
pub enum Event {
    /// It succeeded (a hook that is not configured succeeds).
    Succeeded,
    /// It ran but reported failure: a hook exited non-zero, or a deploy
    /// target's transport failed.
    Refused,
    /// It could not be carried out at all.
    Failed,
}

/// One packaging run: the stage it is at and the shape of its plan.
#[derive(Clone, Copy, Debug, PartialEq, Eq, Structural)]
pub struct Run {
    pub stage: Stage,
    pub n_containers: usize,
    pub n_hashes: usize,
    pub n_targets: usize,
    pub abort_on_pre_cook_failure: bool,
}

impl Run {
    pub open spec fn wf(self) -> bool {
        match self.stage {
            Stage::Writing { container } => container < self.n_containers,
            Stage::Hashing { container, hash } => container < self.n_containers && hash < self.n_hashes,
            Stage::Deploying { target } => target < self.n_targets,
            _ => true,
        }
    }

    pub open spec fn at(self, stage: Stage) -> Run {
        Run { stage, ..self }
    }

    /// Moves on to the archive of `container`, or past the archives.
    pub open spec fn from_container(self, container: int) -> (Run, Action) {
        if container < self.n_containers {
            (self.at(Stage::Writing { container: container as usize }), Action::WriteArchive(container as usize))
        } else if self.n_targets > 0 {
            (self.at(Stage::Deploying { target: 0 }), Action::Deploy(0))
        } else {
            (self.at(Stage::PostHook), Action::RunPostHook)
        }
    }

    pub open spec fn abort(self, why: AbortReason) -> (Run, Action) {
        (self.at(Stage::Aborted), Action::Abort(why))
    }

    /// The next stage and action, given the outcome of the last action.
    pub open spec fn next(self, e: Event) -> (Run, Action) {
        match self.stage {
            Stage::PreHook => match e {
                Event::Succeeded => (self.at(Stage::Resolving), Action::Resolve),
                Event::Refused => if self.abort_on_pre_cook_failure {
                    self.abort(AbortReason::PreCookFailed)
                } else {
                    (self.at(Stage::Resolving), Action::Resolve)
                },
                Event::Failed => self.abort(AbortReason::StepFailed),
            },
            Stage::Resolving => match e {
                Event::Succeeded => self.from_container(0),
                _ => self.abort(AbortReason::StepFailed),
            },
            Stage::Writing { container } => match e {
                Event::Succeeded => if self.n_hashes > 0 {
                    (self.at(Stage::Hashing { container, hash: 0 }), Action::WriteHash(container, 0))
                } else {
                    self.from_container(container + 1)
                },
                _ => self.abort(AbortReason::StepFailed),
            },
            Stage::Hashing { container, hash } => match e {
                Event::Succeeded => if hash + 1 < self.n_hashes {
                    (self.at(Stage::Hashing { container, hash: (hash + 1) as usize }), Action::WriteHash(container, (hash + 1) as usize))
                } else {
                    self.from_container(container + 1)
                },
                _ => self.abort(AbortReason::StepFailed),
            },
            Stage::Deploying { target } => if target + 1 < self.n_targets {
                (self.at(Stage::Deploying { target: (target + 1) as usize }), Action::Deploy((target + 1) as usize))
            } else {
                (self.at(Stage::PostHook), Action::RunPostHook)
            },
            Stage::PostHook => match e {
                Event::Failed => self.abort(AbortReason::StepFailed),
                _ => (self.at(Stage::Done), Action::Finish),
            },
            Stage::Done => (self, Action::Stop),
            Stage::Aborted => (self, Action::Stop),
        }
    }

    fn at_stage(&self, stage: Stage) -> (r: Run)
        ensures
            r == self.at(stage),
    {
        Run { stage, ..*self }
    }

    fn from_container_exec(&self, container: usize) -> (r: (Run, Action))
        requires
            container <= self.n_containers,
        ensures
            r == self.from_container(container as int),
    {
        if container < self.n_containers {
            (self.at_stage(Stage::Writing { container }), Action::WriteArchive(container))
        } else if self.n_targets > 0 {
            (self.at_stage(Stage::Deploying { target: 0 }), Action::Deploy(0))
        } else {
            (self.at_stage(Stage::PostHook), Action::RunPostHook)
        }
    }

    /// Validates the configured tags and, if all are supported, starts the run
    /// at the pre-cook hook; otherwise the run is aborted before any work.
    pub fn start(
        containers: &Vec<String>,
        hashes: &Option<Vec<String>>,
        targets: &Option<Vec<String>>,
        abort_on_pre_cook_failure: bool,
    ) -> (r: (Run, Action))
        ensures
            r.0.wf(),
            r.0.abort_on_pre_cook_failure == abort_on_pre_cook_failure,
            config_valid(containers@, tags_of(*hashes), tags_of(*targets)) ==> {
                &&& r.0.stage == Stage::PreHook
                &&& r.1 == Action::RunPreHook
                &&& r.0.n_containers == containers.len()
                &&& r.0.n_hashes == tags_of(*hashes).len()
                &&& r.0.n_targets == tags_of(*targets).len()
            },
            !config_valid(containers@, tags_of(*hashes), tags_of(*targets)) ==> {
                &&& r.0.stage == Stage::Aborted
                &&& r.1 matches Action::Abort(AbortReason::Config(_))
            },
    {
        match parse_config(containers, hashes, targets) {
            Ok(p) => {
                let run = Run {
                    stage: Stage::PreHook,
                    n_containers: p.containers.len(),
                    n_hashes: p.hashes.len(),
                    n_targets: p.targets.len(),
                    abort_on_pre_cook_failure,
                };
                (run, Action::RunPreHook)
            },
            Err(e) => {
                let run = Run {
                    stage: Stage::Aborted,
                    n_containers: 0,
                    n_hashes: 0,
                    n_targets: 0,
                    abort_on_pre_cook_failure,
                };
                (run, Action::Abort(AbortReason::Config(e)))
            },
        }
    }

    /// Takes the outcome of the last action and says what comes next.
    pub fn step(&self, e: Event) -> (r: (Run, Action))
        requires
            self.wf(),
        ensures
            r == self.next(e),
            r.0.wf(),
    {
        match self.stage {
            Stage::PreHook => match e {
                Event::Succeeded => (self.at_stage(Stage::Resolving), Action::Resolve),
                Event::Refused => if self.abort_on_pre_cook_failure {
                    (self.at_stage(Stage::Aborted), Action::Abort(AbortReason::PreCookFailed))
                } else {
                    (self.at_stage(Stage::Resolving), Action::Resolve)
                },
                Event::Failed => (self.at_stage(Stage::Aborted), Action::Abort(AbortReason::StepFailed)),
            },
            Stage::Resolving => match e {
                Event::Succeeded => self.from_container_exec(0),
                _ => (self.at_stage(Stage::Aborted), Action::Abort(AbortReason::StepFailed)),
            },
            Stage::Writing { container } => match e {
                Event::Succeeded => if self.n_hashes > 0 {
                    (self.at_stage(Stage::Hashing { container, hash: 0 }), Action::WriteHash(container, 0))
                } else {
                    self.from_container_exec(container + 1)
                },
                _ => (self.at_stage(Stage::Aborted), Action::Abort(AbortReason::StepFailed)),
            },
            Stage::Hashing { container, hash } => match e {
                Event::Succeeded => if hash + 1 < self.n_hashes {
                    (self.at_stage(Stage::Hashing { container, hash: hash + 1 }), Action::WriteHash(container, hash + 1))
                } else {
                    self.from_container_exec(container + 1)
                },
                _ => (self.at_stage(Stage::Aborted), Action::Abort(AbortReason::StepFailed)),
            },
            Stage::Deploying { target } => if target + 1 < self.n_targets {
                (self.at_stage(Stage::Deploying { target: target + 1 }), Action::Deploy(target + 1))
            } else {
                (self.at_stage(Stage::PostHook), Action::RunPostHook)
            },
            Stage::PostHook => match e {
                Event::Failed => (self.at_stage(Stage::Aborted), Action::Abort(AbortReason::StepFailed)),
                _ => (self.at_stage(Stage::Done), Action::Finish),
            },
            Stage::Done => (*self, Action::Stop),
            Stage::Aborted => (*self, Action::Stop),
        }
    }
}

/// The outcome of a hook: a hook that is not configured succeeds, one that
/// cannot be launched fails, and one that ran succeeds when it exited with
/// status zero and is refused otherwise.
pub fn hook_outcome(configured: bool, launched: bool, exited_zero: bool) -> (r: Event)
    ensures
        !configured ==> r == Event::Succeeded,
        configured && !launched ==> r == Event::Failed,
        configured && launched && exited_zero ==> r == Event::Succeeded,
        configured && launched && !exited_zero ==> r == Event::Refused,
{
    if !configured {
        Event::Succeeded
    } else if !launched {
        Event::Failed
    } else if exited_zero {
        Event::Succeeded
    } else {
        Event::Refused
    }
}

/// The name under which a hook's progress is reported.
pub fn hook_name(pre: bool) -> (r: &'static str)
    ensures
        pre ==> r@ == seq!['P', 'r', 'e', '-', 'c', 'o', 'o', 'k'],
        !pre ==> r@ == seq!['P', 'o', 's', 't', '-', 'c', 'o', 'o', 'k'],
{
    proof {
        reveal_strlit("Pre-cook");
        reveal_strlit("Post-cook");
    }
    if pre {
        "Pre-cook"
    } else {
        "Post-cook"
    }
}

/// The actions a run asks for as it is handed the events one by one.
pub open spec fn actions(r: Run, events: Seq<Event>) -> Seq<Action>
    decreases events.len(),
{
    if events.len() == 0 {
        seq![]
    } else {
        let (next, a) = r.next(events[0]);
        seq![a] + actions(next, events.drop_first())
    }
}

/// An aborted run stays aborted and asks for nothing more: in particular it
/// never writes an archive. Since `Run::start` aborts on an unsupported tag,
/// such a configuration leads to no archive at all.
pub proof fn lemma_aborted_run_writes_nothing(r: Run, events: Seq<Event>)
    requires
        r.stage == Stage::Aborted,
    ensures
        actions(r, events).len() == events.len(),
        forall|i: int| 0 <= i < events.len() ==> #[trigger] actions(r, events)[i] == Action::Stop,
    decreases events.len(),
{
    if events.len() > 0 {
        assert(r.next(events[0]) == (r, Action::Stop));
        lemma_aborted_run_writes_nothing(r, events.drop_first());
        assert forall|i: int| 0 <= i < events.len() implies #[trigger] actions(r, events)[i] == Action::Stop by {
            if i > 0 {
                assert(actions(r, events)[i] == actions(r, events.drop_first())[i - 1]);
            }
        }
    }
}

/// A pre-cook hook that runs and exits non-zero does not stop the run unless
/// the run was told to stop on it: the ingredients are resolved next and the
/// first archive after them. A hook that cannot be launched aborts the run.
pub proof fn lemma_pre_cook_exit_failure_continues(r: Run)
    requires
        r.stage == Stage::PreHook,
        !r.abort_on_pre_cook_failure,
    ensures
        r.next(Event::Refused) == (r.at(Stage::Resolving), Action::Resolve),
        r.n_containers > 0 ==> r.at(Stage::Resolving).next(Event::Succeeded).1 == Action::WriteArchive(0),
        r.next(Event::Failed) == (r.at(Stage::Aborted), Action::Abort(AbortReason::StepFailed)),
{
}

/// Deploy targets are independent: whatever the outcome for one target, the
/// run goes on to the next target, or to the post-cook hook after the last,
/// and never aborts.
pub proof fn lemma_deploy_failure_isolated(r: Run, e: Event)
    requires
        r.wf(),
        r.stage is Deploying,
    ensures
        ({
            let t = r.stage->Deploying_target;
            let a = r.next(e).1;
            &&& !(a is Abort)
            &&& t + 1 < r.n_targets ==> a == Action::Deploy((t + 1) as usize)
            &&& t + 1 >= r.n_targets ==> a == Action::RunPostHook
        }),
{
}

/// With three deploy targets, all three are tried in order and the run then
/// reaches the post-cook hook, whichever of them fail.
pub proof fn lemma_three_targets_all_tried(r: Run, e0: Event, e1: Event, e2: Event)
    requires
        r.stage == (Stage::Deploying { target: 0 }),
        r.n_targets == 3,
    ensures
        actions(r, seq![e0, e1, e2]) == seq![Action::Deploy(1), Action::Deploy(2), Action::RunPostHook],
{
    let events = seq![e0, e1, e2];
    let r1 = r.next(e0).0;
    let r2 = r1.next(e1).0;
    let r3 = r2.next(e2).0;
    assert(events.drop_first() =~= seq![e1, e2]);
    assert(seq![e1, e2].drop_first() =~= seq![e2]);
    assert(seq![e2].drop_first() =~= Seq::<Event>::empty());
    assert(actions(r3, Seq::<Event>::empty()) == Seq::<Action>::empty());
    assert(actions(r2, seq![e2]) =~= seq![Action::RunPostHook]);
    assert(actions(r1, seq![e1, e2]) =~= seq![Action::Deploy(2), Action::RunPostHook]);
    assert(actions(r, events) =~= seq![Action::Deploy(1), Action::Deploy(2), Action::RunPostHook]);
}

/// Every hash of an archive is written right after that archive, in the
/// configured order, before the next archive is begun.
pub proof fn lemma_hashes_follow_their_archive(r: Run)
    requires
        r.wf(),
        r.stage is Writing || r.stage is Hashing,
    ensures
        ({
            let (next, a) = r.next(Event::Succeeded);
            match r.stage {
                Stage::Writing { container } => if r.n_hashes > 0 {
                    a == Action::WriteHash(container, 0)
                } else {
                    a == r.from_container(container + 1).1
                },
                Stage::Hashing { container, hash } => if hash + 1 < r.n_hashes {
                    a == Action::WriteHash(container, (hash + 1) as usize)
                } else {
                    a == r.from_container(container + 1).1
                },
                _ => true,
            }
        }),
{
}

} // verus!
