//! The worker state machine: what one build or run worker decides after
//! each thing that happens to it.
//!
//! The application owns the workspace, the queues and the child processes.
//! It tells the worker what happened (an item arrived, the compile command
//! ended, the artifacts were staged, the run hook returned) and does what
//! the returned [`WorkerAction`] says. The worker keeps the per-worker
//! state: the run data, the collected compile errors and the ids it has
//! committed to never retry.

use crate::json::{views, Json, JsonView};
use crate::run_func::{
    appended, exited_successfully, record_view, run_func_data_ignore_on_error,
    run_func_data_panic_on_error, RunFunc, RunOutput,
};
use crate::run_method::{CompliationErrorHandlingMethod, RunMethod};
use vstd::multiset::Multiset;
use vstd::prelude::*;

verus! {

/// Which stage of the pipeline a worker serves.
#[derive(PartialEq, Eq, Structural, Copy, Clone, Debug)]
pub enum Role {
    /// Takes bindings from the input queue and compiles them.
    Build,
    /// Takes built items from the handoff queue and runs them.
    Run,
}

/// The part of the configuration that a worker decides by.
#[derive(PartialEq, Eq, Structural, Copy, Clone, Debug)]
pub struct WorkerConfig {
    pub role: Role,
    pub run_method: RunMethod,
    pub policy: CompliationErrorHandlingMethod,
    pub run_func: RunFunc,
    /// Seconds between periodic checkpoints; zero disables them.
    pub autosave_interval: u64,
    pub enable_cppflags: bool,
}

/// Why a worker terminates with a fault.
#[derive(PartialEq, Eq, Structural, Copy, Clone, Debug)]
pub enum Fault {
    /// The compile command failed under the `Panic` policy.
    CompileFailed,
    /// The run command failed under the `PanicOnError` strategy.
    RunFailed,
}

/// What the application does next for a worker.
#[derive(PartialEq, Eq, Structural, Copy, Clone, Debug)]
pub enum WorkerAction {
    /// Render the template and run the compile command, with `CPPFLAGS`
    /// exported if `cppflags` is set. Answer with [`Worker::compiled`].
    Compile { cppflags: bool },
    /// Invoke the run hook on the item in flight. Answer with
    /// [`Worker::ran`], or [`Worker::ran_custom`] for a custom hook.
    Run,
    /// Copy every target into the staging directory; then write the
    /// sidecar file if `sidecar` is set, and push the item onto the handoff
    /// queue if `handoff` is set. Answer with [`Worker::staged`].
    Stage { sidecar: bool, handoff: bool },
    /// The item is done with: write a checkpoint if `save` is set, advance
    /// the run progress if `run_tick` is set, and take the next item.
    Continue { save: bool, run_tick: bool },
    /// A stop was requested: write a checkpoint and return.
    Stop,
    /// Terminate the worker with a fault.
    Fault(Fault),
    /// The event does not fit the worker's phase; nothing has changed.
    Rejected,
}

/// Where a worker stands between two events.
#[derive(Debug, PartialEq, Eq)]
pub enum Phase {
    /// Waiting for the next item.
    Idle,
    /// The compile command of this item is running.
    Compiling { id: usize, data: Json },
    /// The item compiled; it is being run or staged.
    Dispatching { id: usize, data: Json },
    /// The worker has stopped or faulted and takes no more events.
    Finished,
}

/// The mathematical value of a [`Phase`].
pub enum PhaseView {
    Idle,
    Compiling { id: usize, data: JsonView },
    Dispatching { id: usize, data: JsonView },
    Finished,
}

impl View for Phase {
    type V = PhaseView;

    open spec fn view(&self) -> PhaseView {
        match self {
            Phase::Idle => PhaseView::Idle,
            Phase::Compiling { id, data } => PhaseView::Compiling { id: *id, data: data@ },
            Phase::Dispatching { id, data } => PhaseView::Dispatching { id: *id, data: data@ },
            Phase::Finished => PhaseView::Finished,
        }
    }
}

/// The history of a worker, kept for reasoning only: which items it took
/// and what became of them.
pub struct Ledger {
    /// The id of every item taken, in order.
    pub taken_ids: Seq<usize>,
    /// The binding of every item taken, in the same order.
    pub taken_data: Seq<JsonView>,
    /// The ids passed on to the handoff queue.
    pub handed_ids: Seq<usize>,
    /// The id of each collected compile error, in the order collected.
    pub error_ids: Seq<usize>,
    /// The ids committed once their artifacts and sidecar file were staged,
    /// in order.
    pub staged_ids: Seq<usize>,
    /// The id of each run recorded by a default strategy, in order.
    pub run_ids: Seq<usize>,
    /// The record of each such run, in the same order.
    pub records: Seq<JsonView>,
}

/// The mathematical state of a worker.
pub struct WorkerState {
    pub config: WorkerConfig,
    pub run_data: JsonView,
    pub compile_errors: Seq<JsonView>,
    pub processed_ids: Seq<usize>,
    pub phase: PhaseView,
    pub ledger: Ledger,
}

/// What a worker hands to the aggregator when it is joined.
#[derive(Debug, PartialEq, Eq)]
pub struct WorkerOutput {
    pub run_data: Json,
    pub compile_errors: Vec<Json>,
    pub processed_ids: Vec<usize>,
}

/// The mathematical value of a [`WorkerOutput`].
pub struct WorkerOutputView {
    pub run_data: JsonView,
    pub compile_errors: Seq<JsonView>,
    pub processed_ids: Seq<usize>,
}

impl View for WorkerOutput {
    type V = WorkerOutputView;

    open spec fn view(&self) -> WorkerOutputView {
        WorkerOutputView {
            run_data: self.run_data@,
            compile_errors: views(self.compile_errors@),
            processed_ids: self.processed_ids@,
        }
    }
}

/// Whether a periodic checkpoint is due: the interval is positive and more
/// than that many seconds have passed since the last save.
pub open spec fn autosave_due(interval: u64, elapsed: u64) -> bool {
    interval > 0 && elapsed > interval
}

/// Whether the worker itself invokes the run hook: every run worker, and a
/// build worker of the in-place topology.
pub open spec fn runs_here(config: WorkerConfig) -> bool {
    config.role == Role::Run || config.run_method == RunMethod::InPlace
}

/// Whether a build worker passes its built items on to run workers.
pub open spec fn hands_off(config: WorkerConfig) -> bool {
    config.role == Role::Build && (config.run_method is OutOfPlace || config.run_method
        is Exclusive)
}

/// A fresh worker: nothing taken, nothing recorded.
pub open spec fn initial(config: WorkerConfig) -> WorkerState {
    WorkerState {
        config,
        run_data: JsonView::Null,
        compile_errors: Seq::empty(),
        processed_ids: Seq::empty(),
        phase: PhaseView::Idle,
        ledger: Ledger {
            taken_ids: Seq::empty(),
            taken_data: Seq::empty(),
            handed_ids: Seq::empty(),
            error_ids: Seq::empty(),
            staged_ids: Seq::empty(),
            run_ids: Seq::empty(),
            records: Seq::empty(),
        },
    }
}

/// The state with the worker retired.
pub open spec fn finished(s: WorkerState) -> WorkerState {
    WorkerState { phase: PhaseView::Finished, ..s }
}

/// The state with the item in flight committed: its id will not be retried.
pub open spec fn committed(s: WorkerState, id: usize) -> WorkerState {
    WorkerState { phase: PhaseView::Idle, processed_ids: s.processed_ids.push(id), ..s }
}

/// An item arrives from the worker's queue.
///
/// An idle build worker starts compiling it; an idle run worker starts
/// running it. In any other phase the event is rejected.
pub open spec fn step_take(s: WorkerState, id: usize, data: JsonView) -> (
    WorkerState,
    WorkerAction,
) {
    if s.phase is Idle {
        let ledger = Ledger {
            taken_ids: s.ledger.taken_ids.push(id),
            taken_data: s.ledger.taken_data.push(data),
            ..s.ledger
        };
        match s.config.role {
            Role::Build => (
                WorkerState { phase: PhaseView::Compiling { id, data }, ledger, ..s },
                WorkerAction::Compile { cppflags: s.config.enable_cppflags },
            ),
            Role::Run => (
                WorkerState { phase: PhaseView::Dispatching { id, data }, ledger, ..s },
                WorkerAction::Run,
            ),
        }
    } else {
        (s, WorkerAction::Rejected)
    }
}

/// The compile command of the item in flight has ended.
///
/// With a stop requested the item is abandoned and the worker retires.
/// A failed compile is handled by the policy: `Panic` faults; `Collect`
/// records the binding and commits the id; `Ignore` only commits the id.
/// A successful compile is dispatched by the topology: run in place, stage
/// with a sidecar file, or stage and hand off.
pub open spec fn step_compiled(s: WorkerState, success: bool, stop: bool) -> (
    WorkerState,
    WorkerAction,
) {
    match s.phase {
        PhaseView::Compiling { id, data } => {
            if stop {
                (finished(s), WorkerAction::Stop)
            } else if !success {
                let skip = WorkerAction::Continue {
                    save: false,
                    run_tick: s.config.run_method != RunMethod::No,
                };
                match s.config.policy {
                    CompliationErrorHandlingMethod::Panic => (
                        finished(s),
                        WorkerAction::Fault(Fault::CompileFailed),
                    ),
                    CompliationErrorHandlingMethod::Collect => (
                        WorkerState {
                            compile_errors: s.compile_errors.push(data),
                            ledger: Ledger { error_ids: s.ledger.error_ids.push(id), ..s.ledger },
                            ..committed(s, id)
                        },
                        skip,
                    ),
                    CompliationErrorHandlingMethod::Ignore => (committed(s, id), skip),
                }
            } else {
                let dispatching = WorkerState { phase: PhaseView::Dispatching { id, data }, ..s };
                match s.config.run_method {
                    RunMethod::InPlace => (dispatching, WorkerAction::Run),
                    RunMethod::No => (
                        dispatching,
                        WorkerAction::Stage { sidecar: true, handoff: false },
                    ),
                    _ => (
                        WorkerState {
                            ledger: Ledger {
                                handed_ids: s.ledger.handed_ids.push(id),
                                ..s.ledger
                            },
                            ..dispatching
                        },
                        WorkerAction::Stage { sidecar: false, handoff: true },
                    ),
                }
            }
        },
        _ => (s, WorkerAction::Rejected),
    }
}

/// The artifacts of the item in flight have been staged.
///
/// With a stop requested the worker retires without committing. Otherwise
/// the compile-only topology commits the id, and a topology with run
/// workers leaves the commit to the run worker.
pub open spec fn step_staged(s: WorkerState, stop: bool, elapsed: u64) -> (
    WorkerState,
    WorkerAction,
) {
    match s.phase {
        PhaseView::Dispatching { id, data } => {
            if s.config.role == Role::Build && s.config.run_method != RunMethod::InPlace {
                if stop {
                    (finished(s), WorkerAction::Stop)
                } else {
                    let next = WorkerAction::Continue {
                        save: autosave_due(s.config.autosave_interval, elapsed),
                        run_tick: false,
                    };
                    if s.config.run_method == RunMethod::No {
                        (
                            WorkerState {
                                ledger: Ledger {
                                    staged_ids: s.ledger.staged_ids.push(id),
                                    ..s.ledger
                                },
                                ..committed(s, id)
                            },
                            next,
                        )
                    } else {
                        (WorkerState { phase: PhaseView::Idle, ..s }, next)
                    }
                }
            } else {
                (s, WorkerAction::Rejected)
            }
        },
        _ => (s, WorkerAction::Rejected),
    }
}

/// The run command of the item in flight has ended, under a default
/// strategy.
///
/// `PanicOnError` faults on an unsuccessful exit. Otherwise, with a stop
/// requested, nothing is recorded or committed and the worker retires;
/// without one, the record is appended to the run data and the id is
/// committed.
pub open spec fn step_ran(s: WorkerState, output: RunOutput, stop: bool, elapsed: u64) -> (
    WorkerState,
    WorkerAction,
) {
    match s.phase {
        PhaseView::Dispatching { id, data } => {
            if runs_here(s.config) && s.config.run_func != RunFunc::Custom {
                if s.config.run_func == RunFunc::PanicOnError && !exited_successfully(
                    output.code,
                ) {
                    (finished(s), WorkerAction::Fault(Fault::RunFailed))
                } else if stop {
                    (finished(s), WorkerAction::Stop)
                } else {
                    let record = record_view(output.code, output.stdout@, output.stderr@, data);
                    (
                        WorkerState {
                            run_data: appended(s.run_data, record),
                            ledger: Ledger {
                                run_ids: s.ledger.run_ids.push(id),
                                records: s.ledger.records.push(record),
                                ..s.ledger
                            },
                            ..committed(s, id)
                        },
                        WorkerAction::Continue {
                            save: autosave_due(s.config.autosave_interval, elapsed),
                            run_tick: true,
                        },
                    )
                }
            } else {
                (s, WorkerAction::Rejected)
            }
        },
        _ => (s, WorkerAction::Rejected),
    }
}

/// A custom run hook has returned for the item in flight, leaving
/// `run_data` as the worker's run data.
///
/// The run data is taken as the hook left it. With a stop requested the
/// worker retires without committing; without one the id is committed.
pub open spec fn step_ran_custom(s: WorkerState, run_data: JsonView, stop: bool, elapsed: u64) -> (
    WorkerState,
    WorkerAction,
) {
    match s.phase {
        PhaseView::Dispatching { id, data } => {
            if runs_here(s.config) && s.config.run_func == RunFunc::Custom {
                if stop {
                    (WorkerState { run_data, ..finished(s) }, WorkerAction::Stop)
                } else {
                    (
                        WorkerState { run_data, ..committed(s, id) },
                        WorkerAction::Continue {
                            save: autosave_due(s.config.autosave_interval, elapsed),
                            run_tick: true,
                        },
                    )
                }
            } else {
                (s, WorkerAction::Rejected)
            }
        },
        _ => (s, WorkerAction::Rejected),
    }
}

/// Whether the worker took an item with this id and this binding.
pub open spec fn was_taken(ledger: Ledger, id: usize, data: JsonView) -> bool {
    exists|k: int|
        0 <= k < ledger.taken_ids.len() && k < ledger.taken_data.len()
            && #[trigger] ledger.taken_ids[k] == id && ledger.taken_data[k] == data
}

/// The ids that are in flight and not yet accounted for elsewhere.
pub open spec fn pending(s: WorkerState) -> Seq<usize> {
    match s.phase {
        PhaseView::Compiling { id, data } => seq![id],
        PhaseView::Dispatching { id, data } => if hands_off(s.config) {
            Seq::empty()
        } else {
            seq![id]
        },
        _ => Seq::empty(),
    }
}

/// The ids that the worker has committed, handed off or still holds.
pub open spec fn accounted(s: WorkerState) -> Multiset<usize> {
    s.processed_ids.to_multiset().add(s.ledger.handed_ids.to_multiset()).add(
        pending(s).to_multiset(),
    )
}

/// The run data that a default strategy builds from these records.
pub open spec fn run_data_of(records: Seq<JsonView>) -> JsonView {
    if records.len() == 0 {
        JsonView::Null
    } else {
        JsonView::Array(records)
    }
}

/// The binding held by a record under its first key, `data`.
pub open spec fn record_data(record: JsonView) -> JsonView {
    record->Object_0[0].1
}

/// Whether a worker with this configuration commits an id only for a
/// recorded run, a collected compile error or staged artifacts: it is a
/// run worker under a default strategy, or a build worker that does not
/// ignore failed compiles and, if it runs in place, runs under a default
/// strategy.
pub open spec fn exact_accounting(config: WorkerConfig) -> bool {
    match config.role {
        Role::Run => config.run_func != RunFunc::Custom,
        Role::Build => config.policy != CompliationErrorHandlingMethod::Ignore && (
        config.run_method != RunMethod::InPlace || config.run_func != RunFunc::Custom),
    }
}

/// The ids that the worker committed for a reason it keeps: a recorded
/// run, a collected compile error, or staged artifacts.
pub open spec fn settled(s: WorkerState) -> Multiset<usize> {
    s.ledger.run_ids.to_multiset().add(s.ledger.error_ids.to_multiset()).add(
        s.ledger.staged_ids.to_multiset(),
    )
}

/// What holds of a worker in every state it can reach.
///
/// * Every id that is committed, handed off or in flight was taken, and no
///   more often than it was taken.
/// * Every recorded run, every collected compile error and every staging
///   that was committed belongs to a committed id, each to one of its
///   own; under [`exact_accounting`] the committed ids are exactly those.
/// * A worker that does not run records no run, only a build worker of
///   the compile-only topology commits for staged artifacts, and a run
///   worker collects no compile error and hands nothing off.
/// * Each collected compile error is the binding that was taken with its id.
/// * Under a default strategy the run data is `null` or the array of the
///   records, and each record holds the binding that was taken with its id.
pub open spec fn inv(s: WorkerState) -> bool {
    &&& s.ledger.taken_ids.len() == s.ledger.taken_data.len()
    &&& accounted(s).subset_of(s.ledger.taken_ids.to_multiset())
    &&& settled(s).subset_of(s.processed_ids.to_multiset())
    &&& exact_accounting(s.config) ==> settled(s) =~= s.processed_ids.to_multiset()
    &&& !runs_here(s.config) ==> s.ledger.run_ids.len() == 0
    &&& !(s.config.role == Role::Build && s.config.run_method == RunMethod::No)
        ==> s.ledger.staged_ids.len() == 0
    &&& s.config.role == Role::Run ==> s.ledger.error_ids.len() == 0 && s.ledger.handed_ids.len()
        == 0
    &&& s.compile_errors.len() == s.ledger.error_ids.len()
    &&& forall|j: int|
        0 <= j < s.compile_errors.len() ==> was_taken(
            s.ledger,
            #[trigger] s.ledger.error_ids[j],
            s.compile_errors[j],
        )
    &&& s.ledger.records.len() == s.ledger.run_ids.len()
    &&& forall|j: int|
        0 <= j < s.ledger.records.len() ==> was_taken(
            s.ledger,
            #[trigger] s.ledger.run_ids[j],
            record_data(s.ledger.records[j]),
        )
    &&& s.config.run_func != RunFunc::Custom ==> s.run_data == run_data_of(s.ledger.records)
    &&& match s.phase {
        PhaseView::Compiling { id, data } => s.config.role == Role::Build && was_taken(
            s.ledger,
            id,
            data,
        ),
        PhaseView::Dispatching { id, data } => was_taken(s.ledger, id, data),
        _ => true,
    }
}

/// A fresh worker satisfies the invariant.
pub proof fn lemma_initial_inv(config: WorkerConfig)
    ensures
        inv(initial(config)),
{
    broadcast use {vstd::multiset::group_multiset_axioms, vstd::seq_lib::group_to_multiset_ensures};

    let s = initial(config);
    assert(pending(s) =~= Seq::<usize>::empty());
    assert(Seq::<usize>::empty().to_multiset() =~= Multiset::<usize>::empty());
    assert(accounted(s) =~= Multiset::<usize>::empty());
    assert(settled(s) =~= Multiset::<usize>::empty());
}

proof fn lemma_singleton_multiset(id: usize)
    ensures
        seq![id].to_multiset() =~= Multiset::<usize>::empty().insert(id),
        Seq::<usize>::empty().to_multiset() =~= Multiset::<usize>::empty(),
{
    broadcast use {vstd::multiset::group_multiset_axioms, vstd::seq_lib::group_to_multiset_ensures};

    assert(Seq::<usize>::empty().push(id) =~= seq![id]);
}

proof fn lemma_was_taken_kept(before: Ledger, after: Ledger, id: usize, data: JsonView)
    requires
        was_taken(before, id, data),
        before.taken_ids.len() == before.taken_data.len(),
        after.taken_ids.len() == after.taken_data.len(),
        before.taken_ids.len() <= after.taken_ids.len(),
        forall|k: int|
            0 <= k < before.taken_ids.len() ==> after.taken_ids[k] == before.taken_ids[k]
                && after.taken_data[k] == before.taken_data[k],
    ensures
        was_taken(after, id, data),
{
    let k = choose|k: int|
        0 <= k < before.taken_ids.len() && k < before.taken_data.len()
            && #[trigger] before.taken_ids[k] == id && before.taken_data[k] == data;
    assert(after.taken_ids[k] == id && after.taken_data[k] == data);
}

/// Whether every collected compile error and every record goes back to
/// an item that was taken.
spec fn traced(s: WorkerState) -> bool {
    &&& s.compile_errors.len() == s.ledger.error_ids.len()
    &&& forall|j: int|
        0 <= j < s.compile_errors.len() ==> was_taken(
            s.ledger,
            #[trigger] s.ledger.error_ids[j],
            s.compile_errors[j],
        )
    &&& s.ledger.records.len() == s.ledger.run_ids.len()
    &&& forall|j: int|
        0 <= j < s.ledger.records.len() ==> was_taken(
            s.ledger,
            #[trigger] s.ledger.run_ids[j],
            record_data(s.ledger.records[j]),
        )
}

/// What is traced stays traced while the items taken stay, whatever is
/// taken in addition, and while errors and records stay or grow by an item
/// that was taken.
proof fn lemma_traced_kept(s: WorkerState, t: WorkerState)
    requires
        traced(s),
        s.ledger.taken_ids.len() == s.ledger.taken_data.len(),
        t.ledger.taken_ids.len() == t.ledger.taken_data.len(),
        s.ledger.taken_ids.len() <= t.ledger.taken_ids.len(),
        forall|k: int|
            0 <= k < s.ledger.taken_ids.len() ==> t.ledger.taken_ids[k] == s.ledger.taken_ids[k]
                && t.ledger.taken_data[k] == s.ledger.taken_data[k],
        t.compile_errors.len() == t.ledger.error_ids.len(),
        s.compile_errors.len() <= t.compile_errors.len(),
        forall|j: int|
            0 <= j < s.compile_errors.len() ==> t.compile_errors[j] == s.compile_errors[j]
                && t.ledger.error_ids[j] == s.ledger.error_ids[j],
        forall|j: int|
            s.compile_errors.len() <= j < t.compile_errors.len() ==> was_taken(
                s.ledger,
                t.ledger.error_ids[j],
                t.compile_errors[j],
            ),
        t.ledger.records.len() == t.ledger.run_ids.len(),
        s.ledger.records.len() <= t.ledger.records.len(),
        forall|j: int|
            0 <= j < s.ledger.records.len() ==> t.ledger.records[j] == s.ledger.records[j]
                && t.ledger.run_ids[j] == s.ledger.run_ids[j],
        forall|j: int|
            s.ledger.records.len() <= j < t.ledger.records.len() ==> was_taken(
                s.ledger,
                t.ledger.run_ids[j],
                record_data(t.ledger.records[j]),
            ),
    ensures
        traced(t),
{
    assert forall|j: int| 0 <= j < t.compile_errors.len() implies was_taken(
        t.ledger,
        #[trigger] t.ledger.error_ids[j],
        t.compile_errors[j],
    ) by {
        if j < s.compile_errors.len() {
            assert(was_taken(s.ledger, s.ledger.error_ids[j], s.compile_errors[j]));
        }
        lemma_was_taken_kept(s.ledger, t.ledger, t.ledger.error_ids[j], t.compile_errors[j]);
    }
    assert forall|j: int| 0 <= j < t.ledger.records.len() implies was_taken(
        t.ledger,
        #[trigger] t.ledger.run_ids[j],
        record_data(t.ledger.records[j]),
    ) by {
        if j < s.ledger.records.len() {
            assert(was_taken(s.ledger, s.ledger.run_ids[j], record_data(s.ledger.records[j])));
        }
        lemma_was_taken_kept(
            s.ledger,
            t.ledger,
            t.ledger.run_ids[j],
            record_data(t.ledger.records[j]),
        );
    }
}

/// Committing an id for a reason that is kept: the committed ids and the
/// settled ids both grow by the id.
proof fn lemma_commit_settles(s: WorkerState, t: WorkerState, id: usize)
    requires
        t.processed_ids == s.processed_ids.push(id),
        settled(t) =~= settled(s).insert(id),
        settled(s).subset_of(s.processed_ids.to_multiset()),
    ensures
        settled(t).subset_of(t.processed_ids.to_multiset()),
        settled(s) =~= s.processed_ids.to_multiset() ==> settled(t) =~= t.processed_ids.to_multiset(),
{
    broadcast use {vstd::multiset::group_multiset_axioms, vstd::seq_lib::group_to_multiset_ensures};

    assert(t.processed_ids.to_multiset() =~= s.processed_ids.to_multiset().insert(id));
}

/// Taking an item preserves the invariant.
pub proof fn lemma_take_inv(s: WorkerState, id: usize, data: JsonView)
    requires
        inv(s),
    ensures
        inv(step_take(s, id, data).0),
{
    broadcast use {vstd::multiset::group_multiset_axioms, vstd::seq_lib::group_to_multiset_ensures};

    let t = step_take(s, id, data).0;
    if s.phase is Idle {
        lemma_singleton_multiset(id);
        assert(pending(s) =~= Seq::<usize>::empty());
        assert(!hands_off(s.config) || s.config.role == Role::Build);
        if s.config.role == Role::Run {
            assert(!hands_off(s.config));
        }
        assert(pending(t) =~= seq![id]);
        assert(t.ledger.taken_ids.to_multiset() =~= s.ledger.taken_ids.to_multiset().insert(id));
        assert(accounted(t) =~= accounted(s).insert(id));
        assert(accounted(t).subset_of(t.ledger.taken_ids.to_multiset()));
        assert(settled(t) == settled(s));
        assert(traced(s));
        lemma_traced_kept(s, t);
        let k = s.ledger.taken_ids.len() as int;
        assert(t.ledger.taken_ids[k] == id && t.ledger.taken_data[k] == data);
        assert(was_taken(t.ledger, id, data));
    }
}

/// The end of a compile preserves the invariant.
pub proof fn lemma_compiled_inv(s: WorkerState, success: bool, stop: bool)
    requires
        inv(s),
    ensures
        inv(step_compiled(s, success, stop).0),
{
    broadcast use {vstd::multiset::group_multiset_axioms, vstd::seq_lib::group_to_multiset_ensures};

    let t = step_compiled(s, success, stop).0;
    match s.phase {
        PhaseView::Compiling { id, data } => {
            lemma_singleton_multiset(id);
            assert(s.config.role == Role::Build);
            assert(pending(s) =~= seq![id]);
            assert(traced(s));
            assert(was_taken(s.ledger, id, data));
            if stop || (!success && s.config.policy == CompliationErrorHandlingMethod::Panic) {
                assert(t == finished(s));
                assert(pending(t) =~= Seq::<usize>::empty());
                assert(accounted(t).subset_of(accounted(s)));
                assert(settled(t) == settled(s));
                lemma_traced_kept(s, t);
            } else if !success {
                assert(pending(t) =~= Seq::<usize>::empty());
                assert(t.processed_ids == s.processed_ids.push(id));
                assert(t.processed_ids.to_multiset() =~= s.processed_ids.to_multiset().insert(id));
                assert(accounted(t) =~= accounted(s));
                if s.config.policy == CompliationErrorHandlingMethod::Collect {
                    assert(t.ledger.error_ids == s.ledger.error_ids.push(id));
                    assert(t.compile_errors == s.compile_errors.push(data));
                    assert(t.ledger.error_ids.to_multiset() =~= s.ledger.error_ids.to_multiset().insert(
                        id,
                    ));
                    assert(settled(t) =~= settled(s).insert(id));
                    lemma_commit_settles(s, t, id);
                    lemma_traced_kept(s, t);
                } else {
                    assert(s.config.policy == CompliationErrorHandlingMethod::Ignore);
                    assert(!exact_accounting(s.config));
                    assert(settled(t) == settled(s));
                    assert(settled(t).subset_of(t.processed_ids.to_multiset()));
                    lemma_traced_kept(s, t);
                }
            } else {
                assert(t.phase == PhaseView::Dispatching { id, data });
                assert(t.processed_ids == s.processed_ids);
                assert(settled(t) == settled(s));
                if hands_off(s.config) {
                    assert(t.ledger.handed_ids == s.ledger.handed_ids.push(id));
                    assert(t.ledger.handed_ids.to_multiset() =~= s.ledger.handed_ids.to_multiset().insert(
                        id,
                    ));
                    assert(pending(t) =~= Seq::<usize>::empty());
                } else {
                    assert(s.config.run_method == RunMethod::InPlace || s.config.run_method
                        == RunMethod::No);
                    assert(t.ledger == s.ledger);
                    assert(pending(t) =~= seq![id]);
                }
                assert(accounted(t) =~= accounted(s));
                lemma_traced_kept(s, t);
                assert(was_taken(t.ledger, id, data)) by {
                    lemma_was_taken_kept(s.ledger, t.ledger, id, data);
                }
            }
        },
        _ => {},
    }
}

/// The end of staging preserves the invariant.
pub proof fn lemma_staged_inv(s: WorkerState, stop: bool, elapsed: u64)
    requires
        inv(s),
    ensures
        inv(step_staged(s, stop, elapsed).0),
{
    broadcast use {vstd::multiset::group_multiset_axioms, vstd::seq_lib::group_to_multiset_ensures};

    let t = step_staged(s, stop, elapsed).0;
    match s.phase {
        PhaseView::Dispatching { id, data } => {
            lemma_singleton_multiset(id);
            assert(traced(s));
            if s.config.role == Role::Build && s.config.run_method != RunMethod::InPlace {
                assert(pending(t) =~= Seq::<usize>::empty());
                if stop {
                    assert(t == finished(s));
                    assert(accounted(t).subset_of(accounted(s)));
                    assert(settled(t) == settled(s));
                } else if s.config.run_method == RunMethod::No {
                    assert(!hands_off(s.config));
                    assert(pending(s) =~= seq![id]);
                    assert(t.processed_ids == s.processed_ids.push(id));
                    assert(t.processed_ids.to_multiset() =~= s.processed_ids.to_multiset().insert(id));
                    assert(accounted(t) =~= accounted(s));
                    assert(t.ledger.staged_ids == s.ledger.staged_ids.push(id));
                    assert(t.ledger.staged_ids.to_multiset() =~= s.ledger.staged_ids.to_multiset().insert(
                        id,
                    ));
                    assert(settled(t) =~= settled(s).insert(id));
                    lemma_commit_settles(s, t, id);
                } else {
                    assert(hands_off(s.config));
                    assert(pending(s) =~= Seq::<usize>::empty());
                    assert(t.processed_ids == s.processed_ids);
                    assert(t.ledger == s.ledger);
                    assert(accounted(t) =~= accounted(s));
                    assert(settled(t) == settled(s));
                }
                lemma_traced_kept(s, t);
            }
        },
        _ => {},
    }
}

/// Appending to the run data of some records gives the run data of one
/// more record.
pub proof fn lemma_run_data_push(records: Seq<JsonView>, record: JsonView)
    ensures
        appended(run_data_of(records), record) == run_data_of(records.push(record)),
{
    if records.len() == 0 {
        assert(records.push(record) =~= seq![record]);
    }
}

/// The end of a run under a default strategy preserves the invariant.
pub proof fn lemma_ran_inv(s: WorkerState, output: RunOutput, stop: bool, elapsed: u64)
    requires
        inv(s),
    ensures
        inv(step_ran(s, output, stop, elapsed).0),
{
    broadcast use {vstd::multiset::group_multiset_axioms, vstd::seq_lib::group_to_multiset_ensures};

    let t = step_ran(s, output, stop, elapsed).0;
    match s.phase {
        PhaseView::Dispatching { id, data } => {
            lemma_singleton_multiset(id);
            assert(traced(s));
            assert(was_taken(s.ledger, id, data));
            if runs_here(s.config) && s.config.run_func != RunFunc::Custom {
                assert(!hands_off(s.config));
                assert(pending(s) =~= seq![id]);
                assert(pending(t) =~= Seq::<usize>::empty());
                if (s.config.run_func == RunFunc::PanicOnError && !exited_successfully(
                    output.code,
                )) || stop {
                    assert(t == finished(s));
                    assert(accounted(t).subset_of(accounted(s)));
                    assert(settled(t) == settled(s));
                    lemma_traced_kept(s, t);
                } else {
                    let record = record_view(output.code, output.stdout@, output.stderr@, data);
                    assert(t.processed_ids == s.processed_ids.push(id));
                    assert(t.processed_ids.to_multiset() =~= s.processed_ids.to_multiset().insert(id));
                    assert(accounted(t) =~= accounted(s));
                    assert(t.ledger.run_ids == s.ledger.run_ids.push(id));
                    assert(t.ledger.records == s.ledger.records.push(record));
                    assert(t.ledger.run_ids.to_multiset() =~= s.ledger.run_ids.to_multiset().insert(id));
                    assert(settled(t) =~= settled(s).insert(id));
                    lemma_commit_settles(s, t, id);
                    lemma_run_data_push(s.ledger.records, record);
                    assert(record_data(record) == data);
                    lemma_traced_kept(s, t);
                }
            }
        },
        _ => {},
    }
}

/// The return of a custom run hook preserves the invariant.
pub proof fn lemma_ran_custom_inv(s: WorkerState, run_data: JsonView, stop: bool, elapsed: u64)
    requires
        inv(s),
    ensures
        inv(step_ran_custom(s, run_data, stop, elapsed).0),
{
    broadcast use {vstd::multiset::group_multiset_axioms, vstd::seq_lib::group_to_multiset_ensures};

    let t = step_ran_custom(s, run_data, stop, elapsed).0;
    match s.phase {
        PhaseView::Dispatching { id, data } => {
            lemma_singleton_multiset(id);
            assert(traced(s));
            if runs_here(s.config) && s.config.run_func == RunFunc::Custom {
                assert(!hands_off(s.config));
                assert(!exact_accounting(s.config));
                assert(pending(s) =~= seq![id]);
                assert(pending(t) =~= Seq::<usize>::empty());
                assert(settled(t) == settled(s));
                if stop {
                    assert(t.processed_ids == s.processed_ids);
                    assert(accounted(t).subset_of(accounted(s)));
                } else {
                    assert(t.processed_ids == s.processed_ids.push(id));
                    assert(t.processed_ids.to_multiset() =~= s.processed_ids.to_multiset().insert(id));
                    assert(accounted(t) =~= accounted(s));
                    assert(settled(t).subset_of(t.processed_ids.to_multiset()));
                }
                lemma_traced_kept(s, t);
            }
        },
        _ => {},
    }
}

/// What a worker in this state hands over when it is joined.
pub open spec fn output_of(s: WorkerState) -> WorkerOutputView {
    WorkerOutputView {
        run_data: s.run_data,
        compile_errors: s.compile_errors,
        processed_ids: s.processed_ids,
    }
}

/// One build or run worker.
pub struct Worker {
    config: WorkerConfig,
    run_data: Json,
    compile_errors: Vec<Json>,
    processed_ids: Vec<usize>,
    phase: Phase,
    ledger: Ghost<Ledger>,
}

impl View for Worker {
    type V = WorkerState;

    closed spec fn view(&self) -> WorkerState {
        WorkerState {
            config: self.config,
            run_data: self.run_data@,
            compile_errors: views(self.compile_errors@),
            processed_ids: self.processed_ids@,
            phase: self.phase@,
            ledger: self.ledger@,
        }
    }
}

impl Worker {
    /// Whether the worker is in a state that it can reach from a fresh one.
    pub open spec fn wf(&self) -> bool {
        inv(self@)
    }

    /// A fresh worker with this configuration.
    pub fn new(config: WorkerConfig) -> (w: Worker)
        ensures
            w.wf(),
            w@ == initial(config),
    {
        let w = Worker {
            config,
            run_data: Json::Null,
            compile_errors: Vec::new(),
            processed_ids: Vec::new(),
            phase: Phase::Idle,
            ledger: Ghost(initial(config).ledger),
        };
        proof {
            lemma_initial_inv(config);
            assert(views(w.compile_errors@) =~= Seq::<JsonView>::empty());
            assert(w.processed_ids@ =~= Seq::<usize>::empty());
        }
        w
    }

    /// The configuration the worker was made with.
    pub fn config(&self) -> (c: WorkerConfig)
        ensures
            c == self@.config,
    {
        self.config
    }

    /// The run data gathered so far.
    pub fn run_data(&self) -> (r: &Json)
        ensures
            r@ == self@.run_data,
    {
        &self.run_data
    }

    /// The bindings whose compile failed and was collected, in order.
    pub fn compile_errors(&self) -> (r: &Vec<Json>)
        ensures
            views(r@) == self@.compile_errors,
    {
        &self.compile_errors
    }

    /// The ids committed so far, in order.
    pub fn processed_ids(&self) -> (r: &Vec<usize>)
        ensures
            r@ == self@.processed_ids,
    {
        &self.processed_ids
    }

    /// Whether the worker has stopped or faulted.
    pub fn is_finished(&self) -> (b: bool)
        ensures
            b == (self@.phase is Finished),
    {
        match self.phase {
            Phase::Finished => true,
            _ => false,
        }
    }

    fn autosave_is_due(&self, elapsed: u64) -> (due: bool)
        ensures
            due == autosave_due(self@.config.autosave_interval, elapsed),
    {
        self.config.autosave_interval > 0 && elapsed > self.config.autosave_interval
    }

    fn commit(&mut self, id: usize)
        ensures
            final(self).config == old(self).config,
            final(self).run_data == old(self).run_data,
            final(self).compile_errors == old(self).compile_errors,
            final(self).ledger == old(self).ledger,
            final(self).processed_ids@ == old(self).processed_ids@.push(id),
            final(self).phase@ is Idle,
    {
        self.processed_ids.push(id);
        self.phase = Phase::Idle;
    }

    /// An item arrives from the worker's queue: see [`step_take`].
    pub fn take(&mut self, id: usize, data: Json) -> (action: WorkerAction)
        requires
            old(self).wf(),
        ensures
            final(self).wf(),
            (final(self)@, action) == step_take(old(self)@, id, data@),
    {
        proof {
            lemma_take_inv(self@, id, data@);
        }
        match self.phase {
            Phase::Idle => {},
            _ => {
                return WorkerAction::Rejected;
            },
        }
        let ghost before = self@;
        self.ledger = Ghost(
            Ledger {
                taken_ids: before.ledger.taken_ids.push(id),
                taken_data: before.ledger.taken_data.push(data@),
                ..before.ledger
            },
        );
        match self.config.role {
            Role::Build => {
                self.phase = Phase::Compiling { id, data };
                WorkerAction::Compile { cppflags: self.config.enable_cppflags }
            },
            Role::Run => {
                self.phase = Phase::Dispatching { id, data };
                WorkerAction::Run
            },
        }
    }

    /// The compile command of the item in flight has ended, successfully or
    /// not, and `stop` tells whether a stop has been requested: see
    /// [`step_compiled`].
    pub fn compiled(&mut self, success: bool, stop: bool) -> (action: WorkerAction)
        requires
            old(self).wf(),
        ensures
            final(self).wf(),
            (final(self)@, action) == step_compiled(old(self)@, success, stop),
    {
        proof {
            lemma_compiled_inv(self@, success, stop);
        }
        let ghost before = self@;
        let mut phase = Phase::Finished;
        std::mem::swap(&mut self.phase, &mut phase);
        match phase {
            Phase::Compiling { id, data } => {
                if stop {
                    WorkerAction::Stop
                } else if !success {
                    let skip = WorkerAction::Continue {
                        save: false,
                        run_tick: self.config.run_method != RunMethod::No,
                    };
                    match self.config.policy {
                        CompliationErrorHandlingMethod::Panic => WorkerAction::Fault(
                            Fault::CompileFailed,
                        ),
                        CompliationErrorHandlingMethod::Collect => {
                            self.compile_errors.push(data);
                            self.ledger = Ghost(
                                Ledger {
                                    error_ids: before.ledger.error_ids.push(id),
                                    ..before.ledger
                                },
                            );
                            self.commit(id);
                            proof {
                                assert(views(self.compile_errors@) =~= before.compile_errors.push(
                                    data@,
                                ));
                            }
                            skip
                        },
                        CompliationErrorHandlingMethod::Ignore => {
                            self.commit(id);
                            skip
                        },
                    }
                } else {
                    self.phase = Phase::Dispatching { id, data };
                    match self.config.run_method {
                        RunMethod::InPlace => WorkerAction::Run,
                        RunMethod::No => WorkerAction::Stage { sidecar: true, handoff: false },
                        _ => {
                            self.ledger = Ghost(
                                Ledger {
                                    handed_ids: before.ledger.handed_ids.push(id),
                                    ..before.ledger
                                },
                            );
                            WorkerAction::Stage { sidecar: false, handoff: true }
                        },
                    }
                }
            },
            other => {
                self.phase = other;
                WorkerAction::Rejected
            },
        }
    }

    /// The artifacts of the item in flight have been staged; `stop` tells
    /// whether a stop has been requested and `elapsed` how many seconds
    /// have passed since the worker's last checkpoint: see [`step_staged`].
    pub fn staged(&mut self, stop: bool, elapsed: u64) -> (action: WorkerAction)
        requires
            old(self).wf(),
        ensures
            final(self).wf(),
            (final(self)@, action) == step_staged(old(self)@, stop, elapsed),
    {
        proof {
            lemma_staged_inv(self@, stop, elapsed);
        }
        let ghost before = self@;
        let stages = match self.config.role {
            Role::Build => self.config.run_method != RunMethod::InPlace,
            Role::Run => false,
        };
        let mut phase = Phase::Finished;
        std::mem::swap(&mut self.phase, &mut phase);
        match phase {
            Phase::Dispatching { id, data } => {
                if !stages {
                    self.phase = Phase::Dispatching { id, data };
                    WorkerAction::Rejected
                } else if stop {
                    WorkerAction::Stop
                } else {
                    let next = WorkerAction::Continue {
                        save: self.autosave_is_due(elapsed),
                        run_tick: false,
                    };
                    if self.config.run_method == RunMethod::No {
                        self.ledger = Ghost(
                            Ledger {
                                staged_ids: before.ledger.staged_ids.push(id),
                                ..before.ledger
                            },
                        );
                        self.commit(id);
                    } else {
                        self.phase = Phase::Idle;
                    }
                    next
                }
            },
            other => {
                self.phase = other;
                WorkerAction::Rejected
            },
        }
    }

    /// The run command of the item in flight has ended with `output`,
    /// under a default strategy; `stop` and `elapsed` are as for
    /// [`Worker::staged`]: see [`step_ran`].
    pub fn ran(&mut self, output: RunOutput, stop: bool, elapsed: u64) -> (action: WorkerAction)
        requires
            old(self).wf(),
        ensures
            final(self).wf(),
            (final(self)@, action) == step_ran(old(self)@, output, stop, elapsed),
    {
        proof {
            lemma_ran_inv(self@, output, stop, elapsed);
        }
        let ghost before = self@;
        let runs = match self.config.role {
            Role::Run => true,
            Role::Build => self.config.run_method == RunMethod::InPlace,
        };
        let mut phase = Phase::Finished;
        std::mem::swap(&mut self.phase, &mut phase);
        match phase {
            Phase::Dispatching { id, data } => {
                if !runs || self.config.run_func == RunFunc::Custom {
                    self.phase = Phase::Dispatching { id, data };
                    return WorkerAction::Rejected;
                }
                let recorded = if self.config.run_func == RunFunc::PanicOnError {
                    match run_func_data_panic_on_error(output, &data, &mut self.run_data, stop) {
                        Ok(_) => true,
                        Err(_) => false,
                    }
                } else {
                    let _ = run_func_data_ignore_on_error(output, &data, &mut self.run_data, stop);
                    true
                };
                if !recorded {
                    WorkerAction::Fault(Fault::RunFailed)
                } else if stop {
                    WorkerAction::Stop
                } else {
                    let ghost record = record_view(
                        output.code,
                        output.stdout@,
                        output.stderr@,
                        data@,
                    );
                    self.ledger = Ghost(
                        Ledger {
                            run_ids: before.ledger.run_ids.push(id),
                            records: before.ledger.records.push(record),
                            ..before.ledger
                        },
                    );
                    let next = WorkerAction::Continue {
                        save: self.autosave_is_due(elapsed),
                        run_tick: true,
                    };
                    self.commit(id);
                    next
                }
            },
            other => {
                self.phase = other;
                WorkerAction::Rejected
            },
        }
    }

    /// A custom run hook has returned for the item in flight and left
    /// `run_data` behind; `stop` and `elapsed` are as for
    /// [`Worker::staged`]: see [`step_ran_custom`].
    pub fn ran_custom(&mut self, run_data: Json, stop: bool, elapsed: u64) -> (action:
        WorkerAction)
        requires
            old(self).wf(),
        ensures
            final(self).wf(),
            (final(self)@, action) == step_ran_custom(old(self)@, run_data@, stop, elapsed),
    {
        proof {
            lemma_ran_custom_inv(self@, run_data@, stop, elapsed);
        }
        let runs = match self.config.role {
            Role::Run => true,
            Role::Build => self.config.run_method == RunMethod::InPlace,
        };
        let mut phase = Phase::Finished;
        std::mem::swap(&mut self.phase, &mut phase);
        match phase {
            Phase::Dispatching { id, data } => {
                if !runs || self.config.run_func != RunFunc::Custom {
                    self.phase = Phase::Dispatching { id, data };
                    return WorkerAction::Rejected;
                }
                self.run_data = run_data;
                if stop {
                    WorkerAction::Stop
                } else {
                    let next = WorkerAction::Continue {
                        save: self.autosave_is_due(elapsed),
                        run_tick: true,
                    };
                    self.commit(id);
                    next
                }
            },
            other => {
                self.phase = other;
                WorkerAction::Rejected
            },
        }
    }

    /// Takes the run data out of the worker for a custom run hook to work
    /// on, leaving `null`; [`Worker::ran_custom`] puts the result back.
    /// Rejected (with `None`) unless the worker's strategy is custom.
    pub fn lend_run_data(&mut self) -> (lent: Option<Json>)
        requires
            old(self).wf(),
        ensures
            final(self).wf(),
            lent is Some <==> old(self)@.config.run_func == RunFunc::Custom,
            lent matches Some(r) ==> r@ == old(self)@.run_data,
            final(self)@ == if old(self)@.config.run_func == RunFunc::Custom {
                WorkerState { run_data: JsonView::Null, ..old(self)@ }
            } else {
                old(self)@
            },
    {
        if self.config.run_func == RunFunc::Custom {
            let mut taken = Json::Null;
            std::mem::swap(&mut self.run_data, &mut taken);
            proof {
                let s = old(self)@;
                let t = self@;
                assert(pending(t) == pending(s));
                assert(accounted(t) == accounted(s));
            }
            Some(taken)
        } else {
            None
        }
    }

    /// Ends the worker and hands over what it gathered.
    pub fn finish(self) -> (out: WorkerOutput)
        ensures
            out@ == output_of(self@),
    {
        WorkerOutput {
            run_data: self.run_data,
            compile_errors: self.compile_errors,
            processed_ids: self.processed_ids,
        }
    }
}

} // verus!
