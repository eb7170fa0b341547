//! What holds of every pipeline: laws proved from the worker invariant
//! and the contracts of seeding and aggregation.
//!
//! A pipeline is described by its input, its input queue, and the states
//! in which its build workers and run workers ended. The queues are the
//! application's; what the laws assume of them is that they deliver each
//! item at most once and unchanged.

use crate::gather::{
    all_arrays, builds_hold_run_data, concatenation, final_ids, final_run_data,
    gathered_run_data, items_of, joined_errors, joined_ids, non_null, run_datas,
};
use crate::json::JsonView;
use crate::parabuilder::{
    enumerated, sidecar_file_name, staged_file_name, unprocessed, workspace_name,
};
use crate::text::lemma_numbered_injective;
use crate::run_func::RunFunc;
use crate::run_method::RunMethod;
use crate::worker::{
    accounted, exact_accounting, inv, output_of, record_data, run_data_of, settled, was_taken,
    Role, WorkerOutputView, WorkerState,
};
use vstd::multiset::Multiset;
use vstd::prelude::*;

verus! {

/// The parts one after the other.
pub open spec fn joined<T>(parts: Seq<Seq<T>>) -> Seq<T>
    decreases parts.len(),
{
    if parts.len() == 0 {
        Seq::empty()
    } else {
        joined(parts.drop_last()) + parts.last()
    }
}

/// The items of all the parts, as a multiset.
pub open spec fn pooled<T>(parts: Seq<Seq<T>>) -> Multiset<T>
    decreases parts.len(),
{
    if parts.len() == 0 {
        Multiset::empty()
    } else {
        pooled(parts.drop_last()).add(parts.last().to_multiset())
    }
}

/// Joining the parts keeps every item as often as the parts hold it.
pub proof fn lemma_joined_pooled<T>(parts: Seq<Seq<T>>)
    ensures
        joined(parts).to_multiset() =~= pooled(parts),
    decreases parts.len(),
{
    broadcast use {vstd::multiset::group_multiset_axioms, vstd::seq_lib::group_to_multiset_ensures};

    if parts.len() == 0 {
        assert(joined(parts).to_multiset() =~= Multiset::<T>::empty());
    } else {
        lemma_joined_pooled(parts.drop_last());
        vstd::seq_lib::lemma_multiset_commutative(joined(parts.drop_last()), parts.last());
    }
}

/// Where each part of `a` with its part of `c` fits into its part of `b`,
/// all of `a` with all of `c` fits into all of `b`.
pub proof fn lemma_pooled_subset<T>(a: Seq<Seq<T>>, c: Seq<Seq<T>>, b: Seq<Seq<T>>)
    requires
        a.len() == b.len(),
        c.len() == b.len(),
        forall|k: int|
            0 <= k < b.len() ==> (#[trigger] a[k]).to_multiset().add(
                c[k].to_multiset(),
            ).subset_of(b[k].to_multiset()),
    ensures
        pooled(a).add(pooled(c)).subset_of(pooled(b)),
    decreases b.len(),
{
    broadcast use vstd::multiset::group_multiset_axioms;

    if b.len() > 0 {
        let k = b.len() - 1;
        assert(a[k].to_multiset().add(c[k].to_multiset()).subset_of(b[k].to_multiset()));
        assert forall|i: int| 0 <= i < b.drop_last().len() implies (#[trigger] a.drop_last()[i])
            .to_multiset().add(c.drop_last()[i].to_multiset()).subset_of(
            b.drop_last()[i].to_multiset(),
        ) by {
            assert(a[i].to_multiset().add(c[i].to_multiset()).subset_of(b[i].to_multiset()));
        }
        lemma_pooled_subset(a.drop_last(), c.drop_last(), b.drop_last());
    }
}

/// Where each part of `a` with its part of `c` makes up its part of `b`,
/// all of `a` with all of `c` makes up all of `b`.
pub proof fn lemma_pooled_sum<T>(a: Seq<Seq<T>>, c: Seq<Seq<T>>, b: Seq<Seq<T>>)
    requires
        a.len() == b.len(),
        c.len() == b.len(),
        forall|k: int|
            0 <= k < b.len() ==> (#[trigger] a[k]).to_multiset().add(c[k].to_multiset())
                =~= b[k].to_multiset(),
    ensures
        pooled(a).add(pooled(c)) =~= pooled(b),
    decreases b.len(),
{
    broadcast use vstd::multiset::group_multiset_axioms;

    if b.len() > 0 {
        let k = b.len() - 1;
        assert(a[k].to_multiset().add(c[k].to_multiset()) =~= b[k].to_multiset());
        assert forall|i: int| 0 <= i < b.drop_last().len() implies (#[trigger] a.drop_last()[i])
            .to_multiset().add(c.drop_last()[i].to_multiset()) =~= b.drop_last()[i].to_multiset() by {
            assert(a[i].to_multiset().add(c[i].to_multiset()) =~= b[i].to_multiset());
        }
        lemma_pooled_sum(a.drop_last(), c.drop_last(), b.drop_last());
    }
}

/// The pool of parts listed one list after the other is the sum of the
/// pools of the two lists.
pub proof fn lemma_pooled_concat<T>(a: Seq<Seq<T>>, b: Seq<Seq<T>>)
    ensures
        pooled(a + b) =~= pooled(a).add(pooled(b)),
        joined(a + b) =~= joined(a) + joined(b),
    decreases b.len(),
{
    broadcast use vstd::multiset::group_multiset_axioms;

    if b.len() == 0 {
        assert(a + b =~= a);
    } else {
        assert((a + b).drop_last() =~= a + b.drop_last());
        assert((a + b).last() == b.last());
        lemma_pooled_concat(a, b.drop_last());
    }
}

/// Ids below `n` of which none comes twice are at most `n`.
pub proof fn lemma_distinct_ids_are_few(ids: Seq<usize>, n: nat)
    requires
        ids.no_duplicates(),
        forall|i: int| 0 <= i < ids.len() ==> (#[trigger] ids[i]) < n,
    ensures
        ids.len() <= n,
{
    let as_int = ids.map_values(|x: usize| x as int);
    assert(as_int.no_duplicates()) by {
        assert forall|i: int, j: int|
            0 <= i < as_int.len() && 0 <= j < as_int.len() && i != j implies as_int[i]
            != as_int[j] by {
            assert(ids[i] != ids[j]);
        }
    }
    as_int.unique_seq_to_set();
    let range = vstd::set_lib::set_int_range(0, n as int);
    vstd::set_lib::lemma_int_range(0, n as int);
    assert(as_int.to_set().subset_of(range)) by {
        assert forall|x: int| as_int.to_set().contains(x) implies range.contains(x) by {
            let i = choose|i: int| 0 <= i < as_int.len() && as_int[i] == x;
            assert(ids[i] < n);
        }
    }
    vstd::set_lib::lemma_len_subset(as_int.to_set(), range);
}

/// A sequence that holds nothing more often than a sequence without
/// duplicates has no duplicates itself, is no longer, and holds only what
/// the other holds.
pub proof fn lemma_within_distinct(p: Seq<usize>, q: Seq<usize>)
    requires
        p.to_multiset().subset_of(q.to_multiset()),
        q.no_duplicates(),
    ensures
        p.no_duplicates(),
        p.len() <= q.len(),
        forall|i: int| 0 <= i < p.len() ==> q.contains(#[trigger] p[i]),
{
    broadcast use {vstd::multiset::group_multiset_axioms, vstd::seq_lib::group_to_multiset_ensures};

    q.lemma_multiset_has_no_duplicates();
    assert forall|x: usize| p.to_multiset().contains(x) implies p.to_multiset().count(x)
        == 1 by {
        assert(p.to_multiset().count(x) <= q.to_multiset().count(x));
    }
    p.lemma_multiset_has_no_duplicates_conv();
    assert(q.to_multiset().sub(p.to_multiset()).len() == q.to_multiset().len()
        - p.to_multiset().len());
    assert forall|i: int| 0 <= i < p.len() implies q.contains(#[trigger] p[i]) by {
        assert(p.contains(p[i]));
        assert(p.to_multiset().count(p[i]) > 0);
        assert(q.to_multiset().count(p[i]) > 0);
    }
}

/// The ids of a queue, in queue order.
pub open spec fn ids_of(queue: Seq<(usize, JsonView)>) -> Seq<usize> {
    Seq::new(queue.len(), |i: int| queue[i].0)
}

/// Whether a queue was seeded from an input: every item is a binding of
/// the input under its own id, and no id comes twice.
pub open spec fn seeded_from(queue: Seq<(usize, JsonView)>, datas: Seq<JsonView>) -> bool {
    &&& ids_of(queue).no_duplicates()
    &&& forall|i: int|
        0 <= i < queue.len() ==> (#[trigger] queue[i]).0 < datas.len() && queue[i].1
            == datas[queue[i].0 as int]
}

/// What each worker handed over, worker by worker.
pub open spec fn outputs_of(workers: Seq<WorkerState>) -> Seq<WorkerOutputView> {
    Seq::new(workers.len(), |k: int| output_of(workers[k]))
}

/// The ids that each worker committed.
pub open spec fn processed_parts(workers: Seq<WorkerState>) -> Seq<Seq<usize>> {
    Seq::new(workers.len(), |k: int| workers[k].processed_ids)
}

/// The ids that each worker took.
pub open spec fn taken_parts(workers: Seq<WorkerState>) -> Seq<Seq<usize>> {
    Seq::new(workers.len(), |k: int| workers[k].ledger.taken_ids)
}

/// The ids that each worker handed off.
pub open spec fn handed_parts(workers: Seq<WorkerState>) -> Seq<Seq<usize>> {
    Seq::new(workers.len(), |k: int| workers[k].ledger.handed_ids)
}

/// The ids of the compile errors that each worker collected.
pub open spec fn error_id_parts(workers: Seq<WorkerState>) -> Seq<Seq<usize>> {
    Seq::new(workers.len(), |k: int| workers[k].ledger.error_ids)
}

/// The compile errors that each worker collected.
pub open spec fn error_parts(workers: Seq<WorkerState>) -> Seq<Seq<JsonView>> {
    Seq::new(workers.len(), |k: int| workers[k].compile_errors)
}

/// The ids of the runs that each worker recorded.
pub open spec fn run_id_parts(workers: Seq<WorkerState>) -> Seq<Seq<usize>> {
    Seq::new(workers.len(), |k: int| workers[k].ledger.run_ids)
}

/// The records of the runs that each worker recorded.
pub open spec fn record_parts(workers: Seq<WorkerState>) -> Seq<Seq<JsonView>> {
    Seq::new(workers.len(), |k: int| workers[k].ledger.records)
}

/// Whether every item that a worker took is an item of the queue.
pub open spec fn takes_from(worker: WorkerState, queue: Seq<(usize, JsonView)>) -> bool {
    forall|i: int|
        0 <= i < worker.ledger.taken_ids.len() ==> queue.contains(
            (#[trigger] worker.ledger.taken_ids[i], worker.ledger.taken_data[i]),
        )
}

/// A pipeline that has ended.
///
/// * The queue was seeded from the input.
/// * Every build worker and every run worker is in a state it can reach.
/// * The input queue gave each item to at most one build worker, once.
/// * The handoff queue gave each item that a build worker handed off to at
///   most one run worker, once.
/// * The queues carried the bindings unchanged.
/// * All workers were made from one configuration, and a topology whose
///   build workers hold the run data has no run workers.
pub open spec fn pipeline(
    datas: Seq<JsonView>,
    queue: Seq<(usize, JsonView)>,
    builds: Seq<WorkerState>,
    runs: Seq<WorkerState>,
    run_method: RunMethod,
) -> bool {
    &&& seeded_from(queue, datas)
    &&& forall|k: int|
        0 <= k < builds.len() ==> inv(#[trigger] builds[k]) && builds[k].config.role
            == Role::Build && builds[k].config.run_method == run_method && takes_from(
            builds[k],
            queue,
        )
    &&& forall|k: int|
        0 <= k < runs.len() ==> inv(#[trigger] runs[k]) && runs[k].config.role == Role::Run
            && runs[k].config.run_method == run_method && takes_from(runs[k], queue)
    &&& pooled(taken_parts(builds)).subset_of(ids_of(queue).to_multiset())
    &&& pooled(taken_parts(runs)).subset_of(pooled(handed_parts(builds)))
    &&& builds_hold_run_data(run_method) ==> runs.len() == 0
}

/// The processed ids of the joined workers are the workers' committed ids
/// one after the other, and their compile errors likewise.
pub proof fn lemma_joined_outputs(workers: Seq<WorkerState>)
    ensures
        joined_ids(outputs_of(workers)) == joined(processed_parts(workers)),
        joined_errors(outputs_of(workers)) == joined(error_parts(workers)),
    decreases workers.len(),
{
    if workers.len() > 0 {
        lemma_joined_outputs(workers.drop_last());
        assert(outputs_of(workers).drop_last() =~= outputs_of(workers.drop_last()));
        assert(processed_parts(workers).drop_last() =~= processed_parts(workers.drop_last()));
        assert(error_parts(workers).drop_last() =~= error_parts(workers.drop_last()));
    }
}

/// All the ids that the pipeline committed: those of the build workers,
/// then those of the run workers.
pub open spec fn all_processed(builds: Seq<WorkerState>, runs: Seq<WorkerState>) -> Seq<usize> {
    joined_ids(outputs_of(builds)) + joined_ids(outputs_of(runs))
}

proof fn lemma_parts_within(workers: Seq<WorkerState>)
    requires
        forall|k: int| 0 <= k < workers.len() ==> inv(#[trigger] workers[k]),
    ensures
        pooled(processed_parts(workers)).add(pooled(handed_parts(workers))).subset_of(
            pooled(taken_parts(workers)),
        ),
        pooled(run_id_parts(workers)).add(pooled(error_id_parts(workers))).subset_of(
            pooled(processed_parts(workers)),
        ),
{
    broadcast use vstd::multiset::group_multiset_axioms;

    assert forall|k: int| 0 <= k < workers.len() implies (#[trigger] processed_parts(
        workers,
    )[k]).to_multiset().add(handed_parts(workers)[k].to_multiset()).subset_of(
        taken_parts(workers)[k].to_multiset(),
    ) by {
        assert(inv(workers[k]));
        assert(accounted(workers[k]).subset_of(workers[k].ledger.taken_ids.to_multiset()));
    }
    lemma_pooled_subset(processed_parts(workers), handed_parts(workers), taken_parts(workers));
    assert forall|k: int| 0 <= k < workers.len() implies (#[trigger] run_id_parts(workers)[k])
        .to_multiset().add(error_id_parts(workers)[k].to_multiset()).subset_of(
        processed_parts(workers)[k].to_multiset(),
    ) by {
        assert(inv(workers[k]));
        assert(settled(workers[k]).subset_of(workers[k].processed_ids.to_multiset()));
    }
    lemma_pooled_subset(
        run_id_parts(workers),
        error_id_parts(workers),
        processed_parts(workers),
    );
}

/// The ids that a pipeline committed all fit into the queue, each no more
/// often than the queue holds it.
pub proof fn lemma_processed_within_queue(
    datas: Seq<JsonView>,
    queue: Seq<(usize, JsonView)>,
    builds: Seq<WorkerState>,
    runs: Seq<WorkerState>,
    run_method: RunMethod,
)
    requires
        pipeline(datas, queue, builds, runs, run_method),
    ensures
        all_processed(builds, runs).to_multiset().subset_of(ids_of(queue).to_multiset()),
{
    broadcast use vstd::multiset::group_multiset_axioms;

    lemma_parts_within(builds);
    lemma_parts_within(runs);
    lemma_joined_outputs(builds);
    lemma_joined_outputs(runs);
    lemma_joined_pooled(processed_parts(builds));
    lemma_joined_pooled(processed_parts(runs));
    vstd::seq_lib::lemma_multiset_commutative(
        joined_ids(outputs_of(builds)),
        joined_ids(outputs_of(runs)),
    );
}

/// No id is committed twice, every committed id is the id of a binding of
/// the input, and so no more ids are committed than there are bindings.
///
/// This holds of the ids that a pipeline returns, under every topology.
pub proof fn lemma_processed_ids_are_distinct_inputs(
    datas: Seq<JsonView>,
    queue: Seq<(usize, JsonView)>,
    builds: Seq<WorkerState>,
    runs: Seq<WorkerState>,
    run_method: RunMethod,
)
    requires
        pipeline(datas, queue, builds, runs, run_method),
    ensures
        final_ids(run_method, outputs_of(builds), outputs_of(runs)) == all_processed(builds, runs),
        all_processed(builds, runs).no_duplicates(),
        forall|i: int|
            0 <= i < all_processed(builds, runs).len() ==> (#[trigger] all_processed(
                builds,
                runs,
            )[i]) < datas.len(),
        all_processed(builds, runs).len() <= datas.len(),
{
    let ids = all_processed(builds, runs);
    lemma_processed_within_queue(datas, queue, builds, runs, run_method);
    lemma_within_distinct(ids, ids_of(queue));
    assert forall|i: int| 0 <= i < ids.len() implies (#[trigger] ids[i]) < datas.len() by {
        assert(ids_of(queue).contains(ids[i]));
        let j = choose|j: int| 0 <= j < ids_of(queue).len() && ids_of(queue)[j] == ids[i];
        assert(queue[j].0 < datas.len());
    }
    lemma_distinct_ids_are_few(ids, datas.len());
    if builds_hold_run_data(run_method) {
        assert(outputs_of(runs) =~= Seq::<WorkerOutputView>::empty());
        assert(joined_ids(outputs_of(runs)) =~= Seq::<usize>::empty());
        assert(ids =~= joined_ids(outputs_of(builds)));
    }
}

/// Where the parts of two lists have the same lengths, pair by pair, the
/// joined lists have the same length.
pub proof fn lemma_joined_same_length<A, B>(pa: Seq<Seq<A>>, pb: Seq<Seq<B>>)
    requires
        pa.len() == pb.len(),
        forall|k: int| 0 <= k < pa.len() ==> (#[trigger] pa[k]).len() == pb[k].len(),
    ensures
        joined(pa).len() == joined(pb).len(),
    decreases pa.len(),
{
    if pa.len() > 0 {
        assert(pa[pa.len() - 1].len() == pb[pa.len() - 1].len());
        assert forall|k: int| 0 <= k < pa.drop_last().len() implies (#[trigger] pa.drop_last()[k])
            .len() == pb.drop_last()[k].len() by {
            assert(pa[k].len() == pb[k].len());
        }
        lemma_joined_same_length(pa.drop_last(), pb.drop_last());
    }
}

/// Where the parts of two lists have the same lengths, pair by pair, the
/// items at one position of the joined lists stand at one position of one
/// pair of parts: the position returned.
pub proof fn lemma_joined_aligned<A, B>(pa: Seq<Seq<A>>, pb: Seq<Seq<B>>, j: int) -> (at: (
    int,
    int,
))
    requires
        pa.len() == pb.len(),
        forall|k: int| 0 <= k < pa.len() ==> (#[trigger] pa[k]).len() == pb[k].len(),
        0 <= j < joined(pa).len(),
    ensures
        0 <= at.0 < pa.len(),
        0 <= at.1 < pa[at.0].len(),
        at.1 < pb[at.0].len(),
        0 <= j < joined(pb).len(),
        joined(pa)[j] == pa[at.0][at.1],
        joined(pb)[j] == pb[at.0][at.1],
    decreases pa.len(),
{
    lemma_joined_same_length(pa, pb);
    let last = pa.len() - 1;
    assert(pa[last].len() == pb[last].len());
    assert forall|k: int| 0 <= k < pa.drop_last().len() implies (#[trigger] pa.drop_last()[k])
        .len() == pb.drop_last()[k].len() by {
        assert(pa[k].len() == pb[k].len());
    }
    lemma_joined_same_length(pa.drop_last(), pb.drop_last());
    if j < joined(pa.drop_last()).len() {
        lemma_joined_aligned(pa.drop_last(), pb.drop_last(), j)
    } else {
        (last, j - joined(pa.drop_last()).len())
    }
}

/// The ids of the collected compile errors, in the order of the errors.
pub open spec fn all_error_ids(builds: Seq<WorkerState>) -> Seq<usize> {
    joined(error_id_parts(builds))
}

/// The ids of the recorded runs, in the order of the workers.
pub open spec fn all_run_ids(builds: Seq<WorkerState>, runs: Seq<WorkerState>) -> Seq<usize> {
    joined(run_id_parts(builds + runs))
}

/// The records of the recorded runs, in the order of the workers.
pub open spec fn all_records(builds: Seq<WorkerState>, runs: Seq<WorkerState>) -> Seq<JsonView> {
    joined(record_parts(builds + runs))
}

proof fn lemma_taken_is_input(
    datas: Seq<JsonView>,
    queue: Seq<(usize, JsonView)>,
    worker: WorkerState,
    id: usize,
    data: JsonView,
)
    requires
        seeded_from(queue, datas),
        takes_from(worker, queue),
        was_taken(worker.ledger, id, data),
    ensures
        id < datas.len(),
        data == datas[id as int],
{
    let t = choose|t: int|
        0 <= t < worker.ledger.taken_ids.len() && t < worker.ledger.taken_data.len()
            && #[trigger] worker.ledger.taken_ids[t] == id && worker.ledger.taken_data[t] == data;
    assert(queue.contains((worker.ledger.taken_ids[t], worker.ledger.taken_data[t])));
    let q = choose|q: int| 0 <= q < queue.len() && queue[q] == (id, data);
    assert(queue[q].0 < datas.len());
}

proof fn lemma_member_of_pool(parts: Seq<Seq<usize>>, x: usize, whole: Seq<usize>)
    requires
        joined(parts).contains(x),
        pooled(parts).subset_of(whole.to_multiset()),
    ensures
        whole.contains(x),
{
    broadcast use {vstd::multiset::group_multiset_axioms, vstd::seq_lib::group_to_multiset_ensures};

    lemma_joined_pooled(parts);
    assert(joined(parts).to_multiset().count(x) > 0);
    assert(whole.to_multiset().count(x) > 0);
}

/// Every collected compile error is a binding of the input, and its id
/// is among the committed ids.
///
/// The error at each position of the returned list is the binding whose id
/// stands at that position of [`all_error_ids`].
pub proof fn lemma_compile_errors_are_processed_inputs(
    datas: Seq<JsonView>,
    queue: Seq<(usize, JsonView)>,
    builds: Seq<WorkerState>,
    runs: Seq<WorkerState>,
    run_method: RunMethod,
)
    requires
        pipeline(datas, queue, builds, runs, run_method),
    ensures
        joined_errors(outputs_of(builds)).len() == all_error_ids(builds).len(),
        forall|j: int|
            0 <= j < all_error_ids(builds).len() ==> {
                &&& (#[trigger] all_error_ids(builds)[j]) < datas.len()
                &&& joined_errors(outputs_of(builds))[j] == datas[all_error_ids(builds)[j] as int]
                &&& all_processed(builds, runs).contains(all_error_ids(builds)[j])
            },
{
    broadcast use vstd::multiset::group_multiset_axioms;

    lemma_joined_outputs(builds);
    lemma_joined_outputs(runs);
    let ids = error_id_parts(builds);
    let errors = error_parts(builds);
    assert forall|k: int| 0 <= k < ids.len() implies (#[trigger] ids[k]).len()
        == errors[k].len() by {
        assert(inv(builds[k]));
    }
    lemma_joined_same_length(ids, errors);
    lemma_parts_within(builds);
    lemma_joined_pooled(processed_parts(builds));
    assert forall|j: int| 0 <= j < all_error_ids(builds).len() implies {
        &&& (#[trigger] all_error_ids(builds)[j]) < datas.len()
        &&& joined_errors(outputs_of(builds))[j] == datas[all_error_ids(builds)[j] as int]
        &&& all_processed(builds, runs).contains(all_error_ids(builds)[j])
    } by {
        let at = lemma_joined_aligned(ids, errors, j);
        let worker = builds[at.0];
        assert(inv(worker));
        assert(ids[at.0] == worker.ledger.error_ids);
        assert(errors[at.0] == worker.compile_errors);
        assert(was_taken(
            worker.ledger,
            worker.ledger.error_ids[at.1],
            worker.compile_errors[at.1],
        ));
        lemma_taken_is_input(
            datas,
            queue,
            worker,
            worker.ledger.error_ids[at.1],
            worker.compile_errors[at.1],
        );
        let id = all_error_ids(builds)[j];
        assert(joined(ids).contains(id));
        assert(pooled(ids).subset_of(joined(processed_parts(builds)).to_multiset()));
        lemma_member_of_pool(ids, id, joined(processed_parts(builds)));
        let p = choose|p: int|
            0 <= p < joined(processed_parts(builds)).len() && joined(processed_parts(builds))[p]
                == id;
        assert(all_processed(builds, runs)[p] == id);
    }
}

/// Every recorded run belongs to exactly one committed id, which is the
/// id of no other record and of no compile error, and the record holds the
/// binding of the input with that id.
pub proof fn lemma_records_match_processed_ids(
    datas: Seq<JsonView>,
    queue: Seq<(usize, JsonView)>,
    builds: Seq<WorkerState>,
    runs: Seq<WorkerState>,
    run_method: RunMethod,
)
    requires
        pipeline(datas, queue, builds, runs, run_method),
    ensures
        all_records(builds, runs).len() == all_run_ids(builds, runs).len(),
        (all_run_ids(builds, runs) + all_error_ids(builds)).no_duplicates(),
        forall|j: int|
            0 <= j < all_run_ids(builds, runs).len() ==> {
                &&& (#[trigger] all_run_ids(builds, runs)[j]) < datas.len()
                &&& record_data(all_records(builds, runs)[j]) == datas[all_run_ids(
                    builds,
                    runs,
                )[j] as int]
                &&& all_processed(builds, runs).contains(all_run_ids(builds, runs)[j])
            },
{
    broadcast use vstd::multiset::group_multiset_axioms;

    let workers = builds + runs;
    let rids = run_id_parts(workers);
    let records = record_parts(workers);
    let all = all_processed(builds, runs);
    assert forall|k: int| 0 <= k < workers.len() implies inv(#[trigger] workers[k])
        && takes_from(workers[k], queue) by {
        if k < builds.len() {
            assert(workers[k] == builds[k]);
        } else {
            assert(workers[k] == runs[k - builds.len()]);
        }
    }
    assert forall|k: int| 0 <= k < rids.len() implies (#[trigger] rids[k]).len()
        == records[k].len() by {
        assert(inv(workers[k]));
    }
    lemma_joined_same_length(rids, records);
    // the ids of runs and errors fit into the committed ids
    lemma_joined_outputs(builds);
    lemma_joined_outputs(runs);
    lemma_parts_within(builds);
    lemma_parts_within(runs);
    assert(run_id_parts(workers) =~= run_id_parts(builds) + run_id_parts(runs));
    lemma_pooled_concat(run_id_parts(builds), run_id_parts(runs));
    lemma_joined_pooled(rids);
    lemma_joined_pooled(error_id_parts(builds));
    lemma_joined_pooled(processed_parts(builds));
    lemma_joined_pooled(processed_parts(runs));
    vstd::seq_lib::lemma_multiset_commutative(
        joined_ids(outputs_of(builds)),
        joined_ids(outputs_of(runs)),
    );
    vstd::seq_lib::lemma_multiset_commutative(all_run_ids(builds, runs), all_error_ids(builds));
    let both = all_run_ids(builds, runs) + all_error_ids(builds);
    assert(both.to_multiset().subset_of(all.to_multiset()));
    lemma_processed_within_queue(datas, queue, builds, runs, run_method);
    lemma_within_distinct(both, ids_of(queue));
    assert forall|j: int| 0 <= j < all_run_ids(builds, runs).len() implies {
        &&& (#[trigger] all_run_ids(builds, runs)[j]) < datas.len()
        &&& record_data(all_records(builds, runs)[j]) == datas[all_run_ids(builds, runs)[j] as int]
        &&& all.contains(all_run_ids(builds, runs)[j])
    } by {
        let at = lemma_joined_aligned(rids, records, j);
        let worker = workers[at.0];
        assert(inv(worker));
        assert(rids[at.0] == worker.ledger.run_ids);
        assert(records[at.0] == worker.ledger.records);
        assert(was_taken(
            worker.ledger,
            worker.ledger.run_ids[at.1],
            record_data(worker.ledger.records[at.1]),
        ));
        lemma_taken_is_input(
            datas,
            queue,
            worker,
            worker.ledger.run_ids[at.1],
            record_data(worker.ledger.records[at.1]),
        );
        let id = all_run_ids(builds, runs)[j];
        assert(both[j] == id);
        assert(both.to_multiset().count(id) > 0) by {
            broadcast use vstd::seq_lib::group_to_multiset_ensures;

            assert(both.contains(id));
        }
        assert(all.contains(id)) by {
            broadcast use vstd::seq_lib::group_to_multiset_ensures;

            assert(all.to_multiset().count(id) > 0);
        }
    }
}

/// In a run that committed every queued binding, under a topology that
/// runs and a configuration with [`exact_accounting`], the recorded runs
/// are those of the queued bindings that are not compile errors, each
/// once.
pub proof fn lemma_complete_run_records_every_success(
    datas: Seq<JsonView>,
    queue: Seq<(usize, JsonView)>,
    builds: Seq<WorkerState>,
    runs: Seq<WorkerState>,
    run_method: RunMethod,
)
    requires
        pipeline(datas, queue, builds, runs, run_method),
        run_method != RunMethod::No,
        forall|k: int| 0 <= k < builds.len() ==> exact_accounting((#[trigger] builds[k]).config),
        forall|k: int| 0 <= k < runs.len() ==> exact_accounting((#[trigger] runs[k]).config),
        all_processed(builds, runs).to_multiset() =~= ids_of(queue).to_multiset(),
    ensures
        all_run_ids(builds, runs).to_multiset() =~= ids_of(queue).to_multiset().sub(
            all_error_ids(builds).to_multiset(),
        ),
{
    broadcast use {vstd::multiset::group_multiset_axioms, vstd::seq_lib::group_to_multiset_ensures};

    let workers = builds + runs;
    assert forall|k: int| 0 <= k < workers.len() implies (#[trigger] run_id_parts(workers)[k])
        .to_multiset().add(error_id_parts(workers)[k].to_multiset()) =~= processed_parts(
        workers,
    )[k].to_multiset() by {
        if k < builds.len() {
            assert(workers[k] == builds[k]);
            assert(inv(builds[k]) && exact_accounting(builds[k].config));
        } else {
            assert(workers[k] == runs[k - builds.len()]);
            assert(inv(runs[k - builds.len()]) && exact_accounting(
                runs[k - builds.len()].config,
            ));
        }
        assert(workers[k].ledger.staged_ids.len() == 0);
        assert(workers[k].ledger.staged_ids.to_multiset() =~= Multiset::<usize>::empty());
        assert(settled(workers[k]) =~= workers[k].processed_ids.to_multiset());
    }
    lemma_pooled_sum(run_id_parts(workers), error_id_parts(workers), processed_parts(workers));
    // run workers collect no compile errors
    assert(error_id_parts(workers) =~= error_id_parts(builds) + error_id_parts(runs));
    lemma_pooled_concat(error_id_parts(builds), error_id_parts(runs));
    lemma_no_errors_in_runs(runs);
    assert(processed_parts(workers) =~= processed_parts(builds) + processed_parts(runs));
    lemma_pooled_concat(processed_parts(builds), processed_parts(runs));
    lemma_joined_outputs(builds);
    lemma_joined_outputs(runs);
    lemma_joined_pooled(processed_parts(builds));
    lemma_joined_pooled(processed_parts(runs));
    lemma_joined_pooled(run_id_parts(workers));
    lemma_joined_pooled(error_id_parts(builds));
    vstd::seq_lib::lemma_multiset_commutative(
        joined_ids(outputs_of(builds)),
        joined_ids(outputs_of(runs)),
    );
}

proof fn lemma_no_errors_in_runs(runs: Seq<WorkerState>)
    requires
        forall|k: int|
            0 <= k < runs.len() ==> inv(#[trigger] runs[k]) && runs[k].config.role == Role::Run,
    ensures
        pooled(error_id_parts(runs)) =~= Multiset::<usize>::empty(),
    decreases runs.len(),
{
    broadcast use {vstd::multiset::group_multiset_axioms, vstd::seq_lib::group_to_multiset_ensures};

    if runs.len() > 0 {
        let last = runs.len() - 1;
        assert(inv(runs[last]));
        assert(error_id_parts(runs).last() =~= Seq::<usize>::empty());
        assert(error_id_parts(runs).drop_last() =~= error_id_parts(runs.drop_last()));
        assert forall|k: int| 0 <= k < runs.drop_last().len() implies inv(
            #[trigger] runs.drop_last()[k],
        ) && runs.drop_last()[k].config.role == Role::Run by {
            assert(inv(runs[k]));
        }
        lemma_no_errors_in_runs(runs.drop_last());
    }
}

/// How many items the arrays among the values hold together.
pub open spec fn total_items(values: Seq<JsonView>) -> nat
    decreases values.len(),
{
    if values.len() == 0 {
        0
    } else {
        total_items(values.drop_last()) + items_of(values.last()).len()
    }
}

/// The concatenation is as long as its arrays are together.
pub proof fn lemma_concatenation_length(values: Seq<JsonView>)
    ensures
        concatenation(values).len() == total_items(values),
    decreases values.len(),
{
    if values.len() > 0 {
        lemma_concatenation_length(values.drop_last());
    }
}

proof fn lemma_non_null_keeps_items(values: Seq<JsonView>)
    ensures
        total_items(non_null(values)) == total_items(values),
        concatenation(non_null(values)) == concatenation(values),
    decreases values.len(),
{
    if values.len() > 0 {
        lemma_non_null_keeps_items(values.drop_last());
        if !(values.last() is Null) {
            let kept = non_null(values.drop_last()).push(values.last());
            assert(kept.drop_last() =~= non_null(values.drop_last()));
            assert(kept.last() == values.last());
        } else {
            assert(concatenation(values.drop_last()) + Seq::<JsonView>::empty()
                =~= concatenation(values.drop_last()));
        }
    }
}

/// Where the per-worker run data are arrays and are concatenated, the
/// final run data holds as many items as the workers' arrays together.
pub proof fn lemma_gathered_length(run_method: RunMethod, values: Seq<JsonView>)
    requires
        run_method != RunMethod::No,
        all_arrays(non_null(values)),
    ensures
        gathered_run_data(run_method, true, values) == JsonView::Array(concatenation(values)),
        items_of(gathered_run_data(run_method, true, values)).len() == total_items(values),
{
    lemma_non_null_keeps_items(values);
    lemma_concatenation_length(values);
}

proof fn lemma_default_run_data(workers: Seq<WorkerState>)
    requires
        forall|k: int|
            0 <= k < workers.len() ==> inv(#[trigger] workers[k]) && workers[k].config.run_func
                != RunFunc::Custom,
    ensures
        all_arrays(non_null(run_datas(outputs_of(workers)))),
        concatenation(non_null(run_datas(outputs_of(workers)))) == joined(record_parts(workers)),
    decreases workers.len(),
{
    let values = run_datas(outputs_of(workers));
    if workers.len() > 0 {
        let rest = workers.drop_last();
        assert forall|k: int| 0 <= k < rest.len() implies inv(#[trigger] rest[k])
            && rest[k].config.run_func != RunFunc::Custom by {
            assert(inv(workers[k]));
        }
        lemma_default_run_data(rest);
        assert(values.drop_last() =~= run_datas(outputs_of(rest)));
        assert(record_parts(workers).drop_last() =~= record_parts(rest));
        let last = workers.last();
        assert(inv(workers[workers.len() - 1]));
        assert(values.last() == last.run_data);
        assert(last.run_data == run_data_of(last.ledger.records));
        if last.ledger.records.len() == 0 {
            assert(joined(record_parts(rest)) + last.ledger.records =~= joined(
                record_parts(rest),
            ));
        } else {
            let kept = non_null(values.drop_last()).push(values.last());
            assert(kept.drop_last() =~= non_null(values.drop_last()));
            assert(kept.last() == values.last());
            assert forall|i: int| 0 <= i < kept.len() implies #[trigger] kept[i] is Array by {
                if i < kept.len() - 1 {
                    assert(non_null(values.drop_last())[i] is Array);
                }
            }
        }
    } else {
        assert(non_null(values) =~= Seq::<JsonView>::empty());
    }
}

proof fn lemma_no_records_in_builds(builds: Seq<WorkerState>, run_method: RunMethod)
    requires
        !builds_hold_run_data(run_method),
        forall|k: int|
            0 <= k < builds.len() ==> inv(#[trigger] builds[k]) && builds[k].config.role
                == Role::Build && builds[k].config.run_method == run_method,
    ensures
        joined(record_parts(builds)) =~= Seq::<JsonView>::empty(),
    decreases builds.len(),
{
    if builds.len() > 0 {
        let rest = builds.drop_last();
        assert forall|k: int| 0 <= k < rest.len() implies inv(#[trigger] rest[k])
            && rest[k].config.role == Role::Build && rest[k].config.run_method == run_method by {
            assert(inv(builds[k]));
        }
        lemma_no_records_in_builds(rest, run_method);
        assert(record_parts(builds).drop_last() =~= record_parts(rest));
        assert(inv(builds[builds.len() - 1]));
        assert(record_parts(builds).last().len() == 0);
    }
}

/// Under the default strategies, with concatenation asked for, the final
/// run data of a topology that runs is the array of the records of all the
/// recorded runs.
///
/// With [`lemma_records_match_processed_ids`]: each element of the final
/// run data belongs to exactly one committed id that is not the id of a
/// compile error.
pub proof fn lemma_final_run_data_is_the_records(
    datas: Seq<JsonView>,
    queue: Seq<(usize, JsonView)>,
    builds: Seq<WorkerState>,
    runs: Seq<WorkerState>,
    run_method: RunMethod,
)
    requires
        pipeline(datas, queue, builds, runs, run_method),
        run_method != RunMethod::No,
        forall|k: int| 0 <= k < builds.len() ==> (#[trigger] builds[k]).config.run_func != RunFunc::Custom,
        forall|k: int| 0 <= k < runs.len() ==> (#[trigger] runs[k]).config.run_func != RunFunc::Custom,
    ensures
        final_run_data(run_method, true, outputs_of(builds), outputs_of(runs)) == JsonView::Array(
            all_records(builds, runs),
        ),
{
    assert(record_parts(builds + runs) =~= record_parts(builds) + record_parts(runs));
    lemma_pooled_concat(record_parts(builds), record_parts(runs));
    if builds_hold_run_data(run_method) {
        assert(record_parts(runs) =~= Seq::<Seq<JsonView>>::empty());
        assert(joined(record_parts(runs)) =~= Seq::<JsonView>::empty());
        assert forall|k: int| 0 <= k < builds.len() implies inv(#[trigger] builds[k])
            && builds[k].config.run_func != RunFunc::Custom by {}
        lemma_default_run_data(builds);
    } else {
        lemma_no_records_in_builds(builds, run_method);
        assert forall|k: int| 0 <= k < runs.len() implies inv(#[trigger] runs[k])
            && runs[k].config.run_func != RunFunc::Custom by {}
        lemma_default_run_data(runs);
    }
}

/// The items that a function finds in the elements of a sequence, pooled.
pub open spec fn pooled_by<T, U>(s: Seq<T>, part: spec_fn(T) -> Seq<U>) -> Multiset<U>
    decreases s.len(),
{
    if s.len() == 0 {
        Multiset::empty()
    } else {
        pooled_by(s.drop_last(), part).add(part(s.last()).to_multiset())
    }
}

proof fn lemma_pooled_by_remove<T, U>(s: Seq<T>, part: spec_fn(T) -> Seq<U>, i: int)
    requires
        0 <= i < s.len(),
    ensures
        pooled_by(s, part) =~= pooled_by(s.remove(i), part).add(part(s[i]).to_multiset()),
    decreases s.len(),
{
    broadcast use vstd::multiset::group_multiset_axioms;

    if i == s.len() - 1 {
        assert(s.remove(i) =~= s.drop_last());
    } else {
        lemma_pooled_by_remove(s.drop_last(), part, i);
        assert(s.remove(i).drop_last() =~= s.drop_last().remove(i));
        assert(s.remove(i).last() == s.last());
    }
}

/// What is pooled from a sequence does not depend on the order of its
/// elements.
pub proof fn lemma_pooled_by_permutation<T, U>(a: Seq<T>, b: Seq<T>, part: spec_fn(T) -> Seq<U>)
    requires
        a.to_multiset() =~= b.to_multiset(),
    ensures
        pooled_by(a, part) =~= pooled_by(b, part),
    decreases a.len(),
{
    broadcast use {vstd::multiset::group_multiset_axioms, vstd::seq_lib::group_to_multiset_ensures};

    vstd::seq_lib::to_multiset_len(a);
    vstd::seq_lib::to_multiset_len(b);
    if a.len() > 0 {
        let x = a.last();
        assert(a.drop_last().push(x) =~= a);
        assert(a.to_multiset() =~= a.drop_last().to_multiset().insert(x));
        assert(b.to_multiset().count(x) > 0);
        assert(b.contains(x));
        let i = choose|i: int| 0 <= i < b.len() && b[i] == x;
        assert(b.remove(i).to_multiset() =~= b.to_multiset().remove(x));
        assert(a.drop_last().to_multiset() =~= b.remove(i).to_multiset());
        lemma_pooled_by_permutation(a.drop_last(), b.remove(i), part);
        lemma_pooled_by_remove(b, part, i);
    }
}

/// Whether something holds of every element does not depend on the order
/// of the elements.
pub proof fn lemma_all_permutation<T>(a: Seq<T>, b: Seq<T>, holds: spec_fn(T) -> bool)
    requires
        a.to_multiset() =~= b.to_multiset(),
        forall|i: int| 0 <= i < a.len() ==> holds(#[trigger] a[i]),
    ensures
        forall|i: int| 0 <= i < b.len() ==> holds(#[trigger] b[i]),
{
    broadcast use {vstd::multiset::group_multiset_axioms, vstd::seq_lib::group_to_multiset_ensures};

    assert forall|i: int| 0 <= i < b.len() implies holds(#[trigger] b[i]) by {
        assert(b.contains(b[i]));
        assert(b.to_multiset().count(b[i]) > 0);
        assert(a.to_multiset().count(b[i]) > 0);
        assert(a.contains(b[i]));
        let j = choose|j: int| 0 <= j < a.len() && a[j] == b[i];
        assert(holds(a[j]));
    }
}

/// The ids that an output holds.
pub open spec fn ids_in(output: WorkerOutputView) -> Seq<usize> {
    output.processed_ids
}

/// The compile errors that an output holds.
pub open spec fn errors_in(output: WorkerOutputView) -> Seq<JsonView> {
    output.compile_errors
}

/// The items that an output adds to concatenated run data.
pub open spec fn items_in(output: WorkerOutputView) -> Seq<JsonView> {
    items_of(output.run_data)
}

/// What an output adds to run data that is kept worker by worker: its run
/// data, unless that is `null`.
pub open spec fn value_in(output: WorkerOutputView) -> Seq<JsonView> {
    if output.run_data is Null {
        Seq::empty()
    } else {
        seq![output.run_data]
    }
}

/// Whether an output's run data is `null` or an array.
pub open spec fn is_gatherable(output: WorkerOutputView) -> bool {
    output.run_data is Null || output.run_data is Array
}

proof fn lemma_gather_as_pools(outputs: Seq<WorkerOutputView>)
    ensures
        joined_ids(outputs).to_multiset() =~= pooled_by(outputs, |o: WorkerOutputView| ids_in(o)),
        joined_errors(outputs).to_multiset() =~= pooled_by(
            outputs,
            |o: WorkerOutputView| errors_in(o),
        ),
        concatenation(non_null(run_datas(outputs))).to_multiset() =~= pooled_by(
            outputs,
            |o: WorkerOutputView| items_in(o),
        ),
        non_null(run_datas(outputs)).to_multiset() =~= pooled_by(
            outputs,
            |o: WorkerOutputView| value_in(o),
        ),
        all_arrays(non_null(run_datas(outputs))) <==> forall|i: int|
            0 <= i < outputs.len() ==> is_gatherable(#[trigger] outputs[i]),
    decreases outputs.len(),
{
    broadcast use {vstd::multiset::group_multiset_axioms, vstd::seq_lib::group_to_multiset_ensures};

    let values = run_datas(outputs);
    if outputs.len() == 0 {
        assert(joined_ids(outputs).to_multiset() =~= Multiset::<usize>::empty());
        assert(joined_errors(outputs).to_multiset() =~= Multiset::<JsonView>::empty());
        assert(non_null(values) =~= Seq::<JsonView>::empty());
        assert(concatenation(non_null(values)).to_multiset() =~= Multiset::<JsonView>::empty());
        assert(non_null(values).to_multiset() =~= Multiset::<JsonView>::empty());
    } else {
        let rest = outputs.drop_last();
        let last = outputs.last();
        lemma_gather_as_pools(rest);
        assert(values.drop_last() =~= run_datas(rest));
        assert(values.last() == last.run_data);
        vstd::seq_lib::lemma_multiset_commutative(joined_ids(rest), last.processed_ids);
        vstd::seq_lib::lemma_multiset_commutative(joined_errors(rest), last.compile_errors);
        lemma_non_null_keeps_items(values);
        lemma_non_null_keeps_items(values.drop_last());
        vstd::seq_lib::lemma_multiset_commutative(
            concatenation(values.drop_last()),
            items_of(values.last()),
        );
        if last.run_data is Null {
            assert(value_in(last).to_multiset() =~= Multiset::<JsonView>::empty());
        } else {
            assert(seq![last.run_data] =~= Seq::<JsonView>::empty().push(last.run_data));
            assert(value_in(last).to_multiset() =~= Multiset::<JsonView>::empty().insert(
                last.run_data,
            ));
        }
        let kept = non_null(values);
        let kept_rest = non_null(values.drop_last());
        if all_arrays(kept) {
            assert forall|i: int| 0 <= i < outputs.len() implies is_gatherable(
                #[trigger] outputs[i],
            ) by {
                if i < rest.len() {
                    assert forall|j: int| 0 <= j < kept_rest.len() implies #[trigger] kept_rest[j] is Array by {
                        assert(kept[j] == kept_rest[j]);
                    }
                    assert(is_gatherable(rest[i]));
                } else if !(last.run_data is Null) {
                    assert(kept[kept.len() - 1] is Array);
                }
            }
        }
        if forall|i: int| 0 <= i < outputs.len() ==> is_gatherable(#[trigger] outputs[i]) {
            assert forall|i: int| 0 <= i < rest.len() implies is_gatherable(#[trigger] rest[i]) by {
                assert(is_gatherable(outputs[i]));
            }
            assert(is_gatherable(outputs[outputs.len() - 1]));
            assert forall|j: int| 0 <= j < kept.len() implies #[trigger] kept[j] is Array by {
                if j < kept_rest.len() {
                    assert(kept_rest[j] is Array);
                }
            }
        }
    }
}

/// The result of a stage does not depend on the order in which its
/// workers are joined: the processed ids, the compile errors and the items
/// of the final run data are the same, each as often.
pub proof fn lemma_result_ignores_worker_order(
    run_method: RunMethod,
    auto_gather: bool,
    a: Seq<WorkerOutputView>,
    b: Seq<WorkerOutputView>,
)
    requires
        a.to_multiset() =~= b.to_multiset(),
    ensures
        joined_ids(a).to_multiset() =~= joined_ids(b).to_multiset(),
        joined_errors(a).to_multiset() =~= joined_errors(b).to_multiset(),
        gathered_run_data(run_method, auto_gather, run_datas(a)) is Null <==> gathered_run_data(
            run_method,
            auto_gather,
            run_datas(b),
        ) is Null,
        items_of(gathered_run_data(run_method, auto_gather, run_datas(a))).to_multiset()
            =~= items_of(gathered_run_data(run_method, auto_gather, run_datas(b))).to_multiset(),
{
    lemma_gather_as_pools(a);
    lemma_gather_as_pools(b);
    lemma_pooled_by_permutation(a, b, |o: WorkerOutputView| ids_in(o));
    lemma_pooled_by_permutation(a, b, |o: WorkerOutputView| errors_in(o));
    lemma_pooled_by_permutation(a, b, |o: WorkerOutputView| items_in(o));
    lemma_pooled_by_permutation(a, b, |o: WorkerOutputView| value_in(o));
    if forall|i: int| 0 <= i < a.len() ==> is_gatherable(#[trigger] a[i]) {
        lemma_all_permutation(a, b, |o: WorkerOutputView| is_gatherable(o));
    }
    if forall|i: int| 0 <= i < b.len() ==> is_gatherable(#[trigger] b[i]) {
        lemma_all_permutation(b, a, |o: WorkerOutputView| is_gatherable(o));
    }
}

/// The result of a pipeline does not depend on the order in which its
/// build workers, and its run workers, are joined.
pub proof fn lemma_final_result_ignores_worker_order(
    run_method: RunMethod,
    auto_gather: bool,
    builds: Seq<WorkerOutputView>,
    runs: Seq<WorkerOutputView>,
    builds_reordered: Seq<WorkerOutputView>,
    runs_reordered: Seq<WorkerOutputView>,
)
    requires
        builds.to_multiset() =~= builds_reordered.to_multiset(),
        runs.to_multiset() =~= runs_reordered.to_multiset(),
    ensures
        final_ids(run_method, builds, runs).to_multiset() =~= final_ids(
            run_method,
            builds_reordered,
            runs_reordered,
        ).to_multiset(),
        joined_errors(builds).to_multiset() =~= joined_errors(builds_reordered).to_multiset(),
        final_run_data(run_method, auto_gather, builds, runs) is Null <==> final_run_data(
            run_method,
            auto_gather,
            builds_reordered,
            runs_reordered,
        ) is Null,
        items_of(final_run_data(run_method, auto_gather, builds, runs)).to_multiset() =~= items_of(
            final_run_data(run_method, auto_gather, builds_reordered, runs_reordered),
        ).to_multiset(),
{
    broadcast use vstd::multiset::group_multiset_axioms;

    lemma_result_ignores_worker_order(run_method, auto_gather, builds, builds_reordered);
    lemma_result_ignores_worker_order(run_method, auto_gather, runs, runs_reordered);
    vstd::seq_lib::lemma_multiset_commutative(joined_ids(builds), joined_ids(runs));
    vstd::seq_lib::lemma_multiset_commutative(
        joined_ids(builds_reordered),
        joined_ids(runs_reordered),
    );
}

/// Seeding with every binding queues each binding once, under its
/// position as id.
pub proof fn lemma_enumerated_is_everything(datas: Seq<JsonView>)
    requires
        datas.len() <= usize::MAX,
    ensures
        seeded_from(enumerated(datas), datas),
        ids_of(enumerated(datas)).len() == datas.len(),
        forall|i: int| 0 <= i < datas.len() ==> (#[trigger] ids_of(enumerated(datas))[i]) == i,
{
}

/// Seeding for a resumed run queues exactly the bindings whose ids are
/// not yet processed, each once: every binding is either processed already
/// or queued again, never both.
pub proof fn lemma_unprocessed_is_the_rest(datas: Seq<JsonView>, processed: Set<usize>)
    requires
        datas.len() <= usize::MAX,
    ensures
        seeded_from(unprocessed(datas, processed), datas),
        forall|id: usize|
            ids_of(unprocessed(datas, processed)).contains(id) <==> id < datas.len()
                && !processed.contains(id),
    decreases datas.len(),
{
    let queue = unprocessed(datas, processed);
    if datas.len() == 0 {
        assert(ids_of(queue) =~= Seq::<usize>::empty());
    } else {
        let rest = datas.drop_last();
        let before = unprocessed(rest, processed);
        lemma_unprocessed_is_the_rest(rest, processed);
        let id = (datas.len() - 1) as usize;
        assert forall|i: int| 0 <= i < before.len() implies (#[trigger] before[i]).0 < rest.len() by {}
        if processed.contains(id) {
            assert(queue == before);
            assert forall|x: usize| ids_of(queue).contains(x) <==> x < datas.len()
                && !processed.contains(x) by {}
        } else {
            assert(queue == before.push((id, datas.last())));
            assert(ids_of(queue) =~= ids_of(before).push(id));
            assert forall|i: int, j: int|
                0 <= i < ids_of(queue).len() && 0 <= j < ids_of(queue).len() && i != j implies ids_of(
                queue,
            )[i] != ids_of(queue)[j] by {
                if i < before.len() {
                    assert(before[i].0 < rest.len());
                    assert(ids_of(before)[i] == before[i].0);
                }
                if j < before.len() {
                    assert(before[j].0 < rest.len());
                    assert(ids_of(before)[j] == before[j].0);
                }
            }
            assert forall|x: usize| ids_of(queue).contains(x) <==> x < datas.len()
                && !processed.contains(x) by {
                if ids_of(queue).contains(x) {
                    let i = choose|i: int| 0 <= i < ids_of(queue).len() && ids_of(queue)[i] == x;
                    if i < before.len() {
                        assert(ids_of(before)[i] == x);
                        assert(ids_of(before).contains(x));
                    }
                }
                if x < datas.len() && !processed.contains(x) {
                    if x == id {
                        assert(ids_of(queue)[before.len() as int] == x);
                    } else {
                        assert(ids_of(before).contains(x));
                        let i = choose|i: int|
                            0 <= i < ids_of(before).len() && ids_of(before)[i] == x;
                        assert(ids_of(queue)[i] == x);
                    }
                }
            }
        }
        assert forall|i: int| 0 <= i < queue.len() implies (#[trigger] queue[i]).0 < datas.len()
            && queue[i].1 == datas[queue[i].0 as int] by {
            if i < before.len() {
                assert(before[i].0 < rest.len());
                assert(queue[i] == before[i]);
            }
        }
    }
}

/// A run that is interrupted and then resumed to completion processes
/// every binding exactly once: the ids of the checkpoint, none of them
/// twice, and the ids that the resumed run committed, which are those it
/// was seeded with, are together the ids of the input.
pub proof fn lemma_resumption_completes(
    datas: Seq<JsonView>,
    checkpoint: Seq<usize>,
    resumed: Seq<usize>,
)
    requires
        datas.len() <= usize::MAX,
        checkpoint.no_duplicates(),
        forall|i: int| 0 <= i < checkpoint.len() ==> (#[trigger] checkpoint[i]) < datas.len(),
        resumed.to_multiset() =~= ids_of(unprocessed(datas, checkpoint.to_set())).to_multiset(),
    ensures
        (checkpoint + resumed).to_multiset() =~= ids_of(enumerated(datas)).to_multiset(),
{
    broadcast use {vstd::multiset::group_multiset_axioms, vstd::seq_lib::group_to_multiset_ensures};

    let queue = ids_of(unprocessed(datas, checkpoint.to_set()));
    let all = ids_of(enumerated(datas));
    lemma_unprocessed_is_the_rest(datas, checkpoint.to_set());
    vstd::seq_lib::lemma_multiset_commutative(checkpoint, resumed);
    checkpoint.lemma_multiset_has_no_duplicates();
    queue.lemma_multiset_has_no_duplicates();
    assert(all.no_duplicates());
    all.lemma_multiset_has_no_duplicates();
    assert forall|x: usize| (checkpoint + resumed).to_multiset().count(x) == all.to_multiset().count(
        x,
    ) by {
        if x < datas.len() {
            assert(all[x as int] == x);
            assert(all.contains(x));
            if checkpoint.to_set().contains(x) {
                assert(checkpoint.contains(x));
                assert(!queue.contains(x));
            } else {
                assert(!checkpoint.contains(x));
                assert(queue.contains(x));
            }
        } else {
            if all.contains(x) {
                let i = choose|i: int| 0 <= i < all.len() && all[i] == x;
                assert(false);
            }
            if checkpoint.contains(x) {
                let i = choose|i: int| 0 <= i < checkpoint.len() && checkpoint[i] == x;
                assert(false);
            }
            assert(!queue.contains(x));
        }
    }
}

/// The ids that each worker committed once the artifacts and the sidecar
/// file of the binding were staged.
pub open spec fn staged_id_parts(workers: Seq<WorkerState>) -> Seq<Seq<usize>> {
    Seq::new(workers.len(), |k: int| workers[k].ledger.staged_ids)
}

/// Under the compile-only topology, with failed compiles collected or
/// faulted, every committed id is the id of a collected compile error or
/// of a binding whose artifacts and sidecar file the worker had staged
/// before it committed, and of one of the two only.
pub proof fn lemma_compile_only_commits_after_staging(
    datas: Seq<JsonView>,
    queue: Seq<(usize, JsonView)>,
    builds: Seq<WorkerState>,
    runs: Seq<WorkerState>,
)
    requires
        pipeline(datas, queue, builds, runs, RunMethod::No),
        forall|k: int| 0 <= k < builds.len() ==> exact_accounting((#[trigger] builds[k]).config),
    ensures
        all_processed(builds, runs).to_multiset() =~= joined(staged_id_parts(builds)).to_multiset().add(
            all_error_ids(builds).to_multiset(),
        ),
        (joined(staged_id_parts(builds)) + all_error_ids(builds)).no_duplicates(),
{
    broadcast use {vstd::multiset::group_multiset_axioms, vstd::seq_lib::group_to_multiset_ensures};

    assert forall|k: int| 0 <= k < builds.len() implies (#[trigger] staged_id_parts(builds)[k])
        .to_multiset().add(error_id_parts(builds)[k].to_multiset()) =~= processed_parts(
        builds,
    )[k].to_multiset() by {
        assert(inv(builds[k]) && exact_accounting(builds[k].config));
        assert(builds[k].ledger.run_ids.len() == 0);
        assert(builds[k].ledger.run_ids.to_multiset() =~= Multiset::<usize>::empty());
        assert(settled(builds[k]) =~= builds[k].processed_ids.to_multiset());
    }
    lemma_pooled_sum(staged_id_parts(builds), error_id_parts(builds), processed_parts(builds));
    lemma_joined_outputs(builds);
    lemma_joined_outputs(runs);
    assert(outputs_of(runs) =~= Seq::<WorkerOutputView>::empty());
    assert(joined_ids(outputs_of(runs)) =~= Seq::<usize>::empty());
    assert(all_processed(builds, runs) =~= joined_ids(outputs_of(builds)));
    lemma_joined_pooled(processed_parts(builds));
    lemma_joined_pooled(staged_id_parts(builds));
    lemma_joined_pooled(error_id_parts(builds));
    let both = joined(staged_id_parts(builds)) + all_error_ids(builds);
    vstd::seq_lib::lemma_multiset_commutative(joined(staged_id_parts(builds)), all_error_ids(builds));
    lemma_processed_within_queue(datas, queue, builds, runs, RunMethod::No);
    lemma_within_distinct(both, ids_of(queue));
}

/// No two bindings share a staged file of one target, or a sidecar file,
/// and no two workers of one role share a workspace: the names differ
/// where the ids, or the indices, differ.
pub proof fn lemma_names_are_distinct(base: Seq<char>, role: Role, a: usize, b: usize)
    requires
        a != b,
    ensures
        staged_file_name(base, a) != staged_file_name(base, b),
        sidecar_file_name(a) != sidecar_file_name(b),
        workspace_name(role, a) != workspace_name(role, b),
{
    if staged_file_name(base, a) == staged_file_name(base, b) {
        lemma_numbered_injective(base + "_"@, a as nat, b as nat, Seq::empty());
    }
    if sidecar_file_name(a) == sidecar_file_name(b) {
        lemma_numbered_injective("data_"@, a as nat, b as nat, ".json"@);
    }
    if workspace_name(role, a) == workspace_name(role, b) {
        match role {
            Role::Build => lemma_numbered_injective(
                "workspace_"@,
                a as nat,
                b as nat,
                Seq::empty(),
            ),
            Role::Run => lemma_numbered_injective(
                "workspace_exe_"@,
                a as nat,
                b as nat,
                Seq::empty(),
            ),
        }
    }
}

} // verus!
