//! Aggregation of what the workers gathered.

use crate::json::{lemma_array_view, take_at, views, Json, JsonView};
use crate::run_method::RunMethod;
use crate::worker::{WorkerOutput, WorkerOutputView};
use vstd::prelude::*;

verus! {

/// The values that are not `null`, in order.
pub open spec fn non_null(values: Seq<JsonView>) -> Seq<JsonView>
    decreases values.len(),
{
    if values.len() == 0 {
        Seq::empty()
    } else if values.last() is Null {
        non_null(values.drop_last())
    } else {
        non_null(values.drop_last()).push(values.last())
    }
}

/// Whether every value is an array.
pub open spec fn all_arrays(values: Seq<JsonView>) -> bool {
    forall|i: int| 0 <= i < values.len() ==> #[trigger] values[i] is Array
}

/// The items of an array; nothing for any other value.
pub open spec fn items_of(value: JsonView) -> Seq<JsonView> {
    match value {
        JsonView::Array(items) => items,
        _ => Seq::empty(),
    }
}

/// The items of all the values, one value after the other.
pub open spec fn concatenation(values: Seq<JsonView>) -> Seq<JsonView>
    decreases values.len(),
{
    if values.len() == 0 {
        Seq::empty()
    } else {
        concatenation(values.drop_last()) + items_of(values.last())
    }
}

/// The final run data made of the per-worker run data `values`.
///
/// The compile-only topology has none. Otherwise the `null` entries are
/// dropped, and what is left is concatenated if that was asked for and all
/// of it is arrays, and else kept as the array of the per-worker values.
pub open spec fn gathered_run_data(
    run_method: RunMethod,
    auto_gather: bool,
    values: Seq<JsonView>,
) -> JsonView {
    let kept = non_null(values);
    if run_method == RunMethod::No {
        JsonView::Null
    } else if auto_gather && all_arrays(kept) {
        JsonView::Array(concatenation(kept))
    } else {
        JsonView::Array(kept)
    }
}

fn keep_non_null(mut values: Vec<Json>) -> (kept: Vec<Json>)
    ensures
        views(kept@) == non_null(views(values@)),
{
    let ghost all = views(values@);
    let mut kept: Vec<Json> = Vec::new();
    let mut i: usize = 0;
    assert(views(kept@) =~= non_null(all.take(0)));
    while i < values.len()
        invariant
            i <= values.len(),
            values.len() == all.len(),
            forall|k: int| i <= k < values.len() ==> (#[trigger] values@[k])@ == all[k],
            views(kept@) == non_null(all.take(i as int)),
        decreases values.len() - i,
    {
        assert(all.take(i + 1).drop_last() =~= all.take(i as int));
        assert(all.take(i + 1).last() == all[i as int]);
        let ghost before = kept@;
        let item = take_at(&mut values, i);
        if !item.is_null() {
            kept.push(item);
            assert(views(kept@) =~= views(before).push(item@));
        }
        i += 1;
    }
    assert(all.take(all.len() as int) =~= all);
    kept
}

fn every_one_is_array(values: &Vec<Json>) -> (all: bool)
    ensures
        all == all_arrays(views(values@)),
{
    let mut i: usize = 0;
    while i < values.len()
        invariant
            i <= values.len(),
            forall|k: int| 0 <= k < i ==> #[trigger] views(values@)[k] is Array,
        decreases values.len() - i,
    {
        if !values[i].is_array() {
            assert(!(views(values@)[i as int] is Array));
            return false;
        }
        i += 1;
    }
    true
}

fn concatenate(mut values: Vec<Json>) -> (items: Vec<Json>)
    ensures
        views(items@) == concatenation(views(values@)),
{
    broadcast use lemma_array_view;

    let ghost all = views(values@);
    let mut items: Vec<Json> = Vec::new();
    let mut i: usize = 0;
    assert(views(items@) =~= concatenation(all.take(0)));
    while i < values.len()
        invariant
            i <= values.len(),
            values.len() == all.len(),
            forall|k: int| i <= k < values.len() ==> (#[trigger] values@[k])@ == all[k],
            views(items@) == concatenation(all.take(i as int)),
        decreases values.len() - i,
    {
        assert(all.take(i + 1).drop_last() =~= all.take(i as int));
        assert(all.take(i + 1).last() == all[i as int]);
        let ghost before = items@;
        let value = take_at(&mut values, i);
        match value {
            Json::Array(mut inner) => {
                let ghost added = inner@;
                items.append(&mut inner);
                assert(views(items@) =~= views(before) + views(added));
            },
            _ => {
                assert(views(items@) =~= views(before) + Seq::<JsonView>::empty());
            },
        }
        i += 1;
    }
    assert(all.take(all.len() as int) =~= all);
    items
}

/// Makes the final run data of the per-worker run data: see
/// [`gathered_run_data`].
pub fn gather_run_data(run_method: RunMethod, auto_gather: bool, run_data_array: Vec<Json>) -> (r:
    Json)
    ensures
        r@ == gathered_run_data(run_method, auto_gather, views(run_data_array@)),
{
    broadcast use lemma_array_view;

    let kept = keep_non_null(run_data_array);
    if run_method == RunMethod::No {
        Json::Null
    } else if auto_gather && every_one_is_array(&kept) {
        Json::Array(concatenate(kept))
    } else {
        Json::Array(kept)
    }
}

/// The values of a sequence of worker outputs, output by output.
pub open spec fn output_views(outputs: Seq<WorkerOutput>) -> Seq<WorkerOutputView> {
    Seq::new(outputs.len(), |i: int| outputs[i]@)
}

/// The run data of each worker, in the order the workers were joined.
pub open spec fn run_datas(outputs: Seq<WorkerOutputView>) -> Seq<JsonView> {
    Seq::new(outputs.len(), |i: int| outputs[i].run_data)
}

/// The compile errors of all the workers, one worker after the other.
pub open spec fn joined_errors(outputs: Seq<WorkerOutputView>) -> Seq<JsonView>
    decreases outputs.len(),
{
    if outputs.len() == 0 {
        Seq::empty()
    } else {
        joined_errors(outputs.drop_last()) + outputs.last().compile_errors
    }
}

/// The processed ids of all the workers, one worker after the other.
pub open spec fn joined_ids(outputs: Seq<WorkerOutputView>) -> Seq<usize>
    decreases outputs.len(),
{
    if outputs.len() == 0 {
        Seq::empty()
    } else {
        joined_ids(outputs.drop_last()) + outputs.last().processed_ids
    }
}

/// What the joined workers of one stage gathered: the run data of each,
/// and the compile errors and processed ids of all.
pub struct Merged {
    pub run_datas: Vec<Json>,
    pub compile_errors: Vec<Json>,
    pub processed_ids: Vec<usize>,
}

/// Folds the outputs of the joined workers of one stage, in join order.
pub fn merge_outputs(mut outputs: Vec<WorkerOutput>) -> (merged: Merged)
    ensures
        views(merged.run_datas@) == run_datas(output_views(outputs@)),
        views(merged.compile_errors@) == joined_errors(output_views(outputs@)),
        merged.processed_ids@ == joined_ids(output_views(outputs@)),
{
    let ghost all = output_views(outputs@);
    let mut run_data_array: Vec<Json> = Vec::new();
    let mut compile_errors: Vec<Json> = Vec::new();
    let mut processed_ids: Vec<usize> = Vec::new();
    let mut i: usize = 0;
    assert(views(run_data_array@) =~= run_datas(all.take(0)));
    assert(views(compile_errors@) =~= joined_errors(all.take(0)));
    assert(processed_ids@ =~= joined_ids(all.take(0)));
    while i < outputs.len()
        invariant
            i <= outputs.len(),
            outputs.len() == all.len(),
            forall|k: int| i <= k < outputs.len() ==> (#[trigger] outputs@[k])@ == all[k],
            views(run_data_array@) == run_datas(all.take(i as int)),
            views(compile_errors@) == joined_errors(all.take(i as int)),
            processed_ids@ == joined_ids(all.take(i as int)),
        decreases outputs.len() - i,
    {
        assert(all.take(i + 1).drop_last() =~= all.take(i as int));
        assert(all.take(i + 1).last() == all[i as int]);
        let mut output = WorkerOutput {
            run_data: Json::Null,
            compile_errors: Vec::new(),
            processed_ids: Vec::new(),
        };
        std::mem::swap(&mut outputs[i], &mut output);
        assert(output@ == all[i as int]);
        let ghost runs_before = run_data_array@;
        let ghost errors_before = compile_errors@;
        let ghost added = output.compile_errors@;
        run_data_array.push(output.run_data);
        compile_errors.append(&mut output.compile_errors);
        processed_ids.append(&mut output.processed_ids);
        assert(views(run_data_array@) =~= views(runs_before).push(output.run_data@));
        assert(run_datas(all.take(i + 1)) =~= run_datas(all.take(i as int)).push(
            all[i as int].run_data,
        ));
        assert(views(compile_errors@) =~= views(errors_before) + views(added));
        i += 1;
    }
    assert(all.take(all.len() as int) =~= all);
    Merged { run_datas: run_data_array, compile_errors, processed_ids }
}

/// Whether the build workers themselves hold the run data: the topologies
/// without run workers.
pub open spec fn builds_hold_run_data(run_method: RunMethod) -> bool {
    run_method == RunMethod::No || run_method == RunMethod::InPlace
}

/// The ids that the whole pipeline committed: those of the build workers,
/// then, where there are run workers, those of the run workers.
pub open spec fn final_ids(
    run_method: RunMethod,
    builds: Seq<WorkerOutputView>,
    runs: Seq<WorkerOutputView>,
) -> Seq<usize> {
    if builds_hold_run_data(run_method) {
        joined_ids(builds)
    } else {
        joined_ids(builds) + joined_ids(runs)
    }
}

/// The final run data of the whole pipeline: gathered from the build
/// workers where they run in place or not at all, and else from the run
/// workers.
pub open spec fn final_run_data(
    run_method: RunMethod,
    auto_gather: bool,
    builds: Seq<WorkerOutputView>,
    runs: Seq<WorkerOutputView>,
) -> JsonView {
    if builds_hold_run_data(run_method) {
        gathered_run_data(run_method, auto_gather, run_datas(builds))
    } else {
        gathered_run_data(run_method, auto_gather, run_datas(runs))
    }
}

/// Makes the result of a pipeline from what its joined workers gathered:
/// the final run data, the compile errors and the processed ids.
pub fn collect_results(
    run_method: RunMethod,
    auto_gather: bool,
    builds: Vec<WorkerOutput>,
    runs: Vec<WorkerOutput>,
) -> (r: (Json, Vec<Json>, Vec<usize>))
    ensures
        r.0@ == final_run_data(
            run_method,
            auto_gather,
            output_views(builds@),
            output_views(runs@),
        ),
        views(r.1@) == joined_errors(output_views(builds@)),
        r.2@ == final_ids(run_method, output_views(builds@), output_views(runs@)),
{
    let built = merge_outputs(builds);
    let mut processed_ids = built.processed_ids;
    match run_method {
        RunMethod::No | RunMethod::InPlace => {
            let run_data = gather_run_data(run_method, auto_gather, built.run_datas);
            (run_data, built.compile_errors, processed_ids)
        },
        _ => {
            let ran = merge_outputs(runs);
            let mut run_ids = ran.processed_ids;
            processed_ids.append(&mut run_ids);
            let run_data = gather_run_data(run_method, auto_gather, ran.run_datas);
            (run_data, built.compile_errors, processed_ids)
        },
    }
}

} // verus!
