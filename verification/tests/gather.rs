use parabuild::gather::{collect_results, gather_run_data, merge_outputs};
use parabuild::{Json, Number, RunMethod, WorkerOutput};

fn n(i: u64) -> Json {
    Json::Number(Number::PosInt(i))
}

fn array(items: &[u64]) -> Json {
    Json::Array(items.iter().map(|i| n(*i)).collect())
}

fn output(run_data: Json, errors: &[u64], ids: &[usize]) -> WorkerOutput {
    WorkerOutput {
        run_data,
        compile_errors: errors.iter().map(|i| n(*i)).collect(),
        processed_ids: ids.to_vec(),
    }
}

#[test]
fn compile_only_has_no_run_data() {
    let r = gather_run_data(RunMethod::No, true, vec![array(&[1]), Json::Null]);
    assert_eq!(r, Json::Null);
    let r = gather_run_data(RunMethod::No, false, vec![]);
    assert_eq!(r, Json::Null);
}

#[test]
fn arrays_are_concatenated_in_worker_order() {
    let r = gather_run_data(
        RunMethod::InPlace,
        true,
        vec![array(&[1, 2]), Json::Null, array(&[]), array(&[3, 4, 5])],
    );
    assert_eq!(r, array(&[1, 2, 3, 4, 5]));
}

#[test]
fn concatenation_is_as_long_as_the_arrays_together() {
    let parts = vec![array(&[1, 2]), array(&[3, 4, 5]), Json::Null, array(&[6])];
    let lengths: usize = parts.iter().map(|p| p.as_array().map_or(0, |a| a.len())).sum();
    let r = gather_run_data(RunMethod::OutOfPlace(2), true, parts);
    assert_eq!(r.as_array().unwrap().len(), lengths);
    assert_eq!(lengths, 6);
}

#[test]
fn nothing_gathered_is_an_empty_array() {
    assert_eq!(gather_run_data(RunMethod::Exclusive(1), true, vec![]), Json::Array(vec![]));
    assert_eq!(gather_run_data(RunMethod::Exclusive(1), true, vec![Json::Null, Json::Null]), Json::Array(vec![]));
    assert_eq!(gather_run_data(RunMethod::InPlace, false, vec![Json::Null]), Json::Array(vec![]));
}

#[test]
fn without_auto_gather_the_per_worker_values_are_kept() {
    let r = gather_run_data(RunMethod::InPlace, false, vec![array(&[1, 2]), Json::Null, array(&[3])]);
    assert_eq!(r, Json::Array(vec![array(&[1, 2]), array(&[3])]));
}

#[test]
fn a_value_that_is_no_array_stops_the_concatenation() {
    let r = gather_run_data(
        RunMethod::OutOfPlace(1),
        true,
        vec![array(&[1, 2]), Json::Text("x".to_string()), Json::Null],
    );
    assert_eq!(r, Json::Array(vec![array(&[1, 2]), Json::Text("x".to_string())]));
}

#[test]
fn outputs_are_folded_in_join_order() {
    let merged = merge_outputs(vec![
        output(array(&[1]), &[10], &[0, 3]),
        output(Json::Null, &[], &[]),
        output(array(&[2, 3]), &[11, 12], &[1]),
    ]);
    assert_eq!(merged.run_datas, vec![array(&[1]), Json::Null, array(&[2, 3])]);
    assert_eq!(merged.compile_errors, vec![n(10), n(11), n(12)]);
    assert_eq!(merged.processed_ids, vec![0, 3, 1]);
}

#[test]
fn in_place_results_come_from_the_build_workers() {
    let builds = vec![output(array(&[1]), &[7], &[0, 1]), output(array(&[2]), &[], &[2])];
    let (run_data, errors, ids) = collect_results(RunMethod::InPlace, true, builds, vec![]);
    assert_eq!(run_data, array(&[1, 2]));
    assert_eq!(errors, vec![n(7)]);
    assert_eq!(ids, vec![0, 1, 2]);
}

#[test]
fn out_of_place_results_join_both_stages() {
    let builds = vec![output(Json::Null, &[7], &[4]), output(Json::Null, &[8], &[5])];
    let runs = vec![output(array(&[1, 2]), &[], &[0, 1]), output(array(&[3]), &[], &[2])];
    let (run_data, errors, ids) = collect_results(RunMethod::OutOfPlace(2), true, builds, runs);
    assert_eq!(run_data, array(&[1, 2, 3]));
    assert_eq!(errors, vec![n(7), n(8)]);
    assert_eq!(ids, vec![4, 5, 0, 1, 2]);
}

#[test]
fn exclusive_results_join_both_stages() {
    let builds = vec![output(Json::Null, &[], &[])];
    let runs = vec![output(array(&[9]), &[], &[0])];
    let (run_data, errors, ids) = collect_results(RunMethod::Exclusive(1), true, builds, runs);
    assert_eq!(run_data, array(&[9]));
    assert!(errors.is_empty());
    assert_eq!(ids, vec![0]);
}

#[test]
fn compile_only_results() {
    let builds = vec![output(Json::Null, &[3], &[0, 1, 2])];
    let (run_data, errors, ids) = collect_results(RunMethod::No, true, builds, vec![]);
    assert_eq!(run_data, Json::Null);
    assert_eq!(errors, vec![n(3)]);
    assert_eq!(ids, vec![0, 1, 2]);
}

fn sorted_items(run_data: &Json) -> Vec<String> {
    let mut items: Vec<String> =
        run_data.as_array().unwrap().iter().map(|i| format!("{:?}", i)).collect();
    items.sort();
    items
}

#[test]
fn the_result_is_the_same_for_every_order_of_the_workers() {
    let workers = || {
        vec![
            output(array(&[1, 2]), &[], &[0, 1]),
            output(Json::Null, &[], &[]),
            output(array(&[3]), &[], &[4]),
            output(array(&[4, 5, 6]), &[], &[2, 3, 5]),
        ]
    };
    let errors_of = || vec![output(Json::Null, &[20, 21], &[6, 7]), output(Json::Null, &[22], &[8])];
    let orders: [[usize; 4]; 4] = [[0, 1, 2, 3], [3, 2, 1, 0], [1, 3, 0, 2], [2, 0, 3, 1]];
    let reference = collect_results(RunMethod::OutOfPlace(4), true, errors_of(), workers());
    for order in orders {
        let mut runs = Vec::new();
        for k in order {
            runs.push(workers().swap_remove(k));
        }
        let mut builds = errors_of();
        builds.reverse();
        let (run_data, mut errors, mut ids) = collect_results(RunMethod::OutOfPlace(4), true, builds, runs);
        assert_eq!(sorted_items(&run_data), sorted_items(&reference.0));
        let mut expected_errors: Vec<String> = reference.1.iter().map(|e| format!("{:?}", e)).collect();
        expected_errors.sort();
        let mut got_errors: Vec<String> = errors.drain(..).map(|e| format!("{:?}", e)).collect();
        got_errors.sort();
        assert_eq!(got_errors, expected_errors);
        let mut expected_ids = reference.2.clone();
        expected_ids.sort();
        ids.sort();
        assert_eq!(ids, expected_ids);
    }
}
