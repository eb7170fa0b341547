use parabuild::gather::collect_results;
use parabuild::parabuilder::{Stage, Tools};
use parabuild::{
    CompliationErrorHandlingMethod, Json, Number, Parabuilder, RunMethod, RunOutput, Worker,
    WorkerAction, WorkerOutput, PANIC_ON_ERROR_DEFAULT_RUN_FUNC,
};
use std::collections::{BTreeSet, HashSet, VecDeque};

const TOOLS: Tools = Tools { bash_installed: true, lsof_installed: true };

const SINGLETHREADED_N: i64 = 20;
const MULTITHREADED_N: i64 = 100;

fn binding(n: i64) -> Json {
    Json::Object(vec![("N".to_string(), Json::Number(Number::PosInt(n as u64)))])
}

fn error_binding() -> Json {
    Json::Object(vec![("N".to_string(), Json::Text("a".to_string()))])
}

fn member<'a>(data: &'a Json, key: &str) -> Option<&'a Json> {
    data.as_object()?.iter().find(|(k, _)| k == key).map(|(_, v)| v)
}

/// What the example program prints for a binding, if it compiles: the
/// number `N`, or 42 where the binding has none.
fn program_output(data: &Json) -> Option<String> {
    match member(data, "N") {
        None => Some("42\n".to_string()),
        Some(Json::Number(Number::PosInt(n))) => Some(format!("{}\n", n)),
        Some(_) => None,
    }
}

/// A pipeline whose commands are played by `program_output`, with the
/// workers taking turns.
struct Stand {
    input: VecDeque<(usize, Json)>,
    handoff: VecDeque<(usize, Json)>,
    staged: BTreeSet<String>,
    compiles: usize,
    stop_after: Option<usize>,
    run_before_builds_joined: bool,
    builds_joined: bool,
}

impl Stand {
    fn stopping(&self) -> bool {
        self.stop_after.map_or(false, |limit| self.compiles >= limit)
    }

    fn after_run(&mut self, worker: &mut Worker, data: &Json) {
        if !self.builds_joined {
            self.run_before_builds_joined = true;
        }
        let stdout = program_output(data).unwrap();
        let output = RunOutput { code: Some(0), stdout, stderr: String::new() };
        match worker.ran(output, self.stopping(), 0) {
            WorkerAction::Continue { save: false, run_tick: true } | WorkerAction::Stop => {}
            other => panic!("unexpected action after a run: {:?}", other),
        }
    }

    fn build_step(&mut self, builder: &Parabuilder, worker: &mut Worker) -> bool {
        if worker.is_finished() {
            return false;
        }
        let Some((id, data)) = self.input.pop_front() else {
            return false;
        };
        let expected = WorkerAction::Compile { cppflags: builder.enable_cppflags };
        assert_eq!(worker.take(id, data.clone()), expected);
        let success = program_output(&data).is_some();
        self.compiles += 1;
        match worker.compiled(success, self.stopping()) {
            WorkerAction::Continue { save: false, .. } | WorkerAction::Stop => {}
            WorkerAction::Run => self.after_run(worker, &data),
            WorkerAction::Stage { sidecar, handoff } => {
                for path in builder.staged_targets(id) {
                    self.staged.insert(path);
                }
                if sidecar {
                    self.staged.insert(builder.sidecar_file(id));
                }
                if handoff {
                    self.handoff.push_back((id, data));
                }
                match worker.staged(self.stopping(), 0) {
                    WorkerAction::Continue { save: false, run_tick: false } | WorkerAction::Stop => {}
                    other => panic!("unexpected action after staging: {:?}", other),
                }
            }
            other => panic!("unexpected action after a compile: {:?}", other),
        }
        true
    }

    fn run_step(&mut self, builder: &Parabuilder, worker: &mut Worker) -> bool {
        if worker.is_finished() {
            return false;
        }
        let Some((id, data)) = self.handoff.pop_front() else {
            return false;
        };
        for path in builder.staged_targets(id) {
            assert!(self.staged.remove(&path), "{} was not staged", path);
        }
        assert_eq!(worker.take(id, data.clone()), WorkerAction::Run);
        self.after_run(worker, &data);
        true
    }
}

struct Outcome {
    builds: Vec<WorkerOutput>,
    runs: Vec<WorkerOutput>,
    staged: BTreeSet<String>,
    run_before_builds_joined: bool,
}

fn play(builder: &mut Parabuilder, stop_after: Option<usize>) -> Outcome {
    let plan = builder.run_at(TOOLS, "2024-05-01_10-00-00".to_string()).unwrap();
    let mut stand = Stand {
        input: plan.queue.into_iter().collect(),
        handoff: VecDeque::new(),
        staged: BTreeSet::new(),
        compiles: 0,
        stop_after,
        run_before_builds_joined: false,
        builds_joined: false,
    };
    let mut builds: Vec<Worker> = Vec::new();
    let mut runs: Vec<Worker> = Vec::new();
    let mut runs_started = false;
    for stage in plan.stages {
        match stage {
            Stage::SpawnBuildWorkers => {
                for k in 0..plan.build_workers {
                    builds.push(builder.build_worker(k).1);
                }
            }
            Stage::SpawnRunWorkers => {
                for k in 0..plan.run_workers {
                    runs.push(builder.run_worker(k).1);
                }
                runs_started = true;
            }
            Stage::JoinBuildWorkers => {
                loop {
                    let mut progress = false;
                    for worker in builds.iter_mut() {
                        progress |= stand.build_step(builder, worker);
                    }
                    if runs_started {
                        for worker in runs.iter_mut() {
                            stand.run_step(builder, worker);
                        }
                    }
                    if !progress {
                        break;
                    }
                }
                stand.builds_joined = true;
            }
            Stage::JoinRunWorkers => loop {
                let mut progress = false;
                for worker in runs.iter_mut() {
                    progress |= stand.run_step(builder, worker);
                }
                if !progress {
                    break;
                }
            },
        }
    }
    Outcome {
        builds: builds.into_iter().map(|w| w.finish()).collect(),
        runs: runs.into_iter().map(|w| w.finish()).collect(),
        staged: stand.staged,
        run_before_builds_joined: stand.run_before_builds_joined,
    }
}

fn datas_of(size: i64) -> Vec<Json> {
    let mut datas: Vec<Json> = (1..=size).map(binding).collect();
    if size == 0 {
        datas.push(Json::Object(vec![]));
    }
    datas.push(error_binding());
    datas
}

fn builder_of(name: &str, build_workers: usize, run_method: RunMethod, in_place_template: bool, is_makefile_project: bool) -> Parabuilder {
    let workspaces_path = format!("tests/workspaces_{}", name);
    let template = if is_makefile_project {
        ""
    } else if in_place_template {
        "src/main.cpp"
    } else {
        "src/main.cpp.template"
    };
    let targets = if is_makefile_project { vec!["main".to_string()] } else { vec!["build/main".to_string()] };
    Parabuilder::new("tests/example_cmake_project", &workspaces_path, template, &targets)
        .build_workers(build_workers)
        .run_method(run_method)
        .run_func(PANIC_ON_ERROR_DEFAULT_RUN_FUNC)
        .disable_progress_bar(true)
        .compilation_error_handling_method(CompliationErrorHandlingMethod::Collect)
        .in_place_template(in_place_template)
        .auto_gather_array_data(true)
        .enable_cppflags(is_makefile_project)
}

fn stdout_sum(run_data: &Json) -> i64 {
    run_data.as_array().unwrap().iter().fold(0, |acc, item| {
        let stdout = match member(item, "stdout") {
            Some(Json::Text(s)) => s.trim().parse::<i64>().unwrap(),
            other => panic!("no stdout in {:?}: {:?}", item, other),
        };
        acc + stdout
    })
}

fn parabuild_tester(
    name: &str,
    size: i64,
    build_workers: usize,
    run_method: RunMethod,
    in_place_template: bool,
    is_makefile_project: bool,
) {
    let datas = datas_of(size);
    let inputs = datas.clone();
    let error_data = error_binding();
    let mut parabuilder = builder_of(name, build_workers, run_method, in_place_template, is_makefile_project);
    parabuilder.set_datas(datas).unwrap();
    let outcome = play(&mut parabuilder, None);
    let (run_data, compile_error_datas, processed_data_ids) = collect_results(
        parabuilder.run_method,
        parabuilder.auto_gather_array_data,
        outcome.builds,
        outcome.runs,
    );
    assert!(compile_error_datas == vec![error_data], "got: {:?} {:?}", run_data, compile_error_datas);
    assert!(
        processed_data_ids.len() == if size == 0 { 2 } else { size as usize + 1 },
        "got: {:?}",
        processed_data_ids
    );
    // no id twice, every id an id of the input
    let distinct: HashSet<usize> = processed_data_ids.iter().copied().collect();
    assert_eq!(distinct.len(), processed_data_ids.len());
    assert!(processed_data_ids.iter().all(|id| *id < inputs.len()));
    if matches!(run_method, RunMethod::No) {
        assert!(run_data.is_null(), "got: {:?}", run_data);
        for i in 0..size {
            assert!(outcome.staged.contains(&format!("tests/workspaces_{}/targets/main_{}", name, i)));
            assert!(outcome.staged.contains(&format!("tests/workspaces_{}/targets/data_{}.json", name, i)));
        }
    } else {
        let ground_truth = if size > 0 { (1..=size).sum::<i64>() } else { 42 };
        assert!(run_data.is_array());
        let sum = stdout_sum(&run_data);
        assert!(sum == ground_truth, "expected: {}, got: {}, run_data: {:?}", ground_truth, sum, run_data);
        // every record belongs to one binding that is no compile error
        let mut recorded: Vec<&Json> =
            run_data.as_array().unwrap().iter().map(|item| member(item, "data").unwrap()).collect();
        let mut expected: Vec<&Json> = inputs.iter().filter(|d| **d != error_binding()).collect();
        recorded.sort_by_key(|d| format!("{:?}", d));
        expected.sort_by_key(|d| format!("{:?}", d));
        assert_eq!(recorded, expected);
        assert!(outcome.staged.is_empty(), "left in staging: {:?}", outcome.staged);
    }
    if matches!(run_method, RunMethod::Exclusive(_)) {
        assert!(!outcome.run_before_builds_joined);
    }
}

#[test]
fn test_singlethreaded_parabuild_without_run() {
    parabuild_tester("test_singlethreaded_parabuild_without_run", SINGLETHREADED_N, 1, RunMethod::No, false, false);
}

#[test]
fn test_singlethreaded_parabuild_in_place_run() {
    parabuild_tester("test_singlethreaded_parabuild_in_place_run", SINGLETHREADED_N, 1, RunMethod::InPlace, false, false);
}

#[test]
fn test_multithreaded_parabuild_without_run() {
    parabuild_tester("test_multithreaded_parabuild_without_run", MULTITHREADED_N, 4, RunMethod::No, false, false);
}

#[test]
fn test_multithreaded_parabuild_in_place_run() {
    parabuild_tester("test_multithreaded_parabuild_in_place_run", MULTITHREADED_N, 4, RunMethod::InPlace, false, false);
}

#[test]
fn test_multithreaded_parabuild_out_of_place_single_run() {
    parabuild_tester(
        "test_multithreaded_parabuild_out_of_place_single_run",
        MULTITHREADED_N,
        4,
        RunMethod::OutOfPlace(1),
        false,
        false,
    );
}

#[test]
fn test_multithreaded_parabuild_out_of_place_run() {
    parabuild_tester("test_multithreaded_parabuild_out_of_place_run", MULTITHREADED_N, 4, RunMethod::OutOfPlace(2), false, false);
}

#[test]
fn test_multithreaded_parabuild_exclusive_run() {
    parabuild_tester("test_multithreaded_parabuild_exclusive_run", MULTITHREADED_N, 4, RunMethod::Exclusive(2), false, false);
}

#[test]
fn test_multithreaded_parabuild_out_of_place_run_in_place_template() {
    parabuild_tester(
        "test_multithreaded_parabuild_out_of_place_run_in_place_template",
        MULTITHREADED_N,
        4,
        RunMethod::OutOfPlace(2),
        true,
        false,
    );
}

#[test]
fn test_multithreaded_parabuild_out_of_place_run_default_template() {
    parabuild_tester(
        "test_multithreaded_parabuild_out_of_place_run_default_template",
        0,
        4,
        RunMethod::OutOfPlace(2),
        true,
        false,
    );
}

#[test]
fn test_multithreaded_parabuild_makefile_project() {
    parabuild_tester("test_multithreaded_parabuild_makefile_project", 10, 4, RunMethod::OutOfPlace(2), true, true);
}

#[test]
fn out_of_place_runs_go_on_beside_the_builds() {
    let mut parabuilder = builder_of("beside", 4, RunMethod::OutOfPlace(2), false, false);
    parabuilder.set_datas(datas_of(MULTITHREADED_N)).unwrap();
    let outcome = play(&mut parabuilder, None);
    assert!(outcome.run_before_builds_joined);
}

#[test]
fn run_data_has_one_record_per_successful_binding() {
    let mut parabuilder = builder_of("count", 4, RunMethod::OutOfPlace(2), false, false);
    parabuilder.set_datas(datas_of(MULTITHREADED_N)).unwrap();
    let outcome = play(&mut parabuilder, None);
    let per_worker: usize = outcome.runs.iter().map(|o| o.run_data.as_array().map_or(0, |a| a.len())).sum();
    let (run_data, _, _) = collect_results(RunMethod::OutOfPlace(2), true, outcome.builds, outcome.runs);
    assert_eq!(run_data.as_array().unwrap().len(), 100);
    assert_eq!(per_worker, 100);
}

#[test]
fn an_interrupted_run_resumes_to_the_result_of_an_uninterrupted_one() {
    for run_method in [RunMethod::OutOfPlace(2), RunMethod::InPlace, RunMethod::Exclusive(2)] {
        let datas = datas_of(MULTITHREADED_N);
        let mut first = builder_of("resume", 4, run_method, false, false);
        first.set_datas(datas.clone()).unwrap();
        let interrupted = play(&mut first, Some(50));

        // the checkpoint holds one snapshot per worker
        let mut snapshots = interrupted.builds;
        snapshots.extend(interrupted.runs);
        let mut resumed = builder_of("resume", 4, run_method, false, false);
        let (run_data_before, errors_before, ids_before) =
            resumed.autosave_load("2024-05-01_10-00-00".to_string(), snapshots);
        assert!(ids_before.len() < datas.len(), "the first run was not interrupted");
        let done: HashSet<usize> = ids_before.iter().copied().collect();
        assert_eq!(done.len(), ids_before.len());
        resumed.set_datas_with_processed_data_ids_set(datas.clone(), done.clone()).unwrap();
        let queued: Vec<usize> = resumed.data_queue.as_ref().unwrap().iter().map(|(id, _)| *id).collect();
        assert!(queued.iter().all(|id| !done.contains(id)));
        assert_eq!(queued.len() + done.len(), datas.len());

        let rest = play(&mut resumed, None);
        let (run_data_after, errors_after, ids_after) = collect_results(run_method, true, rest.builds, rest.runs);

        let mut ids: Vec<usize> = ids_before.iter().chain(ids_after.iter()).copied().collect();
        ids.sort();
        assert_eq!(ids, (0..datas.len()).collect::<Vec<usize>>());
        let errors: Vec<Json> = errors_before.into_iter().chain(errors_after).collect();
        assert_eq!(errors, vec![error_binding()]);
        let records = run_data_before.as_array().unwrap().len() + run_data_after.as_array().unwrap().len();
        assert_eq!(records, 100);
        assert_eq!(stdout_sum(&run_data_before) + stdout_sum(&run_data_after), 5050);
    }
}

#[test]
fn ignored_compile_errors_are_processed_but_not_collected() {
    let mut parabuilder = builder_of("ignore", 2, RunMethod::InPlace, false, false)
        .compilation_error_handling_method(CompliationErrorHandlingMethod::Ignore);
    parabuilder.set_datas(datas_of(5)).unwrap();
    let outcome = play(&mut parabuilder, None);
    let (run_data, errors, ids) = collect_results(RunMethod::InPlace, true, outcome.builds, outcome.runs);
    assert!(errors.is_empty());
    assert_eq!(ids.len(), 6);
    assert_eq!(run_data.as_array().unwrap().len(), 5);
}

#[test]
fn an_empty_input_yields_an_empty_result() {
    let mut parabuilder = builder_of("empty", 2, RunMethod::OutOfPlace(1), false, false);
    parabuilder.set_datas(Vec::new()).unwrap();
    let outcome = play(&mut parabuilder, None);
    let (run_data, errors, ids) = collect_results(RunMethod::OutOfPlace(1), true, outcome.builds, outcome.runs);
    assert_eq!(run_data, Json::Array(vec![]));
    assert!(errors.is_empty());
    assert!(ids.is_empty());
}
