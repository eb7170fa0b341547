use parabuild::checkpoint::FolderEntry;
use parabuild::parabuilder::{
    CopyMethod, Host, RunProgress, Stage, Tools, DEFAULT_AUTOSAVE_DIR,
    DEFAULT_COMPILE_BASH_SCRIPT, DEFAULT_INIT_BASH_SCRIPT, TEMP_TARGET_PATH_DIR,
};
use parabuild::worker::Role;
use parabuild::{
    CompliationErrorHandlingMethod, Error, Json, Number, Parabuilder, RunFunc, RunMethod,
    WorkerOutput,
};
use std::collections::HashSet;

const TOOLS: Tools = Tools { bash_installed: true, lsof_installed: true };

fn binding(n: u64) -> Json {
    Json::Object(vec![("N".to_string(), Json::Number(Number::PosInt(n)))])
}

fn builder() -> Parabuilder {
    Parabuilder::new("project", "ws", "src/main.cpp.template", &vec!["build/main".to_string()])
}

fn host(rsync: bool) -> Host {
    Host {
        rsync_installed: rsync,
        current_dir: "/home/user".to_string(),
        canonical_project_path: "/home/user/project".to_string(),
    }
}

#[test]
fn a_fresh_orchestrator_has_the_defaults() {
    let p = builder();
    assert_eq!(p.project_path, "project");
    assert_eq!(p.workspaces_path, "ws");
    assert_eq!(p.template_file, "src/main.cpp.template");
    assert_eq!(p.target_files, vec!["build/main".to_string()]);
    assert_eq!(p.target_files_base, vec!["main".to_string()]);
    assert_eq!(p.init_bash_script, "\n        cmake -B build -S . -DPARABUILD=ON\n        ");
    assert_eq!(p.init_bash_script, DEFAULT_INIT_BASH_SCRIPT);
    assert_eq!(p.compile_bash_script, "\n        cmake --build build --target all -- -B\n        ");
    assert_eq!(p.compile_bash_script, DEFAULT_COMPILE_BASH_SCRIPT);
    assert_eq!(p.run_bash_script, "\n                ./build/main\n                ");
    assert_eq!(p.build_workers, 1);
    assert_eq!(p.run_method, RunMethod::Exclusive(1));
    assert_eq!(p.temp_target_path_dir, "ws/targets");
    assert_eq!(TEMP_TARGET_PATH_DIR, "targets");
    assert_eq!(p.run_func_data, RunFunc::IgnoreOnError);
    assert!(p.data_queue.is_none());
    assert_eq!(p.compilation_error_handling_method, CompliationErrorHandlingMethod::Collect);
    assert!(p.auto_gather_array_data);
    assert!(!p.in_place_template);
    assert!(!p.disable_progress_bar);
    assert!(!p.no_cache);
    assert!(!p.without_rsync);
    assert!(!p.enable_cppflags);
    assert_eq!(p.autosave_interval, 0);
    assert_eq!(p.autosave_dir, ".parabuild/autosave");
    assert_eq!(p.autosave_dir, DEFAULT_AUTOSAVE_DIR);
    assert!(p.continue_from_start_time.is_none());
}

#[test]
fn without_targets_there_is_no_default_run_command() {
    let p = Parabuilder::new("project", "ws", "", &Vec::new());
    assert_eq!(p.run_bash_script, "");
    assert!(p.target_files_base.is_empty());
}

#[test]
fn a_target_without_a_name_is_refused() {
    assert!(Parabuilder::try_new("p", "ws", "", &vec!["build/main".to_string(), "..".to_string()]).is_none());
    assert!(Parabuilder::try_new("p", "ws", "", &vec!["/".to_string()]).is_none());
    let p = Parabuilder::try_new("p", "ws", "", &vec!["a/b.out".to_string(), "c".to_string()]).unwrap();
    assert_eq!(p.target_files_base, vec!["b.out".to_string(), "c".to_string()]);
    assert_eq!(p.run_bash_script, "\n                ./a/b.out\n                ");
}

#[test]
fn builders_set_one_option_each() {
    let p = builder()
        .init_bash_script("init")
        .compile_bash_script("make -B")
        .run_bash_script("./main")
        .build_workers(4)
        .run_method(RunMethod::OutOfPlace(2))
        .run_func(RunFunc::PanicOnError)
        .compilation_error_handling_method(CompliationErrorHandlingMethod::Panic)
        .auto_gather_array_data(false)
        .in_place_template(true)
        .disable_progress_bar(true)
        .no_cache(true)
        .without_rsync(true)
        .enable_cppflags(true)
        .autosave_interval(60)
        .autosave_dir("saves");
    assert_eq!(p.init_bash_script, "init");
    assert_eq!(p.compile_bash_script, "make -B");
    assert_eq!(p.run_bash_script, "./main");
    assert_eq!(p.build_workers, 4);
    assert_eq!(p.run_method, RunMethod::OutOfPlace(2));
    assert_eq!(p.run_func_data, RunFunc::PanicOnError);
    assert_eq!(p.compilation_error_handling_method, CompliationErrorHandlingMethod::Panic);
    assert!(!p.auto_gather_array_data);
    assert!(p.in_place_template);
    assert!(p.disable_progress_bar);
    assert!(p.no_cache);
    assert!(p.without_rsync);
    assert!(p.enable_cppflags);
    assert_eq!(p.autosave_interval, 60);
    assert_eq!(p.autosave_dir, "saves");
    assert_eq!(p.project_path, "project");
    assert_eq!(p.temp_target_path_dir, "ws/targets");
}

#[test]
fn signed_run_workers_select_the_topology() {
    assert_eq!(builder().run_workers(3).run_method, RunMethod::OutOfPlace(3));
    assert_eq!(builder().run_workers(0).run_method, RunMethod::No);
    assert_eq!(builder().run_workers(-2).run_method, RunMethod::Exclusive(2));
    assert_eq!(builder().run_workers(-1).run_method, RunMethod::Exclusive(1));
    assert_eq!(builder().run_workers(isize::MAX).run_method, RunMethod::OutOfPlace(isize::MAX as usize));
    assert_eq!(
        builder().run_workers(isize::MIN).run_method,
        RunMethod::Exclusive(isize::MAX as usize + 1)
    );
}

#[test]
fn exclusive_run_workers_read_the_count_unsigned() {
    assert_eq!(builder().run_workers_exclusive(2).run_method, RunMethod::Exclusive(2));
    assert_eq!(builder().run_workers_exclusive(0).run_method, RunMethod::Exclusive(0));
    assert_eq!(builder().run_workers_exclusive(-1).run_method, RunMethod::Exclusive(usize::MAX));
    assert_eq!(
        builder().run_workers_exclusive(isize::MIN).run_method,
        RunMethod::Exclusive(isize::MIN as usize)
    );
}

#[test]
fn run_worker_count_of_each_topology() {
    assert_eq!(RunMethod::No.run_worker_count(), 0);
    assert_eq!(RunMethod::InPlace.run_worker_count(), 0);
    assert_eq!(RunMethod::OutOfPlace(3).run_worker_count(), 3);
    assert_eq!(RunMethod::Exclusive(2).run_worker_count(), 2);
}

#[test]
fn seeding_numbers_the_bindings() {
    let mut p = builder();
    assert_eq!(p.set_datas(vec![binding(10), binding(20), Json::Null]), Ok(()));
    assert_eq!(p.data_queue, Some(vec![(0, binding(10)), (1, binding(20)), (2, Json::Null)]));
}

#[test]
fn seeding_twice_is_refused() {
    let mut p = builder();
    p.set_datas(vec![binding(1)]).unwrap();
    assert_eq!(p.set_datas(vec![binding(2)]), Err(Error::QueueAlreadySeeded));
    assert_eq!(
        p.set_datas_with_processed_data_ids_set(vec![binding(2)], HashSet::new()),
        Err(Error::QueueAlreadySeeded)
    );
    assert_eq!(p.data_queue, Some(vec![(0, binding(1))]));
}

#[test]
fn seeding_an_empty_input() {
    let mut p = builder();
    assert_eq!(p.set_datas(Vec::new()), Ok(()));
    assert_eq!(p.data_queue, Some(Vec::new()));
}

#[test]
fn resumed_seeding_skips_processed_ids() {
    let mut p = builder();
    let processed: HashSet<usize> = [0, 2, 7].into_iter().collect();
    let datas = vec![binding(10), binding(11), binding(12), binding(13)];
    assert_eq!(p.set_datas_with_processed_data_ids_set(datas, processed), Ok(()));
    assert_eq!(p.data_queue, Some(vec![(1, binding(11)), (3, binding(13))]));
}

#[test]
fn resumed_seeding_with_nothing_processed_is_plain_seeding() {
    let mut p = builder();
    p.set_datas_with_processed_data_ids_set(vec![binding(1), binding(2)], HashSet::new()).unwrap();
    assert_eq!(p.data_queue, Some(vec![(0, binding(1)), (1, binding(2))]));
    let mut p = builder();
    p.set_datas_with_processed_data_ids_set(vec![binding(1), binding(2)], [0, 1].into_iter().collect()).unwrap();
    assert_eq!(p.data_queue, Some(Vec::new()));
}

#[test]
fn provisioning_needs_rsync_unless_disabled() {
    assert_eq!(builder().init_workspace(&host(false)), Err(Error::RsyncMissing));
    assert!(builder().without_rsync(true).init_workspace(&host(false)).is_ok());
    assert!(builder().init_workspace(&host(true)).is_ok());
}

#[test]
fn provisioning_plan_for_the_default_topology() {
    let plan = builder().build_workers(4).no_cache(true).init_workspace(&host(true)).unwrap();
    assert_eq!(plan.workspaces_root, "/home/user/ws");
    assert!(plan.clear_first);
    assert!(!plan.scratch_copy);
    assert_eq!(plan.copy_method, CopyMethod::Rsync);
    assert_eq!(plan.build_workspaces, 4);
    assert_eq!(plan.run_workspaces, 1);
    assert_eq!(plan.staging_dir, "ws/targets");
}

#[test]
fn provisioning_keeps_an_absolute_root() {
    let p = Parabuilder::new("project", "/tmp/ws", "", &vec!["main".to_string()]).without_rsync(true);
    let plan = p.run_method(RunMethod::InPlace).init_workspace(&host(false)).unwrap();
    assert_eq!(plan.workspaces_root, "/tmp/ws");
    assert!(!plan.clear_first);
    assert!(!plan.scratch_copy);
    assert_eq!(plan.copy_method, CopyMethod::IgnoreAware);
    assert_eq!(plan.run_workspaces, 0);
    assert_eq!(plan.staging_dir, "/tmp/ws/targets");
}

#[test]
fn workspaces_inside_the_project_go_through_a_scratch_copy() {
    let p = Parabuilder::new(".", "project/ws", "", &vec!["main".to_string()]).without_rsync(true);
    let plan = p.init_workspace(&host(true)).unwrap();
    assert_eq!(plan.workspaces_root, "/home/user/project/ws");
    assert!(plan.scratch_copy);
    assert_eq!(plan.copy_method, CopyMethod::Plain);

    let p = Parabuilder::new(".", "project/ws", "", &vec!["main".to_string()]);
    let plan = p.init_workspace(&host(true)).unwrap();
    assert!(!plan.scratch_copy);
    assert_eq!(plan.copy_method, CopyMethod::Rsync);

    let p = Parabuilder::new(".", "projects/ws", "", &vec!["main".to_string()]).without_rsync(true);
    let plan = p.init_workspace(&host(true)).unwrap();
    assert!(!plan.scratch_copy);
    assert_eq!(plan.copy_method, CopyMethod::IgnoreAware);
}

#[test]
fn workspaces_are_named_by_role_and_index() {
    let p = builder();
    let w = p.workspace(Role::Build, 0);
    assert_eq!(w.path, "ws/workspace_0");
    assert!(!w.init_must_succeed);
    let w = p.workspace(Role::Run, 12);
    assert_eq!(w.path, "ws/workspace_exe_12");
    assert!(w.init_must_succeed);
}

#[test]
fn a_build_worker_knows_where_it_works() {
    let p = builder().run_method(RunMethod::InPlace).enable_cppflags(true).autosave_interval(5);
    let (job, worker) = p.build_worker(3);
    assert_eq!(job.index, 3);
    assert_eq!(job.workspace, "ws/workspace_3");
    assert_eq!(job.targets, vec!["ws/workspace_3/build/main".to_string()]);
    let template = job.template.unwrap();
    assert_eq!(template.source, "project/src/main.cpp.template");
    assert_eq!(template.output, "ws/workspace_3/src/main.cpp");
    assert_eq!(job.checkpoint_id.len(), 36);
    let config = worker.config();
    assert_eq!(config.role, Role::Build);
    assert_eq!(config.run_method, RunMethod::InPlace);
    assert_eq!(config.policy, CompliationErrorHandlingMethod::Collect);
    assert_eq!(config.run_func, RunFunc::IgnoreOnError);
    assert_eq!(config.autosave_interval, 5);
    assert!(config.enable_cppflags);
    assert_eq!(p.worker_config(Role::Build), config);
}

#[test]
fn an_in_place_template_is_rendered_over_itself() {
    let p = Parabuilder::new("project", "ws", "src/main.cpp", &vec!["build/main".to_string()])
        .in_place_template(true);
    let (job, _) = p.build_worker(0);
    let template = job.template.unwrap();
    assert_eq!(template.source, "project/src/main.cpp");
    assert_eq!(template.output, "ws/workspace_0/src/main.cpp");
}

#[test]
fn without_a_template_nothing_is_rendered() {
    let p = Parabuilder::new("project", "ws", "", &vec!["main".to_string()]);
    let (job, _) = p.build_worker(0);
    assert!(job.template.is_none());
    let p = Parabuilder::new("project", "ws", "", &vec!["main".to_string()]).in_place_template(true);
    let (job, _) = p.build_worker(0);
    assert!(job.template.is_none());
}

#[test]
fn a_run_worker_knows_where_it_works() {
    let p = builder().run_method(RunMethod::OutOfPlace(2));
    let (job, worker) = p.run_worker(1);
    assert_eq!(job.index, 1);
    assert_eq!(job.workspace, "ws/workspace_exe_1");
    assert_eq!(job.targets, vec!["ws/workspace_exe_1/build/main".to_string()]);
    assert!(job.template.is_none());
    assert_eq!(worker.config().role, Role::Run);
    assert_eq!(p.worker_config(Role::Run), worker.config());
}

#[test]
fn every_worker_gets_its_own_checkpoint_folder() {
    let p = builder();
    let (a, _) = p.build_worker(0);
    let (b, _) = p.build_worker(0);
    let (c, _) = p.run_worker(0);
    assert_ne!(a.checkpoint_id, b.checkpoint_id);
    assert_ne!(a.checkpoint_id, c.checkpoint_id);
    for id in [&a.checkpoint_id, &b.checkpoint_id, &c.checkpoint_id] {
        assert_eq!(id.len(), 36);
        assert_eq!(id.matches('-').count(), 4);
    }
}

#[test]
fn staged_files_are_named_by_target_and_id() {
    let p = Parabuilder::new("project", "ws", "", &vec!["build/main".to_string(), "out/data.bin".to_string()]);
    assert_eq!(p.staged_targets(0), vec!["ws/targets/main_0".to_string(), "ws/targets/data.bin_0".to_string()]);
    assert_eq!(p.staged_targets(123), vec!["ws/targets/main_123".to_string(), "ws/targets/data.bin_123".to_string()]);
    assert_eq!(p.sidecar_file(0), "ws/targets/data_0.json");
    assert_eq!(p.sidecar_file(19), "ws/targets/data_19.json");
}

#[test]
fn a_run_needs_a_seeded_queue_and_its_tools() {
    let mut p = builder();
    assert_eq!(p.run_at(TOOLS, "t".to_string()), Err(Error::QueueNotSeeded));
    assert_eq!(p.run(TOOLS), Err(Error::QueueNotSeeded));
    assert_eq!(
        p.run_at(Tools { bash_installed: false, lsof_installed: false }, "t".to_string()),
        Err(Error::QueueNotSeeded)
    );
    p.set_datas(vec![binding(1)]).unwrap();
    assert_eq!(
        p.run_at(Tools { bash_installed: false, lsof_installed: false }, "t".to_string()),
        Err(Error::BashMissing)
    );
    assert_eq!(
        p.run_at(Tools { bash_installed: false, lsof_installed: true }, "t".to_string()),
        Err(Error::BashMissing)
    );
    assert_eq!(
        p.run_at(Tools { bash_installed: true, lsof_installed: false }, "t".to_string()),
        Err(Error::LsofMissing)
    );
    assert_eq!(p.run(Tools { bash_installed: true, lsof_installed: false }), Err(Error::LsofMissing));
    assert_eq!(p.data_queue, Some(vec![(0, binding(1))]));
    assert!(p.run_at(TOOLS, "t".to_string()).is_ok());
}

#[test]
fn the_plan_of_each_topology() {
    let plan_of = |run_method: RunMethod| {
        let mut p = builder().build_workers(4).run_method(run_method);
        p.set_datas(vec![binding(1), binding(2)]).unwrap();
        let plan = p.run_at(TOOLS, "2024-05-01_10-00-00".to_string()).unwrap();
        assert_eq!(p.data_queue, Some(Vec::new()));
        plan
    };
    let plan = plan_of(RunMethod::No);
    assert_eq!(plan.stages, vec![Stage::SpawnBuildWorkers, Stage::JoinBuildWorkers]);
    assert_eq!(plan.run_progress, RunProgress::Hidden);
    assert_eq!(plan.build_workers, 4);
    assert_eq!(plan.run_workers, 0);
    assert_eq!(plan.start_time, "2024-05-01_10-00-00");
    assert_eq!(plan.queue, vec![(0, binding(1)), (1, binding(2))]);

    let plan = plan_of(RunMethod::InPlace);
    assert_eq!(plan.stages, vec![Stage::SpawnBuildWorkers, Stage::JoinBuildWorkers]);
    assert_eq!(plan.run_progress, RunProgress::Running);
    assert_eq!(plan.run_workers, 0);

    let plan = plan_of(RunMethod::Exclusive(2));
    assert_eq!(
        plan.stages,
        vec![Stage::SpawnBuildWorkers, Stage::JoinBuildWorkers, Stage::SpawnRunWorkers, Stage::JoinRunWorkers]
    );
    assert_eq!(plan.run_progress, RunProgress::WaitingExclusive);
    assert_eq!(plan.run_workers, 2);

    let plan = plan_of(RunMethod::OutOfPlace(3));
    assert_eq!(
        plan.stages,
        vec![Stage::SpawnBuildWorkers, Stage::SpawnRunWorkers, Stage::JoinBuildWorkers, Stage::JoinRunWorkers]
    );
    assert_eq!(plan.run_progress, RunProgress::Running);
    assert_eq!(plan.run_workers, 3);
}

#[test]
fn a_new_run_is_named_by_the_local_time() {
    let mut p = builder();
    p.set_datas(vec![binding(1)]).unwrap();
    let plan = p.run(TOOLS).unwrap();
    let name = plan.start_time;
    assert_eq!(name.len(), 19);
    let shape: String = name.chars().map(|c| if c.is_ascii_digit() { '9' } else { c }).collect();
    assert_eq!(shape, "9999-99-99_99-99-99");
}

#[test]
fn a_resumed_run_keeps_the_name_of_its_checkpoint() {
    let mut p = builder();
    p.autosave_load("2024-05-01_10-00-00".to_string(), Vec::new());
    p.set_datas(vec![binding(1)]).unwrap();
    let plan = p.run(TOOLS).unwrap();
    assert_eq!(plan.start_time, "2024-05-01_10-00-00");
    let mut p = builder();
    p.autosave_load("before".to_string(), Vec::new());
    p.set_datas(vec![binding(1)]).unwrap();
    assert_eq!(p.run_at(TOOLS, "now".to_string()).unwrap().start_time, "before");
}

#[test]
fn gather_data_passes_errors_and_ids_through() {
    let p = builder().run_method(RunMethod::InPlace);
    let (run_data, errors, ids) = p.gather_data(
        vec![Json::Array(vec![binding(1)]), Json::Null, Json::Array(vec![binding(2)])],
        vec![Json::Text("a".to_string())],
        vec![2, 0, 1],
    );
    assert_eq!(run_data, Json::Array(vec![binding(1), binding(2)]));
    assert_eq!(errors, vec![Json::Text("a".to_string())]);
    assert_eq!(ids, vec![2, 0, 1]);
    let p = builder().run_method(RunMethod::No);
    let (run_data, _, _) = p.gather_data(vec![Json::Array(vec![binding(1)])], vec![], vec![]);
    assert_eq!(run_data, Json::Null);
    let p = builder().run_method(RunMethod::InPlace).auto_gather_array_data(false);
    let (run_data, _, _) = p.gather_data(vec![Json::Array(vec![binding(1)]), Json::Null], vec![], vec![]);
    assert_eq!(run_data, Json::Array(vec![Json::Array(vec![binding(1)])]));
}

fn entry(path: &str, is_dir: bool, modified: u128) -> FolderEntry {
    FolderEntry { path: path.to_string(), is_dir, modified }
}

#[test]
fn the_named_checkpoint_is_under_the_autosave_directory() {
    let p = builder().autosave_dir("saves");
    let source = p.autosave_source("2024-05-01_10-00-00", &Vec::new()).unwrap();
    assert_eq!(source.folder, "saves/2024-05-01_10-00-00");
    assert_eq!(source.start_time, "2024-05-01_10-00-00");
}

#[test]
fn the_latest_checkpoint_is_the_newest_folder() {
    let p = builder();
    let entries = vec![
        entry(".parabuild/autosave/2024-05-01_10-00-00", true, 100),
        entry(".parabuild/autosave/2024-05-02_10-00-00", true, 300),
        entry(".parabuild/autosave/notes.txt", false, 900),
        entry(".parabuild/autosave/2024-05-01_12-00-00", true, 200),
    ];
    let source = p.autosave_source("", &entries).unwrap();
    assert_eq!(source.folder, ".parabuild/autosave/2024-05-02_10-00-00");
    assert_eq!(source.start_time, "2024-05-02_10-00-00");
}

#[test]
fn without_a_checkpoint_there_is_nothing_to_resume() {
    let p = builder();
    assert_eq!(p.autosave_source("", &Vec::new()), Err(Error::NoAutosaveData));
    assert_eq!(p.autosave_source("", &vec![entry("a/file", false, 1)]), Err(Error::NoAutosaveData));
    assert_eq!(p.autosave_source("..", &Vec::new()), Err(Error::NoAutosaveData));
}

#[test]
fn loading_a_checkpoint_merges_its_snapshots() {
    let mut p = builder().run_method(RunMethod::OutOfPlace(2));
    let snapshots = vec![
        WorkerOutput { run_data: Json::Null, compile_errors: vec![Json::Text("a".to_string())], processed_ids: vec![4] },
        WorkerOutput { run_data: Json::Array(vec![binding(1)]), compile_errors: vec![], processed_ids: vec![0] },
        WorkerOutput { run_data: Json::Array(vec![binding(2), binding(3)]), compile_errors: vec![], processed_ids: vec![1, 2] },
    ];
    let (run_data, errors, ids) = p.autosave_load("2024-05-01_10-00-00".to_string(), snapshots);
    assert_eq!(run_data, Json::Array(vec![binding(1), binding(2), binding(3)]));
    assert_eq!(errors, vec![Json::Text("a".to_string())]);
    assert_eq!(ids, vec![4, 0, 1, 2]);
    assert_eq!(p.continue_from_start_time, Some("2024-05-01_10-00-00".to_string()));
    assert_eq!(p.run_method, RunMethod::OutOfPlace(2));
}

#[test]
fn names_differ_where_ids_differ() {
    let p = builder();
    let mut staged = HashSet::new();
    let mut sidecars = HashSet::new();
    let mut workspaces = HashSet::new();
    for id in 0..300 {
        assert!(staged.insert(p.staged_targets(id)));
        assert!(sidecars.insert(p.sidecar_file(id)));
        assert!(workspaces.insert(p.workspace(Role::Build, id).path));
        assert!(workspaces.insert(p.workspace(Role::Run, id).path));
    }
    assert_eq!(workspaces.len(), 600);
}
