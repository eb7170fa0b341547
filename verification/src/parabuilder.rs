//! The orchestrator: its configuration, the seeding of the input queue, and
//! the plans that the application carries out.

use crate::checkpoint::{
    fresh_uuid, has_folder, is_latest, latest_folder, local_timestamp, FolderEntry,
    START_TIME_FORMAT,
};
use crate::error::Error;
use crate::gather::{
    gather_run_data, gathered_run_data, joined_errors, joined_ids, merge_outputs, output_views,
    run_datas,
};
use crate::json::{take_at, views, Json, JsonView};
use crate::paths::{
    all_have_file_names, base_names, file_name, is_absolute, join, joined_path, path_file_name,
    path_is_absolute, path_starts_with, starts_with,
};
use crate::run_func::RunFunc;
use crate::template::{template_output_file, template_output_of};
use crate::run_method::{CompliationErrorHandlingMethod, RunMethod};
use crate::text::{numbered, numbered_name, texts};
use crate::worker::{initial, Role, Worker, WorkerConfig, WorkerOutput};
use std::collections::HashSet;
use vstd::prelude::*;

verus! {

/// The init command of a fresh orchestrator.
pub const DEFAULT_INIT_BASH_SCRIPT: &'static str =
    "\n        cmake -B build -S . -DPARABUILD=ON\n        ";

/// The compile command of a fresh orchestrator.
pub const DEFAULT_COMPILE_BASH_SCRIPT: &'static str =
    "\n        cmake --build build --target all -- -B\n        ";

/// What stands before the first target in the run command of a fresh
/// orchestrator.
pub const DEFAULT_RUN_PREFIX: &'static str = "\n                ./";

/// What stands after the first target in the run command of a fresh
/// orchestrator.
pub const DEFAULT_RUN_SUFFIX: &'static str = "\n                ";

/// Where a fresh orchestrator keeps its checkpoints.
pub const DEFAULT_AUTOSAVE_DIR: &'static str = ".parabuild/autosave";

/// The name of the staging directory under the workspaces root.
pub const TEMP_TARGET_PATH_DIR: &'static str = "targets";

/// The main body of the building system: the configuration and the input
/// queue.
pub struct Parabuilder {
    pub project_path: String,
    pub workspaces_path: String,
    pub template_file: String,
    pub target_files: Vec<String>,
    /// The final component of each target file.
    pub target_files_base: Vec<String>,
    pub init_bash_script: String,
    pub compile_bash_script: String,
    pub run_bash_script: String,
    pub build_workers: usize,
    pub run_method: RunMethod,
    /// The staging directory.
    pub temp_target_path_dir: String,
    pub run_func_data: RunFunc,
    /// The bindings still to be built, each with its id; `None` until the
    /// queue is seeded.
    pub data_queue: Option<Vec<(usize, Json)>>,
    pub compilation_error_handling_method: CompliationErrorHandlingMethod,
    pub auto_gather_array_data: bool,
    pub in_place_template: bool,
    pub disable_progress_bar: bool,
    pub no_cache: bool,
    pub without_rsync: bool,
    pub enable_cppflags: bool,
    pub autosave_interval: u64,
    pub autosave_dir: String,
    /// The start time of the run that is being resumed, if any.
    pub continue_from_start_time: Option<String>,
}

/// The run command of a fresh orchestrator: the first target, run from the
/// workspace, or nothing without a target.
pub open spec fn default_run_script(target_files: Seq<Seq<char>>) -> Seq<char> {
    if target_files.len() > 0 {
        DEFAULT_RUN_PREFIX@ + target_files[0] + DEFAULT_RUN_SUFFIX@
    } else {
        Seq::empty()
    }
}

/// The count that a negative `run_workers` stands for.
pub open spec fn magnitude(n: isize) -> usize {
    if n >= 0 {
        n as usize
    } else {
        (-n) as usize
    }
}

/// The two's complement reading of `n` as an unsigned count.
pub open spec fn reinterpreted(n: isize) -> usize {
    if n >= 0 {
        n as usize
    } else {
        (n + usize::MAX + 1) as usize
    }
}

/// The topology that a signed worker count selects: positive for
/// concurrent run workers, zero for none, negative for exclusive ones.
pub open spec fn run_method_of(run_workers: isize) -> RunMethod {
    if run_workers > 0 {
        RunMethod::OutOfPlace(run_workers as usize)
    } else if run_workers == 0 {
        RunMethod::No
    } else {
        RunMethod::Exclusive(magnitude(run_workers))
    }
}

/// The ids and values of a queue.
pub open spec fn queue_view(queue: Seq<(usize, Json)>) -> Seq<(usize, JsonView)> {
    Seq::new(queue.len(), |i: int| (queue[i].0, queue[i].1@))
}

/// Every binding with its id: its position in the input.
pub open spec fn enumerated(datas: Seq<JsonView>) -> Seq<(usize, JsonView)> {
    Seq::new(datas.len(), |i: int| (i as usize, datas[i]))
}

/// The bindings whose ids are not in `processed`, each with its id, in
/// input order.
pub open spec fn unprocessed(datas: Seq<JsonView>, processed: Set<usize>) -> Seq<
    (usize, JsonView),
>
    decreases datas.len(),
{
    if datas.len() == 0 {
        Seq::empty()
    } else {
        let id = (datas.len() - 1) as usize;
        if processed.contains(id) {
            unprocessed(datas.drop_last(), processed)
        } else {
            unprocessed(datas.drop_last(), processed).push((id, datas.last()))
        }
    }
}

impl Parabuilder {
    /// The queue as ids and values, if it is seeded.
    pub open spec fn queue(&self) -> Option<Seq<(usize, JsonView)>> {
        match self.data_queue {
            Some(q) => Some(queue_view(q@)),
            None => None,
        }
    }

    /// Whether this is the fresh configuration for the given paths.
    pub open spec fn is_default_for(
        &self,
        project_path: Seq<char>,
        workspaces_path: Seq<char>,
        template_file: Seq<char>,
        target_files: Seq<Seq<char>>,
    ) -> bool {
        &&& self.project_path@ == project_path
        &&& self.workspaces_path@ == workspaces_path
        &&& self.template_file@ == template_file
        &&& texts(self.target_files@) == target_files
        &&& self.target_files_base.len() == target_files.len()
        &&& forall|i: int|
            0 <= i < target_files.len() ==> path_file_name(#[trigger] target_files[i]) == Some(
                self.target_files_base@[i]@,
            )
        &&& self.init_bash_script@ == DEFAULT_INIT_BASH_SCRIPT@
        &&& self.compile_bash_script@ == DEFAULT_COMPILE_BASH_SCRIPT@
        &&& self.run_bash_script@ == default_run_script(target_files)
        &&& self.build_workers == 1
        &&& self.run_method == RunMethod::Exclusive(1)
        &&& self.temp_target_path_dir@ == joined_path(workspaces_path, TEMP_TARGET_PATH_DIR@)
        &&& self.run_func_data == RunFunc::IgnoreOnError
        &&& self.data_queue is None
        &&& self.compilation_error_handling_method == CompliationErrorHandlingMethod::Collect
        &&& self.auto_gather_array_data
        &&& !self.in_place_template
        &&& !self.disable_progress_bar
        &&& !self.no_cache
        &&& !self.without_rsync
        &&& !self.enable_cppflags
        &&& self.autosave_interval == 0
        &&& self.autosave_dir@ == DEFAULT_AUTOSAVE_DIR@
        &&& self.continue_from_start_time is None
    }

    /// A fresh orchestrator for a project, with every option at its
    /// default. Every target file must have a final component.
    pub fn new(
        project_path: &str,
        workspaces_path: &str,
        template_file: &str,
        target_files: &Vec<String>,
    ) -> (r: Parabuilder)
        requires
            all_have_file_names(texts(target_files@)),
        ensures
            r.is_default_for(
                project_path@,
                workspaces_path@,
                template_file@,
                texts(target_files@),
            ),
    {
        let target_files_base = match base_names(target_files) {
            Some(names) => names,
            None => Vec::new(),
        };
        let mut targets: Vec<String> = Vec::new();
        let mut i: usize = 0;
        while i < target_files.len()
            invariant
                i <= target_files.len(),
                targets.len() == i,
                forall|k: int| 0 <= k < i ==> (#[trigger] targets@[k])@ == target_files@[k]@,
            decreases target_files.len() - i,
        {
            targets.push(target_files[i].clone());
            i += 1;
        }
        assert(texts(targets@) =~= texts(target_files@));
        let run_bash_script = if target_files.len() > 0 {
            let mut script = String::from_str(DEFAULT_RUN_PREFIX);
            script.append(target_files[0].as_str());
            script.append(DEFAULT_RUN_SUFFIX);
            script
        } else {
            String::new()
        };
        Parabuilder {
            project_path: String::from_str(project_path),
            workspaces_path: String::from_str(workspaces_path),
            template_file: String::from_str(template_file),
            target_files: targets,
            target_files_base,
            init_bash_script: String::from_str(DEFAULT_INIT_BASH_SCRIPT),
            compile_bash_script: String::from_str(DEFAULT_COMPILE_BASH_SCRIPT),
            run_bash_script,
            build_workers: 1,
            run_method: RunMethod::Exclusive(1),
            temp_target_path_dir: join(workspaces_path, TEMP_TARGET_PATH_DIR),
            run_func_data: RunFunc::IgnoreOnError,
            data_queue: None,
            compilation_error_handling_method: CompliationErrorHandlingMethod::Collect,
            auto_gather_array_data: true,
            in_place_template: false,
            disable_progress_bar: false,
            no_cache: false,
            without_rsync: false,
            enable_cppflags: false,
            autosave_interval: 0,
            autosave_dir: String::from_str(DEFAULT_AUTOSAVE_DIR),
            continue_from_start_time: None,
        }
    }

    /// A fresh orchestrator as [`Parabuilder::new`] makes it, or `None`
    /// where a target file has no final component.
    pub fn try_new(
        project_path: &str,
        workspaces_path: &str,
        template_file: &str,
        target_files: &Vec<String>,
    ) -> (r: Option<Parabuilder>)
        ensures
            r is Some <==> all_have_file_names(texts(target_files@)),
            r matches Some(p) ==> p.is_default_for(
                project_path@,
                workspaces_path@,
                template_file@,
                texts(target_files@),
            ),
    {
        match base_names(target_files) {
            Some(_) => Some(
                Parabuilder::new(project_path, workspaces_path, template_file, target_files),
            ),
            None => None,
        }
    }

    /// Sets the command that is run once in every fresh workspace.
    pub fn init_bash_script(self, init_bash_script: &str) -> (r: Parabuilder)
        ensures
            r.init_bash_script@ == init_bash_script@,
            r == (Parabuilder { init_bash_script: r.init_bash_script, ..self }),
    {
        let mut r = self;
        r.init_bash_script = String::from_str(init_bash_script);
        r
    }

    /// Sets the command that compiles one binding.
    pub fn compile_bash_script(self, compile_bash_script: &str) -> (r: Parabuilder)
        ensures
            r.compile_bash_script@ == compile_bash_script@,
            r == (Parabuilder { compile_bash_script: r.compile_bash_script, ..self }),
    {
        let mut r = self;
        r.compile_bash_script = String::from_str(compile_bash_script);
        r
    }

    /// Sets the command that runs one built binding.
    pub fn run_bash_script(self, run_bash_script: &str) -> (r: Parabuilder)
        ensures
            r.run_bash_script@ == run_bash_script@,
            r == (Parabuilder { run_bash_script: r.run_bash_script, ..self }),
    {
        let mut r = self;
        r.run_bash_script = String::from_str(run_bash_script);
        r
    }

    /// Sets the number of build workers.
    pub fn build_workers(self, build_workers: usize) -> (r: Parabuilder)
        ensures
            r == (Parabuilder { build_workers, ..self }),
    {
        let mut r = self;
        r.build_workers = build_workers;
        r
    }

    /// Selects the topology by a signed count: see [`run_method_of`].
    pub fn run_workers(self, run_workers: isize) -> (r: Parabuilder)
        ensures
            r == (Parabuilder { run_method: run_method_of(run_workers), ..self }),
    {
        let mut r = self;
        if run_workers > 0 {
            r.run_method = RunMethod::OutOfPlace(run_workers as usize);
        } else if run_workers == 0 {
            r.run_method = RunMethod::No;
        } else {
            let below: isize = -(run_workers + 1);
            r.run_method = RunMethod::Exclusive(below as usize + 1);
        }
        r
    }

    /// Selects the exclusive topology with `run_workers` read as an
    /// unsigned count.
    pub fn run_workers_exclusive(self, run_workers: isize) -> (r: Parabuilder)
        ensures
            r == (Parabuilder {
                run_method: RunMethod::Exclusive(reinterpreted(run_workers)),
                ..self
            }),
    {
        let mut r = self;
        if run_workers >= 0 {
            r.run_method = RunMethod::Exclusive(run_workers as usize);
        } else {
            let below: isize = -(run_workers + 1);
            r.run_method = RunMethod::Exclusive(usize::MAX - below as usize);
        }
        r
    }

    /// Sets the topology.
    pub fn run_method(self, run_method: RunMethod) -> (r: Parabuilder)
        ensures
            r == (Parabuilder { run_method, ..self }),
    {
        let mut r = self;
        r.run_method = run_method;
        r
    }

    /// Sets the run strategy.
    pub fn run_func(self, run_func: RunFunc) -> (r: Parabuilder)
        ensures
            r == (Parabuilder { run_func_data: run_func, ..self }),
    {
        let mut r = self;
        r.run_func_data = run_func;
        r
    }

    /// Sets the policy for a failed compile.
    pub fn compilation_error_handling_method(
        self,
        compilation_error_handling_method: CompliationErrorHandlingMethod,
    ) -> (r: Parabuilder)
        ensures
            r == (Parabuilder { compilation_error_handling_method, ..self }),
    {
        let mut r = self;
        r.compilation_error_handling_method = compilation_error_handling_method;
        r
    }

    /// Sets whether per-worker arrays are concatenated.
    pub fn auto_gather_array_data(self, auto_gather_array_data: bool) -> (r: Parabuilder)
        ensures
            r == (Parabuilder { auto_gather_array_data, ..self }),
    {
        let mut r = self;
        r.auto_gather_array_data = auto_gather_array_data;
        r
    }

    /// Sets whether the template is rendered over itself.
    pub fn in_place_template(self, in_place_template: bool) -> (r: Parabuilder)
        ensures
            r == (Parabuilder { in_place_template, ..self }),
    {
        let mut r = self;
        r.in_place_template = in_place_template;
        r
    }

    /// Sets whether progress is shown.
    pub fn disable_progress_bar(self, disable_progress_bar: bool) -> (r: Parabuilder)
        ensures
            r == (Parabuilder { disable_progress_bar, ..self }),
    {
        let mut r = self;
        r.disable_progress_bar = disable_progress_bar;
        r
    }

    /// Sets whether the workspaces root is cleared before provisioning.
    pub fn no_cache(self, no_cache: bool) -> (r: Parabuilder)
        ensures
            r == (Parabuilder { no_cache, ..self }),
    {
        let mut r = self;
        r.no_cache = no_cache;
        r
    }

    /// Sets whether the ignore-aware copier replaces incremental sync.
    pub fn without_rsync(self, without_rsync: bool) -> (r: Parabuilder)
        ensures
            r == (Parabuilder { without_rsync, ..self }),
    {
        let mut r = self;
        r.without_rsync = without_rsync;
        r
    }

    /// Sets whether each binding is exported through `CPPFLAGS`.
    pub fn enable_cppflags(self, enable_cppflags: bool) -> (r: Parabuilder)
        ensures
            r == (Parabuilder { enable_cppflags, ..self }),
    {
        let mut r = self;
        r.enable_cppflags = enable_cppflags;
        r
    }

    /// Sets the seconds between periodic checkpoints; zero disables them.
    pub fn autosave_interval(self, autosave_interval: u64) -> (r: Parabuilder)
        ensures
            r == (Parabuilder { autosave_interval, ..self }),
    {
        let mut r = self;
        r.autosave_interval = autosave_interval;
        r
    }

    /// Sets where checkpoints are kept.
    pub fn autosave_dir(self, autosave_dir: &str) -> (r: Parabuilder)
        ensures
            r.autosave_dir@ == autosave_dir@,
            r == (Parabuilder { autosave_dir: r.autosave_dir, ..self }),
    {
        let mut r = self;
        r.autosave_dir = String::from_str(autosave_dir);
        r
    }

    /// Seeds the input queue with every binding, each under its position
    /// as id. Fails, changing nothing, if the queue is seeded already.
    pub fn set_datas(&mut self, datas: Vec<Json>) -> (r: Result<(), Error>)
        ensures
            r is Ok <==> old(self).data_queue is None,
            r matches Err(e) ==> e == Error::QueueAlreadySeeded && *final(self) == *old(self),
            r is Ok ==> final(self).queue() == Some(enumerated(views(datas@))) && *final(self)
                == (Parabuilder { data_queue: final(self).data_queue, ..*old(self) }),
    {
        if self.data_queue.is_some() {
            return Err(Error::QueueAlreadySeeded);
        }
        let ghost all = views(datas@);
        let mut datas = datas;
        let mut queue: Vec<(usize, Json)> = Vec::new();
        let mut i: usize = 0;
        while i < datas.len()
            invariant
                i <= datas.len(),
                datas.len() == all.len(),
                queue.len() == i,
                forall|k: int| i <= k < datas.len() ==> (#[trigger] datas@[k])@ == all[k],
                forall|k: int|
                    0 <= k < i ==> (#[trigger] queue@[k]).0 == k && queue@[k].1@ == all[k],
            decreases datas.len() - i,
        {
            let data = take_at(&mut datas, i);
            queue.push((i, data));
            i += 1;
        }
        assert(queue_view(queue@) =~= enumerated(all));
        self.data_queue = Some(queue);
        Ok(())
    }

    /// Seeds the input queue with the bindings whose ids are not in
    /// `processed_data_ids_set`: those that a resumed run still has to do.
    /// Fails, changing nothing, if the queue is seeded already.
    pub fn set_datas_with_processed_data_ids_set(
        &mut self,
        datas: Vec<Json>,
        processed_data_ids_set: HashSet<usize>,
    ) -> (r: Result<(), Error>)
        ensures
            r is Ok <==> old(self).data_queue is None,
            r matches Err(e) ==> e == Error::QueueAlreadySeeded && *final(self) == *old(self),
            r is Ok ==> final(self).queue() == Some(
                unprocessed(views(datas@), processed_data_ids_set@),
            ) && *final(self) == (Parabuilder {
                data_queue: final(self).data_queue,
                ..*old(self)
            }),
    {
        broadcast use vstd::std_specs::hash::group_hash_axioms;

        if self.data_queue.is_some() {
            return Err(Error::QueueAlreadySeeded);
        }
        let ghost all = views(datas@);
        let ghost done = processed_data_ids_set@;
        let mut datas = datas;
        let mut queue: Vec<(usize, Json)> = Vec::new();
        let mut i: usize = 0;
        assert(queue_view(queue@) =~= unprocessed(all.take(0), done));
        while i < datas.len()
            invariant
                i <= datas.len(),
                datas.len() == all.len(),
                done == processed_data_ids_set@,
                forall|k: int| i <= k < datas.len() ==> (#[trigger] datas@[k])@ == all[k],
                queue_view(queue@) == unprocessed(all.take(i as int), done),
            decreases datas.len() - i,
        {
            assert(all.take(i + 1).drop_last() =~= all.take(i as int));
            assert(all.take(i + 1).last() == all[i as int]);
            let ghost before = queue@;
            if !processed_data_ids_set.contains(&i) {
                let data = take_at(&mut datas, i);
                queue.push((i, data));
                assert(queue_view(queue@) =~= queue_view(before).push((i, all[i as int])));
            }
            i += 1;
        }
        assert(all.take(all.len() as int) =~= all);
        self.data_queue = Some(queue);
        Ok(())
    }
}

/// What the application found out about the host before provisioning.
#[derive(Debug, PartialEq, Eq)]
pub struct Host {
    /// Whether `rsync` can be run.
    pub rsync_installed: bool,
    /// The current directory.
    pub current_dir: String,
    /// The project path, canonicalized.
    pub canonical_project_path: String,
}

/// How a workspace is seeded from the project tree.
#[derive(PartialEq, Eq, Structural, Copy, Clone, Debug)]
pub enum CopyMethod {
    /// A plain recursive copy, from the scratch replica.
    Plain,
    /// The in-process copier that honours ignore files.
    IgnoreAware,
    /// The incremental external synchronizer.
    Rsync,
}

/// What provisioning has to do, in this order: clear the workspaces root
/// if asked, create it, make the scratch replica if one is needed, seed
/// and initialize every workspace, and create the staging directory.
#[derive(Debug, PartialEq, Eq)]
pub struct ProvisionPlan {
    /// The workspaces root as an absolute path: the directory to create.
    pub workspaces_root: String,
    /// Whether the workspaces root is deleted first.
    pub clear_first: bool,
    /// Whether the project is first replicated into a scratch directory,
    /// which then seeds the workspaces.
    pub scratch_copy: bool,
    /// How each workspace is seeded.
    pub copy_method: CopyMethod,
    pub build_workspaces: usize,
    pub run_workspaces: usize,
    /// The staging directory, created before the run workspaces are
    /// seeded if there are any, and in any case at the end.
    pub staging_dir: String,
}

/// One workspace to provision.
#[derive(Debug, PartialEq, Eq)]
pub struct Workspace {
    pub path: String,
    /// Whether a failing init command is fatal: it is in a run workspace,
    /// and tolerated in a build workspace.
    pub init_must_succeed: bool,
}

/// A template to render before each compile.
#[derive(Debug, PartialEq, Eq)]
pub struct TemplateJob {
    /// The template, in the project.
    pub source: String,
    /// The file to render to, in the workspace.
    pub output: String,
}

/// Where one worker works.
#[derive(Debug, PartialEq, Eq)]
pub struct WorkerJob {
    /// The index of the worker's workspace.
    pub index: usize,
    /// The worker's workspace.
    pub workspace: String,
    /// The name of the worker's checkpoint folder.
    pub checkpoint_id: String,
    /// The target files, in the workspace.
    pub targets: Vec<String>,
    /// The template to render, if any.
    pub template: Option<TemplateJob>,
}

/// Which external tools the application found before a run.
#[derive(PartialEq, Eq, Structural, Copy, Clone, Debug)]
pub struct Tools {
    pub bash_installed: bool,
    pub lsof_installed: bool,
}

/// One step of a run.
#[derive(PartialEq, Eq, Structural, Copy, Clone, Debug)]
pub enum Stage {
    /// Start every build worker.
    SpawnBuildWorkers,
    /// Start every run worker.
    SpawnRunWorkers,
    /// Wait for every build worker and take its output.
    JoinBuildWorkers,
    /// Wait for every run worker and take its output.
    JoinRunWorkers,
}

/// How the run progress is shown at the start.
#[derive(PartialEq, Eq, Structural, Copy, Clone, Debug)]
pub enum RunProgress {
    /// Nothing runs, so nothing is shown.
    Hidden,
    /// The runs wait for every build to end.
    WaitingExclusive,
    /// The runs go on beside the builds.
    Running,
}

/// What a run has to do.
#[derive(Debug, PartialEq, Eq)]
pub struct RunPlan {
    /// The name of the run's checkpoint folder.
    pub start_time: String,
    /// The input queue: the items to feed to the build workers.
    pub queue: Vec<(usize, Json)>,
    pub build_workers: usize,
    pub run_workers: usize,
    /// The steps, in order.
    pub stages: Vec<Stage>,
    pub run_progress: RunProgress,
}

/// The checkpoint that a resumed run starts from.
#[derive(Debug, PartialEq, Eq)]
pub struct AutosaveSource {
    /// The folder that holds one folder per worker.
    pub folder: String,
    /// The folder's name: the start time of the run that wrote it.
    pub start_time: String,
}

/// The name of the workspace with this index: `workspace_k` for a build
/// worker and `workspace_exe_k` for a run worker.
pub open spec fn workspace_name(role: Role, index: usize) -> Seq<char> {
    match role {
        Role::Build => numbered("workspace_"@, index as nat, Seq::empty()),
        Role::Run => numbered("workspace_exe_"@, index as nat, Seq::empty()),
    }
}

/// The name under which a target is staged for the binding `id`.
pub open spec fn staged_file_name(base: Seq<char>, id: usize) -> Seq<char> {
    numbered(base + "_"@, id as nat, Seq::empty())
}

/// The name of the sidecar file of the binding `id`.
pub open spec fn sidecar_file_name(id: usize) -> Seq<char> {
    numbered("data_"@, id as nat, ".json"@)
}

/// The steps of a run under each topology.
///
/// Without run workers the builds are started and joined. The exclusive
/// topology joins every build worker before it starts a run worker. The
/// concurrent topology starts the run workers beside the build workers.
pub open spec fn stages_of(run_method: RunMethod) -> Seq<Stage> {
    match run_method {
        RunMethod::No | RunMethod::InPlace => seq![
            Stage::SpawnBuildWorkers,
            Stage::JoinBuildWorkers,
        ],
        RunMethod::Exclusive(_) => seq![
            Stage::SpawnBuildWorkers,
            Stage::JoinBuildWorkers,
            Stage::SpawnRunWorkers,
            Stage::JoinRunWorkers,
        ],
        RunMethod::OutOfPlace(_) => seq![
            Stage::SpawnBuildWorkers,
            Stage::SpawnRunWorkers,
            Stage::JoinBuildWorkers,
            Stage::JoinRunWorkers,
        ],
    }
}

/// How the run progress starts under each topology.
pub open spec fn run_progress_of(run_method: RunMethod) -> RunProgress {
    match run_method {
        RunMethod::No => RunProgress::Hidden,
        RunMethod::Exclusive(_) => RunProgress::WaitingExclusive,
        _ => RunProgress::Running,
    }
}

/// The first failure that keeps a run from starting, if there is one.
pub open spec fn run_obstacle(seeded: bool, tools: Tools) -> Option<Error> {
    if !seeded {
        Some(Error::QueueNotSeeded)
    } else if !tools.bash_installed {
        Some(Error::BashMissing)
    } else if !tools.lsof_installed {
        Some(Error::LsofMissing)
    } else {
        None
    }
}

impl Parabuilder {
    /// The workspaces root as an absolute path.
    pub open spec fn workspaces_root(&self, current_dir: Seq<char>) -> Seq<char> {
        if path_is_absolute(self.workspaces_path@) {
            self.workspaces_path@
        } else {
            joined_path(current_dir, self.workspaces_path@)
        }
    }

    /// Whether provisioning goes through a scratch replica: the workspaces
    /// root lies inside the project and the in-process copier is selected,
    /// which would otherwise copy the workspaces into themselves.
    pub open spec fn needs_scratch(&self, host: Host) -> bool {
        path_starts_with(self.workspaces_root(host.current_dir@), host.canonical_project_path@)
            && self.without_rsync
    }

    /// How the workspaces are seeded.
    pub open spec fn copy_method(&self, host: Host) -> CopyMethod {
        if self.needs_scratch(host) {
            CopyMethod::Plain
        } else if self.without_rsync {
            CopyMethod::IgnoreAware
        } else {
            CopyMethod::Rsync
        }
    }

    /// Plans the provisioning of the workspaces.
    ///
    /// Fails with `RsyncMissing` exactly when the incremental copier is
    /// selected and `rsync` is not installed.
    pub fn init_workspace(&self, host: &Host) -> (r: Result<ProvisionPlan, Error>)
        ensures
            r is Err <==> !host.rsync_installed && !self.without_rsync,
            r matches Err(e) ==> e == Error::RsyncMissing,
            r matches Ok(plan) ==> {
                &&& plan.workspaces_root@ == self.workspaces_root(host.current_dir@)
                &&& plan.clear_first == self.no_cache
                &&& plan.scratch_copy == self.needs_scratch(*host)
                &&& plan.copy_method == self.copy_method(*host)
                &&& plan.build_workspaces == self.build_workers
                &&& plan.run_workspaces == self.run_method.spec_run_workers()
                &&& plan.staging_dir@ == self.temp_target_path_dir@
            },
    {
        if !host.rsync_installed && !self.without_rsync {
            return Err(Error::RsyncMissing);
        }
        let workspaces_root = if is_absolute(self.workspaces_path.as_str()) {
            self.workspaces_path.clone()
        } else {
            join(host.current_dir.as_str(), self.workspaces_path.as_str())
        };
        let scratch_copy = starts_with(
            workspaces_root.as_str(),
            host.canonical_project_path.as_str(),
        ) && self.without_rsync;
        let copy_method = if scratch_copy {
            CopyMethod::Plain
        } else if self.without_rsync {
            CopyMethod::IgnoreAware
        } else {
            CopyMethod::Rsync
        };
        Ok(
            ProvisionPlan {
                workspaces_root,
                clear_first: self.no_cache,
                scratch_copy,
                copy_method,
                build_workspaces: self.build_workers,
                run_workspaces: self.run_method.run_worker_count(),
                staging_dir: self.temp_target_path_dir.clone(),
            },
        )
    }

    fn workspace_path(&self, role: Role, index: usize) -> (path: String)
        ensures
            path@ == joined_path(self.workspaces_path@, workspace_name(role, index)),
    {
        let name = match role {
            Role::Build => numbered_name("workspace_", index, ""),
            Role::Run => numbered_name("workspace_exe_", index, ""),
        };
        proof {
            reveal_strlit("");
            assert(""@ =~= Seq::<char>::empty());
        }
        join(self.workspaces_path.as_str(), name.as_str())
    }

    /// The workspace with this role and index, for provisioning.
    pub fn workspace(&self, role: Role, index: usize) -> (w: Workspace)
        ensures
            w.path@ == joined_path(self.workspaces_path@, workspace_name(role, index)),
            w.init_must_succeed == (role == Role::Run),
    {
        Workspace {
            path: self.workspace_path(role, index),
            init_must_succeed: match role {
                Role::Run => true,
                Role::Build => false,
            },
        }
    }

    /// The part of the configuration that a worker of this role decides by.
    pub open spec fn spec_worker_config(&self, role: Role) -> WorkerConfig {
        WorkerConfig {
            role,
            run_method: self.run_method,
            policy: self.compilation_error_handling_method,
            run_func: self.run_func_data,
            autosave_interval: self.autosave_interval,
            enable_cppflags: self.enable_cppflags,
        }
    }

    /// The part of the configuration that a worker of this role decides by.
    pub fn worker_config(&self, role: Role) -> (config: WorkerConfig)
        ensures
            config == self.spec_worker_config(role),
    {
        WorkerConfig {
            role,
            run_method: self.run_method,
            policy: self.compilation_error_handling_method,
            run_func: self.run_func_data,
            autosave_interval: self.autosave_interval,
            enable_cppflags: self.enable_cppflags,
        }
    }

    /// Whether `job` is where the worker with this role and index works:
    /// its workspace, every target inside it, and for a build worker with a
    /// template, where the template is read and where it is rendered.
    pub open spec fn is_job_of(&self, job: WorkerJob, role: Role, index: usize) -> bool {
        let workspace = joined_path(self.workspaces_path@, workspace_name(role, index));
        &&& job.index == index
        &&& job.workspace@ == workspace
        &&& job.checkpoint_id@.len() == 36
        &&& job.targets.len() == self.target_files.len()
        &&& forall|i: int|
            0 <= i < job.targets.len() ==> (#[trigger] job.targets@[i])@ == joined_path(
                workspace,
                self.target_files@[i]@,
            )
        &&& job.template is Some <==> role == Role::Build && self.template_file@.len() > 0
        &&& job.template matches Some(t) ==> {
            &&& t.source@ == joined_path(self.project_path@, self.template_file@)
            &&& t.output@ == joined_path(
                workspace,
                template_output_of(self.template_file@, self.in_place_template),
            )
        }
    }

    fn worker_job(&self, role: Role, index: usize) -> (job: WorkerJob)
        ensures
            self.is_job_of(job, role, index),
    {
        let workspace = self.workspace_path(role, index);
        let mut targets: Vec<String> = Vec::new();
        let mut i: usize = 0;
        while i < self.target_files.len()
            invariant
                i <= self.target_files.len(),
                targets.len() == i,
                forall|k: int|
                    0 <= k < i ==> (#[trigger] targets@[k])@ == joined_path(
                        workspace@,
                        self.target_files@[k]@,
                    ),
            decreases self.target_files.len() - i,
        {
            targets.push(join(workspace.as_str(), self.target_files[i].as_str()));
            i += 1;
        }
        let renders = match role {
            Role::Build => !self.template_file.as_str().is_empty(),
            Role::Run => false,
        };
        let template = if renders {
            let output = template_output_file(self.template_file.as_str(), self.in_place_template);
            Some(
                TemplateJob {
                    source: join(self.project_path.as_str(), self.template_file.as_str()),
                    output: join(workspace.as_str(), output.as_str()),
                },
            )
        } else {
            None
        };
        WorkerJob { index, workspace, checkpoint_id: fresh_uuid(), targets, template }
    }

    /// Makes the build worker with this index: where it works, and a fresh
    /// state machine that decides by this configuration.
    pub fn build_worker(&self, index: usize) -> (r: (WorkerJob, Worker))
        ensures
            self.is_job_of(r.0, Role::Build, index),
            r.1.wf(),
            r.1@ == initial(self.spec_worker_config(Role::Build)),
    {
        (self.worker_job(Role::Build, index), Worker::new(self.worker_config(Role::Build)))
    }

    /// Makes the run worker with this index: where it works, and a fresh
    /// state machine that decides by this configuration.
    pub fn run_worker(&self, index: usize) -> (r: (WorkerJob, Worker))
        ensures
            self.is_job_of(r.0, Role::Run, index),
            r.1.wf(),
            r.1@ == initial(self.spec_worker_config(Role::Run)),
    {
        (self.worker_job(Role::Run, index), Worker::new(self.worker_config(Role::Run)))
    }

    /// The files under which the targets of the binding `id` are staged:
    /// in the staging directory, each target's final component, an
    /// underscore and the id.
    pub fn staged_targets(&self, id: usize) -> (staged: Vec<String>)
        ensures
            staged.len() == self.target_files_base.len(),
            forall|i: int|
                0 <= i < staged.len() ==> (#[trigger] staged@[i])@ == joined_path(
                    self.temp_target_path_dir@,
                    staged_file_name(self.target_files_base@[i]@, id),
                ),
    {
        let mut staged: Vec<String> = Vec::new();
        let mut i: usize = 0;
        while i < self.target_files_base.len()
            invariant
                i <= self.target_files_base.len(),
                staged.len() == i,
                forall|k: int|
                    0 <= k < i ==> (#[trigger] staged@[k])@ == joined_path(
                        self.temp_target_path_dir@,
                        staged_file_name(self.target_files_base@[k]@, id),
                    ),
            decreases self.target_files_base.len() - i,
        {
            let mut prefix = self.target_files_base[i].clone();
            prefix.append("_");
            let name = numbered_name(prefix.as_str(), id, "");
            proof {
                reveal_strlit("");
                assert(""@ =~= Seq::<char>::empty());
            }
            staged.push(join(self.temp_target_path_dir.as_str(), name.as_str()));
            i += 1;
        }
        staged
    }

    /// The sidecar file of the binding `id`: `data_{id}.json` in the
    /// staging directory.
    pub fn sidecar_file(&self, id: usize) -> (path: String)
        ensures
            path@ == joined_path(self.temp_target_path_dir@, sidecar_file_name(id)),
    {
        let name = numbered_name("data_", id, ".json");
        join(self.temp_target_path_dir.as_str(), name.as_str())
    }

    /// Whether `plan` is the plan of a run of `before` that leaves `self`
    /// behind: the queue has moved into the plan, and the worker counts,
    /// the steps and the progress are those of the topology.
    pub open spec fn is_plan_of(&self, before: Parabuilder, plan: RunPlan) -> bool {
        &&& Some(queue_view(plan.queue@)) == before.queue()
        &&& self.queue() == Some(Seq::<(usize, JsonView)>::empty())
        &&& *self == (Parabuilder { data_queue: self.data_queue, ..before })
        &&& plan.build_workers == before.build_workers
        &&& plan.run_workers == before.run_method.spec_run_workers()
        &&& plan.stages@ == stages_of(before.run_method)
        &&& plan.run_progress == run_progress_of(before.run_method)
    }

    fn plan_stages(&self) -> (stages: Vec<Stage>)
        ensures
            stages@ == stages_of(self.run_method),
    {
        let mut stages: Vec<Stage> = Vec::new();
        stages.push(Stage::SpawnBuildWorkers);
        match self.run_method {
            RunMethod::No | RunMethod::InPlace => {
                stages.push(Stage::JoinBuildWorkers);
            },
            RunMethod::Exclusive(_) => {
                stages.push(Stage::JoinBuildWorkers);
                stages.push(Stage::SpawnRunWorkers);
                stages.push(Stage::JoinRunWorkers);
            },
            RunMethod::OutOfPlace(_) => {
                stages.push(Stage::SpawnRunWorkers);
                stages.push(Stage::JoinBuildWorkers);
                stages.push(Stage::JoinRunWorkers);
            },
        }
        assert(stages@ =~= stages_of(self.run_method));
        stages
    }

    fn check_run(&self, tools: Tools) -> (obstacle: Option<Error>)
        ensures
            obstacle == run_obstacle(self.data_queue is Some, tools),
    {
        if self.data_queue.is_none() {
            Some(Error::QueueNotSeeded)
        } else if !tools.bash_installed {
            Some(Error::BashMissing)
        } else if !tools.lsof_installed {
            Some(Error::LsofMissing)
        } else {
            None
        }
    }

    /// Plans a run that starts at the time `now`.
    ///
    /// Fails, changing nothing, with the first obstacle there is: the
    /// queue is not seeded, `bash` is missing, `lsof` is missing. Otherwise
    /// the plan takes the queue, and is named by the start time of the run
    /// that is resumed, or by `now` if none is.
    pub fn run_at(&mut self, tools: Tools, now: String) -> (r: Result<RunPlan, Error>)
        ensures
            r is Err <==> run_obstacle(old(self).data_queue is Some, tools) is Some,
            r matches Err(e) ==> Some(e) == run_obstacle(old(self).data_queue is Some, tools)
                && *final(self) == *old(self),
            r matches Ok(plan) ==> final(self).is_plan_of(*old(self), plan) && plan.start_time@
                == match old(self).continue_from_start_time {
                Some(t) => t@,
                None => now@,
            },
    {
        match self.check_run(tools) {
            Some(e) => {
                return Err(e);
            },
            None => {},
        }
        let start_time = match &self.continue_from_start_time {
            Some(t) => t.clone(),
            None => now,
        };
        let mut taken: Option<Vec<(usize, Json)>> = Some(Vec::new());
        std::mem::swap(&mut self.data_queue, &mut taken);
        let queue = match taken {
            Some(q) => q,
            None => Vec::new(),
        };
        proof {
            assert(queue_view(Seq::<(usize, Json)>::empty()) =~= Seq::<
                (usize, JsonView),
            >::empty());
        }
        Ok(
            RunPlan {
                start_time,
                queue,
                build_workers: self.build_workers,
                run_workers: self.run_method.run_worker_count(),
                stages: self.plan_stages(),
                run_progress: match self.run_method {
                    RunMethod::No => RunProgress::Hidden,
                    RunMethod::Exclusive(_) => RunProgress::WaitingExclusive,
                    _ => RunProgress::Running,
                },
            },
        )
    }

    /// Plans a run that starts now.
    ///
    /// Fails, changing nothing, with the first obstacle there is, as
    /// [`Parabuilder::run_at`] does. A resumed run is named after the run
    /// it resumes and then always gets its plan. A new run is named by the
    /// local time; it fails with `ClockUnavailable` if that time cannot be
    /// written.
    pub fn run(&mut self, tools: Tools) -> (r: Result<RunPlan, Error>)
        ensures
            run_obstacle(old(self).data_queue is Some, tools) is Some ==> r is Err,
            run_obstacle(old(self).data_queue is Some, tools) is None && old(
                self,
            ).continue_from_start_time is Some ==> r is Ok,
            r matches Err(e) ==> *final(self) == *old(self) && (Some(e) == run_obstacle(
                old(self).data_queue is Some,
                tools,
            ) || (e == Error::ClockUnavailable && old(self).continue_from_start_time is None
                && run_obstacle(old(self).data_queue is Some, tools) is None)),
            r matches Ok(plan) ==> final(self).is_plan_of(*old(self), plan) && (old(
                self,
            ).continue_from_start_time matches Some(t) ==> plan.start_time@ == t@),
    {
        match self.check_run(tools) {
            Some(e) => {
                return Err(e);
            },
            None => {},
        }
        let now = if self.continue_from_start_time.is_some() {
            String::new()
        } else {
            match local_timestamp(START_TIME_FORMAT) {
                Some(now) => now,
                None => {
                    return Err(Error::ClockUnavailable);
                },
            }
        };
        self.run_at(tools, now)
    }

    /// Makes the result of a pipeline from the per-worker run data and the
    /// joined compile errors and processed ids: the run data is gathered as
    /// [`gathered_run_data`] says, and the rest passes through.
    pub fn gather_data(
        &self,
        run_data_array: Vec<Json>,
        compile_error_datas: Vec<Json>,
        processed_data_ids: Vec<usize>,
    ) -> (r: (Json, Vec<Json>, Vec<usize>))
        ensures
            r.0@ == gathered_run_data(
                self.run_method,
                self.auto_gather_array_data,
                views(run_data_array@),
            ),
            r.1 == compile_error_datas,
            r.2 == processed_data_ids,
    {
        let run_datas = gather_run_data(
            self.run_method,
            self.auto_gather_array_data,
            run_data_array,
        );
        (run_datas, compile_error_datas, processed_data_ids)
    }

    /// The folder that a resumed run reads: the folder named `start_time`
    /// in the autosave directory, or, for an empty `start_time`, the most
    /// recently modified folder among `entries`, if there is one.
    pub open spec fn source_folder(&self, start_time: Seq<char>, entries: Seq<FolderEntry>) -> Option<
        Seq<char>,
    > {
        if start_time.len() > 0 {
            Some(joined_path(self.autosave_dir@, start_time))
        } else if has_folder(entries) {
            Some(entries[latest_folder_index(entries)].path@)
        } else {
            None
        }
    }

    /// Finds the checkpoint to resume from: see
    /// [`Parabuilder::source_folder`]. `entries` are the entries of the
    /// autosave directory.
    ///
    /// Fails with `NoAutosaveData` exactly when there is no such folder, or
    /// it has no name to continue under.
    pub fn autosave_source(&self, start_time: &str, entries: &Vec<FolderEntry>) -> (r: Result<
        AutosaveSource,
        Error,
    >)
        ensures
            r is Ok <==> (self.source_folder(start_time@, entries@) matches Some(folder)
                && path_file_name(folder) is Some),
            r matches Err(e) ==> e == Error::NoAutosaveData,
            r matches Ok(source) ==> self.source_folder(start_time@, entries@) == Some(
                source.folder@,
            ) && path_file_name(source.folder@) == Some(source.start_time@),
    {
        let folder = if start_time.is_empty() {
            match latest_folder(entries) {
                Some(i) => {
                    proof {
                        lemma_latest_is_unique(entries@, i as int, latest_folder_index(entries@));
                    }
                    entries[i].path.clone()
                },
                None => {
                    return Err(Error::NoAutosaveData);
                },
            }
        } else {
            join(self.autosave_dir.as_str(), start_time)
        };
        match file_name(folder.as_str()) {
            Some(name) => Ok(AutosaveSource { folder, start_time: name }),
            None => Err(Error::NoAutosaveData),
        }
    }

    /// Takes over the snapshots of a checkpoint: the run continues under
    /// the checkpoint's start time, and the snapshots of its workers are
    /// merged into the baseline of the resumed run, as the outputs of
    /// joined workers are.
    pub fn autosave_load(&mut self, start_time: String, snapshots: Vec<WorkerOutput>) -> (r: (
        Json,
        Vec<Json>,
        Vec<usize>,
    ))
        ensures
            final(self).continue_from_start_time == Some(start_time),
            *final(self) == (Parabuilder {
                continue_from_start_time: final(self).continue_from_start_time,
                ..*old(self)
            }),
            r.0@ == gathered_run_data(
                old(self).run_method,
                old(self).auto_gather_array_data,
                run_datas(output_views(snapshots@)),
            ),
            views(r.1@) == joined_errors(output_views(snapshots@)),
            r.2@ == joined_ids(output_views(snapshots@)),
    {
        self.continue_from_start_time = Some(start_time);
        let merged = merge_outputs(snapshots);
        self.gather_data(merged.run_datas, merged.compile_errors, merged.processed_ids)
    }
}

/// The index of the most recent folder, where there is one.
pub open spec fn latest_folder_index(entries: Seq<FolderEntry>) -> int {
    choose|i: int| is_latest(entries, i)
}

/// At most one entry is the most recent folder.
pub proof fn lemma_latest_is_unique(entries: Seq<FolderEntry>, i: int, j: int)
    requires
        is_latest(entries, i),
    ensures
        is_latest(entries, j) ==> i == j,
        latest_folder_index(entries) == i,
{
    if is_latest(entries, j) {
        assert(entries[i].is_dir && entries[j].is_dir);
    }
    let k = latest_folder_index(entries);
    assert(is_latest(entries, k));
    assert(entries[i].is_dir && entries[k].is_dir);
}

} // verus!
