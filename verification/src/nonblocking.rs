//! What a submission runs: the program, its arguments and environment, the
//! Slurm log paths, and how the answer of `sbatch` is read. Starting the
//! process is left to the caller.

use crate::blocking::{get_node_dir, node_dir};
use crate::nodes::Task;
use crate::pattern::{pattern_compiles, regex_group, Pattern};
use crate::schemas::{DAGMeta, ExecMode, JsonValue, Script, SlurmOverride};
use crate::settings::Cfg;
use crate::state::{input_read, read_input_from_parents};
use crate::text::{decimal, decimal_string, join_path, path_join};
use crate::workdirs::{file_name, FileNames};
use vstd::prelude::*;

verus! {

/// Common directory of the Slurm logs of a sub-pipeline.
pub open spec fn log_base(pipeline: Seq<char>, timestamp: Seq<char>, subpipeline: Seq<char>) -> Seq<
    char,
> {
    "./logs/"@ + pipeline + "/"@ + timestamp + "/"@ + subpipeline
}

/// Output and error log paths: those the task overrides, otherwise
/// `%x.%j.out` and `%x.%j.err` in the common log directory.
pub open spec fn log_paths(
    o: SlurmOverride,
    pipeline: Seq<char>,
    subpipeline: Seq<char>,
    timestamp: Seq<char>,
) -> (Seq<char>, Seq<char>) {
    let base = log_base(pipeline, timestamp, subpipeline);
    (
        match o.output {
            Some(p) => p@,
            None => base + "/%x.%j.out"@,
        },
        match o.error {
            Some(p) => p@,
            None => base + "/%x.%j.err"@,
        },
    )
}

/// Output and error log paths of a Slurm job (see `log_paths`).
pub fn find_output_and_error_paths(
    slurm_override: &SlurmOverride,
    pipeline: &str,
    subpipeline: &str,
    timestamp: &str,
) -> (r: (String, String))
    ensures
        (r.0@, r.1@) == log_paths(*slurm_override, pipeline@, subpipeline@, timestamp@),
{
    let mut base = String::new();
    base.append("./logs/");
    base.append(pipeline);
    base.append("/");
    base.append(timestamp);
    base.append("/");
    base.append(subpipeline);
    assert(base@ == log_base(pipeline@, timestamp@, subpipeline@));
    let output = match &slurm_override.output {
        Some(p) => p.clone(),
        None => {
            let mut o = base.clone();
            o.append("/%x.%j.out");
            o
        },
    };
    let error = match &slurm_override.error {
        Some(p) => p.clone(),
        None => {
            let mut e = base.clone();
            e.append("/%x.%j.err");
            e
        },
    };
    (output, error)
}

/// The view of an optional string.
pub open spec fn opt_text(s: Option<String>) -> Option<Seq<char>> {
    match s {
        Some(x) => Some(x@),
        None => None,
    }
}

/// The decimal text of an optional number.
pub open spec fn opt_num(u: Option<usize>) -> Option<Seq<char>> {
    match u {
        Some(n) => Some(decimal(n as nat)),
        None => None,
    }
}

/// An option given as `flag` and its value, when there is a value.
pub open spec fn opt_arg(flag: Seq<char>, v: Option<Seq<char>>) -> Seq<Seq<char>> {
    match v {
        Some(x) => seq![flag + x],
        None => Seq::empty(),
    }
}

/// The `sbatch` options of a task: log paths, job name (the task's unless
/// overridden), then each resource option the task overrides.
pub open spec fn sbatch_args(
    o: SlurmOverride,
    name: Seq<char>,
    output: Seq<char>,
    error: Seq<char>,
) -> Seq<Seq<char>> {
    seq![
        "--error="@ + error,
        "--output="@ + output,
        "--job-name="@ + match o.job_name {
            Some(j) => j@,
            None => name,
        },
    ] + opt_arg("--nodes="@, opt_num(o.nodes)) + opt_arg("--partition="@, opt_text(o.partition))
        + opt_arg("--qos="@, opt_text(o.qos)) + opt_arg(
        "--gpus-per-node="@,
        opt_num(o.gpus_per_node),
    ) + opt_arg("--ntasks-per-node="@, opt_text(o.ntasks_per_node)) + opt_arg(
        "--account="@,
        opt_text(o.account),
    ) + opt_arg("--cpus-per-task="@, opt_num(o.cpus_per_task)) + opt_arg(
        "--mem="@,
        opt_text(o.mem),
    ) + opt_arg("--time="@, opt_text(o.time))
}

/// Views of a list of strings.
pub open spec fn texts(v: Seq<String>) -> Seq<Seq<char>> {
    v.map_values(|s: String| s@)
}

fn push_arg(args: &mut Vec<String>, flag: &str, value: &str)
    ensures
        texts(final(args)@) == texts(old(args)@).push(flag@ + value@),
{
    let mut a = String::from_str(flag);
    a.append(value);
    args.push(a);
    assert(texts(args@) =~= texts(old(args)@).push(flag@ + value@));
}

fn push_opt_text(args: &mut Vec<String>, flag: &str, value: &Option<String>)
    ensures
        texts(final(args)@) == texts(old(args)@) + opt_arg(flag@, opt_text(*value)),
{
    match value {
        Some(v) => {
            push_arg(args, flag, v.as_str());
        },
        None => {
            assert(texts(args@) =~= texts(old(args)@) + opt_arg(flag@, opt_text(*value)));
        },
    }
}

fn push_opt_num(args: &mut Vec<String>, flag: &str, value: Option<usize>)
    ensures
        texts(final(args)@) == texts(old(args)@) + opt_arg(flag@, opt_num(value)),
{
    match value {
        Some(n) => {
            let d = decimal_string(n as u64);
            push_arg(args, flag, d.as_str());
        },
        None => {
            assert(texts(args@) =~= texts(old(args)@) + opt_arg(flag@, opt_num(value)));
        },
    }
}

/// The `sbatch` options of a task (see `sbatch_args`).
#[verifier::spinoff_prover]
#[verifier::rlimit(40)]
pub fn override_sbatch(
    slurm_override: &SlurmOverride,
    name: &str,
    output: &str,
    error: &str,
) -> (r: Vec<String>)
    ensures
        texts(r@) == sbatch_args(*slurm_override, name@, output@, error@),
{
    let mut args: Vec<String> = Vec::new();
    push_arg(&mut args, "--error=", error);
    push_arg(&mut args, "--output=", output);
    let job_name = match &slurm_override.job_name {
        Some(j) => j.as_str(),
        None => name,
    };
    push_arg(&mut args, "--job-name=", job_name);
    let ghost head = texts(args@);
    push_opt_num(&mut args, "--nodes=", slurm_override.nodes);
    push_opt_text(&mut args, "--partition=", &slurm_override.partition);
    push_opt_text(&mut args, "--qos=", &slurm_override.qos);
    push_opt_num(&mut args, "--gpus-per-node=", slurm_override.gpus_per_node);
    push_opt_text(&mut args, "--ntasks-per-node=", &slurm_override.ntasks_per_node);
    push_opt_text(&mut args, "--account=", &slurm_override.account);
    push_opt_num(&mut args, "--cpus-per-task=", slurm_override.cpus_per_task);
    push_opt_text(&mut args, "--mem=", &slurm_override.mem);
    push_opt_text(&mut args, "--time=", &slurm_override.time);
    let ghost o = *slurm_override;
    assert(texts(args@) =~= sbatch_args(o, name@, output@, error@));
    args
}

/// Text of a JSON value set as an environment variable: empty for `null`,
/// the string itself for a string, the JSON text otherwise.
pub open spec fn env_text(v: JsonValue) -> Seq<char> {
    match v {
        JsonValue::Null => Seq::empty(),
        JsonValue::Bool(b) => if b {
            "true"@
        } else {
            "false"@
        },
        JsonValue::Text(t) => t@,
        JsonValue::Json(t) => t@,
    }
}

/// Text of a JSON value set as an environment variable (see `env_text`).
pub fn convert_env_to_string(value: &JsonValue) -> (r: String)
    ensures
        r@ == env_text(*value),
{
    match value {
        JsonValue::Null => String::new(),
        JsonValue::Bool(b) => if *b {
            String::from_str("true")
        } else {
            String::from_str("false")
        },
        JsonValue::Text(t) => t.clone(),
        JsonValue::Json(t) => t.clone(),
    }
}

/// The upper-case form of a text, as `str::to_uppercase` maps it.
pub uninterp spec fn uppercase(s: Seq<char>) -> Seq<char>;

/// Calls `str::to_uppercase`; claimed: the result is `uppercase` of the
/// text, which depends on the text alone (the Unicode mapping of std).
#[verifier::external_body]
pub(crate) fn to_uppercase(s: &str) -> (r: String)
    ensures
        r@ == uppercase(s@),
{
    s.to_uppercase()
}

/// Views of a list of name and value pairs.
pub open spec fn pair_texts(v: Seq<(String, String)>) -> Seq<(Seq<char>, Seq<char>)> {
    v.map_values(|p: (String, String)| (p.0@, p.1@))
}

/// Environment variables of the task's own settings.
pub open spec fn task_envs(envs: Seq<(String, JsonValue)>) -> Seq<(Seq<char>, Seq<char>)> {
    envs.map_values(|e: (String, JsonValue)| (e.0@, env_text(e.1)))
}

/// Inputs of an external task, as environment variables named by the
/// upper-case key.
pub open spec fn input_envs(input: Seq<(String, JsonValue)>) -> Seq<(Seq<char>, Seq<char>)> {
    input.map_values(|e: (String, JsonValue)| (uppercase(e.0@), env_text(e.1)))
}

/// Environment of a task run: its own variables, the inputs of an external
/// task, then what the task runner reads (try number, run directory,
/// pipeline, keyword arguments, sub-pipeline, import path, uid, function
/// and task name). A later variable of the same name wins.
pub open spec fn command_envs(
    task: Task,
    try_num: usize,
    dagdir: Seq<char>,
    meta: DAGMeta,
    input: Seq<(String, JsonValue)>,
) -> Seq<(Seq<char>, Seq<char>)> {
    task_envs(task.envs@) + (if task.mode is Ext {
        input_envs(input)
    } else {
        Seq::empty()
    }) + seq![
        ("SDAG_TRY_NUM"@, decimal(try_num as nat)),
        ("SDAG_PIPELINE_DIR"@, dagdir),
        ("SDAG_PIPELINE_NAME"@, meta.pipeline_name@),
        ("SDAG_INPUT_KWARGS"@, meta.kwargs@),
        ("SDAG_SUBPIPELINE_NAME"@, task.pipeline_name@),
        ("SDAG_IMPORT_PATH"@, meta.import_path@),
        ("SDAG_UID"@, decimal(task.uid as nat)),
        ("SDAG_TASK_FN"@, task.fn_name@),
        ("SDAG_TASK_NAME"@, task.name@),
    ]
}

fn push_env(envs: &mut Vec<(String, String)>, name: &str, value: &str)
    ensures
        pair_texts(final(envs)@) == pair_texts(old(envs)@).push((name@, value@)),
{
    envs.push((String::from_str(name), String::from_str(value)));
    assert(pair_texts(envs@) =~= pair_texts(old(envs)@).push((name@, value@)));
}

/// Environment of a task run (see `command_envs`).
pub fn build_envs(
    task: &Task,
    try_num: usize,
    cfg: &Cfg,
    meta: &DAGMeta,
    input: &[(String, JsonValue)],
) -> (r: Vec<(String, String)>)
    ensures
        pair_texts(r@) == command_envs(*task, try_num, cfg.dagdir@, *meta, input@),
{
    let mut envs: Vec<(String, String)> = Vec::new();
    let mut i: usize = 0;
    while i < task.envs.len()
        invariant
            i <= task.envs@.len(),
            pair_texts(envs@) == task_envs(task.envs@.take(i as int)),
        decreases task.envs@.len() - i,
    {
        let value = convert_env_to_string(&task.envs[i].1);
        let ghost before = envs@;
        let ghost pair = (task.envs@[i as int].0@, value@);
        envs.push((task.envs[i].0.clone(), value));
        assert(pair_texts(envs@) =~= pair_texts(before).push(pair));
        assert(task_envs(task.envs@.take(i + 1)) =~= task_envs(task.envs@.take(i as int)).push(
            (task.envs@[i as int].0@, env_text(task.envs@[i as int].1)),
        ));
        assert(pair_texts(envs@) =~= task_envs(task.envs@.take(i + 1)));
        i = i + 1;
    }
    assert(task.envs@.take(task.envs@.len() as int) =~= task.envs@);
    let ghost own = pair_texts(envs@);
    let ext = match task.mode {
        ExecMode::Ext => true,
        _ => false,
    };
    if ext {
        let mut j: usize = 0;
        while j < input.len()
            invariant
                j <= input@.len(),
                pair_texts(envs@) == own + input_envs(input@.take(j as int)),
            decreases input@.len() - j,
        {
            let key = to_uppercase(input[j].0.as_str());
            let value = convert_env_to_string(&input[j].1);
            let ghost before = envs@;
            let ghost pair = (key@, value@);
            envs.push((key, value));
            assert(pair_texts(envs@) =~= pair_texts(before).push(pair));
            assert(input_envs(input@.take(j + 1)) =~= input_envs(input@.take(j as int)).push(
                (uppercase(input@[j as int].0@), env_text(input@[j as int].1)),
            ));
            assert(pair_texts(envs@) =~= own + input_envs(input@.take(j + 1)));
            j = j + 1;
        }
        assert(input@.take(input@.len() as int) =~= input@);
    } else {
        assert(pair_texts(envs@) =~= own + Seq::<(Seq<char>, Seq<char>)>::empty());
    }
    let ghost mid = pair_texts(envs@);
    let try_text = decimal_string(try_num as u64);
    push_env(&mut envs, "SDAG_TRY_NUM", try_text.as_str());
    push_env(&mut envs, "SDAG_PIPELINE_DIR", cfg.dagdir.as_str());
    push_env(&mut envs, "SDAG_PIPELINE_NAME", meta.pipeline_name.as_str());
    push_env(&mut envs, "SDAG_INPUT_KWARGS", meta.kwargs.as_str());
    push_env(&mut envs, "SDAG_SUBPIPELINE_NAME", task.pipeline_name.as_str());
    push_env(&mut envs, "SDAG_IMPORT_PATH", meta.import_path.as_str());
    let uid_text = decimal_string(task.uid as u64);
    push_env(&mut envs, "SDAG_UID", uid_text.as_str());
    push_env(&mut envs, "SDAG_TASK_FN", task.fn_name.as_str());
    push_env(&mut envs, "SDAG_TASK_NAME", task.name.as_str());
    assert(pair_texts(envs@) =~= command_envs(*task, try_num, cfg.dagdir@, *meta, input@));
    envs
}

/// Path of the script a task runs: the one written in its node directory
/// for an inline script, the given path otherwise.
pub open spec fn script_path_of(task: Task, dagdir: Seq<char>) -> Seq<char> {
    match task.script {
        Script::Script(_) => path_join(node_dir(dagdir, task.uid as nat), file_name(FileNames::Script)),
        Script::ScriptPath(p) => p.path@,
    }
}

/// Path of the script a task runs (see `script_path_of`).
pub fn script_path(task: &Task, cfg: &Cfg) -> (r: String)
    ensures
        r@ == script_path_of(*task, cfg.dagdir@),
{
    match &task.script {
        Script::Script(_) => {
            let dir = get_node_dir(cfg.dagdir.as_str(), task.uid);
            join_path(dir.as_str(), FileNames::Script.as_str())
        },
        Script::ScriptPath(p) => p.path.clone(),
    }
}

/// A process to start: program, arguments and environment variables.
pub struct CommandPlan {
    pub program: String,
    pub args: Vec<String>,
    pub envs: Vec<(String, String)>,
}

/// The command of a task run on Slurm: `sbatch` (or the task's command)
/// with the log paths, job name and resource options, then the script.
pub fn slurm_command(
    task: &Task,
    try_num: usize,
    cfg: &Cfg,
    meta: &DAGMeta,
    input: &[(String, JsonValue)],
) -> (r: CommandPlan)
    ensures
        r.program@ == crate::schemas::cmd_name(task.cmd),
        pair_texts(r.envs@) == command_envs(*task, try_num, cfg.dagdir@, *meta, input@),
        ({
            let paths = log_paths(task.slurm, meta.pipeline_name@, task.pipeline_name@, cfg.timestamp@);
            texts(r.args@) == sbatch_args(task.slurm, task.name@, paths.0, paths.1).push(
                script_path_of(*task, cfg.dagdir@),
            )
        }),
{
    let envs = build_envs(task, try_num, cfg, meta, input);
    let (output, error) = find_output_and_error_paths(
        &task.slurm,
        meta.pipeline_name.as_str(),
        task.pipeline_name.as_str(),
        cfg.timestamp.as_str(),
    );
    let mut args = override_sbatch(&task.slurm, task.name.as_str(), output.as_str(), error.as_str());
    let ghost before = texts(args@);
    let path = script_path(task, cfg);
    let ghost pv = path@;
    args.push(path);
    assert(texts(args@) =~= before.push(pv));
    CommandPlan { program: String::from_str(task.cmd.as_str()), args, envs }
}

/// The command of a task run locally: the task's command with the script.
pub fn local_command(
    task: &Task,
    try_num: usize,
    cfg: &Cfg,
    meta: &DAGMeta,
    input: &[(String, JsonValue)],
) -> (r: CommandPlan)
    ensures
        r.program@ == crate::schemas::cmd_name(task.cmd),
        pair_texts(r.envs@) == command_envs(*task, try_num, cfg.dagdir@, *meta, input@),
        texts(r.args@) == seq![script_path_of(*task, cfg.dagdir@)],
{
    let envs = build_envs(task, try_num, cfg, meta, input);
    let mut args: Vec<String> = Vec::new();
    let path = script_path(task, cfg);
    let ghost pv = path@;
    args.push(path);
    assert(texts(args@) =~= seq![pv]);
    CommandPlan { program: String::from_str(task.cmd.as_str()), args, envs }
}

/// Pattern of the line `sbatch` prints on success; the id is the group
/// `jobid`.
pub open spec fn job_id_pattern() -> Seq<char> {
    "Submitted batch job (?<jobid>\\w+)"@
}

/// The job id `sbatch` reports in `output`.
pub open spec fn submitted_job_id(output: Seq<char>) -> Option<Seq<char>> {
    if pattern_compiles(job_id_pattern()) {
        regex_group(job_id_pattern(), output, "jobid"@)
    } else {
        None
    }
}

/// The job id `sbatch` reports in its output (see `submitted_job_id`).
pub fn find_submitted_job_id(output: &str) -> (r: Option<String>)
    ensures
        match r {
            Some(id) => submitted_job_id(output@) == Some(id@),
            None => submitted_job_id(output@) is None,
        },
{
    let re = match Pattern::compile("Submitted batch job (?<jobid>\\w+)") {
        Some(p) => p,
        None => {
            return None;
        },
    };
    re.group(output, "jobid")
}

/// The answer of an `sbatch` run: an error when it exited with failure or
/// printed no job id, the job id otherwise.
pub open spec fn submission_answer(success: bool, stdout: Seq<char>) -> Result<Seq<char>, Seq<char>> {
    if !success {
        Err("non-zero exit status"@)
    } else {
        match submitted_job_id(stdout) {
            Some(id) => Ok(id),
            None => Err("Job id not found"@),
        }
    }
}

/// Read the answer of an `sbatch` run (see `submission_answer`).
pub fn read_submission(success: bool, stdout: &str) -> (r: Result<String, String>)
    ensures
        match r {
            Ok(id) => submission_answer(success, stdout@) == Ok::<Seq<char>, Seq<char>>(id@),
            Err(e) => submission_answer(success, stdout@) == Err::<Seq<char>, Seq<char>>(e@),
        },
{
    if !success {
        return Err(String::from_str("non-zero exit status"));
    }
    match find_submitted_job_id(stdout) {
        Some(id) => Ok(id),
        None => Err(String::from_str("Job id not found")),
    }
}

/// The plan `p` runs the task on Slurm with the input `input` (see
/// `slurm_command`).
pub open spec fn is_slurm_plan(
    p: CommandPlan,
    task: Task,
    try_num: usize,
    cfg: Cfg,
    meta: DAGMeta,
    input: Seq<(String, JsonValue)>,
) -> bool {
    let paths = log_paths(task.slurm, meta.pipeline_name@, task.pipeline_name@, cfg.timestamp@);
    &&& p.program@ == crate::schemas::cmd_name(task.cmd)
    &&& pair_texts(p.envs@) == command_envs(task, try_num, cfg.dagdir@, meta, input)
    &&& texts(p.args@) == sbatch_args(task.slurm, task.name@, paths.0, paths.1).push(
        script_path_of(task, cfg.dagdir@),
    )
}

/// The plan `p` runs the task locally with the input `input` (see
/// `local_command`).
pub open spec fn is_local_plan(
    p: CommandPlan,
    task: Task,
    try_num: usize,
    cfg: Cfg,
    meta: DAGMeta,
    input: Seq<(String, JsonValue)>,
) -> bool {
    &&& p.program@ == crate::schemas::cmd_name(task.cmd)
    &&& pair_texts(p.envs@) == command_envs(task, try_num, cfg.dagdir@, meta, input)
    &&& texts(p.args@) == seq![script_path_of(task, cfg.dagdir@)]
}

/// The input file of a task, in its node directory.
pub open spec fn input_path_of(task: Task, dagdir: Seq<char>) -> Seq<char> {
    path_join(node_dir(dagdir, task.uid as nat), file_name(FileNames::Input))
}

/// `save_input` gave `r` when handed the input file of the task and the
/// input `input`.
pub open spec fn input_written<SI: Fn(String, Vec<(String, JsonValue)>) -> Result<(), String>>(
    save_input: SI,
    task: Task,
    dagdir: Seq<char>,
    input: Seq<(String, JsonValue)>,
    r: Result<(), String>,
) -> bool {
    exists|p: String, v: Vec<(String, JsonValue)>|
        p@ == input_path_of(task, dagdir) && v@ == input && #[trigger] save_input.ensures((p, v), r)
}

/// An inline script was written at the script path of the task by
/// `save_script`, giving `r`; a script given by path needs nothing.
pub open spec fn script_written<SS: Fn(String, String) -> Result<(), String>>(
    save_script: SS,
    task: Task,
    dagdir: Seq<char>,
    r: Result<(), String>,
) -> bool {
    match task.script {
        Script::Script(c) => exists|p: String, t: String|
            p@ == script_path_of(task, dagdir) && t@ == c.content@ && #[trigger] save_script.ensures(
                (p, t),
                r,
            ),
        Script::ScriptPath(_) => r is Ok,
    }
}

fn copy_input(v: &Vec<(String, JsonValue)>) -> (r: Vec<(String, JsonValue)>)
    ensures
        r@ == v@,
{
    let mut r: Vec<(String, JsonValue)> = Vec::new();
    let mut i: usize = 0;
    while i < v.len()
        invariant
            i <= v@.len(),
            r@ == v@.take(i as int),
        decreases v@.len() - i,
    {
        r.push((v[i].0.clone(), v[i].1.copied()));
        assert(r@ =~= v@.take(i + 1));
        i = i + 1;
    }
    assert(v@.take(v@.len() as int) =~= v@);
    r
}

/// Save the input of a task in its input file.
fn write_input<SI: Fn(String, Vec<(String, JsonValue)>) -> Result<(), String>>(
    task: &Task,
    cfg: &Cfg,
    input: &Vec<(String, JsonValue)>,
    save_input: &SI,
) -> (r: Result<(), String>)
    requires
        forall|p: String, v: Vec<(String, JsonValue)>| save_input.requires((p, v)),
    ensures
        input_written(*save_input, *task, cfg.dagdir@, input@, r),
{
    let dir = get_node_dir(cfg.dagdir.as_str(), task.uid);
    let p = join_path(dir.as_str(), FileNames::Input.as_str());
    let v = copy_input(input);
    let ghost (gp, gv) = (p, v);
    let r = save_input(p, v);
    assert(save_input.ensures((gp, gv), r));
    r
}

/// Write the inline script of a task (see `script_written`).
pub fn set_script_path<SS: Fn(String, String) -> Result<(), String>>(
    task: &Task,
    cfg: &Cfg,
    save_script: &SS,
) -> (r: Result<(), String>)
    requires
        forall|p: String, t: String| save_script.requires((p, t)),
    ensures
        script_written(*save_script, *task, cfg.dagdir@, r),
{
    match &task.script {
        Script::Script(c) => {
            let p = script_path(task, cfg);
            let t = c.content.clone();
            let ghost (gp, gt) = (p, t);
            let r = save_script(p, t);
            assert(save_script.ensures((gp, gt), r));
            r
        },
        Script::ScriptPath(_) => Ok(()),
    }
}

/// What submitting a task to Slurm gives: its input is read from its
/// parents (see `input_read`) and saved in its input file; the directories
/// of its logs are made; its inline script is written; then `run` runs
/// its Slurm plan (see `is_slurm_plan`) and the answer is read (see
/// `submission_answer`). The first error is returned.
pub open spec fn slurm_submitted<
    R: Fn(String) -> Result<JsonValue, String>,
    SI: Fn(String, Vec<(String, JsonValue)>) -> Result<(), String>,
    LD: Fn(String, String) -> (),
    SS: Fn(String, String) -> Result<(), String>,
    X: Fn(CommandPlan) -> Result<(bool, String), String>,
>(
    task: Task,
    try_num: usize,
    cfg: Cfg,
    meta: DAGMeta,
    read: R,
    save_input: SI,
    make_log_dirs: LD,
    save_script: SS,
    run: X,
    r: Result<String, String>,
) -> bool {
    exists|inp: Result<Vec<(String, JsonValue)>, String>|
        #[trigger] input_read(task, cfg.dagdir@, read, inp) && match inp {
            Err(e) => r == Err::<String, String>(e),
            Ok(v) => exists|s: Result<(), String>|
                #[trigger] input_written(save_input, task, cfg.dagdir@, v@, s) && match s {
                    Err(e) => r == Err::<String, String>(e),
                    Ok(_) => {
                        let paths = log_paths(
                            task.slurm,
                            meta.pipeline_name@,
                            task.pipeline_name@,
                            cfg.timestamp@,
                        );
                        &&& exists|a: String, b: String|
                            a@ == paths.0 && b@ == paths.1 && #[trigger] make_log_dirs.ensures((a, b), ())
                        &&& exists|w: Result<(), String>|
                            #[trigger] script_written(save_script, task, cfg.dagdir@, w) && match w {
                                Err(e) => r == Err::<String, String>(e),
                                Ok(_) => exists|p: CommandPlan, out: Result<(bool, String), String>|
                                    is_slurm_plan(p, task, try_num, cfg, meta, v@)
                                        && #[trigger] run.ensures((p,), out) && match out {
                                        Err(e) => r == Err::<String, String>(e),
                                        Ok((success, stdout)) => match submission_answer(
                                            success,
                                            stdout@,
                                        ) {
                                            Ok(id) => r matches Ok(x) && x@ == id,
                                            Err(m) => r matches Err(x) && x@ == m,
                                        },
                                    },
                            }
                    },
                },
        }
}

/// Submit a task to Slurm (see `slurm_submitted`).
pub fn submit_slurm<
    R: Fn(String) -> Result<JsonValue, String>,
    SI: Fn(String, Vec<(String, JsonValue)>) -> Result<(), String>,
    LD: Fn(String, String) -> (),
    SS: Fn(String, String) -> Result<(), String>,
    X: Fn(CommandPlan) -> Result<(bool, String), String>,
>(
    task: &Task,
    try_num: usize,
    cfg: &Cfg,
    meta: &DAGMeta,
    read: &R,
    save_input: &SI,
    make_log_dirs: &LD,
    save_script: &SS,
    run: &X,
) -> (r: Result<String, String>)
    requires
        forall|p: String| read.requires((p,)),
        forall|p: String, v: Vec<(String, JsonValue)>| save_input.requires((p, v)),
        forall|a: String, b: String| make_log_dirs.requires((a, b)),
        forall|p: String, t: String| save_script.requires((p, t)),
        forall|p: CommandPlan| run.requires((p,)),
    ensures
        slurm_submitted(
            *task,
            try_num,
            *cfg,
            *meta,
            *read,
            *save_input,
            *make_log_dirs,
            *save_script,
            *run,
            r,
        ),
{
    let inp = read_input_from_parents(task, cfg.dagdir.as_str(), read);
    let ghost g_inp = inp;
    let input = match inp {
        Err(e) => {
            return Err(e);
        },
        Ok(v) => v,
    };
    let s = write_input(task, cfg, &input, save_input);
    let ghost g_s = s;
    if let Err(e) = s {
        return Err(e);
    }
    let (output, error) = find_output_and_error_paths(
        &task.slurm,
        meta.pipeline_name.as_str(),
        task.pipeline_name.as_str(),
        cfg.timestamp.as_str(),
    );
    let ghost (go, ge) = (output, error);
    make_log_dirs(output, error);
    assert(make_log_dirs.ensures((go, ge), ()));
    let w = set_script_path(task, cfg, save_script);
    let ghost g_w = w;
    if let Err(e) = w {
        return Err(e);
    }
    let plan = slurm_command(task, try_num, cfg, meta, input.as_slice());
    let ghost gp = plan;
    let out = run(plan);
    assert(run.ensures((gp,), out));
    match out {
        Err(e) => Err(e),
        Ok((success, stdout)) => read_submission(success, stdout.as_str()),
    }
}

/// What starting a task locally gives: its input is read from its parents
/// (see `input_read`), its inline script is written, its input is saved,
/// then `spawn` starts its local plan (see `is_local_plan`) and the answer
/// is what `spawn` gives. The first error is returned.
pub open spec fn local_started<
    T,
    R: Fn(String) -> Result<JsonValue, String>,
    SS: Fn(String, String) -> Result<(), String>,
    SI: Fn(String, Vec<(String, JsonValue)>) -> Result<(), String>,
    X: Fn(CommandPlan) -> Result<T, String>,
>(
    task: Task,
    try_num: usize,
    cfg: Cfg,
    meta: DAGMeta,
    read: R,
    save_script: SS,
    save_input: SI,
    spawn: X,
    r: Result<T, String>,
) -> bool {
    exists|inp: Result<Vec<(String, JsonValue)>, String>|
        #[trigger] input_read(task, cfg.dagdir@, read, inp) && match inp {
            Err(e) => r == Err::<T, String>(e),
            Ok(v) => exists|w: Result<(), String>|
                #[trigger] script_written(save_script, task, cfg.dagdir@, w) && match w {
                    Err(e) => r == Err::<T, String>(e),
                    Ok(_) => exists|s: Result<(), String>|
                        #[trigger] input_written(save_input, task, cfg.dagdir@, v@, s) && match s {
                            Err(e) => r == Err::<T, String>(e),
                            Ok(_) => exists|p: CommandPlan|
                                is_local_plan(p, task, try_num, cfg, meta, v@) && #[trigger] spawn.ensures(
                                    (p,),
                                    r,
                                ),
                        },
                },
        }
}

/// Start a task locally (see `local_started`); `spawn` either starts the
/// process and gives its pid, or runs it to the end and tells whether it
/// succeeded.
pub fn submit_local<
    T,
    R: Fn(String) -> Result<JsonValue, String>,
    SS: Fn(String, String) -> Result<(), String>,
    SI: Fn(String, Vec<(String, JsonValue)>) -> Result<(), String>,
    X: Fn(CommandPlan) -> Result<T, String>,
>(
    task: &Task,
    try_num: usize,
    cfg: &Cfg,
    meta: &DAGMeta,
    read: &R,
    save_script: &SS,
    save_input: &SI,
    spawn: &X,
) -> (r: Result<T, String>)
    requires
        forall|p: String| read.requires((p,)),
        forall|p: String, t: String| save_script.requires((p, t)),
        forall|p: String, v: Vec<(String, JsonValue)>| save_input.requires((p, v)),
        forall|p: CommandPlan| spawn.requires((p,)),
    ensures
        local_started(*task, try_num, *cfg, *meta, *read, *save_script, *save_input, *spawn, r),
{
    let inp = read_input_from_parents(task, cfg.dagdir.as_str(), read);
    let input = match inp {
        Err(e) => {
            return Err(e);
        },
        Ok(v) => v,
    };
    let w = set_script_path(task, cfg, save_script);
    if let Err(e) = w {
        return Err(e);
    }
    let s = write_input(task, cfg, &input, save_input);
    if let Err(e) = s {
        return Err(e);
    }
    let plan = local_command(task, try_num, cfg, meta, input.as_slice());
    let ghost gp = plan;
    let r = spawn(plan);
    assert(spawn.ensures((gp,), r));
    r
}

} // verus!
