use sdag::nonblocking::{submit_local, submit_slurm, CommandPlan};
use std::cell::RefCell;
use sdag::run_task::{submit_job, JobOutcome};
use sdag::nodes::Task;
use sdag::nonblocking::{
    build_envs, convert_env_to_string, find_output_and_error_paths, find_submitted_job_id,
    local_command, override_sbatch, read_submission, slurm_command,
};
use sdag::schemas::{Cmd, DAGMeta, ExecMode, JsonValue, Scope, Script, ScriptContent, SlurmOverride};
use sdag::settings::Cfg;

fn get_meta() -> DAGMeta {
    DAGMeta {
        pipeline_name: "pipe".into(),
        hash: "xxx".into(),
        timestamp: "1920-01-01T09:20:20".into(),
        extra: "null".into(),
        import_path: String::new(),
        kwargs: "{}".into(),
    }
}

fn get_task() -> Task {
    Task {
        uid: 0,
        parents: vec![],
        fn_name: "fn_name".into(),
        name: "name".into(),
        pipeline_name: "pipeline_name".into(),
        cache: false,
        scope: Scope::Local,
        cache_size: 1,
        cache_ignore: vec![],
        mode: ExecMode::Wrap,
        cmd: Cmd::Bash,
        retries: 0,
        script: Script::Script(ScriptContent {
            content: "echo hello".into(),
        }),
        envs: vec![("VAR".into(), JsonValue::Bool(true))],
        slurm: SlurmOverride::new(),
        kwargs: vec![],
        tags: vec![],
        artifacts: vec![],
        children: vec![],
        debug: false,
    }
}

#[test]
fn find_default_log_paths() {
    let slurm_override = SlurmOverride::default();
    let (output, error) =
        find_output_and_error_paths(&slurm_override, "pipe", "subpipe", "1900-01-01");

    assert_eq!(output, "./logs/pipe/1900-01-01/subpipe/%x.%j.out");
    assert_eq!(error, "./logs/pipe/1900-01-01/subpipe/%x.%j.err");
}

#[test]
fn find_custom_log_paths() {
    let mut slurm_override = SlurmOverride::default();
    slurm_override.output = Some("output.out".into());
    slurm_override.error = Some("error.err".into());

    let (output, error) =
        find_output_and_error_paths(&slurm_override, "pipe", "subpipe", "1900-01-01");

    assert_eq!(output, "output.out");
    assert_eq!(error, "error.err");
}

#[test]
fn nonblocking_parse_job_output() {
    let output = "Submitted batch job 1234".to_string();
    let job_id = find_submitted_job_id(&output).unwrap();
    assert_eq!(job_id, "1234");
}

#[test]
fn job_id_missing() {
    assert!(find_submitted_job_id("sbatch: error: invalid partition").is_none());
    assert_eq!(read_submission(false, "Submitted batch job 1").unwrap_err(), "non-zero exit status");
    assert_eq!(read_submission(true, "nothing").unwrap_err(), "Job id not found");
    assert_eq!(read_submission(true, "Submitted batch job 77").unwrap(), "77");
}

#[test]
fn env_texts() {
    assert_eq!(convert_env_to_string(&JsonValue::Null), "");
    assert_eq!(convert_env_to_string(&JsonValue::Bool(true)), "true");
    assert_eq!(convert_env_to_string(&JsonValue::Text("a b".into())), "a b");
    assert_eq!(convert_env_to_string(&JsonValue::Json("[1,2]".into())), "[1,2]");
}

#[test]
fn sbatch_overrides() {
    let mut o = SlurmOverride::new();
    o.job_name = Some("custom".into());
    o.nodes = Some(2);
    o.mem = Some("4G".into());
    let args = override_sbatch(&o, "task", "out.log", "err.log");
    assert_eq!(
        args,
        vec![
            "--error=err.log".to_string(),
            "--output=out.log".to_string(),
            "--job-name=custom".to_string(),
            "--nodes=2".to_string(),
            "--mem=4G".to_string(),
        ]
    );
}

#[test]
fn command_environment() {
    let meta = get_meta();
    let cfg = Cfg::new("/home/u", &meta, "info", 1, 5, 1, 1, false);
    let mut task = get_task();
    task.mode = ExecMode::Ext;
    task.uid = 12;
    let input = vec![("key".to_string(), JsonValue::Text("v".into()))];
    let envs = build_envs(&task, 3, &cfg, &meta, &input);
    assert_eq!(envs[0], ("VAR".to_string(), "true".to_string()));
    assert_eq!(envs[1], ("KEY".to_string(), "v".to_string()));
    assert_eq!(envs[2], ("SDAG_TRY_NUM".to_string(), "3".to_string()));
    assert_eq!(envs[3], ("SDAG_PIPELINE_DIR".to_string(), "/home/u/pipelines/pipe/xxx".to_string()));
    assert!(envs.contains(&("SDAG_UID".to_string(), "12".to_string())));
    assert_eq!(envs.last().unwrap(), &("SDAG_TASK_NAME".to_string(), "name".to_string()));
}

#[test]
fn commands_of_tasks() {
    let meta = get_meta();
    let cfg = Cfg::new("/home/u", &meta, "info", 1, 5, 1, 1, false);
    let task = get_task();
    let local = local_command(&task, 1, &cfg, &meta, &[]);
    assert_eq!(local.program, "bash");
    assert_eq!(local.args, vec!["/home/u/pipelines/pipe/xxx/0/script.sh".to_string()]);
    let slurm = slurm_command(&task, 1, &cfg, &meta, &[]);
    assert_eq!(slurm.args[0], "--error=./logs/pipe/1920-01-01T09:20:20/pipeline_name/%x.%j.err");
    assert_eq!(slurm.args.last().unwrap(), "/home/u/pipelines/pipe/xxx/0/script.sh");
}

#[test]
fn slurm_submission_runs_in_order() {
    let meta = get_meta();
    let cfg = Cfg::new("/home/u", &meta, "info", 1, 5, 1, 1, false);
    let task = get_task();
    let steps = RefCell::new(Vec::new());
    let read = |_p: String| -> Result<JsonValue, String> { Ok(JsonValue::Null) };
    let save_input = |p: String, _v: Vec<(String, JsonValue)>| -> Result<(), String> {
        steps.borrow_mut().push(format!("input {p}"));
        Ok(())
    };
    let dirs = |o: String, _e: String| {
        steps.borrow_mut().push(format!("logs {o}"));
    };
    let save_script = |p: String, t: String| -> Result<(), String> {
        steps.borrow_mut().push(format!("script {p} {t}"));
        Ok(())
    };
    let run = |p: CommandPlan| -> Result<(bool, String), String> {
        steps.borrow_mut().push(format!("run {}", p.program));
        Ok((true, String::from("Submitted batch job 5")))
    };
    let r = submit_slurm(&task, 2, &cfg, &meta, &read, &save_input, &dirs, &save_script, &run);
    assert_eq!(r, Ok(String::from("5")));
    assert_eq!(
        steps.borrow().clone(),
        vec![
            String::from("input /home/u/pipelines/pipe/xxx/0/input.json"),
            String::from("logs ./logs/pipe/1920-01-01T09:20:20/pipeline_name/%x.%j.out"),
            String::from("script /home/u/pipelines/pipe/xxx/0/script.sh echo hello"),
            String::from("run bash"),
        ]
    );
    let failing = |_p: CommandPlan| -> Result<(bool, String), String> { Ok((false, String::new())) };
    let r = submit_slurm(&task, 2, &cfg, &meta, &read, &save_input, &dirs, &save_script, &failing);
    assert_eq!(r, Err(String::from("non-zero exit status")));
    let spawn = |_p: CommandPlan| -> Result<u32, String> { Ok(99) };
    let r = submit_local(&task, 1, &cfg, &meta, &read, &save_script, &save_input, &spawn);
    assert_eq!(r, Ok(99));
}

#[test]
fn single_task_runs_by_its_command() {
    let meta = get_meta();
    let cfg = Cfg::new("/home/u", &meta, "info", 1, 5, 1, 1, false);
    let task = get_task();
    let read = |_p: String| -> Result<JsonValue, String> { Ok(JsonValue::Null) };
    let save_input = |_p: String, _v: Vec<(String, JsonValue)>| -> Result<(), String> { Ok(()) };
    let dirs = |_o: String, _e: String| {};
    let save_script = |_p: String, _t: String| -> Result<(), String> { Ok(()) };
    let run = |_p: CommandPlan| -> Result<(bool, String), String> { Ok((true, String::from("Submitted batch job 5"))) };
    let blocking = |_p: CommandPlan| -> Result<bool, String> { Ok(true) };
    match submit_job(&task, &cfg, &meta, &read, &save_input, &dirs, &save_script, &run, &blocking) {
        JobOutcome::Finished(b) => assert!(b),
        _ => panic!("a local task runs to the end"),
    }
    let mut slurm_task = get_task();
    slurm_task.cmd = Cmd::Sbatch;
    match submit_job(&slurm_task, &cfg, &meta, &read, &save_input, &dirs, &save_script, &run, &blocking) {
        JobOutcome::Submitted(id) => assert_eq!(id, "5"),
        _ => panic!("a Slurm task is submitted"),
    }
}
