use sdag::context::{Ctx, Job};
use sdag::nodes::{Node, Task};
use sdag::polling::{
    get_status_from_string, parse_slurm_status, poll_local, poll_slurm, read_slurm_statuses,
    slurm_ids_valid,
    LocalPoller, ProcessState, SlurmPoller,
};
use sdag::schemas::{Cmd, DAGMeta, ExecMode, Scope, Script, ScriptPath, SlurmOverride};
use sdag::settings::Cfg;
use sdag::status::{Completed, Failed, JobType, Status};
use std::collections::HashMap;

fn get_meta() -> DAGMeta {
    DAGMeta {
        pipeline_name: "pipe".into(),
        hash: "xxx".into(),
        timestamp: "1920-01-01T09:20:20".into(),
        extra: "null".into(),
        import_path: String::new(),
        kwargs: "{}".into(),
    }
}

fn get_cfg() -> Cfg {
    let meta = get_meta();
    Cfg::new("/a/path", &meta, "info", 5, 4, 2, 1, false)
}

fn get_poller(cfg: &Cfg) -> SlurmPoller<'_> {
    SlurmPoller {
        cfg,
        nslurm_fails: 3,
        missing_jobs: HashMap::new(),
    }
}

fn get_task(uid: usize) -> Task {
    Task {
        uid,
        parents: vec![],
        fn_name: "fn_name".into(),
        name: "name".into(),
        pipeline_name: "pipeline_name".into(),
        cache: false,
        scope: Scope::Local,
        cache_size: 1,
        cache_ignore: vec![],
        mode: ExecMode::Wrap,
        cmd: Cmd::Sbatch,
        retries: 0,
        script: Script::ScriptPath(ScriptPath {
            path: "path/to/script".into(),
        }),
        envs: vec![],
        slurm: SlurmOverride::new(),
        kwargs: vec![],
        tags: vec![],
        artifacts: vec![],
        children: vec![],
        debug: false,
    }
}

fn get_ctx(nodes: &[Node]) -> Ctx {
    let mut ctx = Ctx::new(nodes).unwrap();
    ctx.try_nums[0] = 1;
    ctx
}

#[test]
fn poll_slurm_slurm_status_parsed_correctly() {
    let slurm_status = "
        JobID             State
        ------------ ----------
        20836188      COMPLETED
        20836188.ba+  COMPLETED
        20836188.ex+  COMPLETED
        ";
    let output = parse_slurm_status("20836188", slurm_status).unwrap();
    assert_eq!(output, "COMPLETED");
}

#[test]
fn poll_slurm_slurm_status_not_found() {
    let slurm_status = "
        JobID             State
        ------------ ----------
        20836188.ba+  COMPLETED
        20836188.ex+  COMPLETED
        ";
    let output = parse_slurm_status("20836188", slurm_status);
    assert!(output.is_none());
}

#[test]
fn poll_slurm_get_failed_slurm_status() {
    let slurm_status = "
            JobID             State
            ------------ ----------
            20836188      FAILED
            20836188.ba+  COMPLETED
            20836188.ex+  COMPLETED
            ";
    let output = parse_slurm_status("20836188", slurm_status).unwrap();
    assert_eq!(output, "FAILED");
}

#[test]
fn poll_slurm_running_slurm_status() {
    let slurm_status = "
            JobID             State
            ------------ ----------
            20836188      COMPLETING
            20836188.ba+  COMPLETED
            20836188.ex+  COMPLETED
            ";
    let output = parse_slurm_status("20836188", slurm_status).unwrap();
    assert_eq!(output, "COMPLETING");
}

#[test]
fn poll_slurm_test_get_status_from_string() {
    assert!(matches!(
        get_status_from_string("COMPLETED", "1"),
        Status::Completed(Completed::Job(_))
    ));
    assert!(matches!(
        get_status_from_string("PENDING", "1"),
        Status::Pending(JobType::Slurm(_))
    ));
    assert!(matches!(
        get_status_from_string("RUNNING", "1"),
        Status::Running(JobType::Slurm(_))
    ));
}

#[test]
fn poll_slurm_test_empty_job_pull() {
    let ask = |_ids: String| -> Result<String, String> { panic!("Slurm must not be asked") };
    assert!(poll_slurm(&[], &ask).unwrap().unwrap().len() == 0)
}

#[test]
fn test_mark_all_jobs_as_failed() {
    let cfg = get_cfg();
    let mut poller = get_poller(&cfg);

    let task = get_task(0);
    let nodes = [Node::Task(task)];
    let mut ctx = get_ctx(&nodes);
    ctx.slurm_jobs.push((0, "111".into()));

    poller.mark_all_jobs_as_failed(&mut ctx);
    assert!(matches!(ctx.statuses[0], Status::Failed(_)));
    assert!(ctx.slurm_jobs.is_empty());
    assert_eq!(poller.nslurm_fails, 0);
}

#[test]
fn poll_slurm_test_handle_pending_status() {
    let cfg = get_cfg();
    let mut poller = get_poller(&cfg);

    let task = get_task(0);
    let nodes = [Node::Task(task.clone())];
    let mut ctx = get_ctx(&nodes);
    poller.handle_new_slurm_status(
        &task,
        Status::Pending(JobType::Slurm("123".into())),
        &mut ctx,
    );

    assert!(matches!(
        ctx.statuses[0],
        Status::Pending(JobType::Slurm(_))
    ));
    assert_eq!(ctx.slurm_jobs, vec![(0, "123".to_string())]);
}

#[test]
fn poll_slurm_test_handle_failed_status() {
    let cfg = get_cfg();
    let mut poller = get_poller(&cfg);

    let task = get_task(0);
    let nodes = [Node::Task(task.clone())];
    let mut ctx = get_ctx(&nodes);
    poller.handle_new_slurm_status(
        &task,
        Status::Failed(Failed::Job(JobType::Slurm("123".into()))),
        &mut ctx,
    );
    assert!(matches!(ctx.statuses[0], Status::Failed(_)))
}

#[test]
fn poll_slurm_test_handle_failed_status_with_retry() {
    let cfg = get_cfg();
    let mut poller = get_poller(&cfg);

    let mut task = get_task(0);
    task.retries = 1;

    let nodes = [Node::Task(task.clone())];
    let mut ctx = get_ctx(&nodes);
    poller.handle_new_slurm_status(
        &task,
        Status::Failed(Failed::Job(JobType::Slurm("123".into()))),
        &mut ctx,
    );

    let job = ctx.jobs.pop_front().unwrap();
    assert!(matches!(job, Job::Task(0)))
}

#[test]
fn poll_slurm_test_handle_completed_with_caching() {
    let cfg = get_cfg();
    let mut poller = get_poller(&cfg);

    let mut task = get_task(0);
    task.cache = true;

    let nodes = [Node::Task(task.clone())];
    let mut ctx = get_ctx(&nodes);
    poller.handle_new_slurm_status(
        &task,
        Status::Completed(Completed::Job(JobType::Slurm("123".into()))),
        &mut ctx,
    );

    let job = ctx.jobs.pop_front().unwrap();
    assert!(matches!(job, Job::SaveCache(0)))
}

#[test]
fn poll_slurm_test_handle_completed_ext() {
    let cfg = get_cfg();
    let mut poller = get_poller(&cfg);
    let mut task = get_task(0);
    task.mode = ExecMode::Ext;

    let nodes = [Node::Task(task.clone())];
    let mut ctx = get_ctx(&nodes);
    poller.handle_new_slurm_status(
        &task,
        Status::Completed(Completed::Job(JobType::Slurm("123".into()))),
        &mut ctx,
    );

    let job = ctx.jobs.pop_front().unwrap();
    assert!(matches!(job, Job::SaveExtOutput(0, _)))
}

#[test]
fn status_from_other_states() {
    assert!(matches!(
        get_status_from_string("CONFIGURING", "7"),
        Status::Pending(JobType::Slurm(ref id)) if id == "7"
    ));
    assert!(matches!(
        get_status_from_string("COMPLETING", "7"),
        Status::Running(JobType::Slurm(_))
    ));
    assert!(matches!(
        get_status_from_string("TIMEOUT", "7"),
        Status::Failed(Failed::Job(JobType::Slurm(_)))
    ));
}

#[test]
fn poll_asks_with_joined_ids() {
    let ask = |ids: String| -> Result<String, String> {
        assert_eq!(ids, "11,22");
        Ok("11 RUNNING\n22 COMPLETED\n".to_string())
    };
    let jobs = vec![(0usize, "11".to_string()), (1usize, "22".to_string())];
    let res = poll_slurm(&jobs, &ask).unwrap().unwrap();
    assert_eq!(res.len(), 2);
    assert!(matches!(res[0], (0, Status::Running(JobType::Slurm(_)))));
    assert!(matches!(res[1], (1, Status::Completed(Completed::Job(_)))));
    let fail = |_ids: String| -> Result<String, String> { Err("down".to_string()) };
    assert_eq!(poll_slurm(&jobs, &fail).unwrap_err(), "down");
}

#[test]
fn poll_with_invalid_job_id() {
    let ask = |_ids: String| -> Result<String, String> { Ok("( RUNNING\n".to_string()) };
    let jobs = vec![(0usize, "(".to_string())];
    assert_eq!(poll_slurm(&jobs, &ask), Ok(None));
    let fail = |_ids: String| -> Result<String, String> { Err("down".to_string()) };
    assert_eq!(poll_slurm(&jobs, &fail), Err("down".to_string()));
    assert!(!slurm_ids_valid(&jobs));
    assert!(slurm_ids_valid(&[(1usize, "42".to_string())]));

    let cfg = get_cfg();
    let mut poller = SlurmPoller::new(&cfg);
    let nodes = [Node::Task(get_task(0))];
    let mut ctx = get_ctx(&nodes);
    ctx.statuses[0] = Status::Running(JobType::Slurm("(".into()));
    ctx.slurm_jobs.push((0, "(".into()));
    assert!(!poller.poll(&nodes, &mut ctx, &ask));
    assert_eq!(ctx.slurm_jobs, vec![(0usize, "(".to_string())]);
    assert_eq!(poller.nslurm_fails, 0);
    assert!(poller.poll(&nodes, &mut ctx, &fail));
    assert_eq!(poller.nslurm_fails, 1);
}

#[test]
fn read_statuses_skips_unknown_jobs() {
    let jobs = vec![(3usize, "5".to_string()), (4usize, "6".to_string())];
    let res = read_slurm_statuses(&jobs, "6 PENDING");
    assert_eq!(res.len(), 1);
    assert!(matches!(res[0], (4, Status::Pending(_))));
}

#[test]
fn poll_marks_missing_jobs_after_grace() {
    let cfg = get_cfg();
    let mut poller = SlurmPoller::new(&cfg);
    let nodes = [Node::Task(get_task(0))];
    let mut ctx = get_ctx(&nodes);
    ctx.statuses[0] = Status::Pending(JobType::Slurm("9".into()));
    ctx.slurm_jobs.push((0, "9".into()));
    let ask = |_ids: String| -> Result<String, String> { Ok(String::new()) };
    // Missing twice: kept, within the grace period of 2.
    poller.poll(&nodes, &mut ctx, &ask);
    poller.poll(&nodes, &mut ctx, &ask);
    assert_eq!(ctx.slurm_jobs.len(), 1);
    // Missing a third time: failed to contact.
    poller.poll(&nodes, &mut ctx, &ask);
    assert!(ctx.slurm_jobs.is_empty());
    assert!(matches!(ctx.statuses[0], Status::Failed(Failed::FailedToContact(_))));
}

#[test]
fn poll_fails_all_after_grace_without_contact() {
    let cfg = get_cfg();
    let mut poller = SlurmPoller::new(&cfg);
    let nodes = [Node::Task(get_task(0))];
    let mut ctx = get_ctx(&nodes);
    ctx.slurm_jobs.push((0, "9".into()));
    let ask = |_ids: String| -> Result<String, String> { Err("unreachable".into()) };
    poller.poll(&nodes, &mut ctx, &ask);
    assert_eq!(poller.nslurm_fails, 1);
    assert_eq!(ctx.slurm_jobs.len(), 1);
    poller.poll(&nodes, &mut ctx, &ask);
    assert_eq!(poller.nslurm_fails, 0);
    assert!(ctx.slurm_jobs.is_empty());
    assert!(matches!(ctx.statuses[0], Status::Failed(Failed::FailedToContact(_))));
}

#[test]
fn local_poll_states() {
    assert_eq!(poll_local(5, ProcessState::Running), Status::Running(JobType::Local(5)));
    assert_eq!(
        poll_local(5, ProcessState::Exited(true)),
        Status::Completed(Completed::Job(JobType::Local(5)))
    );
    assert_eq!(poll_local(5, ProcessState::Exited(false)), Status::Failed(Failed::Job(JobType::Local(5))));
    assert_eq!(poll_local(5, ProcessState::Unknown), Status::Failed(Failed::Job(JobType::Local(5))));
}

#[test]
fn local_poller_completes_and_keeps_running() {
    let nodes = vec![Node::Task(get_task(0)), Node::Task(get_task(1))];
    let mut ctx = Ctx::new(&nodes).unwrap();
    ctx.local_jobs.push((0, 100));
    ctx.local_jobs.push((1, 101));
    let try_wait = |pid: u32| -> ProcessState {
        if pid == 100 {
            ProcessState::Exited(true)
        } else {
            ProcessState::Running
        }
    };
    let mut poller = LocalPoller;
    poller.poll(&nodes, &mut ctx, &try_wait);
    assert!(matches!(ctx.statuses[0], Status::Completed(Completed::Job(_))));
    assert_eq!(ctx.local_jobs, vec![(1, 101)]);
    assert_eq!(ctx.updated.pop_front(), Some(0));
}
