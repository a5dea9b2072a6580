use sdag::breakpoint::{create_continue_lock, create_skip_lock, Debugger, Resume};
use sdag::commands::{
    clear_global_cache, log_banner, loop_decision, prune_cache, restart_run, run, sort_nodes_by_uid,
    LoopDecision,
};
use sdag::context::{Ctx, Job};
use sdag::kill::{create_kill_lock, is_scheduler_killed, kill_jobs};
use sdag::nodes::{End, Node, Root, Task};
use sdag::schemas::{
    Cmd, DAGMeta, ExecMode, JsonValue, Kwarg, Parent, ParentKind, Scope, Script, ScriptPath,
    SlurmOverride,
};
use sdag::settings::{find_homedir, Cfg};
use sdag::state::{get_static_input, read_input_from_parents};
use sdag::status::{Completed, Failed, JobType, Status};
use sdag::submission::Submitter;
use sdag::summary::{get_final_recap, get_summary_rows};
use sdag::workdirs::{find_pipeline_folder, last_run};

fn get_meta() -> DAGMeta {
    DAGMeta {
        pipeline_name: "pipe".into(),
        hash: "xxx".into(),
        timestamp: "1920-01-01T09:20:20".into(),
        extra: "null".into(),
        import_path: String::new(),
        kwargs: "{}".into(),
    }
}

fn get_task(uid: usize) -> Task {
    Task {
        uid,
        parents: vec![],
        fn_name: "fn_name".into(),
        name: "name".into(),
        pipeline_name: "pipeline_name".into(),
        cache: true,
        scope: Scope::Local,
        cache_size: 1,
        cache_ignore: vec![],
        mode: ExecMode::Wrap,
        cmd: Cmd::Sbatch,
        retries: 0,
        script: Script::ScriptPath(ScriptPath {
            path: "path/to/script".into(),
        }),
        envs: vec![],
        slurm: SlurmOverride::new(),
        kwargs: vec![],
        tags: vec![],
        artifacts: vec![],
        children: vec![],
        debug: false,
    }
}

fn summary_nodes() -> Vec<Node> {
    (0..5).map(|u| Node::Task(get_task(u))).collect()
}

fn summary_ctx(nodes: &[Node]) -> Ctx {
    let mut ctx = Ctx::new(nodes).unwrap();
    ctx.try_nums = vec![0, 1, 2, 3, 4, 5];
    ctx.statuses = vec![
        Status::Completed(Completed::Job(JobType::Slurm("123".into()))),
        Status::Failed(Failed::Generic),
        Status::Pending(JobType::Slurm("234".into())),
        Status::NotSubmitted,
        Status::Running(JobType::Slurm("456".into())),
    ];
    ctx
}

#[test]
fn summary_rows_are_ranked() {
    let nodes = summary_nodes();
    let ctx = summary_ctx(&nodes);
    let rows = get_summary_rows(&nodes, &ctx);
    let uids: Vec<usize> = rows.iter().map(|r| r.uid).collect();
    assert_eq!(uids, vec![3, 0, 1, 2, 4]);
    assert_eq!(rows[0].status, "Not Submitted");
    assert_eq!(rows[1].status, "Completed (job_id=123)");
    assert_eq!(rows[3].status, "Pending (job_id=234)");
    assert_eq!(rows[4].try_num, 4);
    assert_eq!(rows[2].pipeline, "pipeline_name");
}

#[test]
fn final_recap_counts() {
    let nodes = summary_nodes();
    let ctx = summary_ctx(&nodes);
    let recap = get_final_recap(&nodes, &ctx);
    assert_eq!(recap.completed, 1);
    assert_eq!(recap.skipped, 0);
    assert_eq!(recap.failed, 1);
    assert_eq!(recap.pending, 1);
    assert_eq!(recap.running, 1);
    assert_eq!(recap.not_submitted, 1);
}

#[test]
fn killing_fails_running_jobs() {
    let nodes = vec![Node::Task(get_task(0)), Node::Task(get_task(1))];
    let mut ctx = Ctx::new(&nodes).unwrap();
    ctx.statuses[0] = Status::Running(JobType::Local(77));
    ctx.statuses[1] = Status::Pending(JobType::Slurm("9".into()));
    ctx.local_jobs.push((0, 77));
    ctx.slurm_jobs.push((1, "9".into()));
    let (ids, pids) = kill_jobs(&mut ctx);
    assert_eq!(ids, vec!["9".to_string()]);
    assert_eq!(pids, vec![77]);
    assert_eq!(ctx.statuses[0], Status::Failed(Failed::Job(JobType::Local(77))));
    assert_eq!(ctx.statuses[1], Status::Failed(Failed::Job(JobType::Slurm("9".into()))));
}

#[test]
fn lock_files() {
    let exists = |p: String| -> bool { p == "/h/pipelines/pipe/abc" || p.ends_with("kill.lock") };
    let runs = |_p: String| -> Result<Vec<(String, u64)>, String> { Ok(vec![("/h/pipelines/pipe/old".into(), 1)]) };
    let create = |p: String| -> Result<(), String> {
        assert!(p.starts_with("/h/pipelines/pipe/"));
        Ok(())
    };
    assert_eq!(create_kill_lock("pipe", "abc", "/h", &exists, &runs, &create), Some(Ok(())));
    assert_eq!(create_kill_lock("pipe", "zzz", "/h", &exists, &runs, &create), None);
    assert_eq!(create_skip_lock("pipe", "last", "/h", &exists, &runs, &create), Some(Ok(())));
    assert_eq!(create_continue_lock("pipe", "abc", "/h", &exists, &runs, &create), Some(Ok(())));
    assert!(is_scheduler_killed("/h/pipelines/pipe/abc", &exists));
    let none = |_p: String| -> bool { false };
    assert!(!is_scheduler_killed("/h/pipelines/pipe/abc", &none));
}

#[test]
fn pipeline_folders() {
    let exists = |p: String| -> bool { p == "/h/pipelines/pipe/abc" };
    let runs = |_p: String| -> Result<Vec<(String, u64)>, String> {
        Ok(vec![("/h/pipelines/pipe/a".into(), 7), ("/h/pipelines/pipe/b".into(), 7)])
    };
    assert_eq!(find_pipeline_folder("/h", "pipe", "abc", &exists, &runs), Some("/h/pipelines/pipe/abc".to_string()));
    assert_eq!(find_pipeline_folder("/h", "pipe", "last", &exists, &runs), Some("/h/pipelines/pipe/b".to_string()));
    assert_eq!(find_pipeline_folder("/h", "pipe", "zzz", &exists, &runs), None);
    let newest_first = |_p: String| -> Result<Vec<(String, u64)>, String> {
        Ok(vec![("/h/pipelines/pipe/new".into(), 9), ("/h/pipelines/pipe/old".into(), 2)])
    };
    assert_eq!(
        find_pipeline_folder("/h", "pipe", "last", &exists, &newest_first),
        Some("/h/pipelines/pipe/new".to_string())
    );
    let empty = |_p: String| -> Result<Vec<(String, u64)>, String> { Ok(vec![]) };
    assert_eq!(find_pipeline_folder("/h", "pipe", "last", &exists, &empty), None);
    let unreadable = |_p: String| -> Result<Vec<(String, u64)>, String> { Err("denied".into()) };
    assert_eq!(find_pipeline_folder("/h", "pipe", "last", &exists, &unreadable), None);
}

#[test]
fn last_run_prefers_later_listing_on_ties() {
    let folders: Vec<(String, u64)> = vec![("x".into(), 4), ("y".into(), 6), ("z".into(), 6), ("w".into(), 1)];
    assert_eq!(last_run(folders), Some("z".to_string()));
    assert_eq!(last_run(vec![]), None);
}

#[test]
fn debugger_breakpoints() {
    let mut t0 = get_task(0);
    t0.debug = true;
    let t1 = get_task(1);
    let mut t2 = get_task(2);
    t2.debug = true;
    let nodes = vec![Node::Task(t0), Node::Task(t1), Node::Task(t2)];
    let mut debugger = Debugger::new(&nodes, "pipe", "abc");
    assert_eq!(debugger.monitored, vec![0, 2]);
    let mut ctx = Ctx::new(&nodes).unwrap();
    assert!(!debugger.any_monitored_task_failed(&ctx.statuses));
    ctx.statuses[2] = Status::Failed(Failed::Generic);
    ctx.try_nums[2] = 3;
    assert!(debugger.any_monitored_task_failed(&ctx.statuses));
    debugger.resume(&mut ctx, Resume::Continue);
    assert_eq!(ctx.statuses[2], Status::ReadyForSubmission);
    assert_eq!(ctx.try_nums[2], 0);
    assert_eq!(ctx.updated.pop_front(), Some(2));
    ctx.statuses[2] = Status::Failed(Failed::Generic);
    debugger.resume(&mut ctx, Resume::Skip);
    assert_eq!(debugger.monitored, vec![0]);
}

#[test]
fn settings_find_home() {
    let home_dir = find_homedir(Some("./a/path"), None).unwrap();
    assert_eq!(home_dir, "./a/path/.sdag");
    assert_eq!(find_homedir(None, Some("/home/u")).unwrap(), "/home/u/.sdag");
    assert!(find_homedir(None, None).is_err());
}

#[test]
fn static_and_parent_input() {
    let mut task = get_task(3);
    task.parents = vec![
        Parent { uid: 0, kind: ParentKind::Logical },
        Parent {
            uid: 1,
            kind: ParentKind::Artifact {
                key: "artifact".into(),
                name: "artifact_name".into(),
                path: "path/to/artifact".into(),
            },
        },
        Parent { uid: 2, kind: ParentKind::Output { key: "output".into() } },
    ];
    task.kwargs = vec![Kwarg { key: "key".into(), value: JsonValue::Null }];
    let static_input = get_static_input(&task.kwargs, &task.parents);
    assert_eq!(static_input.len(), 2);
    let read = |p: String| -> Result<JsonValue, String> {
        assert_eq!(p, "/d/2");
        Ok(JsonValue::Bool(false))
    };
    let input = read_input_from_parents(&task, "/d", &read).unwrap();
    assert_eq!(
        input,
        vec![
            ("key".to_string(), JsonValue::Null),
            ("artifact".to_string(), JsonValue::Text("path/to/artifact".into())),
            ("output".to_string(), JsonValue::Bool(false)),
        ]
    );
    let broken = |_p: String| -> Result<JsonValue, String> { Err("missing".into()) };
    assert_eq!(read_input_from_parents(&task, "/d", &broken).unwrap_err(), "missing");
}

#[test]
fn run_setup_sorts_and_links() {
    let root = Root { uid: 0, pipeline_name: "p".into(), parents: vec![], children: vec![] };
    let mut task = get_task(1);
    task.parents = vec![Parent { uid: 0, kind: ParentKind::Logical }];
    let end = End {
        uid: 2,
        pipeline_name: "p".into(),
        parents: vec![Parent { uid: 1, kind: ParentKind::Logical }],
        children: vec![],
        artifacts: vec![],
    };
    let nodes = vec![Node::End(end), Node::Task(task), Node::Root(root)];
    let sorted = sort_nodes_by_uid(nodes.clone());
    assert_eq!(sorted.iter().map(|n| n.get_uid()).collect::<Vec<_>>(), vec![0, 1, 2]);
    let meta = get_meta();
    let (nodes, cfg, ctx) = run(nodes, &meta, "/h", "info", 2, 5, 3, 4, true).unwrap();
    assert_eq!(nodes.len(), 3);
    let Node::Root(r) = &nodes[0] else { panic!() };
    assert_eq!(r.children, vec![1]);
    assert_eq!(cfg.dagdir, "/h/pipelines/pipe/xxx");
    assert_eq!(cfg.max_concurrency, 2);
    assert!(cfg.fail_fast);
    assert_eq!(ctx.statuses.len(), 3);
}

#[test]
fn restart_with_retry() {
    let nodes = vec![Node::Task(get_task(0)), Node::Task(get_task(1))];
    let meta = get_meta();
    let cfg = Cfg::new("/h", &meta, "info", 1, 5, 1, 1, false);
    let statuses = vec![Status::Failed(Failed::Generic), Status::Completed(Completed::Cached)];
    let (ctx, cfg2) = restart_run(&nodes, statuses.clone(), vec![2, 1], cfg.clone(), true, 7, 9, "debug", true);
    assert_eq!(ctx.statuses[0], Status::NotSubmitted);
    assert_eq!(ctx.try_nums, vec![0, 1]);
    assert_eq!(cfg2.max_concurrency, 7);
    assert_eq!(cfg2.sleep_time, 9);
    assert_eq!(cfg2.log_level, "debug");
    assert_eq!(cfg2.dagdir, cfg.dagdir);
    let (ctx, _) = restart_run(&nodes, statuses, vec![2, 1], cfg, false, 7, 9, "debug", true);
    assert_eq!(ctx.statuses[0], Status::Failed(Failed::Generic));
}

#[test]
fn cache_pruning_targets() {
    let dirs = |p: String| -> bool { p == "/h/.cache/global/t" || p == "/h/.cache" };
    assert_eq!(prune_cache("t", None, false, "/h", &dirs), Some("/h/.cache/global/t".to_string()));
    assert_eq!(prune_cache("t", Some("p"), false, "/h", &dirs), None);
    assert_eq!(clear_global_cache("all", true, "/h", &dirs), Some("/h/.cache".to_string()));
    assert_eq!(clear_global_cache("all", false, "/h", &dirs), None);
    let local = |p: String| -> bool { p == "/h/.cache/local/p/t" };
    assert_eq!(prune_cache("t", Some("p"), false, "/h", &local), Some("/h/.cache/local/p/t".to_string()));
}

#[test]
fn loop_decisions() {
    let done = vec![Status::Completed(Completed::Generic), Status::Failed(Failed::Generic)];
    assert_eq!(loop_decision(&done, true), LoopDecision::Completed);
    let failing = vec![Status::Failed(Failed::Generic), Status::NotSubmitted];
    assert_eq!(loop_decision(&failing, true), LoopDecision::FailFast);
    assert_eq!(loop_decision(&failing, false), LoopDecision::Continue);
}

#[test]
fn banner_line() {
    let line = log_banner("1.2.3");
    assert!(line.starts_with("\n\x1b[32m\n  _____"));
    assert!(line.ends_with("\x1b[0m v1.2.3\n"));
}

#[test]
fn submitter_respects_concurrency() {
    let nodes = vec![Node::Task(get_task(0)), Node::Task(get_task(1))];
    let meta = get_meta();
    let cfg = Cfg::new("/h", &meta, "info", 1, 5, 1, 1, false);
    let mut ctx = Ctx::new(&nodes).unwrap();
    let mut t0 = get_task(0);
    t0.cache = false;
    let nodes = vec![Node::Task(t0.clone()), Node::Task({ let mut t = t0.clone(); t.uid = 1; t })];
    ctx.jobs.push_back(Job::Task(0));
    ctx.jobs.push_back(Job::Task(1));
    let mut submitter = Submitter::new(&cfg, &meta);
    let slurm = |uid: usize, _try: usize| -> Result<String, String> { Ok(format!("{}", 100 + uid)) };
    let local = |_uid: usize, _try: usize| -> Result<u32, String> { Ok(1) };
    let read = |_p: String| -> Result<JsonValue, String> { Ok(JsonValue::Bool(true)) };
    let copy = |_s: String, _d: String| -> Result<u64, String> { Ok(0) };
    let save = |_s: String, _d: String, _n: usize| -> Result<u64, String> { Ok(0) };
    let validate = |_u: usize, _p: String| -> bool { false };
    let output = |_p: String, _o: sdag::schemas::TaskOutput| -> Result<(), String> { Ok(()) };
    submitter.submit(&nodes, &mut ctx, &slurm, &local, &read, &copy, &save, &validate, &output);
    assert_eq!(ctx.slurm_jobs.len(), 1);
    assert_eq!(ctx.slurm_jobs[0], (0, "100".to_string()));
    assert_eq!(submitter.held_jobs.len(), 1);
    assert_eq!(ctx.statuses[0], Status::Pending(JobType::Slurm("100".into())));
}
