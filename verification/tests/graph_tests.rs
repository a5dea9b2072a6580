use sdag::context::{Ctx, Job};
use sdag::dag_setup::{add_children, find_root_node, mark_all_tasks_as_debuggable, mark_all_tasks_as_local};
use sdag::nodes::{Branch, End, Node, OneOf, Root, Task};
use sdag::run_task::get_runtask_hash;
use sdag::schemas::{
    Cmd, DAGMeta, ExecMode, JsonValue, Parent, ParentKind, Scope, Script, ScriptPath, SlurmOverride,
};
use sdag::settings::Cfg;
use sdag::status::{Completed, Failed, JobType, Status};
use sdag::visitors::NodeVisitor;
use sdag::workdirs::filter_tasks;

fn get_meta() -> DAGMeta {
    DAGMeta {
        pipeline_name: "pipe".into(),
        hash: "xxx".into(),
        timestamp: "1920-01-01T09:20:20".into(),
        extra: "null".into(),
        import_path: String::new(),
        kwargs: "{}".into(),
    }
}

fn get_cfg() -> Cfg {
    let meta = get_meta();
    Cfg::new("/tmp/sdag-home", &meta, "info", 1, 5, 1, 1, false)
}

fn get_task(uid: usize) -> Task {
    Task {
        uid,
        parents: vec![],
        fn_name: "fn_name".into(),
        name: "name".into(),
        pipeline_name: "pipeline_name".into(),
        cache: false,
        scope: Scope::Local,
        cache_size: 1,
        cache_ignore: vec![],
        mode: ExecMode::Wrap,
        cmd: Cmd::Sbatch,
        retries: 0,
        script: Script::ScriptPath(ScriptPath {
            path: "path/to/script".into(),
        }),
        envs: vec![],
        slurm: SlurmOverride::new(),
        kwargs: vec![],
        tags: vec![],
        artifacts: vec![],
        children: vec![],
        debug: false,
    }
}

fn get_root(uid: usize) -> Root {
    Root {
        uid,
        pipeline_name: "pipeline".into(),
        parents: vec![],
        children: vec![],
    }
}

fn get_end(uid: usize) -> End {
    End {
        uid,
        pipeline_name: "pipeline".into(),
        parents: vec![],
        children: vec![],
        artifacts: vec![],
    }
}

fn get_branch(uid: usize, parent_uid: usize, true_branch: usize, false_branch: usize) -> Branch {
    Branch {
        uid,
        pipeline_name: "pipeline".into(),
        parents: vec![Parent {
            uid: parent_uid,
            kind: ParentKind::Output {
                key: "choice".into(),
            },
        }],
        children: vec![true_branch, false_branch],
        artifacts: vec![],
    }
}

fn get_parent(uid: usize) -> Parent {
    Parent {
        uid,
        kind: ParentKind::Logical,
    }
}

fn get_branch_parent(uid: usize, branch: bool) -> Parent {
    Parent {
        uid,
        kind: ParentKind::Branch { branch },
    }
}

fn get_oneof(uid: usize, parent1: usize, parent2: usize) -> OneOf {
    OneOf {
        uid,
        pipeline_name: "pipeline".into(),
        parents: vec![get_parent(parent1), get_parent(parent2)],
        children: vec![],
        artifacts: vec![],
    }
}

fn get_ctx(nodes: &[Node]) -> Ctx {
    Ctx::new(nodes).unwrap()
}

fn visit(nodes: &[Node], cfg: &Cfg, ctx: &mut Ctx, choice: bool) {
    let read_output = move |_p: String| -> Result<JsonValue, String> { Ok(JsonValue::Bool(choice)) };
    let copy_data = |_s: String, _d: String| -> Result<u64, String> { Ok(0) };
    let validate_cache = |_u: usize, _p: String| -> bool { false };
    let visitor = NodeVisitor { nodes, cfg };
    visitor.visit(ctx, &read_output, &copy_data, &validate_cache);
}

fn get_tasks() -> Vec<Task> {
    let mut task0 = get_task(0);
    task0.cache = true;
    task0.cmd = Cmd::Bash;
    let mut task1 = task0.clone();
    let mut task2 = task0.clone();
    task1.uid = 1;
    task2.uid = 2;
    task1.cmd = Cmd::Sbatch;
    task2.cmd = Cmd::Sbatch;
    vec![task0, task1, task2]
}

fn get_nodes(tasks: Vec<Task>) -> Vec<Node> {
    tasks.into_iter().map(|t| Node::Task(t)).collect()
}

#[test]
#[should_panic]
fn fail_min_uid_check() {
    let mut tasks = get_tasks();
    tasks[0].uid = 1;
    let nodes = get_nodes(tasks);
    Ctx::new(&nodes).unwrap();
}

#[test]
#[should_panic]
fn fail_max_uid_check() {
    let mut tasks = get_tasks();
    tasks[2].uid = 3;
    let nodes = get_nodes(tasks);
    Ctx::new(&nodes).unwrap();
}

#[test]
fn uid_check_messages() {
    let mut tasks = get_tasks();
    tasks[2].uid = 3;
    let nodes = get_nodes(tasks);
    let e = Ctx::new(&nodes).err().unwrap();
    assert!(e.contains("3"));
    assert_eq!(Ctx::new(&[]).err().unwrap(), "Failed to compute min uid");
}

#[test]
fn test_checkpoint_load() {
    let tasks = get_tasks();
    let nodes = get_nodes(tasks);

    let try_nums = vec![1, 1, 1];
    let statuses = vec![
        Status::Running(JobType::Local(123)),
        Status::Running(JobType::Slurm("123".into())),
        Status::Pending(JobType::Slurm("456".into())),
    ];

    let ctx = Ctx::from_checkpoint(&nodes, statuses, try_nums);
    assert!(matches!(ctx.statuses[0], Status::Failed(_)));
    assert_eq!(ctx.slurm_jobs.len(), 2);
}

fn get_setup_nodes() -> Vec<Node> {
    let root = get_root(0);
    let mut task = get_task(1);
    task.parents = vec![get_parent(0)];
    task.cache = true;
    let mut end = get_end(2);
    end.parents = vec![get_parent(1)];
    vec![Node::Root(root), Node::Task(task), Node::End(end)]
}

#[test]
fn dag_setup_test_mark_all_tasks_as_local() {
    let mut nodes = get_setup_nodes();
    mark_all_tasks_as_local(&mut nodes);
    let Node::Task(task) = &nodes[1] else {
        panic!();
    };
    assert!(matches!(task.cmd, Cmd::Bash))
}

#[test]
fn test_mark_all_tasks_as_debuggable() {
    let mut nodes = get_setup_nodes();
    mark_all_tasks_as_debuggable(&mut nodes);
    let Node::Task(task) = &nodes[1] else {
        panic!();
    };
    assert!(task.debug)
}

#[test]
fn test_add_children() {
    let mut nodes = get_setup_nodes();
    add_children(&mut nodes);

    let Node::Root(root) = &nodes[0] else {
        panic!();
    };
    assert_eq!(root.children, vec![1]);

    let Node::Task(task) = &nodes[1] else {
        panic!();
    };
    assert_eq!(task.children, vec![2]);

    let Node::End(end) = &nodes[2] else {
        panic!();
    };
    assert_eq!(end.children.len(), 0);
}

#[test]
fn test_find_root() {
    let mut nodes = get_setup_nodes();
    add_children(&mut nodes);
    let root_uid = find_root_node(&nodes).unwrap();
    assert_eq!(root_uid, 0)
}

#[test]
fn test_filter_task() {
    let nodes = vec![Node::Root(get_root(0)), Node::Task(get_task(1))];
    let tasks = filter_tasks(&nodes);
    assert_eq!(tasks.len(), 1);
    assert_eq!(tasks[0].uid, 1);
}

#[test]
fn test_runtask_hash() {
    let task_name = "name";
    let runtask_hash = get_runtask_hash(task_name);
    // name + - + <8-letter-hash>
    assert_eq!(runtask_hash.chars().count(), 13);
    assert!(runtask_hash.starts_with("name-"));
}

#[test]
fn runtask_hashes_differ() {
    assert_ne!(get_runtask_hash("a"), get_runtask_hash("a"));
}

#[test]
fn test_visit_root_completed() {
    let cfg = get_cfg();
    let root = get_root(0);
    let nodes = [Node::Root(root)];

    let mut ctx = get_ctx(&nodes);
    ctx.updated.push_back(0);
    visit(&nodes, &cfg, &mut ctx, true);

    assert!(matches!(
        ctx.statuses[0],
        Status::Completed(Completed::Generic)
    ))
}

#[test]
fn test_visit_root_skipped() {
    let cfg = get_cfg();
    let root1 = get_root(0);
    let mut root2 = get_root(1);
    root2.parents.push(get_parent(0));
    let nodes = [Node::Root(root1), Node::Root(root2)];

    let mut ctx = get_ctx(&nodes);
    ctx.updated.push_back(1);
    ctx.statuses[0] = Status::Failed(Failed::Generic);
    visit(&nodes, &cfg, &mut ctx, true);

    assert!(matches!(ctx.statuses[1], Status::Skipped))
}

#[test]
fn test_visit_end_completed() {
    let cfg = get_cfg();
    let end = get_end(0);
    let nodes = [Node::End(end)];

    let mut ctx = get_ctx(&nodes);
    ctx.updated.push_back(0);
    visit(&nodes, &cfg, &mut ctx, true);

    assert!(matches!(
        ctx.statuses[0],
        Status::Completed(Completed::Generic)
    ))
}

#[test]
fn test_visit_end_skipped() {
    let cfg = get_cfg();
    let root = get_root(0);
    let mut end = get_end(1);
    end.parents.push(get_parent(0));
    let nodes = [Node::Root(root), Node::End(end)];

    let mut ctx = get_ctx(&nodes);
    ctx.updated.push_back(1);
    ctx.statuses[0] = Status::Failed(Failed::Generic);
    visit(&nodes, &cfg, &mut ctx, true);

    assert!(matches!(ctx.statuses[1], Status::Skipped))
}

#[test]
fn test_visit_end_not_submitted() {
    let cfg = get_cfg();
    let root = get_root(0);
    let root2 = get_root(1);
    let mut end = get_end(2);
    end.parents.push(get_parent(0));
    end.parents.push(get_parent(1));
    let nodes = [Node::Root(root), Node::Root(root2), Node::End(end)];

    let mut ctx = get_ctx(&nodes);
    ctx.updated.push_back(2);
    ctx.statuses[0] = Status::Failed(Failed::Generic);
    ctx.statuses[1] = Status::Running(JobType::Slurm("123".into()));
    visit(&nodes, &cfg, &mut ctx, true);

    assert!(matches!(ctx.statuses[2], Status::NotSubmitted))
}

#[test]
fn test_visit_end_skipped_mixed() {
    let cfg = get_cfg();
    let root = get_root(0);
    let root2 = get_root(1);
    let mut end = get_end(2);
    end.parents.push(get_parent(0));
    end.parents.push(get_parent(1));
    let nodes = [Node::Root(root), Node::Root(root2), Node::End(end)];

    let mut ctx = get_ctx(&nodes);
    ctx.updated.push_back(2);
    ctx.statuses[0] = Status::Failed(Failed::Generic);
    ctx.statuses[1] = Status::Completed(Completed::Generic);
    visit(&nodes, &cfg, &mut ctx, true);

    assert!(matches!(ctx.statuses[2], Status::Skipped))
}

#[test]
fn test_visit_branch_completed() {
    let cfg = get_cfg();
    let root = get_root(0);
    let mut end1 = get_end(2);
    end1.parents.push(get_branch_parent(1, true));
    let mut end2 = get_end(3);
    end2.parents.push(get_branch_parent(1, false));
    let branch = get_branch(1, 0, 2, 3);
    let nodes = [
        Node::Root(root),
        Node::Branch(branch),
        Node::End(end1),
        Node::End(end2),
    ];

    let mut ctx = get_ctx(&nodes);
    ctx.updated.push_back(1);
    ctx.statuses[0] = Status::Completed(Completed::Generic);
    visit(&nodes, &cfg, &mut ctx, true);

    assert!(matches!(
        ctx.statuses[1],
        Status::Completed(Completed::Branch(true))
    ));
    assert!(matches!(ctx.statuses[2], Status::Completed(_)));
    assert!(matches!(ctx.statuses[3], Status::Skipped));
}

#[test]
fn test_visit_branch_skipped() {
    let cfg = get_cfg();
    let root = get_root(0);
    let mut end1 = get_end(2);
    let mut end2 = get_end(3);
    let branch = get_branch(1, 0, 2, 3);
    end1.parents.push(get_branch_parent(1, true));
    end2.parents.push(get_branch_parent(1, false));
    let nodes = [
        Node::Root(root),
        Node::Branch(branch),
        Node::End(end1),
        Node::End(end2),
    ];

    let mut ctx = get_ctx(&nodes);
    ctx.updated.push_back(1);
    ctx.statuses[0] = Status::Failed(Failed::Generic);
    visit(&nodes, &cfg, &mut ctx, true);

    assert!(matches!(ctx.statuses[1], Status::Skipped));
    assert!(matches!(ctx.statuses[2], Status::Skipped));
    assert!(matches!(ctx.statuses[3], Status::Skipped));
}

#[test]
fn test_visit_branch_already_completed() {
    let cfg = get_cfg();
    let root = get_root(0);
    let mut end2 = get_end(3);
    let mut end1 = get_end(2);
    let branch = get_branch(1, 0, 2, 3);
    end1.parents.push(get_branch_parent(1, true));
    end2.parents.push(get_branch_parent(1, false));
    let nodes = [
        Node::Root(root),
        Node::Branch(branch),
        Node::End(end1),
        Node::End(end2),
    ];

    let mut ctx = get_ctx(&nodes);
    ctx.updated.push_back(1);
    ctx.statuses[0] = Status::Completed(Completed::Generic);
    ctx.statuses[1] = Status::Completed(Completed::Branch(true));
    visit(&nodes, &cfg, &mut ctx, true);

    assert!(matches!(
        ctx.statuses[2],
        Status::Completed(Completed::Generic)
    ));
    assert!(matches!(ctx.statuses[3], Status::Skipped));
}

#[test]
fn test_visit_oneof_completed() {
    let cfg = get_cfg();
    let root1 = get_root(0);
    let root2 = get_root(1);
    let mut oneof = get_oneof(2, 0, 1);
    oneof.parents.push(get_parent(0));
    oneof.parents.push(get_parent(1));
    let nodes = [Node::Root(root1), Node::Root(root2), Node::OneOf(oneof)];

    let mut ctx = get_ctx(&nodes);
    ctx.updated.push_back(2);
    ctx.statuses[0] = Status::Completed(Completed::Generic);
    ctx.statuses[1] = Status::Failed(Failed::Generic);
    visit(&nodes, &cfg, &mut ctx, true);
    assert!(matches!(
        ctx.statuses[2],
        Status::Completed(Completed::OneOf(0))
    ));
}

#[test]
fn test_oneof_skipped() {
    let cfg = get_cfg();
    let root1 = get_root(0);
    let root2 = get_root(1);
    let mut oneof = get_oneof(2, 0, 1);
    oneof.parents.push(get_parent(0));
    oneof.parents.push(get_parent(1));
    let nodes = [Node::Root(root1), Node::Root(root2), Node::OneOf(oneof)];

    let mut ctx = get_ctx(&nodes);
    ctx.updated.push_back(2);
    ctx.statuses[0] = Status::Skipped;
    ctx.statuses[1] = Status::Failed(Failed::Generic);
    visit(&nodes, &cfg, &mut ctx, true);
    assert!(matches!(ctx.statuses[2], Status::Skipped));
}

#[test]
fn test_visit_task_skipped() {
    let cfg = get_cfg();
    let root1 = get_root(0);
    let root2 = get_root(1);
    let mut task = get_task(2);
    task.parents.push(get_parent(0));
    task.parents.push(get_parent(1));
    let nodes = [Node::Root(root1), Node::Root(root2), Node::Task(task)];

    let mut ctx = get_ctx(&nodes);
    ctx.updated.push_back(2);
    ctx.statuses[0] = Status::Completed(Completed::Generic);
    ctx.statuses[1] = Status::Failed(Failed::Generic);
    visit(&nodes, &cfg, &mut ctx, true);

    assert!(matches!(ctx.statuses[2], Status::Skipped));
    assert_eq!(ctx.jobs.len(), 0);
}

#[test]
fn test_visit_task_ready() {
    let cfg = get_cfg();
    let root1 = get_root(0);
    let root2 = get_root(1);
    let mut task = get_task(2);
    task.parents.push(get_parent(0));
    task.parents.push(get_parent(1));
    let nodes = [Node::Root(root1), Node::Root(root2), Node::Task(task)];

    let mut ctx = get_ctx(&nodes);
    ctx.updated.push_back(2);
    ctx.statuses[0] = Status::Completed(Completed::Generic);
    ctx.statuses[1] = Status::Completed(Completed::Cached);
    visit(&nodes, &cfg, &mut ctx, true);

    assert!(matches!(ctx.statuses[2], Status::ReadyForSubmission));
    let job = ctx.jobs.pop_front().unwrap();
    assert!(matches!(job, Job::Task(2)));
}

#[test]
fn test_visit_task_cache() {
    let cfg = get_cfg();
    let root1 = get_root(0);
    let root2 = get_root(1);
    let mut task = get_task(2);
    task.parents.push(get_parent(0));
    task.parents.push(get_parent(1));
    task.cache = true;
    let nodes = [Node::Root(root1), Node::Root(root2), Node::Task(task)];

    let mut ctx = get_ctx(&nodes);
    ctx.updated.push_back(2);
    ctx.statuses[0] = Status::Completed(Completed::Generic);
    ctx.statuses[1] = Status::Completed(Completed::Cached);
    visit(&nodes, &cfg, &mut ctx, true);

    let job = ctx.jobs.pop_front().unwrap();
    assert!(matches!(job, Job::ValidateCache(2, true)));
}
