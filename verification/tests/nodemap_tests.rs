use sdag::sscheduler::input_data::InputDataHandler;
use sdag::schemas::JsonValue;
use sdag::sscheduler::backend::{
    assign_node_status, build_command, get_slurm_status_map, job_ids_valid, maybe_save_output_and_cache,
    override_sbatch, submit, submit_local,
};
use sdag::sscheduler::caching::{check_task_caching, read_input_data, read_input_and_cache_tasks};
use sdag::sscheduler::graph::{build_nodemap, find_child_edges, find_root_id, key_nodes};
use sdag::sscheduler::limiters::{find_running_cacheable_jobs, limit_cached_tasks_same_name};
use sdag::sscheduler::model::{
    Artifact, Cmd, DAGMetadata, ExecMode, InputKwarg, JobStatus, Node, NodeBehavior, NodeFailure,
    NodeResult, Parent, ParentType, Task, TaskOutput, DAG,
};
use sdag::sscheduler::scheduler::{find_home_dir, prepare_dag, task_dirs};
use sdag::sscheduler::state::LocalDirState;
use sdag::sscheduler::checkpoint::Checkpointer;
use sdag::sscheduler::status_management::StatusSelector;
use sdag::sscheduler::submission::{
    choices_are_fed, find_completed_parent_uid, tries_can_count, Submitter,
};
use sdag::sscheduler::summary::{get_final_recap, get_summary_rows, uid_before};
use sdag::sscheduler::updates::{is_nodemap_wf, recoursively_update_status, schedule_retries};
use sdag::sscheduler::updates::update_status as propagate_status;
use sdag::sscheduler::submission::update_status as apply_submitted;
use sdag::nonblocking::CommandPlan;

fn task(name: &str, caching: bool) -> Task {
    Task {
        fname: String::from("fname"),
        name: String::from(name),
        caching,
        mode: ExecMode::Wrap,
        cmd: Cmd::Sbatch,
        try_num: 0,
        retries: 0,
        launch_script: String::from("lauch.sh"),
        input_kwargs: Vec::new(),
    }
}

fn node(uid: &str, behavior: NodeBehavior, status: JobStatus) -> Node {
    Node {
        uid: uid.to_string(),
        output_artifacts: Vec::new(),
        behavior,
        status,
        parents: Vec::new(),
        children: Vec::new(),
    }
}

fn output_parent(uid: &str, key: &str) -> Parent {
    Parent { uid: uid.to_string(), parent_type: ParentType::Output { key: key.to_string() } }
}

fn ok_job(_u: String, _t: Task) -> Result<String, String> {
    Ok(String::from("1234"))
}

fn choice_true(_p: String) -> Result<bool, String> {
    Ok(true)
}

fn copy_ok(_a: String, _b: String) -> Result<u64, String> {
    Ok(1)
}

fn read_true(_p: String) -> Result<TaskOutput, String> {
    Ok(TaskOutput { output: JsonValue::Bool(true), artifacts: Vec::new() })
}

fn read_empty_input(_p: String) -> Result<Vec<(String, JsonValue)>, String> {
    Ok(Vec::new())
}

fn always(_p: String) -> bool {
    true
}

fn save_ok(_u: String, _v: Vec<(String, JsonValue)>) -> Result<(), String> {
    Ok(())
}

fn count_ready(nodes: &[Node]) -> usize {
    nodes.iter().filter(|n| matches!(n.status, JobStatus::ReadyForSubmission)).count()
}

// Two cacheable tasks with the same name, only one survives.
#[test]
fn test_limit_task_execution() {
    let mut nodes = vec![
        node("0", NodeBehavior::TaskNode(task("fname", true)), JobStatus::ReadyForSubmission),
        node("1", NodeBehavior::TaskNode(task("fname", true)), JobStatus::ReadyForSubmission),
    ];
    limit_cached_tasks_same_name(&mut nodes);
    assert_eq!(count_ready(&nodes), 1);
}

// One task with the same name is running, nothing is scheduled.
#[test]
fn test_limit_task_execution_because_running() {
    let mut nodes = vec![
        node("0", NodeBehavior::TaskNode(task("fname", true)), JobStatus::ReadyForSubmission),
        node("1", NodeBehavior::TaskNode(task("fname", true)), JobStatus::Running("123".to_string())),
    ];
    limit_cached_tasks_same_name(&mut nodes);
    assert_eq!(count_ready(&nodes), 0);
}

// Only cacheable running task names are detected.
#[test]
fn test_running_cacheable_jobs() {
    let mut not_running = task("fname", true);
    not_running.fname = String::from("not-running");
    let nodes = vec![
        node("0", NodeBehavior::TaskNode(task("fname", true)), JobStatus::Running("1".to_string())),
        node("1", NodeBehavior::TaskNode(not_running), JobStatus::ReadyForSubmission),
    ];
    let names = find_running_cacheable_jobs(&nodes);
    assert_eq!(names, vec!["fname".to_string()]);
}

#[test]
fn limit_leaves_one_ready_task_per_name() {
    let ready = || JobStatus::ReadyForSubmission;
    let mut nodes = vec![
        node("0", NodeBehavior::TaskNode(task("a", true)), ready()),
        node("1", NodeBehavior::TaskNode(task("b", true)), ready()),
        node("2", NodeBehavior::TaskNode(task("a", true)), ready()),
        node("3", NodeBehavior::TaskNode(task("c", true)), JobStatus::Running("7".to_string())),
        node("4", NodeBehavior::TaskNode(task("c", true)), ready()),
        node("5", NodeBehavior::TaskNode(task("a", true)), ready()),
        node("6", NodeBehavior::TaskNode(task("b", true)), ready()),
    ];
    limit_cached_tasks_same_name(&mut nodes);
    let statuses: Vec<JobStatus> = nodes.iter().map(|n| n.status.clone()).collect();
    assert_eq!(
        statuses,
        vec![
            ready(),
            ready(),
            JobStatus::NotSubmitted,
            JobStatus::Running("7".to_string()),
            JobStatus::NotSubmitted,
            JobStatus::NotSubmitted,
            JobStatus::NotSubmitted,
        ]
    );
}

#[test]
fn limit_keeps_tasks_without_caching() {
    let mut nodes = vec![
        node("0", NodeBehavior::TaskNode(task("fname", false)), JobStatus::ReadyForSubmission),
        node("1", NodeBehavior::TaskNode(task("fname", false)), JobStatus::ReadyForSubmission),
    ];
    limit_cached_tasks_same_name(&mut nodes);
    assert_eq!(count_ready(&nodes), 2);
}

fn test_nodemap() -> Vec<Node> {
    let mut c = node("c", NodeBehavior::RootNode, JobStatus::NotSubmitted);
    c.parents = vec![output_parent("p2", "p2")];
    vec![
        node("p1", NodeBehavior::RootNode, JobStatus::NotSubmitted),
        node("p2", NodeBehavior::RootNode, JobStatus::NotSubmitted),
        c,
    ]
}

// The parent statuses of a node are read from the node map.
#[test]
fn get_parent_statuses() {
    let nodes = test_nodemap();
    let selector = StatusSelector::new(&nodes[2], &nodes, &[]);
    assert_eq!(selector.parent_statuses, vec![JobStatus::NotSubmitted]);
}

fn parent_child() -> Vec<Node> {
    let mut p = node("p", NodeBehavior::RootNode, JobStatus::Completed(NodeResult::Node));
    p.children = vec![String::from("c")];
    let mut c = node("c", NodeBehavior::RootNode, JobStatus::NotSubmitted);
    c.parents = vec![output_parent("p", "p")];
    vec![p, c]
}

// The status update goes down to the children.
#[test]
fn check_recoursive_update() {
    let nodes = parent_child();
    let mut updated: Vec<(String, JobStatus)> = Vec::new();
    recoursively_update_status("p", &nodes, &mut updated, nodes.len());
    let child = updated.iter().rev().find(|(k, _)| k == "c").unwrap();
    assert!(matches!(child.1, JobStatus::ReadyForSubmission));
}

// End-to-end status update.
#[test]
fn status_management_e2e() {
    let mut nodes = parent_child();
    assert!(is_nodemap_wf(&nodes));
    propagate_status("p", &mut nodes);
    assert!(matches!(nodes[1].status, JobStatus::ReadyForSubmission));
}

#[test]
fn failed_task_with_tries_left_is_retried() {
    let mut t = task("t", false);
    t.try_num = 1;
    t.retries = 1;
    let mut t2 = task("u", false);
    t2.try_num = 2;
    t2.retries = 1;
    let mut nodes = vec![
        node("a", NodeBehavior::TaskNode(t), JobStatus::Failed(NodeFailure::Node)),
        node("b", NodeBehavior::TaskNode(t2), JobStatus::Failed(NodeFailure::Node)),
    ];
    schedule_retries(&mut nodes);
    assert!(matches!(nodes[0].status, JobStatus::ReadyForSubmission));
    assert!(matches!(nodes[1].status, JobStatus::Failed(_)));
}

#[test]
fn failed_parent_fails_child_and_skips_nothing_else() {
    let mut nodes = parent_child();
    nodes[0].status = JobStatus::Failed(NodeFailure::Node);
    propagate_status("p", &mut nodes);
    assert!(matches!(nodes[1].status, JobStatus::Failed(NodeFailure::Node)));
    assert!(matches!(nodes[0].status, JobStatus::Failed(NodeFailure::Node)));
}

#[test]
fn duplicate_uids_are_no_node_map() {
    let nodes = vec![
        node("a", NodeBehavior::RootNode, JobStatus::NotSubmitted),
        node("a", NodeBehavior::EndNode, JobStatus::NotSubmitted),
    ];
    assert!(!is_nodemap_wf(&nodes));
    let mut orphan = node("b", NodeBehavior::EndNode, JobStatus::NotSubmitted);
    orphan.parents = vec![output_parent("x", "k")];
    assert!(!is_nodemap_wf(&[orphan]));
}

#[test]
fn nodemap_links_children_and_marks_root() {
    let mut c = node("c", NodeBehavior::EndNode, JobStatus::NotSubmitted);
    c.parents = vec![output_parent("r", "k")];
    let r = node("r", NodeBehavior::RootNode, JobStatus::NotSubmitted);
    let dag = DAG {
        meta: DAGMetadata { name: String::from("dag"), creation_dt: String::from("now") },
        nodes: vec![c, r],
    };
    let (root, nodes) = build_nodemap(dag).unwrap();
    assert_eq!(root, "r");
    assert_eq!(nodes[1].children, vec!["c".to_string()]);
    assert!(matches!(nodes[1].status, JobStatus::Completed(NodeResult::Node)));
    assert!(nodes[0].children.is_empty());
    assert_eq!(find_root_id(&nodes), Some(1));
    assert_eq!(find_child_edges(&nodes, "r"), vec!["c".to_string()]);
}

#[test]
fn nodemap_keeps_last_node_of_a_uid() {
    let nodes = key_nodes(vec![
        node("a", NodeBehavior::RootNode, JobStatus::NotSubmitted),
        node("b", NodeBehavior::EndNode, JobStatus::NotSubmitted),
        node("a", NodeBehavior::EndNode, JobStatus::Skipped),
    ]);
    assert_eq!(nodes.len(), 2);
    assert_eq!(nodes[0].uid, "a");
    assert!(matches!(nodes[0].status, JobStatus::Skipped));
}

#[test]
fn nodemap_without_root() {
    let mut a = node("a", NodeBehavior::EndNode, JobStatus::NotSubmitted);
    a.parents = vec![output_parent("a", "k")];
    let dag = DAG {
        meta: DAGMetadata { name: String::from("dag"), creation_dt: String::from("now") },
        nodes: vec![a],
    };
    assert!(build_nodemap(dag).is_none());
}

// Find the completed parent uid for the OneOf node submission.
#[test]
fn find_parent_uid_for_oneof() {
    let mut c = node("c", NodeBehavior::OneOfNode, JobStatus::ReadyForSubmission);
    c.parents = vec![output_parent("a", "a"), output_parent("b", "b"), output_parent("x", "x")];
    let nodes = vec![
        node("a", NodeBehavior::RootNode, JobStatus::NotSubmitted),
        node("b", NodeBehavior::RootNode, JobStatus::Completed(NodeResult::Node)),
        node("x", NodeBehavior::RootNode, JobStatus::Failed(NodeFailure::Node)),
        c,
    ];
    let k = find_completed_parent_uid(&nodes[3], &nodes).unwrap();
    assert_eq!(nodes[3].parents[k].uid, String::from("b"));
}

fn submit_one(nodes: &[Node], i: usize) -> (JobStatus, Submitter) {
    let mut submitter = Submitter::new(0);
    let s = submitter.submit_node(i, nodes, &ok_job, &choice_true, &copy_ok);
    (s, submitter)
}

// A root node is just marked as completed.
#[test]
fn submit_root() {
    let mut c = node("c", NodeBehavior::RootNode, JobStatus::ReadyForSubmission);
    c.parents = vec![output_parent("p", "p")];
    let (s, _) = submit_one(&[c], 0);
    assert!(matches!(s, JobStatus::Completed(NodeResult::Node)))
}

// An end node is just marked as completed.
#[test]
fn submit_end() {
    let mut c = node("c", NodeBehavior::EndNode, JobStatus::ReadyForSubmission);
    c.parents = vec![output_parent("p", "p")];
    let (s, _) = submit_one(&[c], 0);
    assert!(matches!(s, JobStatus::Completed(NodeResult::Node)))
}

// The result of a branch holds the side it takes.
#[test]
fn submit_if() {
    let mut c = node("c", NodeBehavior::IfNode, JobStatus::ReadyForSubmission);
    c.parents = vec![output_parent("p", "p")];
    let mut p = node("p", NodeBehavior::RootNode, JobStatus::Completed(NodeResult::Node));
    p.children = vec!["c".to_string()];
    let (s, _) = submit_one(&[c, p], 0);
    assert!(matches!(s, JobStatus::Completed(NodeResult::If(true))));
}

// A task is submitted through the backend.
#[test]
fn submit_task() {
    let mut c = node("c", NodeBehavior::TaskNode(task("t", false)), JobStatus::ReadyForSubmission);
    c.parents = vec![output_parent("p", "p")];
    let mut p = node("p", NodeBehavior::RootNode, JobStatus::ReadyForSubmission);
    p.children = vec!["c".to_string()];
    let (s, submitter) = submit_one(&[c, p], 0);
    assert!(matches!(s, JobStatus::Running(_)));
    assert_eq!(submitter.nrunning, 1);
}

// A one-of node completes with its completed parent.
#[test]
fn submit_oneof() {
    let mut c = node("c", NodeBehavior::OneOfNode, JobStatus::ReadyForSubmission);
    c.parents = vec![output_parent("p1", "p2"), output_parent("p2", "p2")];
    let p1 = node("p1", NodeBehavior::RootNode, JobStatus::Failed(NodeFailure::Node));
    let p2 = node("p2", NodeBehavior::RootNode, JobStatus::Completed(NodeResult::Node));
    let (s, _) = submit_one(&[c, p1, p2], 0);
    assert!(matches!(s, JobStatus::Completed(_)));
    match s {
        JobStatus::Completed(NodeResult::OneOf(u)) => assert_eq!(u, "p2"),
        _ => panic!("expected a one-of result"),
    }
}

// The statuses of the submitted nodes.
#[test]
fn find_updated_statuses() {
    let nodes = vec![node("c", NodeBehavior::RootNode, JobStatus::ReadyForSubmission)];
    let mut submitter = Submitter::new(0);
    let updated = submitter.find_updated_statuses(&nodes, &ok_job, &choice_true, &copy_ok);
    assert_eq!(updated, vec![("c".to_string(), JobStatus::Completed(NodeResult::Node))]);
}

// The status of a node after submission.
#[test]
fn update_status() {
    let mut nodes = vec![node("c", NodeBehavior::RootNode, JobStatus::ReadyForSubmission)];
    apply_submitted(&mut nodes, &[("c".to_string(), JobStatus::Failed(NodeFailure::Node))]);
    assert!(matches!(nodes[0].status, JobStatus::Failed(NodeFailure::Node)))
}

// The status of a task after submission counts the try.
#[test]
fn update_task_status() {
    let mut nodes =
        vec![node("c", NodeBehavior::TaskNode(task("t", false)), JobStatus::ReadyForSubmission)];
    apply_submitted(&mut nodes, &[("c".to_string(), JobStatus::Failed(NodeFailure::Node))]);
    assert!(matches!(nodes[0].status, JobStatus::Failed(NodeFailure::Node)));
    assert!(matches!(nodes[0].behavior, NodeBehavior::TaskNode(ref t) if t.try_num == 1));
}

// A task not submitted keeps its try count.
#[test]
fn update_nonsubmitted_task_status() {
    let mut nodes =
        vec![node("c", NodeBehavior::TaskNode(task("t", false)), JobStatus::ReadyForSubmission)];
    apply_submitted(&mut nodes, &[("c".to_string(), JobStatus::NotSubmitted)]);
    assert!(matches!(nodes[0].status, JobStatus::NotSubmitted));
    assert!(matches!(nodes[0].behavior, NodeBehavior::TaskNode(ref t) if t.try_num == 0));
}

fn full_round(submitter: &mut Submitter, nodes: &mut Vec<Node>) {
    assert!(is_nodemap_wf(nodes));
    assert!(choices_are_fed(nodes));
    assert!(tries_can_count(nodes));
    submitter.submit(
        nodes,
        &read_true,
        &copy_ok,
        &read_empty_input,
        &always,
        &save_ok,
        &ok_job,
        &choice_true,
        &copy_ok,
    );
}

// A whole submission round.
#[test]
fn submission_e2e() {
    let mut nodes = vec![node("c", NodeBehavior::RootNode, JobStatus::ReadyForSubmission)];
    let mut submitter = Submitter::new(0);
    full_round(&mut submitter, &mut nodes);
    assert!(matches!(nodes[0].status, JobStatus::Completed(NodeResult::Node)))
}

// The number of running tasks is counted.
#[test]
fn check_number_of_running_tasks() {
    let nodes = vec![
        node("1", NodeBehavior::TaskNode(task("t", false)), JobStatus::Running(String::from("1234"))),
        node("2", NodeBehavior::TaskNode(task("t", false)), JobStatus::ReadyForSubmission),
    ];
    let mut submitter = Submitter::new(2);
    submitter.set_number_of_running_jobs(&nodes);
    assert_eq!(submitter.nrunning, 1);
}

// No task is submitted once the limit is reached.
#[test]
fn max_concurrency_reached() {
    let mut c = node("c", NodeBehavior::TaskNode(task("t", false)), JobStatus::ReadyForSubmission);
    c.parents = vec![output_parent("p", "p")];
    let mut p = node("p", NodeBehavior::RootNode, JobStatus::ReadyForSubmission);
    p.children = vec!["c".to_string()];
    let nodes = vec![c, p];
    let mut submitter = Submitter { max_concurrency: 1, nrunning: 1 };
    let s = submitter.submit_node(0, &nodes, &ok_job, &choice_true, &copy_ok);
    assert!(matches!(s, JobStatus::NotSubmitted));
    assert_eq!(submitter.nrunning, 1);
}

#[test]
fn round_respects_the_task_limit() {
    let mut nodes = vec![
        node("1", NodeBehavior::TaskNode(task("a", false)), JobStatus::ReadyForSubmission),
        node("2", NodeBehavior::TaskNode(task("b", false)), JobStatus::ReadyForSubmission),
        node("3", NodeBehavior::TaskNode(task("c", false)), JobStatus::ReadyForSubmission),
    ];
    let mut submitter = Submitter::new(2);
    full_round(&mut submitter, &mut nodes);
    let running = nodes.iter().filter(|n| matches!(n.status, JobStatus::Running(_))).count();
    assert_eq!(running, 2);
    assert!(matches!(nodes[2].status, JobStatus::NotSubmitted));
    assert!(matches!(nodes[0].behavior, NodeBehavior::TaskNode(ref t) if t.try_num == 1));
    assert!(matches!(nodes[2].behavior, NodeBehavior::TaskNode(ref t) if t.try_num == 0));
}

#[test]
fn cached_task_completes() {
    let mut t = task("t", true);
    t.input_kwargs = vec![InputKwarg { key: String::from("x"), value: JsonValue::Json(String::from("1")) }];
    let n = node("c", NodeBehavior::TaskNode(t.clone()), JobStatus::ReadyForSubmission);
    let same = |_p: String| -> Result<Vec<(String, JsonValue)>, String> {
        Ok(vec![(String::from("x"), JsonValue::Json(String::from("1")))])
    };
    let r = check_task_caching(&n, true, &t.fname, &t.input_kwargs, &read_true, &copy_ok, &same, &always, &save_ok);
    assert_eq!(r, Ok(true));
    let other = |_p: String| -> Result<Vec<(String, JsonValue)>, String> {
        Ok(vec![(String::from("x"), JsonValue::Json(String::from("2")))])
    };
    let r = check_task_caching(&n, true, &t.fname, &t.input_kwargs, &read_true, &copy_ok, &other, &always, &save_ok);
    assert_eq!(r, Ok(false));
    let r = check_task_caching(&n, false, &t.fname, &t.input_kwargs, &read_true, &copy_ok, &same, &always, &save_ok);
    assert_eq!(r, Ok(false));
    let mut nodes = vec![n];
    read_input_and_cache_tasks(&mut nodes, &read_true, &copy_ok, &same, &always, &save_ok);
    assert!(matches!(nodes[0].status, JobStatus::Completed(NodeResult::Node)));
}

#[test]
fn cached_task_with_missing_artifact_runs() {
    let t = task("t", true);
    let mut n = node("c", NodeBehavior::TaskNode(t.clone()), JobStatus::ReadyForSubmission);
    n.output_artifacts = vec![Artifact { name: String::from("a"), path: String::from("/missing") }];
    let never = |_p: String| -> bool { false };
    let r = check_task_caching(&n, true, &t.fname, &t.input_kwargs, &read_true, &copy_ok, &read_empty_input, &never, &save_ok);
    assert_eq!(r, Ok(false));
}

#[test]
fn input_of_a_task_takes_parent_output_and_artifacts() {
    let mut n = node("c", NodeBehavior::TaskNode(task("t", false)), JobStatus::ReadyForSubmission);
    n.parents = vec![
        output_parent("p", "value"),
        Parent {
            uid: String::from("q"),
            parent_type: ParentType::Artifact {
                key: String::from("file"),
                name: String::from("a"),
                path: String::from("/data/a"),
            },
        },
    ];
    let kwargs = vec![InputKwarg { key: String::from("k"), value: JsonValue::Null }];
    let input = read_input_data(&n, &kwargs, &read_true).unwrap();
    assert_eq!(
        input,
        vec![
            (String::from("k"), JsonValue::Null),
            (String::from("value"), JsonValue::Bool(true)),
            (String::from("file"), JsonValue::Text(String::from("/data/a"))),
        ]
    );
    let fail = |_p: String| -> Result<TaskOutput, String> { Err(String::from("no output")) };
    assert_eq!(read_input_data(&n, &kwargs, &fail), Err(String::from("no output")));
}

#[test]
fn command_of_an_external_task() {
    let mut t = task("name", false);
    t.mode = ExecMode::Ext;
    t.try_num = 3;
    let input = |_p: String| -> Result<Vec<(String, JsonValue)>, String> {
        Ok(vec![(String::from("key"), JsonValue::Bool(false))])
    };
    let plan = build_command(&String::from("7"), &t, &String::from("/home/p"), &input).unwrap();
    assert_eq!(plan.program, "sbatch");
    assert_eq!(
        plan.envs,
        vec![
            (String::from("SDAG_TRY_NUM"), String::from("3")),
            (String::from("SDAG_PIPELINE"), String::from("/home/p")),
            (String::from("SDAG_UID"), String::from("7")),
            (String::from("SDAG_TASK"), String::from("fname")),
            (String::from("SDAG_TASK_NAME"), String::from("name")),
            (String::from("KEY"), String::from("false")),
        ]
    );
    assert_eq!(
        override_sbatch("name", "pipe"),
        vec![
            String::from("--job-name=name"),
            String::from("--error=./logs/pipe/%x.%j.err"),
            String::from("--output=./logs/pipe/%x.%j.out"),
        ]
    );
}

#[test]
fn submission_reads_the_job_id() {
    let t = task("name", false);
    let run = |p: CommandPlan| -> Result<String, String> {
        assert_eq!(p.args.last().unwrap(), "lauch.sh");
        Ok(String::from("Submitted batch job 42\n"))
    };
    let r = submit(&String::from("1"), &t, &String::from("/d"), &String::from("pipe"), &read_empty_input, &run);
    assert_eq!(r, Ok(String::from("42")));
    let quiet = |_p: CommandPlan| -> Result<String, String> { Ok(String::new()) };
    let r = submit(&String::from("1"), &t, &String::from("/d"), &String::from("pipe"), &read_empty_input, &quiet);
    assert_eq!(r, Err(String::from("Job id not found")));
}

#[test]
fn completed_task_keeps_its_result() {
    let mut t = task("name", true);
    t.mode = ExecMode::Ext;
    let saved = |_u: String, _a: Vec<Artifact>| -> Result<(), String> { Ok(()) };
    let broken = |_u: String, _a: Vec<Artifact>| -> Result<(), String> { Err(String::from("disk")) };
    assert!(maybe_save_output_and_cache(&String::from("1"), &t, &Vec::new(), &saved, &copy_ok).is_ok());
    let mut n = node("1", NodeBehavior::TaskNode(t), JobStatus::Running(String::from("9")));
    assign_node_status(&mut n, JobStatus::Completed(NodeResult::Task(String::from("9"))), &broken, &copy_ok);
    assert_eq!(n.status, JobStatus::Failed(NodeFailure::Task(String::from("9"))));
    let local = |_p: CommandPlan| -> Result<(), String> { Ok(()) };
    let t2 = task("x", false);
    assert!(submit_local(&String::from("1"), &t2, &Vec::new(), &String::from("/d"), &read_empty_input, &local, &saved, &copy_ok).is_ok());
}

#[test]
fn slurm_map_of_running_tasks() {
    let nodes = vec![node("1", NodeBehavior::TaskNode(task("t", false)), JobStatus::Running(String::from("77")))];
    let ask = |_ids: Vec<String>| -> Result<String, String> { Ok(String::from("77 COMPLETED\n")) };
    let m = get_slurm_status_map(&nodes, &ask).unwrap();
    assert_eq!(m, vec![(String::from("1"), JobStatus::Completed(NodeResult::Task(String::from("77"))))]);
}

#[test]
fn slurm_map_with_invalid_job_id() {
    let nodes = vec![node("1", NodeBehavior::TaskNode(task("t", false)), JobStatus::Running(String::from("(")))];
    let answered = |_ids: Vec<String>| -> Result<String, String> { Ok(String::from("( RUNNING\n")) };
    assert_eq!(get_slurm_status_map(&nodes, &answered), None);
    let down = |_ids: Vec<String>| -> Result<String, String> { Err(String::from("down")) };
    assert_eq!(
        get_slurm_status_map(&nodes, &down),
        Some(vec![(String::from("1"), JobStatus::Failed(NodeFailure::Task(String::from("("))))])
    );
    assert!(!job_ids_valid(&[(String::from("1"), String::from("("))]));
    assert!(job_ids_valid(&[(String::from("1"), String::from("77"))]));
}

#[test]
fn recap_counts_tasks_by_status() {
    let nodes = vec![
        node("1", NodeBehavior::TaskNode(task("t", false)), JobStatus::Completed(NodeResult::Node)),
        node("2", NodeBehavior::TaskNode(task("t", false)), JobStatus::ReadyForSubmission),
        node("3", NodeBehavior::RootNode, JobStatus::Completed(NodeResult::Node)),
        node("4", NodeBehavior::TaskNode(task("t", false)), JobStatus::Failed(NodeFailure::Node)),
    ];
    let r = get_final_recap(&nodes);
    assert_eq!((r.completed, r.skipped, r.failed, r.running, r.not_submitted), (1, 0, 1, 0, 1));
}

#[test]
fn home_dir_of_the_scheduler() {
    assert_eq!(find_home_dir(Some("/a/path"), Some("/u")), Ok(String::from("/a/path/.sdag")));
    assert_eq!(find_home_dir(None, Some("/u")), Ok(String::from("/u/.sdag")));
    assert!(find_home_dir(None, None).is_err());
}

#[test]
fn fresh_run_prepares_the_working_directory() {
    let state = LocalDirState::new("/h", "dag");
    let nodes = vec![
        node("0", NodeBehavior::TaskNode(task("t", false)), JobStatus::NotSubmitted),
        node("1", NodeBehavior::RootNode, JobStatus::NotSubmitted),
    ];
    assert_eq!(task_dirs(&state, &nodes), vec![(String::from("/h/dag/0"), String::from("fname"))]);
    let dag = DAG {
        meta: DAGMetadata { name: String::from("dag"), creation_dt: String::from("now") },
        nodes,
    };
    let checkpointer = Checkpointer { meta: dag.meta.clone(), restart: false };
    let prepare = |_d: Vec<(String, String)>| -> Result<(), String> { Ok(()) };
    let read = |_p: String| -> Result<DAG, String> { Err(String::from("unused")) };
    let r = prepare_dag(dag, true, &String::from("p.json"), &checkpointer, &state, &prepare, &copy_ok, &read, &always, &always)
        .unwrap();
    assert!(matches!(r.nodes[0].behavior, NodeBehavior::TaskNode(ref t) if t.cmd == Cmd::Bash));
}

#[test]
fn handler_reads_artifacts_by_name() {
    let mut n = node("c", NodeBehavior::TaskNode(task("t", false)), JobStatus::ReadyForSubmission);
    n.parents = vec![
        Parent {
            uid: String::from("p"),
            parent_type: ParentType::Artifact {
                key: String::from("file"),
                name: String::from("b"),
                path: String::from("/unused"),
            },
        },
        output_parent("p", "value"),
    ];
    let nodes = vec![n];
    let read = |_p: String| -> Result<TaskOutput, String> {
        Ok(TaskOutput {
            output: JsonValue::Json(String::from("3")),
            artifacts: vec![
                Artifact { name: String::from("a"), path: String::from("/a") },
                Artifact { name: String::from("b"), path: String::from("/b") },
            ],
        })
    };
    let handler = InputDataHandler { uid: String::from("c") };
    let input = handler.read_input_data(&nodes, &[], &read).unwrap();
    assert_eq!(
        input,
        vec![
            (String::from("file"), JsonValue::Text(String::from("/b"))),
            (String::from("value"), JsonValue::Json(String::from("3"))),
        ]
    );
    let cached = |_p: String| -> Result<Vec<(String, JsonValue)>, String> { Ok(vec![(String::from("value"), JsonValue::Json(String::from("3"))), (String::from("file"), JsonValue::Text(String::from("/b")))]) };
    assert!(handler.is_cached(&input, &read, &cached, &always));
    let never = |_p: String| -> bool { false };
    assert!(!handler.is_cached(&input, &read, &cached, &never));
    assert_eq!(handler.save_input(input, &save_ok), Ok(()));
}

#[test]
fn summary_rows_list_tasks_by_uid() {
    let mut t = task("b", false);
    t.try_num = 2;
    let nodes = vec![
        node("10", NodeBehavior::TaskNode(task("a", false)), JobStatus::Running(String::from("77"))),
        node("r", NodeBehavior::RootNode, JobStatus::Completed(NodeResult::Node)),
        node("9", NodeBehavior::TaskNode(t), JobStatus::Skipped),
        node("02", NodeBehavior::TaskNode(task("c", false)), JobStatus::NotSubmitted),
    ];
    let rows = get_summary_rows(&nodes);
    let uids: Vec<&str> = rows.iter().map(|r| r.uid.as_str()).collect();
    assert_eq!(uids, vec!["9", "02", "10"]);
    assert_eq!(rows[0].task, "b");
    assert_eq!(rows[0].status, "Skipped");
    assert_eq!(rows[0].num_tries, 2);
    assert_eq!(rows[2].status, "Running (77)");
    assert_eq!(rows[1].status, "Not Submitted");
}

#[test]
fn uids_order_by_length_then_characters() {
    assert!(uid_before("9", "10"));
    assert!(!uid_before("10", "9"));
    assert!(uid_before("ab", "ac"));
    assert!(!uid_before("ac", "ab"));
    assert!(uid_before("ab", "ab"));
}
