use sdag::polling::parse_slurm_status;
use sdag::sscheduler::backend::{extract_status, get_running_tasks, get_status_map, kill_jobs};
use sdag::sscheduler::checkpoint::Checkpointer;
use sdag::sscheduler::model::{
    initial_try_num, Cmd, DAGMetadata, ExecMode, JobStatus, Node, NodeBehavior, NodeFailure,
    NodeResult, ParentType, Task, DAG,
};
use sdag::sscheduler::scheduler::{is_simulation_completed, mark_all_tasks_as_local, start_simulation};
use sdag::sscheduler::state::{validate_checkpoint, LocalDirState};
use sdag::sscheduler::status_management::StatusSelector;
use sdag::sscheduler::stop_simulation::{find_running_jobs, kill_running_jobs};
use sdag::nonblocking::find_submitted_job_id;

fn task() -> Task {
    Task {
        fname: "fn".to_string(),
        name: String::from("fname"),
        caching: false,
        mode: ExecMode::Ext,
        cmd: Cmd::Sbatch,
        try_num: 1,
        retries: 0,
        launch_script: "script.sh".to_string(),
        input_kwargs: Vec::new(),
    }
}

fn node(uid: &str, behavior: NodeBehavior, status: JobStatus) -> Node {
    Node {
        uid: uid.to_string(),
        output_artifacts: Vec::new(),
        behavior,
        status,
        parents: Vec::new(),
        children: Vec::new(),
    }
}

#[test]
fn get_status_for_child() {
    let mut n = node("p", NodeBehavior::RootNode, JobStatus::Completed(NodeResult::Node));
    n.children = vec![String::from("c")];
    let ptype = ParentType::Logical;
    assert!(matches!(
        n.get_status_for_child(&ptype),
        JobStatus::Completed(NodeResult::Node)
    ))
}

#[test]
fn get_if_true_status_for_child() {
    let n = node("p", NodeBehavior::IfNode, JobStatus::Completed(NodeResult::If(true)));
    let ptype = ParentType::Branch { branch: true };
    assert!(matches!(
        n.get_status_for_child(&ptype),
        JobStatus::Completed(NodeResult::If(true))
    ))
}

#[test]
fn get_if_false_status_for_child() {
    let n = node("p", NodeBehavior::IfNode, JobStatus::Completed(NodeResult::If(true)));
    let ptype = ParentType::Branch { branch: false };
    assert!(matches!(n.get_status_for_child(&ptype), JobStatus::Skipped))
}

#[test]
fn get_if_failed_status_for_child() {
    let n = node("p", NodeBehavior::IfNode, JobStatus::Failed(NodeFailure::Node));
    let ptype = ParentType::Branch { branch: false };
    assert!(matches!(
        n.get_status_for_child(&ptype),
        JobStatus::Failed(_)
    ))
}

#[test]
fn initial_values() {
    assert_eq!(JobStatus::initial(), JobStatus::NotSubmitted);
    assert_eq!(initial_try_num(), 0);
    assert_eq!(JobStatus::Running("12".into()).display_string(), "Running (12)");
    assert_eq!(JobStatus::Completed(NodeResult::If(false)).display_string(), "Completed (false)");
    assert_eq!(JobStatus::Failed(NodeFailure::Node).display_string(), "Failed");
}

fn selector(parent_statuses: Vec<JobStatus>) -> StatusSelector {
    StatusSelector { parent_statuses }
}

#[test]
fn oneof_statuses() {
    let done = JobStatus::Completed(NodeResult::Node);
    let failed = JobStatus::Failed(NodeFailure::Node);
    assert_eq!(selector(vec![done.clone(), done.clone()]).get_oneof_status(), JobStatus::ReadyForSubmission);
    assert_eq!(selector(vec![failed.clone(), done.clone()]).get_oneof_status(), JobStatus::ReadyForSubmission);
    assert_eq!(selector(vec![failed.clone(), failed.clone()]).get_oneof_status(), JobStatus::Failed(NodeFailure::Node));
    assert_eq!(
        selector(vec![JobStatus::Running("..".into()), JobStatus::NotSubmitted]).get_oneof_status(),
        JobStatus::NotSubmitted
    );
    assert_eq!(selector(vec![JobStatus::Skipped, failed.clone()]).get_oneof_status(), JobStatus::Failed(NodeFailure::Node));
    assert_eq!(selector(vec![JobStatus::Skipped, JobStatus::Skipped]).get_oneof_status(), JobStatus::Skipped);
}

#[test]
fn default_statuses() {
    let done = JobStatus::Completed(NodeResult::Node);
    let failed = JobStatus::Failed(NodeFailure::Node);
    assert_eq!(selector(vec![done.clone(), done.clone()]).get_default_status(), JobStatus::ReadyForSubmission);
    assert_eq!(selector(vec![failed.clone(), done.clone()]).get_default_status(), JobStatus::Failed(NodeFailure::Node));
    assert_eq!(selector(vec![JobStatus::Skipped, done.clone()]).get_default_status(), JobStatus::Failed(NodeFailure::Node));
    assert_eq!(selector(vec![JobStatus::Skipped, JobStatus::Skipped]).get_default_status(), JobStatus::Skipped);
    assert_eq!(
        selector(vec![JobStatus::Running("..".into()), JobStatus::Completed(NodeResult::If(false))]).get_default_status(),
        JobStatus::NotSubmitted
    );
    assert_eq!(selector(vec![JobStatus::Skipped, failed.clone()]).get_default_status(), JobStatus::Failed(NodeFailure::Node));
}

#[test]
fn default_status_skipped_beside_unfinished() {
    let done = JobStatus::Completed(NodeResult::Node);
    assert_eq!(
        selector(vec![JobStatus::Skipped, JobStatus::Running("..".into())]).get_default_status(),
        JobStatus::Skipped
    );
    assert_eq!(
        selector(vec![JobStatus::Skipped, done, JobStatus::NotSubmitted]).get_default_status(),
        JobStatus::Skipped
    );
    assert_eq!(selector(vec![]).get_default_status(), JobStatus::ReadyForSubmission);
}

#[test]
fn get_oneof_updated_status() {
    let s = selector(vec![JobStatus::Failed(NodeFailure::Node), JobStatus::Completed(NodeResult::Node)]);
    assert_eq!(s.get_updated_status(&NodeBehavior::OneOfNode), JobStatus::ReadyForSubmission);
}

#[test]
fn get_default_updated_status() {
    let s = selector(vec![JobStatus::Failed(NodeFailure::Node), JobStatus::Completed(NodeResult::If(true))]);
    assert_eq!(s.get_updated_status(&NodeBehavior::RootNode), JobStatus::Failed(NodeFailure::Node));
}

#[test]
fn get_selector_creation() {
    let p2 = node("p2", NodeBehavior::RootNode, JobStatus::NotSubmitted);
    let mut c = node("c", NodeBehavior::RootNode, JobStatus::NotSubmitted);
    c.parents = vec![sdag::sscheduler::model::Parent {
        parent_type: ParentType::Output { key: String::from("p2") },
        uid: String::from("p2"),
    }];
    let nodes = vec![p2, c.clone()];
    let updated = vec![("p2".to_string(), JobStatus::Failed(NodeFailure::Node))];
    let selector = StatusSelector::new(&c, &nodes, &updated);
    assert_eq!(selector.parent_statuses, vec![JobStatus::Failed(NodeFailure::Node)]);
    let plain = StatusSelector::new(&c, &nodes, &[]);
    assert_eq!(plain.parent_statuses, vec![JobStatus::NotSubmitted]);
}

fn dag_nodes() -> Vec<Node> {
    vec![
        node("0", NodeBehavior::TaskNode(task()), JobStatus::Running("1234".to_string())),
        node("1", NodeBehavior::RootNode, JobStatus::NotSubmitted),
        node("2", NodeBehavior::TaskNode(task()), JobStatus::Running("5678".to_string())),
    ]
}

#[test]
fn find_job_ids() {
    let nodes = dag_nodes();
    let mut jobs = find_running_jobs(&nodes);
    jobs.sort();
    assert_eq!(jobs, vec!["1234", "5678"]);
}

#[test]
fn kill_running_jobs_cancels_running() {
    let nodes = dag_nodes();
    let cancel = |ids: Vec<String>| -> Result<(), String> {
        assert_eq!(ids, vec!["1234".to_string(), "5678".to_string()]);
        Ok(())
    };
    assert!(kill_running_jobs(&nodes, &cancel).is_ok());
    let refused = |_ids: Vec<String>| -> Result<(), String> { Err("refused".to_string()) };
    assert_eq!(kill_running_jobs(&nodes, &refused), Err("refused".to_string()));
}

#[test]
fn kill_running_jobs_sends_nothing_without_running_nodes() {
    let nodes: Vec<sdag::sscheduler::model::Node> = Vec::new();
    let cancel = |_ids: Vec<String>| -> Result<(), String> { panic!("nothing is to be cancelled") };
    assert_eq!(kill_running_jobs(&nodes, &cancel), Ok(()));
}

#[test]
fn startup_test_mark_all_tasks_as_local() {
    let mut nodes = dag_nodes();
    mark_all_tasks_as_local(&mut nodes);
    for n in &nodes {
        if let NodeBehavior::TaskNode(t) = &n.behavior {
            assert!(matches!(t.cmd, Cmd::Bash));
        }
    }
}

#[test]
fn simulation_completed() {
    let mut nodes = dag_nodes();
    assert!(!is_simulation_completed(&nodes));
    for n in nodes.iter_mut() {
        n.status = JobStatus::Skipped;
    }
    assert!(is_simulation_completed(&nodes));
}

#[test]
fn backend_slurm_status_parsed_correctly() {
    let slurm_status = "
        JobID             State
        ------------ ----------
        20836188      COMPLETED
        20836188.ba+  COMPLETED
        20836188.ex+  COMPLETED
        ";
    let output = parse_slurm_status("20836188", slurm_status).unwrap();
    assert_eq!(output, String::from("COMPLETED"));
}

#[test]
fn backend_slurm_status_not_found() {
    let slurm_status = "
        JobID             State
        ------------ ----------
        20836188.ba+  COMPLETED
        20836188.ex+  COMPLETED
        ";
    let job_id = parse_slurm_status("20836188", slurm_status);
    assert!(matches!(job_id, None));
}

#[test]
fn backend_get_failed_slurm_status() {
    let slurm_status = "
            JobID             State
            ------------ ----------
            20836188      FAILED
            20836188.ba+  COMPLETED
            20836188.ex+  COMPLETED
            ";
    let job_id = String::from("20836188");
    let output = extract_status(&job_id, slurm_status);
    assert!(matches!(output, JobStatus::Failed(NodeFailure::Task(_))));
}

#[test]
fn get_unknown_slurm_status() {
    let slurm_status = "
            JobID             State
            ------------ ----------
            20836188.ba+  COMPLETED
            20836188.ex+  COMPLETED
            ";
    let job_id = String::from("20836188");
    let output = extract_status(&job_id, slurm_status);
    assert!(matches!(output, JobStatus::Failed(NodeFailure::Task(_))));
}

#[test]
fn backend_running_slurm_status() {
    let slurm_status = "
            JobID             State
            ------------ ----------
            20836188      COMPLETING
            20836188.ba+  COMPLETED
            20836188.ex+  COMPLETED
            ";
    let output = extract_status("20836188", slurm_status);
    if let JobStatus::Running(job_id) = output {
        assert_eq!(job_id, String::from("20836188"));
    } else {
        panic!("Job should be running");
    };
}

#[test]
fn test_empty_job_status() {
    let ask = |_ids: Vec<String>| -> Result<String, String> { panic!("Slurm must not be asked") };
    let statuses = sdag::sscheduler::backend::check_job_status(&[], &ask).unwrap();
    assert!(statuses.is_empty());
}

#[test]
fn backend_parse_job_output() {
    let output = String::from("Submitted batch job 1234");
    let job_id = find_submitted_job_id(&output).unwrap();
    assert_eq!(job_id, "1234");
}

#[test]
fn kill_no_jobs() {
    let cancel = |_ids: Vec<String>| -> Result<(), String> { panic!("nothing to cancel") };
    kill_jobs(Vec::new(), &cancel).unwrap();
}

#[test]
fn status_map_of_answers() {
    let nodes = dag_nodes();
    let jobs = get_running_tasks(&nodes);
    assert_eq!(jobs.len(), 2);
    let map = get_status_map(Ok("1234 COMPLETED\n5678 PENDING".into()), &jobs);
    assert_eq!(map[0].0, "0");
    assert_eq!(map[0].1, JobStatus::Completed(NodeResult::Task("1234".into())));
    assert_eq!(map[1].1, JobStatus::Running("5678".into()));
    let failed = get_status_map(Err("down".into()), &jobs);
    assert_eq!(failed[1].1, JobStatus::Failed(NodeFailure::Task("5678".into())));
}

#[test]
fn get_pipeline_dir() {
    let state = LocalDirState::new("/home/u/.sdag", "pipeline");
    assert_eq!(state.get_pipeline_dir(), "/home/u/.sdag/pipeline");
    assert_eq!(state.checkpoint_path(), "/home/u/.sdag/pipeline/checkpoint.json");
    assert_eq!(state.output_path("3"), "/home/u/.sdag/pipeline/3/output.json");
    assert_eq!(state.cache_path("fn"), "/home/u/.sdag/.cache/fn");
}

#[test]
fn checkpoint_validation() {
    let state = LocalDirState::new("/h", "p");
    let mut nodes = dag_nodes();
    nodes[0].status = JobStatus::Completed(NodeResult::Task("1".into()));
    let all_dirs = |_p: String| -> bool { true };
    let all_files = |_p: String| -> bool { true };
    assert!(validate_checkpoint(&state, &nodes, &all_dirs, &all_files).is_ok());
    let no_dirs = |_p: String| -> bool { false };
    assert_eq!(
        validate_checkpoint(&state, &nodes, &no_dirs, &all_files).unwrap_err(),
        "uid '0' directory not found"
    );
    let no_meta = |p: String| -> bool { !p.ends_with("meta.json") };
    assert_eq!(
        validate_checkpoint(&state, &nodes, &all_dirs, &no_meta).unwrap_err(),
        "uid '0' metadata not found"
    );
    let no_output = |p: String| -> bool { !p.ends_with("output.json") };
    assert_eq!(
        validate_checkpoint(&state, &nodes, &all_dirs, &no_output).unwrap_err(),
        "uid '0' output not found"
    );
}

#[test]
fn save_and_load_checkpoint() {
    let meta = DAGMetadata {
        name: String::from("pipeline"),
        creation_dt: String::from("2025-01-01 09:20:20"),
    };
    let sim = start_simulation("/h", &DAG { meta: meta.clone(), nodes: vec![] }, 5, 2, false);
    assert_eq!(sim.poll_time, 5);
    assert_eq!(sim.checkpointer.meta, meta);
    let checkpointer = Checkpointer { meta: meta.clone(), restart: false };
    let stored = std::cell::RefCell::new(None);
    let write = |p: String, d: DAG| -> Result<(), String> {
        assert_eq!(p, "/h/pipeline/checkpoint.json");
        *stored.borrow_mut() = Some(d);
        Ok(())
    };
    checkpointer.save_checkpoint(dag_nodes(), &sim.state, &write).unwrap();
    let saved = stored.borrow().clone().unwrap();
    let read = |_p: String| -> Result<DAG, String> { Ok(saved.clone()) };
    let yes = |_p: String| -> bool { true };
    let dag = checkpointer.load_checkpoint(&sim.state, &read, &yes, &yes).unwrap();
    assert_eq!(dag.meta.name, "pipeline");
    assert!(matches!(dag.nodes[0].status, JobStatus::Running(_)))
}
