use sdag::schemas::JsonValue;
use sdag::sscheduler::caching::{check_task_caching, read_input_and_cache_tasks, read_input_data};
use sdag::sscheduler::input_data::InputDataHandler;
use sdag::sscheduler::model::{
    Artifact, Cmd, ExecMode, InputKwarg, JobStatus, Node, NodeBehavior, Parent, ParentType, Task,
    TaskOutput,
};
use std::collections::HashMap;
use std::path::Path;

/// The output every parent shows: `true`, with one artifact `a` at `/`.
fn parent_output(_uid: String) -> Result<TaskOutput, String> {
    Ok(TaskOutput {
        output: JsonValue::Bool(true),
        artifacts: vec![Artifact { name: String::from("a"), path: String::from("/") }],
    })
}

fn cached_a_true(_uid: String) -> Result<Vec<(String, JsonValue)>, String> {
    Ok(vec![(String::from("a"), JsonValue::Bool(true))])
}

fn copy_ok(_f: String, _u: String) -> Result<u64, String> {
    Ok(1)
}

fn save_ok(_u: String, _v: Vec<(String, JsonValue)>) -> Result<(), String> {
    Ok(())
}

fn path_exists(p: String) -> bool {
    Path::new(&p).exists()
}

fn as_map(v: Vec<(String, JsonValue)>) -> HashMap<String, JsonValue> {
    v.into_iter().collect()
}

fn kwarg(key: &str, value: JsonValue) -> InputKwarg {
    InputKwarg { key: String::from(key), value }
}

fn output_parent(uid: &str, key: &str) -> Parent {
    Parent { uid: String::from(uid), parent_type: ParentType::Output { key: String::from(key) } }
}

fn task_node(uid: &str, caching: bool, kwargs: Vec<InputKwarg>, parents: Vec<Parent>) -> Node {
    Node {
        uid: String::from(uid),
        output_artifacts: Vec::new(),
        behavior: NodeBehavior::TaskNode(Task {
            fname: String::from("fname"),
            name: String::from("fname"),
            caching,
            mode: ExecMode::Wrap,
            cmd: Cmd::Sbatch,
            try_num: 0,
            retries: 0,
            launch_script: String::from("submit.sh"),
            input_kwargs: kwargs,
        }),
        status: JobStatus::ReadyForSubmission,
        parents,
        children: Vec::new(),
    }
}

fn kwargs_of(n: &Node) -> Vec<InputKwarg> {
    match &n.behavior {
        NodeBehavior::TaskNode(t) => t.input_kwargs.clone(),
        _ => Vec::new(),
    }
}

#[test]
fn test_add_dynamic_input() {
    let node = task_node("1", true, Vec::new(), vec![output_parent("0", "key")]);
    let input = read_input_data(&node, &[], &parent_output).unwrap();
    assert_eq!(as_map(input), HashMap::from([("key".to_string(), JsonValue::Bool(true))]));
}

#[test]
fn test_add_static_input() {
    let kwargs = vec![kwarg("a", JsonValue::Text("test".to_string())), kwarg("b", JsonValue::Bool(true))];
    let node = task_node("1", true, kwargs.clone(), Vec::new());
    let input = read_input_data(&node, &kwargs, &parent_output).unwrap();
    assert_eq!(
        as_map(input),
        HashMap::from([
            ("a".to_string(), JsonValue::Text("test".to_string())),
            ("b".to_string(), JsonValue::Bool(true)),
        ])
    );
}

#[test]
fn caching_test_read_input_data() {
    let kwargs = vec![kwarg("a", JsonValue::Bool(true))];
    let node = task_node("1", true, kwargs.clone(), vec![output_parent("0", "b")]);
    let input = read_input_data(&node, &kwargs, &parent_output).unwrap();
    assert_eq!(
        as_map(input),
        HashMap::from([
            ("a".to_string(), JsonValue::Bool(true)),
            ("b".to_string(), JsonValue::Bool(true)),
        ])
    );
}

#[test]
fn test_task_caching_no_output_no_artifacts() {
    let node = task_node("1", true, vec![kwarg("a", JsonValue::Bool(true))], Vec::new());
    let fname = String::from("fname");
    let r = check_task_caching(
        &node,
        true,
        &fname,
        &kwargs_of(&node),
        &parent_output,
        &copy_ok,
        &cached_a_true,
        &path_exists,
        &save_ok,
    );
    assert!(r.unwrap());
}

#[test]
fn test_task_no_caching_no_output_no_artifacts() {
    let node = task_node("1", false, vec![kwarg("a", JsonValue::Bool(true))], Vec::new());
    let fname = String::from("fname");
    let r = check_task_caching(
        &node,
        false,
        &fname,
        &kwargs_of(&node),
        &parent_output,
        &copy_ok,
        &cached_a_true,
        &path_exists,
        &save_ok,
    );
    assert!(!r.unwrap());
}

#[test]
fn test_task_caching_missing_artifact() {
    let mut node = task_node("1", true, vec![kwarg("a", JsonValue::Bool(true))], Vec::new());
    node.output_artifacts =
        vec![Artifact { name: String::from("missing"), path: String::from("/a/missing/path") }];
    let fname = String::from("fname");
    let r = check_task_caching(
        &node,
        true,
        &fname,
        &kwargs_of(&node),
        &parent_output,
        &copy_ok,
        &cached_a_true,
        &path_exists,
        &save_ok,
    );
    assert!(!r.unwrap());
}

#[test]
fn test_e2e() {
    let mut nodes = vec![task_node("1", true, vec![kwarg("a", JsonValue::Bool(true))], Vec::new())];
    read_input_and_cache_tasks(&mut nodes, &parent_output, &copy_ok, &cached_a_true, &path_exists, &save_ok);
    assert!(matches!(nodes[0].status, JobStatus::Completed(_)));
}

fn handler_input(parents: Vec<Parent>, kwargs: Vec<InputKwarg>) -> HashMap<String, JsonValue> {
    let nodes = vec![task_node("0", false, kwargs.clone(), parents)];
    let handler = InputDataHandler { uid: String::from("0") };
    as_map(handler.read_input_data(&nodes, &kwargs, &parent_output).unwrap())
}

fn artifact_parent(uid: &str, key: &str, name: &str) -> Parent {
    Parent {
        uid: String::from(uid),
        parent_type: ParentType::Artifact {
            key: String::from(key),
            name: String::from(name),
            path: String::new(),
        },
    }
}

#[test]
fn test_parent_artifact_addition() {
    let input = handler_input(vec![artifact_parent("1", "key", "a")], Vec::new());
    assert_eq!(input, HashMap::from([(String::from("key"), JsonValue::Text(String::from("/")))]));
}

#[test]
fn test_add_parent_output() {
    let input = handler_input(vec![output_parent("1", "key")], Vec::new());
    assert_eq!(input, HashMap::from([(String::from("key"), JsonValue::Bool(true))]));
}

#[test]
fn dynamic_output_addition() {
    let input = handler_input(vec![output_parent("1", "key")], Vec::new());
    assert_eq!(input, HashMap::from([(String::from("key"), JsonValue::Bool(true))]));
}

#[test]
fn dynamic_logical_addition() {
    let logical = Parent { uid: String::from("1"), parent_type: ParentType::Logical };
    let input = handler_input(vec![logical], Vec::new());
    assert_eq!(input, HashMap::new());
}

#[test]
fn dynamic_artifact_addition() {
    let input = handler_input(vec![artifact_parent("1", "key", "a")], Vec::new());
    assert_eq!(input, HashMap::from([(String::from("key"), JsonValue::Text(String::from("/")))]));
}

#[test]
fn static_kwarg_addition() {
    let kwargs = vec![kwarg("a", JsonValue::Bool(true)), kwarg("b", JsonValue::Text(String::from("s")))];
    let input = handler_input(Vec::new(), kwargs);
    let expected = HashMap::from([
        (String::from("a"), JsonValue::Bool(true)),
        (String::from("b"), JsonValue::Text(String::from("s"))),
    ]);
    assert_eq!(input, expected);
}

#[test]
fn task_does_not_exist() {
    let handler = InputDataHandler { uid: String::from("0") };
    let missing = |_u: String| -> Result<TaskOutput, String> { Err(String::from("no such directory")) };
    let no_input = |_u: String| -> Result<Vec<(String, JsonValue)>, String> {
        Err(String::from("no such directory"))
    };
    let input = vec![(String::from("a"), JsonValue::Bool(true))];
    assert!(!handler.is_cached(&input, &missing, &no_input, &path_exists));
}
