use sdag::workdirs::order_by_time;
use sdag::describe::get_description;
use sdag::workdirs::create_dagdir;
use sdag::cache::{
    check_caching, compare_input_with_cache, compare_single_cache, delete_old_cache,
    find_and_save_cache, get_artifacts, inputs_equal, json_equal, replace_cache_ignored_value,
    submit_validate_cache, validate_cache,
};
use sdag::nodes::Task;
use sdag::schemas::{
    Artifact, Cmd, DAGMeta, ExecMode, JsonValue, Kwarg, Parent, ParentKind, Scope, Script,
    ScriptPath, SlurmOverride, TaskOutput,
};
use sdag::settings::Cfg;
use std::cell::RefCell;

fn get_meta() -> DAGMeta {
    DAGMeta {
        pipeline_name: "pipe".into(),
        hash: "xxx".into(),
        timestamp: "1920-01-01T09:20:20".into(),
        extra: "null".into(),
        import_path: String::new(),
        kwargs: "{}".into(),
    }
}

fn get_task() -> Task {
    Task {
        uid: 3,
        parents: vec![],
        fn_name: "fn_name".into(),
        name: "name".into(),
        pipeline_name: "pipeline_name".into(),
        cache: true,
        scope: Scope::Global,
        cache_size: 2,
        cache_ignore: vec!["seed".into()],
        mode: ExecMode::Wrap,
        cmd: Cmd::Sbatch,
        retries: 0,
        script: Script::ScriptPath(ScriptPath { path: "path/to/script".into() }),
        envs: vec![],
        slurm: SlurmOverride::new(),
        kwargs: vec![
            Kwarg { key: "x".into(), value: JsonValue::Json("1".into()) },
            Kwarg { key: "seed".into(), value: JsonValue::Json("7".into()) },
        ],
        tags: vec![],
        artifacts: vec![],
        children: vec![],
        debug: false,
    }
}

fn entry(k: &str, v: JsonValue) -> (String, JsonValue) {
    (k.to_string(), v)
}

fn no_output(_p: String) -> Result<TaskOutput, String> {
    Ok(TaskOutput { output: JsonValue::Null, artifacts: vec![] })
}

fn present(_p: String) -> bool {
    true
}

fn is_dir(_p: String) -> bool {
    true
}

#[test]
fn inputs_compare_as_maps() {
    let a = vec![entry("x", JsonValue::Json("1".into())), entry("y", JsonValue::Bool(true))];
    let b = vec![entry("y", JsonValue::Bool(true)), entry("x", JsonValue::Json("1".into()))];
    assert!(inputs_equal(&a, &b));
    let c = vec![entry("y", JsonValue::Bool(false)), entry("x", JsonValue::Json("1".into()))];
    assert!(!inputs_equal(&a, &c));
    let d = vec![entry("x", JsonValue::Json("1".into()))];
    assert!(!inputs_equal(&a, &d));
    let e = vec![entry("x", JsonValue::Json("2".into())), entry("x", JsonValue::Json("1".into())), entry("y", JsonValue::Bool(true))];
    assert!(inputs_equal(&a, &e));
}

#[test]
fn ignored_keys_take_the_current_value() {
    let input = vec![entry("x", JsonValue::Json("1".into())), entry("seed", JsonValue::Json("7".into()))];
    let mut cached = vec![entry("x", JsonValue::Json("1".into())), entry("seed", JsonValue::Json("3".into()))];
    assert!(!inputs_equal(&input, &cached));
    replace_cache_ignored_value(&mut cached, &input, &["seed".to_string(), "absent".to_string()]);
    assert!(inputs_equal(&input, &cached));
}

#[test]
fn single_cache_checks_input_then_artifacts() {
    let input = vec![entry("x", JsonValue::Json("1".into()))];
    let same = |_p: String| -> Result<Vec<(String, JsonValue)>, String> { Ok(vec![entry("x", JsonValue::Json("1".into()))]) };
    let other = |_p: String| -> Result<Vec<(String, JsonValue)>, String> { Ok(vec![entry("x", JsonValue::Json("2".into()))]) };
    let broken = |_p: String| -> Result<Vec<(String, JsonValue)>, String> { Err("unreadable".into()) };
    let with_artifact = |_p: String| -> Result<TaskOutput, String> {
        Ok(TaskOutput { output: JsonValue::Null, artifacts: vec![Artifact { name: "a".into(), path: "/gone".into() }] })
    };
    let gone = |_p: String| -> bool { false };
    let path = String::from("/cache/name/1");
    assert_eq!(compare_single_cache(&path, &input, &[], &same, &no_output, &present), Ok(true));
    assert_eq!(compare_single_cache(&path, &input, &[], &other, &no_output, &present), Ok(false));
    assert_eq!(compare_single_cache(&path, &input, &[], &broken, &no_output, &present), Err("unreadable".into()));
    assert_eq!(compare_single_cache(&path, &input, &[], &same, &with_artifact, &gone), Ok(false));
}

#[test]
fn first_matching_cached_run_is_used() {
    let input = vec![entry("x", JsonValue::Json("1".into()))];
    let list = |_p: String| -> Result<Vec<String>, String> { Ok(vec!["/c/a".into(), "/c/b".into(), "/c/c".into()]) };
    let read = |p: String| -> Result<Vec<(String, JsonValue)>, String> {
        if p == "/c/a" {
            Ok(vec![entry("x", JsonValue::Json("0".into()))])
        } else {
            Ok(vec![entry("x", JsonValue::Json("1".into()))])
        }
    };
    let r = compare_input_with_cache(&input, &"/c".into(), &[], &list, &is_dir, &read, &no_output, &present);
    assert_eq!(r, Ok(Some(String::from("/c/b"))));
    let empty = |_p: String| -> Result<Vec<String>, String> { Ok(vec![]) };
    let r = compare_input_with_cache(&input, &"/c".into(), &[], &empty, &is_dir, &read, &no_output, &present);
    assert_eq!(r, Ok(None));
    let missing = |_p: String| -> Result<Vec<String>, String> { Err("no dir".into()) };
    let r = compare_input_with_cache(&input, &"/c".into(), &[], &missing, &is_dir, &read, &no_output, &present);
    assert_eq!(r, Err(String::from("no dir")));
}

#[test]
fn validated_cache_is_copied_into_the_node() {
    let input = vec![entry("x", JsonValue::Json("1".into()))];
    let list = |_p: String| -> Result<Vec<String>, String> { Ok(vec!["/c/a".into()]) };
    let read = |_p: String| -> Result<Vec<(String, JsonValue)>, String> { Ok(vec![entry("x", JsonValue::Json("1".into()))]) };
    let copies = RefCell::new(Vec::new());
    let copy = |a: String, b: String| -> Result<u64, String> {
        copies.borrow_mut().push((a, b));
        Ok(1)
    };
    assert!(validate_cache(&input, &"/c".into(), &"/dag/3".into(), &[], &list, &is_dir, &read, &no_output, &present, &copy));
    assert_eq!(copies.borrow().clone(), vec![(String::from("/c/a"), String::from("/dag/3"))]);
    let failing = |_a: String, _b: String| -> Result<u64, String> { Err("full".into()) };
    assert!(!validate_cache(&input, &"/c".into(), &"/dag/3".into(), &[], &list, &is_dir, &read, &no_output, &present, &failing));
}

#[test]
fn task_cache_is_validated_from_its_input() {
    let meta = get_meta();
    let cfg = Cfg::new("/h", &meta, "info", 1, 5, 1, 1, false);
    let task = get_task();
    let list = |p: String| -> Result<Vec<String>, String> {
        assert_eq!(p, "/h/.cache/global/name");
        Ok(vec!["/h/.cache/global/name/run".into()])
    };
    let read = |_p: String| -> Result<Vec<(String, JsonValue)>, String> {
        Ok(vec![entry("x", JsonValue::Json("1".into())), entry("seed", JsonValue::Json("3".into()))])
    };
    let read_parent = |_p: String| -> Result<JsonValue, String> { Ok(JsonValue::Null) };
    let copy = |_a: String, _b: String| -> Result<u64, String> { Ok(1) };
    let touched = RefCell::new(0);
    let touch = |_p: String| -> Result<(), String> {
        *touched.borrow_mut() += 1;
        Ok(())
    };
    assert!(submit_validate_cache(&task, &cfg, &read_parent, &list, &is_dir, &read, &no_output, &present, &copy, &touch));
    assert_eq!(*touched.borrow(), 1);
    let mut uncached = get_task();
    uncached.cache = false;
    assert!(!submit_validate_cache(&uncached, &cfg, &read_parent, &list, &is_dir, &read, &no_output, &present, &copy, &touch));
}

#[test]
fn dynamic_tasks_cache_is_not_checked() {
    let meta = get_meta();
    let cfg = Cfg::new("/h", &meta, "info", 1, 5, 1, 1, false);
    let mut task = get_task();
    let input = vec![entry("x", JsonValue::Json("1".into())), entry("seed", JsonValue::Json("7".into()))];
    let list = |_p: String| -> Result<Vec<String>, String> { Ok(vec!["/run".into()]) };
    let read = |_p: String| -> Result<Vec<(String, JsonValue)>, String> { Ok(vec![entry("x", JsonValue::Json("1".into()))]) };
    assert!(check_caching(&task, &cfg, &input, &list, &is_dir, &read, &no_output, &present));
    task.parents = vec![Parent { uid: 1, kind: ParentKind::Output { key: "y".into() } }];
    assert!(!check_caching(&task, &cfg, &input, &list, &is_dir, &read, &no_output, &present));
}

#[test]
fn oldest_cached_runs_are_dropped() {
    let subfolders = |_p: String| -> Result<Vec<String>, String> { Ok(vec!["/c/1".into(), "/c/2".into(), "/c/3".into()]) };
    let removed = RefCell::new(Vec::new());
    let remove = |p: String| -> Result<(), String> {
        removed.borrow_mut().push(p);
        Ok(())
    };
    assert_eq!(delete_old_cache(&"/c".into(), 2, &is_dir, &subfolders, &remove), Ok(()));
    assert_eq!(removed.borrow().clone(), vec![String::from("/c/1"), String::from("/c/2")]);
    removed.borrow_mut().clear();
    assert_eq!(delete_old_cache(&"/c".into(), 0, &is_dir, &subfolders, &remove), Ok(()));
    assert!(removed.borrow().is_empty());
    let not_dir = |_p: String| -> bool { false };
    assert_eq!(delete_old_cache(&"/c".into(), 1, &not_dir, &subfolders, &remove), Ok(()));
    assert!(removed.borrow().is_empty());
}

#[test]
fn saved_cache_goes_into_a_new_folder() {
    let subfolders = |_p: String| -> Result<Vec<String>, String> { Ok(vec![]) };
    let remove = |_p: String| -> Result<(), String> { Ok(()) };
    let dst = RefCell::new(String::new());
    let copy = |_a: String, b: String| -> Result<u64, String> {
        *dst.borrow_mut() = b;
        Ok(3)
    };
    let r = find_and_save_cache(&"/dag/3".into(), &"/c".into(), 1, &is_dir, &subfolders, &remove, &copy);
    assert_eq!(r, Ok(3));
    let d = dst.borrow().clone();
    assert!(d.starts_with("/c/"));
    assert_eq!(d.len(), "/c/".len() + 36);
}

#[test]
fn artifact_names_are_listed() {
    let a = vec![Artifact { name: "a".into(), path: "/a".into() }, Artifact { name: "b".into(), path: "/b".into() }];
    assert_eq!(get_artifacts(&a), "a, b");
    assert_eq!(get_artifacts(&[]), "");
}

#[test]
fn task_description_lists_input_and_cache() {
    let meta = get_meta();
    let cfg = Cfg::new("/h", &meta, "info", 1, 5, 1, 1, false);
    let mut task = get_task();
    task.artifacts = vec![Artifact { name: "out".into(), path: "/o".into() }];
    let list = |_p: String| -> Result<Vec<String>, String> { Ok(vec!["/run".into()]) };
    let read = |_p: String| -> Result<Vec<(String, JsonValue)>, String> {
        Ok(vec![entry("x", JsonValue::Json("1".into())), entry("seed", JsonValue::Json("0".into()))])
    };
    let json = |v: Vec<(String, JsonValue)>| -> Option<String> { Some(format!("{} keys", v.len())) };
    let d = get_description(&task, &cfg, &list, &is_dir, &read, &no_output, &present, &json);
    assert_eq!(d.uid, 3);
    assert_eq!(d.name, "name");
    assert!(d.cached);
    assert_eq!(d.artifacts, "out");
    assert_eq!(d.kwargs, "2 keys");
    let fail = |_v: Vec<(String, JsonValue)>| -> Option<String> { None };
    let d = get_description(&task, &cfg, &list, &is_dir, &read, &no_output, &present, &fail);
    assert_eq!(d.kwargs, "[failed to parse]");
}

#[test]
fn run_directory_replaces_old_runs() {
    let log = RefCell::new(Vec::new());
    let exists_fn = |p: String| -> bool { p == "/runs" || p == "/runs/new" };
    let remove = |p: String| -> Result<(), String> {
        log.borrow_mut().push(format!("rm {p}"));
        Ok(())
    };
    let subfolders = |_p: String| -> Result<Vec<String>, String> { Ok(vec!["/runs/old1".into(), "/runs/old2".into()]) };
    let create = |p: String| -> Result<(), String> {
        log.borrow_mut().push(format!("mk {p}"));
        Ok(())
    };
    let make = |d: String, f: String, n: String| -> Result<(), String> {
        log.borrow_mut().push(format!("node {d} {f} {n}"));
        Ok(())
    };
    let task = get_task();
    let tasks = vec![&task];
    let r = create_dagdir(&"/runs/new".into(), Some(&"/runs".into()), 2, &tasks, &exists_fn, &remove, &subfolders, &create, &make);
    assert_eq!(r, Ok(()));
    assert_eq!(
        log.borrow().clone(),
        vec![
            String::from("rm /runs/new"),
            String::from("rm /runs/old1"),
            String::from("mk /runs/new"),
            String::from("node /runs/new/3 fn_name name"),
        ]
    );
}

#[test]
fn folders_are_ordered_oldest_first() {
    let folders = vec![
        (String::from("/runs/b"), 30u64),
        (String::from("/runs/a"), 10u64),
        (String::from("/runs/c"), 30u64),
        (String::from("/runs/d"), 20u64),
    ];
    let names: Vec<String> = order_by_time(folders).into_iter().map(|(p, _)| p).collect();
    assert_eq!(names, vec!["/runs/a", "/runs/d", "/runs/b", "/runs/c"]);
}

#[test]
fn json_values_compare_as_serde_json_does() {
    let j = |t: &str| JsonValue::Json(t.to_string());
    assert!(json_equal(&j("0.0"), &j("-0.0")));
    assert!(json_equal(&j("{\"a\":1,\"b\":[2]}"), &j("{\"b\": [2], \"a\": 1}")));
    assert!(!json_equal(&j("1"), &j("1.0")));
    assert!(!json_equal(&j("[1,2]"), &j("[2,1]")));
    assert!(!json_equal(&j("1"), &JsonValue::Text("1".to_string())));
    assert!(json_equal(&JsonValue::Text("x".to_string()), &JsonValue::Text("x".to_string())));
    assert!(!json_equal(&JsonValue::Bool(true), &JsonValue::Bool(false)));
    assert!(json_equal(&JsonValue::Null, &JsonValue::Null));
    assert!(!inputs_equal(&[entry("a", j("1"))], &[entry("a", j("2"))]));
    assert!(inputs_equal(&[entry("a", j("0.0"))], &[entry("a", j("-0.0"))]));
}
