//! The description of the tasks of a pipeline before it runs: their
//! input, their artifacts, and whether their cache would be used.

use crate::cache::{artifact_names, cache_searched, check_caching, get_artifacts, is_dynamic};
use crate::nodes::Task;
use crate::schemas::{JsonValue, TaskOutput};
use crate::settings::Cfg;
use crate::state::{get_static_input, input_map, static_input};
use crate::workdirs::task_cache_path;
use vstd::prelude::*;

verus! {

/// One line of the description of a pipeline.
pub struct TaskDescription {
    pub uid: usize,
    pub name: String,
    pub pipeline: String,
    pub cached: bool,
    pub artifacts: String,
    pub kwargs: String,
}

/// Describe a task: its uid, name and pipeline, whether its cache would be
/// used (see `check_caching`), the names of its artifacts, and its static
/// input as `to_json` writes it (a fixed text when that fails).
pub fn get_description<
    L: Fn(String) -> Result<Vec<String>, String>,
    D: Fn(String) -> bool,
    RI: Fn(String) -> Result<Vec<(String, JsonValue)>, String>,
    RO: Fn(String) -> Result<TaskOutput, String>,
    E: Fn(String) -> bool,
    J: Fn(Vec<(String, JsonValue)>) -> Option<String>,
>(
    task: &Task,
    cfg: &Cfg,
    list_dir: &L,
    is_dir: &D,
    read_input: &RI,
    read_output: &RO,
    exists_fn: &E,
    to_json: &J,
) -> (r: TaskDescription)
    requires
        forall|p: String| list_dir.requires((p,)),
        forall|p: String| is_dir.requires((p,)),
        forall|p: String| read_input.requires((p,)),
        forall|p: String| read_output.requires((p,)),
        forall|p: String| exists_fn.requires((p,)),
        forall|v: Vec<(String, JsonValue)>| to_json.requires((v,)),
    ensures
        r.uid == task.uid,
        r.name@ == task.name@,
        r.pipeline@ == task.pipeline_name@,
        r.artifacts@ == artifact_names(task.artifacts@),
        exists|v: Vec<(String, JsonValue)>, j: Option<String>|
            input_map(v@) == static_input(task.kwargs@, task.parents@) && #[trigger] to_json.ensures(
                (v,),
                j,
            ) && r.kwargs@ == match j {
                Some(s) => s@,
                None => "[failed to parse]"@,
            },
        !task.cache || is_dynamic(task.parents@) ==> !r.cached,
        task.cache && !is_dynamic(task.parents@) ==> exists|v: Vec<(String, JsonValue)>, s: Result<Option<String>, String>|
            input_map(v@) == static_input(task.kwargs@, task.parents@) && #[trigger] cache_searched(
                task_cache_path(*task, cfg.cachedir@, cfg.local_cachedir@),
                input_map(v@),
                task.cache_ignore@,
                *list_dir,
                *is_dir,
                *read_input,
                *read_output,
                *exists_fn,
                s,
            ) && r.cached == (s matches Ok(Some(_))),
{
    let input = get_static_input(task.kwargs.as_slice(), task.parents.as_slice());
    let cached = check_caching(task, cfg, input.as_slice(), list_dir, is_dir, read_input, read_output, exists_fn);
    let ghost gv = input;
    let j = to_json(input);
    assert(to_json.ensures((gv,), j));
    let kwargs = match j {
        Some(s) => s,
        None => {
            proof {
                reveal_strlit("[failed to parse]");
            }
            String::from_str("[failed to parse]")
        },
    };
    TaskDescription {
        uid: task.uid,
        name: task.name.clone(),
        pipeline: task.pipeline_name.clone(),
        cached,
        artifacts: get_artifacts(task.artifacts.as_slice()),
        kwargs,
    }
}

} // verus!
