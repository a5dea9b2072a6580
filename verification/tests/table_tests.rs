use sdag::context::Ctx;
use sdag::nodes::{Node, Task};
use sdag::schemas::{Cmd, ExecMode, Scope, Script, ScriptPath, SlurmOverride};
use sdag::sscheduler::model::{
    Cmd as MapCmd, ExecMode as MapExecMode, JobStatus, Node as MapNode, NodeBehavior, NodeFailure,
    NodeResult, Task as MapTask,
};
use sdag::sscheduler::summary::{get_final_recap as map_recap, get_summary_rows as map_rows};
use sdag::status::{Completed, Failed, JobType, Status};
use sdag::summary::{get_final_recap, get_summary_rows};
use std::borrow::Cow;
use tabled::settings::object::Columns;
use tabled::settings::{Alignment, Style};
use tabled::{Table, Tabled};

struct SummaryLine {
    uid: usize,
    task: String,
    pipeline: String,
    status: String,
    try_num: usize,
}

impl Tabled for SummaryLine {
    const LENGTH: usize = 5;

    fn fields(&self) -> Vec<Cow<'_, str>> {
        vec![
            Cow::Owned(self.uid.to_string()),
            Cow::Borrowed(self.task.as_str()),
            Cow::Borrowed(self.pipeline.as_str()),
            Cow::Borrowed(self.status.as_str()),
            Cow::Owned(self.try_num.to_string()),
        ]
    }

    fn headers() -> Vec<Cow<'static, str>> {
        vec!["uid".into(), "task".into(), "pipeline".into(), "status".into(), "try_num".into()]
    }
}

struct MapLine {
    uid: String,
    task: String,
    status: String,
    num_tries: u32,
}

impl Tabled for MapLine {
    const LENGTH: usize = 4;

    fn fields(&self) -> Vec<Cow<'_, str>> {
        vec![
            Cow::Borrowed(self.uid.as_str()),
            Cow::Borrowed(self.task.as_str()),
            Cow::Borrowed(self.status.as_str()),
            Cow::Owned(self.num_tries.to_string()),
        ]
    }

    fn headers() -> Vec<Cow<'static, str>> {
        vec!["uid".into(), "task".into(), "status".into(), "num_tries".into()]
    }
}

struct RecapLine {
    status: &'static str,
    ntasks: usize,
}

impl Tabled for RecapLine {
    const LENGTH: usize = 2;

    fn fields(&self) -> Vec<Cow<'_, str>> {
        vec![Cow::Borrowed(self.status), Cow::Owned(self.ntasks.to_string())]
    }

    fn headers() -> Vec<Cow<'static, str>> {
        vec!["status".into(), "ntasks".into()]
    }
}

fn render<T: Tabled>(lines: Vec<T>) -> String {
    let mut table = Table::new(lines);
    table.with(Style::modern());
    table.modify(Columns::first(), Alignment::right());
    table.to_string()
}

fn get_task(uid: usize) -> Task {
    Task {
        uid,
        parents: vec![],
        fn_name: "fn_name".into(),
        name: "name".into(),
        pipeline_name: "pipeline_name".into(),
        cache: true,
        scope: Scope::Local,
        cache_size: 1,
        cache_ignore: vec![],
        mode: ExecMode::Wrap,
        cmd: Cmd::Sbatch,
        retries: 0,
        script: Script::ScriptPath(ScriptPath { path: "path/to/script".into() }),
        envs: vec![],
        slurm: SlurmOverride::new(),
        kwargs: vec![],
        tags: vec![],
        artifacts: vec![],
        children: vec![],
        debug: false,
    }
}

fn get_nodes() -> Vec<Node> {
    (0..5).map(|u| Node::Task(get_task(u))).collect()
}

fn get_ctx(nodes: &[Node]) -> Ctx {
    let mut ctx = Ctx::new(nodes).unwrap();
    ctx.try_nums = vec![0, 1, 2, 3, 4, 5];
    ctx.statuses = vec![
        Status::Completed(Completed::Job(JobType::Slurm("123".into()))),
        Status::Failed(Failed::Generic),
        Status::Pending(JobType::Slurm("234".into())),
        Status::NotSubmitted,
        Status::Running(JobType::Slurm("456".into())),
    ];
    ctx
}

#[test]
fn test_get_summary_table() {
    let nodes = get_nodes();
    let ctx = get_ctx(&nodes);
    let lines = get_summary_rows(&nodes, &ctx)
        .into_iter()
        .map(|r| SummaryLine {
            uid: r.uid,
            task: r.task,
            pipeline: r.pipeline,
            status: r.status,
            try_num: r.try_num,
        })
        .collect();
    let expected = [
        "┌─────┬──────┬───────────────┬────────────────────────┬─────────┐",
        "│ uid │ task │ pipeline      │ status                 │ try_num │",
        "├─────┼──────┼───────────────┼────────────────────────┼─────────┤",
        "│   3 │ name │ pipeline_name │ Not Submitted          │ 3       │",
        "├─────┼──────┼───────────────┼────────────────────────┼─────────┤",
        "│   0 │ name │ pipeline_name │ Completed (job_id=123) │ 0       │",
        "├─────┼──────┼───────────────┼────────────────────────┼─────────┤",
        "│   1 │ name │ pipeline_name │ Failed                 │ 1       │",
        "├─────┼──────┼───────────────┼────────────────────────┼─────────┤",
        "│   2 │ name │ pipeline_name │ Pending (job_id=234)   │ 2       │",
        "├─────┼──────┼───────────────┼────────────────────────┼─────────┤",
        "│   4 │ name │ pipeline_name │ Running (job_id=456)   │ 4       │",
        "└─────┴──────┴───────────────┴────────────────────────┴─────────┘",
    ]
    .join("\n");
    assert_eq!(render(lines), expected);
}

#[test]
fn test_get_final_recap_table() {
    let nodes = get_nodes();
    let ctx = get_ctx(&nodes);
    let r = get_final_recap(&nodes, &ctx);
    let lines = vec![
        RecapLine { status: "Completed", ntasks: r.completed },
        RecapLine { status: "Skipped", ntasks: r.skipped },
        RecapLine { status: "Failed", ntasks: r.failed },
        RecapLine { status: "Pending", ntasks: r.pending },
        RecapLine { status: "Running", ntasks: r.running },
        RecapLine { status: "Not submitted", ntasks: r.not_submitted },
    ];
    let expected = [
        "┌───────────────┬────────┐",
        "│        status │ ntasks │",
        "├───────────────┼────────┤",
        "│     Completed │ 1      │",
        "├───────────────┼────────┤",
        "│       Skipped │ 0      │",
        "├───────────────┼────────┤",
        "│        Failed │ 1      │",
        "├───────────────┼────────┤",
        "│       Pending │ 1      │",
        "├───────────────┼────────┤",
        "│       Running │ 1      │",
        "├───────────────┼────────┤",
        "│ Not submitted │ 1      │",
        "└───────────────┴────────┘",
    ]
    .join("\n");
    assert_eq!(render(lines), expected);
}

fn map_task(uid: &str, name: &str, try_num: u32, status: JobStatus) -> MapNode {
    MapNode {
        uid: String::from(uid),
        output_artifacts: Vec::new(),
        behavior: NodeBehavior::TaskNode(MapTask {
            fname: String::from("fname"),
            name: String::from(name),
            caching: false,
            mode: MapExecMode::Wrap,
            cmd: MapCmd::Sbatch,
            try_num,
            retries: 2,
            launch_script: String::from("script"),
            input_kwargs: Vec::new(),
        }),
        status,
        parents: Vec::new(),
        children: Vec::new(),
    }
}

#[test]
fn check_table() {
    let nodes = vec![
        map_task("10", "stage2", 2, JobStatus::Skipped),
        map_task("2", "stage1", 1, JobStatus::Failed(NodeFailure::Task("1234".to_string()))),
    ];
    let lines = map_rows(&nodes)
        .into_iter()
        .map(|r| MapLine { uid: r.uid, task: r.task, status: r.status, num_tries: r.num_tries })
        .collect();
    let expected = [
        "┌─────┬────────┬───────────────┬───────────┐",
        "│ uid │ task   │ status        │ num_tries │",
        "├─────┼────────┼───────────────┼───────────┤",
        "│   2 │ stage1 │ Failed (1234) │ 1         │",
        "├─────┼────────┼───────────────┼───────────┤",
        "│  10 │ stage2 │ Skipped       │ 2         │",
        "└─────┴────────┴───────────────┴───────────┘",
    ]
    .join("\n");
    assert_eq!(render(lines), expected);
}

#[test]
fn get_recap_table() {
    let nodes = vec![
        map_task("0", "stage1", 1, JobStatus::Failed(NodeFailure::Task("1234".to_string()))),
        map_task("1", "stage1", 1, JobStatus::Completed(NodeResult::Node)),
        map_task("2", "stage1", 1, JobStatus::Skipped),
        map_task("3", "stage1", 1, JobStatus::Running("5678".to_string())),
    ];
    let r = map_recap(&nodes);
    let lines = vec![
        RecapLine { status: "Completed", ntasks: r.completed },
        RecapLine { status: "Skipped", ntasks: r.skipped },
        RecapLine { status: "Failed", ntasks: r.failed },
        RecapLine { status: "Running", ntasks: r.running },
        RecapLine { status: "Not submitted", ntasks: r.not_submitted },
    ];
    let expected = [
        "┌───────────────┬────────┐",
        "│        status │ ntasks │",
        "├───────────────┼────────┤",
        "│     Completed │ 1      │",
        "├───────────────┼────────┤",
        "│       Skipped │ 1      │",
        "├───────────────┼────────┤",
        "│        Failed │ 1      │",
        "├───────────────┼────────┤",
        "│       Running │ 1      │",
        "├───────────────┼────────┤",
        "│ Not submitted │ 0      │",
        "└───────────────┴────────┘",
    ]
    .join("\n");
    assert_eq!(render(lines), expected);
}
