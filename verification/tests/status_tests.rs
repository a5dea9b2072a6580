use sdag::nodes::{Branch, ProvideStatus};
use sdag::schemas::{Parent, ParentKind};
use sdag::status::{
    all_parents_completed, any_node_failed, all_parents_failed_or_skipped, find_completed_parent,
    is_simulation_completed, reset_failed_or_skipped_status, some_parents_failed_or_skipped,
    Completed, Failed, JobType, Status,
};

#[test]
fn test_all_completed() {
    let s0 = Status::Completed(Completed::Cached);
    let s1 = Status::Completed(Completed::Generic);
    let s2 = Status::Completed(Completed::Job(JobType::Slurm("123".into())));
    let statuses = vec![&s0, &s1, &s2];

    assert!(all_parents_completed(&statuses));
    assert!(!some_parents_failed_or_skipped(&statuses));
    assert!(!all_parents_failed_or_skipped(&statuses));
}

#[test]
fn test_one_skipped() {
    let s0 = Status::Completed(Completed::Cached);
    let s1 = Status::Skipped;
    let s2 = Status::Completed(Completed::Job(JobType::Slurm("123".into())));
    let statuses = vec![&s0, &s1, &s2];

    assert!(!all_parents_completed(&statuses));
    assert!(some_parents_failed_or_skipped(&statuses));
    assert!(!all_parents_failed_or_skipped(&statuses));
}

#[test]
fn test_all_failed_or_skipped() {
    let s0 = Status::Failed(Failed::Generic);
    let s1 = Status::Skipped;
    let s2 = Status::Failed(Failed::Job(JobType::Slurm("123".into())));
    let statuses = vec![&s0, &s1, &s2];

    assert!(!all_parents_completed(&statuses));
    assert!(some_parents_failed_or_skipped(&statuses));
    assert!(all_parents_failed_or_skipped(&statuses));
}

#[test]
fn test_find_completed_parent_no_parents() {
    let parents = vec![];
    let statuses = vec![];
    assert!(find_completed_parent(&parents, &statuses).is_none())
}

#[test]
fn test_find_completed_parent() {
    let parents = vec![
        Parent {
            uid: 0,
            kind: ParentKind::Logical,
        },
        Parent {
            uid: 2,
            kind: ParentKind::Logical,
        },
    ];

    let s0 = Status::Completed(Completed::Cached);
    let s1 = Status::Skipped;
    let s2 = Status::Failed(Failed::Generic);
    let statuses = vec![&s0, &s1, &s2];
    assert_eq!(find_completed_parent(&parents, &statuses).unwrap(), 0);
}

#[test]
fn test_completed_parent_not_found() {
    let parents = vec![
        Parent {
            uid: 1,
            kind: ParentKind::Logical,
        },
        Parent {
            uid: 2,
            kind: ParentKind::Logical,
        },
    ];

    let s0 = Status::Completed(Completed::Cached);
    let s1 = Status::Skipped;
    let s2 = Status::Failed(Failed::Generic);
    let statuses = vec![&s0, &s1, &s2];
    assert!(find_completed_parent(&parents, &statuses).is_none());
}

#[test]
fn test_completed_branch() {
    let status = Status::Completed(Completed::Branch(true));
    let node = Branch {
        uid: 0,
        pipeline_name: "pipeline".into(),
        parents: vec![],
        children: vec![3, 4, 2],
        artifacts: vec![],
    };

    let true_kind = ParentKind::Branch { branch: true };
    assert!(matches!(
        node.provide_status(&status, &true_kind),
        Status::Completed(_)
    ));
    let false_kind = ParentKind::Branch { branch: false };
    assert!(matches!(
        node.provide_status(&status, &false_kind),
        Status::Skipped
    ));
}

#[test]
fn status_texts() {
    assert_eq!(Status::NotSubmitted.display_string(), "Not Submitted");
    assert_eq!(
        Status::Completed(Completed::Job(JobType::Slurm("123".into()))).display_string(),
        "Completed (job_id=123)"
    );
    assert_eq!(
        Status::Pending(JobType::Slurm("234".into())).display_string(),
        "Pending (job_id=234)"
    );
    assert_eq!(Status::Failed(Failed::Generic).display_string(), "Failed");
}

#[test]
fn status_priorities_and_kinds() {
    assert_eq!(Status::NotSubmitted.log_priority(), 0);
    assert!(Status::Skipped.is_final());
    assert!(!Status::ReadyForSubmission.is_final());
    assert!(Status::Pending(JobType::Local(3)).is_running());
}

#[test]
fn simulation_completion_and_failures() {
    let done = vec![
        Status::Completed(Completed::Generic),
        Status::Skipped,
        Status::Failed(Failed::Generic),
    ];
    assert!(is_simulation_completed(&done));
    assert!(any_node_failed(&done));
    let running = vec![Status::Completed(Completed::Generic), Status::Running(JobType::Local(1))];
    assert!(!is_simulation_completed(&running));
    assert!(!any_node_failed(&running));
}

#[test]
fn reset_gives_failed_and_skipped_a_new_chance() {
    let mut statuses = vec![
        Status::Failed(Failed::Generic),
        Status::Skipped,
        Status::Completed(Completed::Cached),
    ];
    let mut tries = vec![3, 1, 2];
    reset_failed_or_skipped_status(&mut statuses, &mut tries);
    assert_eq!(statuses[0], Status::NotSubmitted);
    assert_eq!(statuses[1], Status::NotSubmitted);
    assert_eq!(statuses[2], Status::Completed(Completed::Cached));
    assert_eq!(tries, vec![0, 0, 2]);
}

#[test]
fn parent_rules_on_no_parents() {
    let none: Vec<&Status> = Vec::new();
    assert!(all_parents_completed(&none));
    assert!(all_parents_failed_or_skipped(&none));
    assert!(!some_parents_failed_or_skipped(&none));
    let skipped = Status::Skipped;
    let only_skipped = vec![&skipped];
    assert!(all_parents_failed_or_skipped(&only_skipped));
    assert!(some_parents_failed_or_skipped(&only_skipped));
    assert!(!all_parents_completed(&only_skipped));
}
