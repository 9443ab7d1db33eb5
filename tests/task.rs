use okie::{
    failed_outcomes, Context, FetchTask, Stage, TaskAction, TaskError, TaskEvent, TaskOutcome,
};

fn ctx() -> Context {
    Context::new("proj".to_string())
}

/// Runs a task to its end with a fixed status and body, writing nothing.
fn run(identifier: &str, status: u16, body: &str) -> (TaskOutcome, Option<okie::WritePlan>) {
    let ctx = ctx();
    let mut task = FetchTask::new(identifier.to_string());
    let mut event = TaskEvent::Begin;
    let mut plan = None;
    loop {
        match task.step(&ctx, event) {
            TaskAction::Get { .. } => event = TaskEvent::Response { status },
            TaskAction::ReadBody => event = TaskEvent::Body { text: body.to_string() },
            TaskAction::Write(p) => {
                plan = Some(p);
                event = TaskEvent::Written;
            }
            TaskAction::Finish | TaskAction::Report | TaskAction::Idle => break,
        }
    }
    (task.outcome(), plan)
}

#[test]
fn begin_resolves_and_requests() {
    let ctx = ctx();
    let mut task = FetchTask::new("Cargo.toml@v2".to_string());
    match task.step(&ctx, TaskEvent::Begin) {
        TaskAction::Get { url } => assert_eq!(
            url,
            "https://raw.githubusercontent.com/aslilac/okie/main/static/@v2/Cargo.toml"
        ),
        other => panic!("unexpected action {:?}", other),
    }
    assert_eq!(task.file_path, "Cargo.toml");
    assert!(matches!(task.stage, Stage::Requested));
}

#[test]
fn successful_task_writes_filled_plan() {
    let (outcome, plan) = run("src/$name.rs", 200, "mod {{name}};");
    assert_eq!(outcome.error, None);
    let plan = plan.unwrap();
    assert_eq!(plan.dir.as_deref(), Some("src"));
    assert_eq!(plan.path, "src/proj.rs");
    assert_eq!(plan.content, "mod proj;");
}

#[test]
fn non_success_status_fails() {
    for status in [404u16, 500, 199, 300, 301] {
        let (outcome, plan) = run("Cargo.toml", status, "x");
        assert_eq!(outcome.error, Some(TaskError::Status(status)));
        assert!(plan.is_none());
    }
    let (outcome, _) = run("Cargo.toml", 299, "x");
    assert_eq!(outcome.error, None);
}

#[test]
fn unresolvable_identifier_fails_at_start() {
    let ctx = ctx();
    let mut task = FetchTask::new("//[bad".to_string());
    assert!(matches!(task.step(&ctx, TaskEvent::Begin), TaskAction::Report));
    assert!(matches!(
        task.stage,
        Stage::Failed(TaskError::Resolve(okie::ResolveError::InvalidUrl))
    ));
}

#[test]
fn transport_failure_fails() {
    let ctx = ctx();
    let mut task = FetchTask::new("a.txt".to_string());
    task.step(&ctx, TaskEvent::Begin);
    let a = task.step(&ctx, TaskEvent::TransportFailed { message: "refused".to_string() });
    assert!(matches!(a, TaskAction::Report));
    let outcome = task.outcome();
    assert_eq!(outcome.error, Some(TaskError::Transport("refused".to_string())));
}

#[test]
fn write_failure_fails() {
    let ctx = ctx();
    let mut task = FetchTask::new("a.txt".to_string());
    task.step(&ctx, TaskEvent::Begin);
    task.step(&ctx, TaskEvent::Response { status: 200 });
    task.step(&ctx, TaskEvent::Body { text: "t".to_string() });
    let a = task.step(&ctx, TaskEvent::WriteFailed { message: "denied".to_string() });
    assert!(matches!(a, TaskAction::Report));
    assert!(matches!(task.stage, Stage::Failed(TaskError::Filesystem(ref m)) if m == "denied"));
}

#[test]
fn failed_task_ignores_later_events() {
    let ctx = ctx();
    let mut task = FetchTask::new("a.txt".to_string());
    task.step(&ctx, TaskEvent::Begin);
    task.step(&ctx, TaskEvent::Response { status: 404 });
    let a = task.step(&ctx, TaskEvent::Body { text: "t".to_string() });
    assert!(matches!(a, TaskAction::Idle));
    assert!(matches!(task.stage, Stage::Failed(TaskError::Status(404))));
}

#[test]
fn out_of_order_event_is_ignored() {
    let ctx = ctx();
    let mut task = FetchTask::new("a.txt".to_string());
    assert!(matches!(task.step(&ctx, TaskEvent::Written), TaskAction::Idle));
    assert!(matches!(task.stage, Stage::Start));
}

#[test]
fn one_failure_among_successes_is_reported_once() {
    let (a, pa) = run("a/$name.txt", 200, "A {{name}}");
    let (b, pb) = run("b.txt", 404, "B");
    let (c, pc) = run("c.txt@v1", 200, "C");
    assert_eq!(pa.unwrap().path, "a/proj.txt");
    assert!(pb.is_none());
    assert_eq!(pc.unwrap().content, "C");
    let outcomes = vec![a, b, c];
    assert_eq!(failed_outcomes(&outcomes), vec![1]);
    assert_eq!(outcomes[1].identifier, "b.txt");
}

#[test]
fn no_failure_nothing_reported() {
    let (a, _) = run("a.txt", 200, "A");
    let (b, _) = run("a.txt", 200, "A");
    assert_eq!(failed_outcomes(&vec![a, b]), Vec::<usize>::new());
    assert_eq!(failed_outcomes(&vec![]), Vec::<usize>::new());
}
