use otel_rust_demo::flow::{Action, Answer, Flow, Step, Target, Task, Warning};
use otel_rust_demo::{billing, frontend, gateway};

fn describe(action: &Action) -> String {
    match action {
        Action::Sleep(millis) => format!("sleep {millis}"),
        Action::Proceed => "proceed".to_string(),
        Action::Warn(Warning::DownstreamSlow) => "warn downstream".to_string(),
        Action::Warn(Warning::AuthorizationSlow) => "warn authorization".to_string(),
        Action::Call(Target::Charge) => "call charge".to_string(),
        Action::Call(Target::Process) => "call process".to_string(),
        Action::Reply(reply) => format!("{} {}", reply.status, reply.body),
    }
}

fn run(mut flow: Flow, drawn: &[u64]) -> Vec<String> {
    let mut actions = Vec::new();
    for n in drawn {
        actions.push(describe(&flow.advance(*n).unwrap()));
    }
    assert!(flow.advance(0).is_none());
    assert!(flow.task().is_none());
    assert!(flow.range().is_none());
    actions
}

fn tasks(mut flow: Flow) -> Vec<Task> {
    let mut tasks = Vec::new();
    while let Some(task) = flow.task() {
        tasks.push(task);
        flow.advance(1);
    }
    tasks
}

#[test]
fn work_is_done_step_by_step() {
    assert_eq!(
        run(frontend::do_work(), &[5, 60, 42, 7, 1, 0, 0]),
        vec![
            "sleep 5",
            "sleep 60",
            "proceed",
            "sleep 7",
            "proceed",
            "call charge",
            "200 work done, rows=42",
        ]
    );
}

#[test]
fn slow_downstream_is_warned_about() {
    assert_eq!(
        run(frontend::do_work(), &[20, 10, 100, 40, 0, 0, 0]),
        vec![
            "sleep 20",
            "sleep 10",
            "proceed",
            "sleep 40",
            "warn downstream",
            "call charge",
            "200 work done, rows=100",
        ]
    );
}

#[test]
fn work_fans_out_into_tasks() {
    assert_eq!(
        tasks(frontend::do_work()),
        vec![
            Task::ValidateInput,
            Task::QueryDatabase,
            Task::QueryDatabase,
            Task::CallDownstreamService,
            Task::CallDownstreamService,
            Task::Handler,
            Task::Handler,
        ]
    );
}

#[test]
fn charge_is_made_step_by_step() {
    assert_eq!(
        run(billing::charge(), &[30, 0, 250, 0]),
        vec!["sleep 30", "call process", "proceed", "200 charged 250.00"]
    );
    assert_eq!(
        tasks(billing::charge()),
        vec![Task::VerifyCard, Task::ProcessPayment, Task::Handler, Task::Handler]
    );
}

#[test]
fn payment_is_processed_step_by_step() {
    assert_eq!(
        run(gateway::process_payment(), &[10, 3, 40, 1234, 0]),
        vec!["sleep 10", "proceed", "sleep 40", "proceed", "200 txn 1234"]
    );
    assert_eq!(
        run(gateway::process_payment(), &[60, 0, 5, 9999, 0]),
        vec!["sleep 60", "warn authorization", "sleep 5", "proceed", "200 txn 9999"]
    );
    assert_eq!(
        tasks(gateway::process_payment()),
        vec![Task::Authorize, Task::Authorize, Task::Capture, Task::Handler, Task::Handler]
    );
}

#[test]
fn ranges_are_those_of_the_tasks() {
    let mut flow = frontend::do_work();
    let mut ranges = Vec::new();
    while flow.task().is_some() {
        ranges.push(flow.range());
        flow.advance(1);
    }
    assert_eq!(
        ranges,
        vec![
            Some((5, 20)),
            Some((10, 60)),
            Some((1, 100)),
            Some((5, 40)),
            Some((0, 20)),
            None,
            None,
        ]
    );
    assert_eq!(billing::charge().range(), Some((5, 30)));
    assert_eq!(gateway::process_payment().range(), Some((10, 60)));
}

#[test]
fn clock_drives_a_charge() {
    let mut flow = billing::charge();
    let mut actions = Vec::new();
    while let Some(action) = flow.step().unwrap() {
        actions.push(action);
    }
    assert_eq!(actions.len(), 4);
    assert!(matches!(actions[0], Action::Sleep(millis) if 5 <= millis && millis <= 30));
    assert!(matches!(actions[1], Action::Call(Target::Process)));
    assert!(matches!(actions[2], Action::Proceed));
    match &actions[3] {
        Action::Reply(reply) => {
            assert_eq!(reply.status, 200);
            let amount: u64 = reply
                .body
                .strip_prefix("charged ")
                .unwrap()
                .strip_suffix(".00")
                .unwrap()
                .parse()
                .unwrap();
            assert!(10 <= amount && amount <= 500);
        }
        _ => panic!("no reply"),
    }
}

#[test]
fn a_reply_comes_once_at_the_end() {
    for flow in [frontend::do_work(), billing::charge(), gateway::process_payment()] {
        let last = flow.steps.len() - 1;
        for (i, step) in flow.steps.iter().enumerate() {
            assert_eq!(matches!(step, Step::Finish { .. }), i == last);
        }
    }
}

#[test]
fn answers_tell_of_the_number() {
    assert_eq!(Answer::WorkDone.reply(1).body, "work done, rows=1");
    assert_eq!(Answer::Charged.reply(10).body, "charged 10.00");
    assert_eq!(Answer::Transaction.reply(1000).body, "txn 1000");
}
