//! The frontend: `/work` does some work of its own and then has the billing
//! service charge for it.

use crate::flow::can_be_drawn;
use crate::flow::run;
use crate::flow::total_sleep;
use crate::flow::ActionView;
use crate::flow::Answer;
use crate::flow::Flow;
use crate::flow::Step;
use crate::flow::Target;
use crate::flow::Task;
use crate::flow::Warning;
use crate::reply::reply;
use crate::reply::Failure;
use crate::reply::Reply;
use crate::reply::INTERNAL_SERVER_ERROR;
use crate::reply::OK;
use crate::text::decimal;
use vstd::prelude::*;

verus! {

/// The greeting.
pub fn hello() -> (r: Reply)
    ensures
        r@ == (OK, "Hello, OpenTelemetry!"@),
{
    reply(OK, "Hello, OpenTelemetry!")
}

/// Always fails, so that there are error spans to look at. It marks the span as
/// failed, with the standard attributes of an exception, so the failure stands
/// out and carries the reason.
pub fn force_error() -> (failure: Failure)
    ensures
        failure.span_error@ == "internal error in otel-rust-demo"@,
        failure.exception_type@ == "InternalError"@,
        failure.exception_message@ == "simulated failure"@,
        failure.reply@ == (INTERNAL_SERVER_ERROR, "simulated failure"@),
{
    Failure {
        span_error: "internal error in otel-rust-demo".to_owned(),
        exception_type: "InternalError".to_owned(),
        exception_message: "simulated failure".to_owned(),
        reply: reply(INTERNAL_SERVER_ERROR, "simulated failure"),
    }
}

/// Validating the input takes 5 to 20 ms.
pub open spec fn validate_input_steps() -> Seq<Step> {
    seq![Step::Sleep { task: Task::ValidateInput, min: 5, max: 20 }]
}

/// The steps of validating the input.
pub fn validate_input() -> (steps: Vec<Step>)
    ensures
        steps@ == validate_input_steps(),
{
    vec![Step::Sleep { task: Task::ValidateInput, min: 5, max: 20 }]
}

/// Querying the database takes 10 to 60 ms and finds 1 to 100 rows.
pub open spec fn query_database_steps() -> Seq<Step> {
    seq![
        Step::Sleep { task: Task::QueryDatabase, min: 10, max: 60 },
        Step::Draw { task: Task::QueryDatabase, min: 1, max: 100 },
    ]
}

/// The steps of querying the database.
pub fn query_database() -> (steps: Vec<Step>)
    ensures
        steps@ == query_database_steps(),
{
    vec![
        Step::Sleep { task: Task::QueryDatabase, min: 10, max: 60 },
        Step::Draw { task: Task::QueryDatabase, min: 1, max: 100 },
    ]
}

/// Calling the downstream service takes 5 to 40 ms, and one time in 21 it is
/// found to be slow.
pub open spec fn call_downstream_service_steps() -> Seq<Step> {
    seq![
        Step::Sleep { task: Task::CallDownstreamService, min: 5, max: 40 },
        Step::WarnOnZero {
            task: Task::CallDownstreamService,
            max: 20,
            warning: Warning::DownstreamSlow,
        },
    ]
}

/// The steps of calling the downstream service.
pub fn call_downstream_service() -> (steps: Vec<Step>)
    ensures
        steps@ == call_downstream_service_steps(),
{
    vec![
        Step::Sleep { task: Task::CallDownstreamService, min: 5, max: 40 },
        Step::WarnOnZero {
            task: Task::CallDownstreamService,
            max: 20,
            warning: Warning::DownstreamSlow,
        },
    ]
}

/// The work is a few tasks, each a span of its own, then a charge by the billing
/// service, then the reply.
pub open spec fn do_work_steps() -> Seq<Step> {
    validate_input_steps() + query_database_steps() + call_downstream_service_steps() + seq![
        Step::Call { task: Task::Handler, target: Target::Charge },
        Step::Finish { answer: Answer::WorkDone },
    ]
}

/// Simulates a small unit of work made up of a few tasks, each its own child
/// span, and then calls the billing service, so a single request produces a
/// trace of many spans in two services.
pub fn do_work() -> (flow: Flow)
    ensures
        flow.wf(),
        flow.steps@ == do_work_steps(),
        flow.steps@.len() == 7,
        flow.steps@[0].range() == Some((5u64, 20u64)),
        flow.steps@[1].range() == Some((10u64, 60u64)),
        flow.steps@[2].range() == Some((1u64, 100u64)),
        flow.steps@[3].range() == Some((5u64, 40u64)),
        flow.steps@[4].range() == Some((0u64, 20u64)),
        flow.taken == 0,
        flow.number == 0,
{
    let mut steps = validate_input();
    let mut query = query_database();
    let mut call = call_downstream_service();
    steps.append(&mut query);
    steps.append(&mut call);
    steps.push(Step::Call { task: Task::Handler, target: Target::Charge });
    steps.push(Step::Finish { answer: Answer::WorkDone });
    assert(steps@ == do_work_steps());
    Flow::new(steps)
}

/// What `/work` does, in order: it validates, queries, calls downstream, warns
/// if that was slow, has the billing service charge, and replies with the number
/// of rows. The rows are 1 to 100, and the waiting takes 20 to 120 ms in all.
/// The reply does not depend on what the billing service says.
pub proof fn law_work(drawn: Seq<u64>)
    requires
        can_be_drawn(do_work_steps(), drawn),
    ensures
        run(do_work_steps(), 0, drawn) == seq![
            ActionView::Sleep(drawn[0]),
            ActionView::Sleep(drawn[1]),
            ActionView::Proceed,
            ActionView::Sleep(drawn[3]),
            if drawn[4] == 0 {
                ActionView::Warn(Warning::DownstreamSlow)
            } else {
                ActionView::Proceed
            },
            ActionView::Call(Target::Charge),
            ActionView::Reply(200, "work done, rows="@ + decimal(drawn[2] as nat)),
        ],
        1 <= drawn[2] <= 100,
        20 <= total_sleep(run(do_work_steps(), 0, drawn)) <= 120,
{
    let steps = do_work_steps();
    assert(steps.len() == 7);
    reveal_with_fuel(run, 8);
    reveal_with_fuel(total_sleep, 8);
    assert(steps[0].admits(drawn[0]) && steps[1].admits(drawn[1]) && steps[2].admits(drawn[2])
        && steps[3].admits(drawn[3]));
    assert(run(steps, 0, drawn) =~= seq![
        ActionView::Sleep(drawn[0]),
        ActionView::Sleep(drawn[1]),
        ActionView::Proceed,
        ActionView::Sleep(drawn[3]),
        if drawn[4] == 0 {
            ActionView::Warn(Warning::DownstreamSlow)
        } else {
            ActionView::Proceed
        },
        ActionView::Call(Target::Charge),
        ActionView::Reply(OK, "work done, rows="@ + decimal(drawn[2] as nat)),
    ]);
}

/// What can be drawn for `/work`, and nothing else: 5 to 20 ms to validate, 10 to
/// 60 ms to query, 1 to 100 rows, 5 to 40 ms downstream, and for the warning one of
/// 0 to 20. The tasks are spans of their own, in that order.
pub proof fn law_work_draws(drawn: Seq<u64>)
    ensures
        can_be_drawn(do_work_steps(), drawn) <==> drawn.len() == 7 && 5 <= drawn[0] <= 20 && 10
            <= drawn[1] <= 60 && 1 <= drawn[2] <= 100 && 5 <= drawn[3] <= 40 && drawn[4] <= 20,
        do_work_steps().map_values(|step: Step| step.belongs_to()) == seq![
            Task::ValidateInput,
            Task::QueryDatabase,
            Task::QueryDatabase,
            Task::CallDownstreamService,
            Task::CallDownstreamService,
            Task::Handler,
            Task::Handler,
        ],
{
    let steps = do_work_steps();
    assert(steps.len() == 7);
    assert(steps.map_values(|step: Step| step.belongs_to()) =~= seq![
        Task::ValidateInput,
        Task::QueryDatabase,
        Task::QueryDatabase,
        Task::CallDownstreamService,
        Task::CallDownstreamService,
        Task::Handler,
        Task::Handler,
    ]);
    if can_be_drawn(steps, drawn) {
        assert(steps[0].admits(drawn[0]) && steps[1].admits(drawn[1]) && steps[2].admits(drawn[2])
            && steps[3].admits(drawn[3]) && steps[4].admits(drawn[4]));
    }
}

/// Every number of rows from 1 to 100 can be found, whatever the waits are within
/// their ranges, with a warning and without.
pub proof fn law_every_number_of_rows_can_be_found(
    rows: u64,
    validating: u64,
    querying: u64,
    calling: u64,
    chance: u64,
)
    requires
        1 <= rows <= 100,
        5 <= validating <= 20,
        10 <= querying <= 60,
        5 <= calling <= 40,
        chance <= 20,
    ensures
        exists|drawn: Seq<u64>|
            can_be_drawn(do_work_steps(), drawn) && #[trigger] run(do_work_steps(), 0, drawn)
                == seq![
                ActionView::Sleep(validating),
                ActionView::Sleep(querying),
                ActionView::Proceed,
                ActionView::Sleep(calling),
                if chance == 0 {
                    ActionView::Warn(Warning::DownstreamSlow)
                } else {
                    ActionView::Proceed
                },
                ActionView::Call(Target::Charge),
                ActionView::Reply(200, "work done, rows="@ + decimal(rows as nat)),
            ],
{
    let drawn: Seq<u64> = seq![validating, querying, rows, calling, chance, 0, 0];
    law_work_draws(drawn);
    law_work(drawn);
}

} // verus!
