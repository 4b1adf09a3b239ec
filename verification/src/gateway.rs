//! The payment gateway: `/process` authorizes a payment and captures it.

use crate::flow::can_be_drawn;
use crate::flow::run;
use crate::flow::total_sleep;
use crate::flow::ActionView;
use crate::flow::Answer;
use crate::flow::Flow;
use crate::flow::Step;
use crate::flow::Task;
use crate::flow::Warning;
use crate::headers::header_contents;
use crate::propagation::extract;
use crate::propagation::Incoming;
use crate::reply::OK;
use crate::text::decimal;
use axum::http::HeaderMap;
use axum::http::HeaderValue;
use vstd::prelude::*;

verus! {

/// Authorizing takes 10 to 60 ms, and one time in 31 it is found to have taken
/// long.
pub open spec fn authorize_steps() -> Seq<Step> {
    seq![
        Step::Sleep { task: Task::Authorize, min: 10, max: 60 },
        Step::WarnOnZero { task: Task::Authorize, max: 30, warning: Warning::AuthorizationSlow },
    ]
}

/// The steps of authorizing the payment.
pub fn authorize() -> (steps: Vec<Step>)
    ensures
        steps@ == authorize_steps(),
{
    vec![
        Step::Sleep { task: Task::Authorize, min: 10, max: 60 },
        Step::WarnOnZero { task: Task::Authorize, max: 30, warning: Warning::AuthorizationSlow },
    ]
}

/// Capturing takes 5 to 40 ms.
pub open spec fn capture_steps() -> Seq<Step> {
    seq![Step::Sleep { task: Task::Capture, min: 5, max: 40 }]
}

/// The steps of capturing the payment.
pub fn capture() -> (steps: Vec<Step>)
    ensures
        steps@ == capture_steps(),
{
    vec![Step::Sleep { task: Task::Capture, min: 5, max: 40 }]
}

/// A payment is authorized and captured, and gets a transaction number of 1000
/// to 9999.
pub open spec fn process_payment_steps() -> Seq<Step> {
    authorize_steps() + capture_steps() + seq![
        Step::Draw { task: Task::Handler, min: 1000, max: 9999 },
        Step::Finish { answer: Answer::Transaction },
    ]
}

/// Simulates processing a payment through an external gateway: a couple of child
/// spans, so this service adds its own little tree to the trace.
pub fn process_payment() -> (flow: Flow)
    ensures
        flow.wf(),
        flow.steps@ == process_payment_steps(),
        flow.steps@.len() == 5,
        flow.steps@[0].range() == Some((10u64, 60u64)),
        flow.steps@[1].range() == Some((0u64, 30u64)),
        flow.steps@[2].range() == Some((5u64, 40u64)),
        flow.steps@[3].range() == Some((1000u64, 9999u64)),
        flow.taken == 0,
        flow.number == 0,
{
    let mut steps = authorize();
    let mut capture = capture();
    steps.append(&mut capture);
    steps.push(Step::Draw { task: Task::Handler, min: 1000, max: 9999 });
    steps.push(Step::Finish { answer: Answer::Transaction });
    assert(steps@ == process_payment_steps());
    Flow::new(steps)
}

/// What `/process` does, in order: it authorizes, warns if that took long,
/// captures, and replies with the number of the transaction. The number has four
/// digits, and the waiting takes 15 to 100 ms in all.
pub proof fn law_process_payment(drawn: Seq<u64>)
    requires
        can_be_drawn(process_payment_steps(), drawn),
    ensures
        run(process_payment_steps(), 0, drawn) == seq![
            ActionView::Sleep(drawn[0]),
            if drawn[1] == 0 {
                ActionView::Warn(Warning::AuthorizationSlow)
            } else {
                ActionView::Proceed
            },
            ActionView::Sleep(drawn[2]),
            ActionView::Proceed,
            ActionView::Reply(200, "txn "@ + decimal(drawn[3] as nat)),
        ],
        decimal(drawn[3] as nat).len() == 4,
        15 <= total_sleep(run(process_payment_steps(), 0, drawn)) <= 100,
{
    let steps = process_payment_steps();
    assert(steps.len() == 5);
    reveal_with_fuel(run, 6);
    reveal_with_fuel(total_sleep, 6);
    reveal_with_fuel(decimal, 5);
    assert(steps[0].admits(drawn[0]) && steps[2].admits(drawn[2]) && steps[3].admits(drawn[3]));
    assert(run(steps, 0, drawn) =~= seq![
        ActionView::Sleep(drawn[0]),
        if drawn[1] == 0 {
            ActionView::Warn(Warning::AuthorizationSlow)
        } else {
            ActionView::Proceed
        },
        ActionView::Sleep(drawn[2]),
        ActionView::Proceed,
        ActionView::Reply(OK, "txn "@ + decimal(drawn[3] as nat)),
    ]);
}

/// What can be drawn for `/process`, and nothing else: 10 to 60 ms to authorize,
/// one of 0 to 30 for the warning, 5 to 40 ms to capture, and a transaction number
/// of 1000 to 9999. The two tasks are spans of their own, in that order.
pub proof fn law_process_payment_draws(drawn: Seq<u64>)
    ensures
        can_be_drawn(process_payment_steps(), drawn) <==> drawn.len() == 5 && 10 <= drawn[0] <= 60
            && drawn[1] <= 30 && 5 <= drawn[2] <= 40 && 1000 <= drawn[3] <= 9999,
        process_payment_steps().map_values(|step: Step| step.belongs_to()) == seq![
            Task::Authorize,
            Task::Authorize,
            Task::Capture,
            Task::Handler,
            Task::Handler,
        ],
{
    let steps = process_payment_steps();
    assert(steps.len() == 5);
    assert(steps.map_values(|step: Step| step.belongs_to()) =~= seq![
        Task::Authorize,
        Task::Authorize,
        Task::Capture,
        Task::Handler,
        Task::Handler,
    ]);
    if can_be_drawn(steps, drawn) {
        assert(steps[0].admits(drawn[0]) && steps[1].admits(drawn[1]) && steps[2].admits(drawn[2])
            && steps[3].admits(drawn[3]));
    }
}

/// Every number from 1000 to 9999 can be that of the transaction, whatever the
/// waits are within their ranges; and of the numbers from 0 to 30 each can decide
/// on the warning, which comes with zero alone.
pub proof fn law_every_transaction_number_can_be_given(
    transaction: u64,
    authorizing: u64,
    chance: u64,
    capturing: u64,
)
    requires
        1000 <= transaction <= 9999,
        10 <= authorizing <= 60,
        chance <= 30,
        5 <= capturing <= 40,
    ensures
        exists|drawn: Seq<u64>|
            can_be_drawn(process_payment_steps(), drawn) && drawn[1] == chance && #[trigger] run(
                process_payment_steps(),
                0,
                drawn,
            ) == seq![
                ActionView::Sleep(authorizing),
                if chance == 0 {
                    ActionView::Warn(Warning::AuthorizationSlow)
                } else {
                    ActionView::Proceed
                },
                ActionView::Sleep(capturing),
                ActionView::Proceed,
                ActionView::Reply(200, "txn "@ + decimal(transaction as nat)),
            ],
{
    let drawn: Seq<u64> = seq![authorizing, chance, capturing, transaction, 0];
    law_process_payment_draws(drawn);
    law_process_payment(drawn);
}

/// Unless the caller sent a valid W3C `traceparent`, each request starts as a
/// fresh root span. Called by the billing service, it continues the existing
/// trace instead.
pub fn propagate_tracing(headers: &HeaderMap<HeaderValue>) -> (incoming: Incoming)
    ensures
        incoming.is_carried_by(header_contents(*headers)),
        incoming.honours_fields(header_contents(*headers)),
{
    extract(headers)
}

} // verus!
