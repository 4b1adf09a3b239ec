//! The billing service: `/charge` checks a card and has the payment gateway
//! process the payment.

use crate::flow::can_be_drawn;
use crate::flow::run;
use crate::flow::total_sleep;
use crate::flow::ActionView;
use crate::flow::Answer;
use crate::flow::Flow;
use crate::flow::Step;
use crate::flow::Target;
use crate::flow::Task;
use crate::headers::field_text;
use crate::headers::header_contents;
use crate::headers::law_field_is_read_byte_by_byte;
use crate::headers::text_of_field;
use crate::propagation::baggage_map;
use crate::propagation::carried_baggage;
use crate::propagation::distinct_keys;
use crate::propagation::extract;
use crate::propagation::lemma_baggage_map;
use crate::propagation::BaggageItem;
use crate::propagation::Incoming;
use crate::reply::reply;
use crate::reply::Failure;
use crate::reply::OK;
use crate::reply::PAYMENT_REQUIRED;
use crate::text::decimal;
use axum::http::HeaderMap;
use axum::http::HeaderValue;
use vstd::prelude::*;

verus! {

/// Checking the card takes 5 to 30 ms.
pub open spec fn verify_card_steps() -> Seq<Step> {
    seq![Step::Sleep { task: Task::VerifyCard, min: 5, max: 30 }]
}

/// The steps of checking the card.
pub fn verify_card() -> (steps: Vec<Step>)
    ensures
        steps@ == verify_card_steps(),
{
    vec![Step::Sleep { task: Task::VerifyCard, min: 5, max: 30 }]
}

/// Processing the payment is left to the payment gateway.
pub open spec fn process_payment_steps() -> Seq<Step> {
    seq![Step::Call { task: Task::ProcessPayment, target: Target::Process }]
}

/// The steps of processing the payment.
pub fn process_payment() -> (steps: Vec<Step>)
    ensures
        steps@ == process_payment_steps(),
{
    vec![Step::Call { task: Task::ProcessPayment, target: Target::Process }]
}

/// A charge checks the card, has the payment processed, and charges 10 to 500.
pub open spec fn charge_steps() -> Seq<Step> {
    verify_card_steps() + process_payment_steps() + seq![
        Step::Draw { task: Task::Handler, min: 10, max: 500 },
        Step::Finish { answer: Answer::Charged },
    ]
}

/// Simulates charging a payment method: a couple of child spans, so the
/// cross-service trace has its own little tree.
pub fn charge() -> (flow: Flow)
    ensures
        flow.wf(),
        flow.steps@ == charge_steps(),
        flow.steps@.len() == 4,
        flow.steps@[0].range() == Some((5u64, 30u64)),
        flow.steps@[2].range() == Some((10u64, 500u64)),
        flow.taken == 0,
        flow.number == 0,
{
    let mut steps = verify_card();
    let mut process = process_payment();
    steps.append(&mut process);
    steps.push(Step::Draw { task: Task::Handler, min: 10, max: 500 });
    steps.push(Step::Finish { answer: Answer::Charged });
    assert(steps@ == charge_steps());
    Flow::new(steps)
}

/// What `/charge` does, in order: it checks the card, has the payment gateway
/// process the payment, and replies with the amount. The amount is 10 to 500,
/// and the waiting takes 5 to 30 ms. The charge is made whatever the gateway
/// says, and also where the gateway is not there.
pub proof fn law_charge(drawn: Seq<u64>)
    requires
        can_be_drawn(charge_steps(), drawn),
    ensures
        run(charge_steps(), 0, drawn) == seq![
            ActionView::Sleep(drawn[0]),
            ActionView::Call(Target::Process),
            ActionView::Proceed,
            ActionView::Reply(200, "charged "@ + decimal(drawn[2] as nat) + ".00"@),
        ],
        10 <= drawn[2] <= 500,
        5 <= total_sleep(run(charge_steps(), 0, drawn)) <= 30,
{
    let steps = charge_steps();
    assert(steps.len() == 4);
    reveal_with_fuel(run, 5);
    reveal_with_fuel(total_sleep, 5);
    assert(steps[0].admits(drawn[0]) && steps[2].admits(drawn[2]));
    assert(run(steps, 0, drawn) =~= seq![
        ActionView::Sleep(drawn[0]),
        ActionView::Call(Target::Process),
        ActionView::Proceed,
        ActionView::Reply(OK, "charged "@ + decimal(drawn[2] as nat) + ".00"@),
    ]);
}

/// What can be drawn for `/charge`, and nothing else: 5 to 30 ms to check the card,
/// and an amount of 10 to 500. The two tasks are spans of their own, in that order.
pub proof fn law_charge_draws(drawn: Seq<u64>)
    ensures
        can_be_drawn(charge_steps(), drawn) <==> drawn.len() == 4 && 5 <= drawn[0] <= 30 && 10
            <= drawn[2] <= 500,
        charge_steps().map_values(|step: Step| step.belongs_to()) == seq![
            Task::VerifyCard,
            Task::ProcessPayment,
            Task::Handler,
            Task::Handler,
        ],
{
    let steps = charge_steps();
    assert(steps.len() == 4);
    assert(steps.map_values(|step: Step| step.belongs_to()) =~= seq![
        Task::VerifyCard,
        Task::ProcessPayment,
        Task::Handler,
        Task::Handler,
    ]);
    if can_be_drawn(steps, drawn) {
        assert(steps[0].admits(drawn[0]) && steps[2].admits(drawn[2]));
    }
}

/// Every amount from 10 to 500 can be charged, after every wait from 5 to 30 ms.
pub proof fn law_every_amount_can_be_charged(amount: u64, wait: u64)
    requires
        10 <= amount <= 500,
        5 <= wait <= 30,
    ensures
        exists|drawn: Seq<u64>|
            can_be_drawn(charge_steps(), drawn) && #[trigger] run(charge_steps(), 0, drawn) == seq![
                ActionView::Sleep(wait),
                ActionView::Call(Target::Process),
                ActionView::Proceed,
                ActionView::Reply(200, "charged "@ + decimal(amount as nat) + ".00"@),
            ],
{
    let drawn: Seq<u64> = seq![wait, 0, amount, 0];
    law_charge_draws(drawn);
    law_charge(drawn);
}

/// Simulates a declined payment. It marks the span as failed, with the standard
/// attributes of an exception, so the failure stands out and carries the reason.
pub fn force_error() -> (declined: Failure)
    ensures
        declined.span_error@ == "card declined by billing-service"@,
        declined.exception_type@ == "CardDeclined"@,
        declined.exception_message@ == "payment method rejected"@,
        declined.reply@ == (PAYMENT_REQUIRED, "card declined"@),
{
    Failure {
        span_error: "card declined by billing-service".to_owned(),
        exception_type: "CardDeclined".to_owned(),
        exception_message: "payment method rejected".to_owned(),
        reply: reply(PAYMENT_REQUIRED, "card declined"),
    }
}

/// The span of an incoming request: the span and the baggage of the caller, and
/// the attributes it gets.
pub struct RequestSpan {
    pub incoming: Incoming,
    /// Who the request is for, by the caller's baggage.
    pub user_id: String,
    pub route: String,
    pub client: String,
    /// The other baggage items, each a name and a value.
    pub other_items: Vec<(String, String)>,
}

/// What stands in for a user or a client that is not named.
pub open spec fn text_or_unknown(text: Option<Seq<char>>) -> Seq<char> {
    match text {
        Some(t) => t,
        None => "unknown"@,
    }
}

/// The user that baggage names, if it names one.
pub open spec fn user_in(baggage: Map<Seq<char>, (Seq<char>, Seq<char>)>) -> Option<Seq<char>> {
    if baggage.contains_key("user.id"@) {
        Some(baggage["user.id"@].0)
    } else {
        None
    }
}

/// The names and values of the baggage items that do not name the user.
pub open spec fn other_items_of(items: Seq<BaggageItem>) -> Seq<(Seq<char>, Seq<char>)>
    decreases items.len(),
{
    if items.len() == 0 {
        Seq::empty()
    } else if items.last().key@ == "user.id"@ {
        other_items_of(items.drop_last())
    } else {
        other_items_of(items.drop_last()).push((items.last().key@, items.last().value@))
    }
}

/// Pairs of texts, as characters.
pub open spec fn pairs_of(pairs: Seq<(String, String)>) -> Seq<(Seq<char>, Seq<char>)> {
    pairs.map_values(|pair: (String, String)| (pair.0@, pair.1@))
}

/// Unless the caller sent a valid W3C `traceparent`, each request starts as a
/// fresh root span; otherwise the span of the caller becomes its parent. The
/// baggage items that the caller attached, `user.id` among them, land on the
/// span as attributes, beside the route and the client.
pub fn propagate_tracing(headers: &HeaderMap<HeaderValue>, path: &str) -> (span: RequestSpan)
    ensures
        span.incoming.is_carried_by(header_contents(*headers)),
        span.incoming.honours_fields(header_contents(*headers)),
        span.user_id@ == text_or_unknown(user_in(carried_baggage(header_contents(*headers)))),
        span.route@ == path@,
        span.client@ == text_or_unknown(text_of_field(header_contents(*headers), "user-agent"@)),
        pairs_of(span.other_items@) == other_items_of(span.incoming.baggage@),
        header_contents(*headers).contains_key("user-agent"@) && header_contents(
            *headers,
        )["user-agent"@].len() > 0 && (forall|i: int|
            0 <= i < header_contents(*headers)["user-agent"@][0].len() ==> 32 <= (
            #[trigger] header_contents(*headers)["user-agent"@][0][i]) <= 126 || header_contents(
                *headers,
            )["user-agent"@][0][i] == 9) ==> span.client@.len() == header_contents(
            *headers,
        )["user-agent"@][0].len() && forall|i: int|
            0 <= i < span.client@.len() ==> (#[trigger] span.client@[i]) as int == header_contents(
                *headers,
            )["user-agent"@][0][i],
        !carried_baggage(header_contents(*headers)).contains_key("user.id"@) ==> span.user_id@
            == "unknown"@,
        carried_baggage(header_contents(*headers)).contains_key("user.id"@) ==> span.user_id@
            == carried_baggage(header_contents(*headers))["user.id"@].0,
{
    let incoming = extract(headers);
    let (user, other_items) = split_user(&incoming.baggage);
    let user_id = match user {
        Some(user) => user,
        None => "unknown".to_owned(),
    };
    proof {
        reveal_strlit("user-agent");
        law_field_is_read_byte_by_byte(header_contents(*headers), "user-agent"@);
    }
    let client = match field_text(headers, "user-agent") {
        Some(text) => text.to_owned(),
        None => "unknown".to_owned(),
    };
    RequestSpan { incoming, user_id, route: path.to_owned(), client, other_items }
}

/// Parts the user that baggage names from the other items.
fn split_user(items: &Vec<BaggageItem>) -> (parted: (Option<String>, Vec<(String, String)>))
    ensures
        user_in(baggage_map(items@)) == (match parted.0 {
            Some(user) => Some(user@),
            None => None,
        }),
        pairs_of(parted.1@) == other_items_of(items@),
{
    let name = "user.id".to_owned();
    let mut user: Option<String> = None;
    let mut others: Vec<(String, String)> = Vec::new();
    let mut i: usize = 0;
    assert(items@.take(0) =~= Seq::<BaggageItem>::empty());
    while i < items.len()
        invariant
            0 <= i <= items@.len(),
            name@ == "user.id"@,
            user_in(baggage_map(items@.take(i as int))) == (match user {
                Some(u) => Some(u@),
                None => None,
            }),
            pairs_of(others@) == other_items_of(items@.take(i as int)),
        decreases items@.len() - i,
    {
        assert(items@.take(i + 1).drop_last() =~= items@.take(i as int));
        let item = &items[i];
        if item.key == name {
            user = Some(item.value.clone());
        } else {
            let ghost before = others@;
            others.push((item.key.clone(), item.value.clone()));
            assert(pairs_of(others@) =~= pairs_of(before).push((item.key@, item.value@)));
        }
        i = i + 1;
    }
    assert(items@.take(items@.len() as int) =~= items@);
    (user, others)
}

/// The items that do not name the user are those of the baggage, each with its
/// value.
proof fn lemma_other_items(items: Seq<BaggageItem>)
    ensures
        forall|i: int|
            0 <= i < items.len() && (#[trigger] items[i]).key@ != "user.id"@ ==> other_items_of(
                items,
            ).contains((items[i].key@, items[i].value@)),
        forall|pair: (Seq<char>, Seq<char>)| #[trigger]
            other_items_of(items).contains(pair) ==> pair.0 != "user.id"@ && exists|i: int|
                0 <= i < items.len() && (#[trigger] items[i]).key@ == pair.0 && items[i].value@
                    == pair.1,
    decreases items.len(),
{
    if items.len() > 0 {
        let before = items.drop_last();
        let last = (items.last().key@, items.last().value@);
        lemma_other_items(before);
        assert forall|i: int|
            0 <= i < items.len() && (#[trigger] items[i]).key@
                != "user.id"@ implies other_items_of(items).contains(
            (items[i].key@, items[i].value@),
        ) by {
            if i < items.len() - 1 {
                assert(before[i] == items[i]);
                let k = choose|k: int|
                    0 <= k < other_items_of(before).len() && other_items_of(before)[k] == (
                        items[i].key@,
                        items[i].value@,
                    );
                assert(other_items_of(items)[k] == other_items_of(before)[k]);
            } else {
                assert(other_items_of(items).last() == last);
            }
        }
        assert forall|pair: (Seq<char>, Seq<char>)| #[trigger]
            other_items_of(items).contains(pair) implies pair.0 != "user.id"@ && exists|i: int|
            0 <= i < items.len() && (#[trigger] items[i]).key@ == pair.0 && items[i].value@
                == pair.1 by {
            let k = choose|k: int|
                0 <= k < other_items_of(items).len() && other_items_of(items)[k] == pair;
            if k < other_items_of(before).len() {
                assert(other_items_of(before)[k] == pair);
                assert(other_items_of(before).contains(pair));
                let i = choose|i: int|
                    0 <= i < before.len() && (#[trigger] before[i]).key@ == pair.0
                        && before[i].value@ == pair.1;
                assert(items[i] == before[i]);
            } else {
                assert(items[items.len() - 1].key@ == pair.0);
            }
        }
    }
}

/// Where no name occurs twice, none does among the items that do not name the
/// user.
proof fn lemma_other_items_differ(items: Seq<BaggageItem>)
    requires
        distinct_keys(items),
    ensures
        forall|i: int, j: int|
            0 <= i < j < other_items_of(items).len() ==> (#[trigger] other_items_of(items)[i]).0 != (
            #[trigger] other_items_of(items)[j]).0,
    decreases items.len(),
{
    if items.len() > 0 {
        let before = items.drop_last();
        lemma_other_items_differ(before);
        lemma_other_items(before);
        assert forall|i: int, j: int| 0 <= i < j < other_items_of(items).len() implies (
        #[trigger] other_items_of(items)[i]).0 != (#[trigger] other_items_of(items)[j]).0 by {
            assert(other_items_of(before)[i] == other_items_of(items)[i]);
            if j < other_items_of(before).len() {
                assert(other_items_of(before)[j] == other_items_of(items)[j]);
            } else {
                let pair = other_items_of(before)[i];
                assert(other_items_of(before).contains(pair));
                let k = choose|k: int|
                    0 <= k < before.len() && (#[trigger] before[k]).key@ == pair.0
                        && before[k].value@ == pair.1;
                assert(items[k] == before[k]);
                assert(items[k].key@ != items[items.len() - 1].key@);
            }
        }
    }
}

/// Every baggage item that the caller attached lands on the span, with its
/// value: `user.id` as the user, and any other under its own name, once. Nothing
/// else does, and without `user.id` the user is unknown.
pub proof fn law_baggage_lands_on_the_span(
    contents: Map<Seq<char>, Seq<Seq<u8>>>,
    span: RequestSpan,
    key: Seq<char>,
)
    requires
        span.incoming.is_carried_by(contents),
        span.user_id@ == text_or_unknown(user_in(carried_baggage(contents))),
        pairs_of(span.other_items@) == other_items_of(span.incoming.baggage@),
    ensures
        carried_baggage(contents).contains_key(key) ==> if key == "user.id"@ {
            span.user_id@ == carried_baggage(contents)[key].0
        } else {
            pairs_of(span.other_items@).contains((key, carried_baggage(contents)[key].0))
        },
        forall|value: Seq<char>| #[trigger]
            pairs_of(span.other_items@).contains((key, value)) ==> carried_baggage(
                contents,
            ).contains_key(key) && carried_baggage(contents)[key].0 == value,
        !carried_baggage(contents).contains_key("user.id"@) ==> span.user_id@ == "unknown"@,
        forall|i: int, j: int|
            0 <= i < j < span.other_items@.len() ==> (#[trigger] span.other_items@[i]).0@ != (
            #[trigger] span.other_items@[j]).0@,
{
    let items = span.incoming.baggage@;
    lemma_baggage_map(items);
    lemma_other_items(items);
    lemma_other_items_differ(items);
    assert forall|i: int, j: int| 0 <= i < j < span.other_items@.len() implies (
    #[trigger] span.other_items@[i]).0@ != (#[trigger] span.other_items@[j]).0@ by {
        assert(pairs_of(span.other_items@)[i].0 == span.other_items@[i].0@);
        assert(pairs_of(span.other_items@)[j].0 == span.other_items@[j].0@);
    }
    if carried_baggage(contents).contains_key(key) && key != "user.id"@ {
        let i = choose|i: int| 0 <= i < items.len() && (#[trigger] items[i]).key@ == key;
        assert(other_items_of(items).contains((items[i].key@, items[i].value@)));
    }
    assert forall|value: Seq<char>| #[trigger]
        pairs_of(span.other_items@).contains((key, value)) implies carried_baggage(
        contents,
    ).contains_key(key) && carried_baggage(contents)[key].0 == value by {
        assert(other_items_of(items).contains((key, value)));
        let i = choose|i: int|
            0 <= i < items.len() && (#[trigger] items[i]).key@ == key && items[i].value@ == value;
        assert(baggage_map(items).contains_pair(
            items[i].key@,
            (items[i].value@, items[i].metadata@),
        ));
    }
}

/// The client is what the caller calls itself: where the first value of the field
/// `user-agent` is made of visible ASCII characters, spaces and tabs, of whatever
/// length, it is that value, byte by byte. It is unknown where the field is missing
/// or holds any other byte, and only there.
pub proof fn law_client_is_the_user_agent(
    contents: Map<Seq<char>, Seq<Seq<u8>>>,
    span: RequestSpan,
)
    requires
        span.client@ == text_or_unknown(text_of_field(contents, "user-agent"@)),
    ensures
        !contents.contains_key("user-agent"@) || contents["user-agent"@].len() == 0 ==> span.client@
            == "unknown"@,
        contents.contains_key("user-agent"@) && contents["user-agent"@].len() > 0 && (exists|i: int|
            0 <= i < contents["user-agent"@][0].len() && !(32 <= (
            #[trigger] contents["user-agent"@][0][i]) <= 126) && contents["user-agent"@][0][i] != 9)
            ==> span.client@ == "unknown"@,
        contents.contains_key("user-agent"@) && contents["user-agent"@].len() > 0 && (forall|i: int|
            0 <= i < contents["user-agent"@][0].len() ==> 32 <= (
            #[trigger] contents["user-agent"@][0][i]) <= 126 || contents["user-agent"@][0][i] == 9)
            ==> span.client@.len() == contents["user-agent"@][0].len() && forall|i: int|
            0 <= i < span.client@.len() ==> (#[trigger] span.client@[i]) as int
                == contents["user-agent"@][0][i],
{
    law_field_is_read_byte_by_byte(contents, "user-agent"@);
}

} // verus!
