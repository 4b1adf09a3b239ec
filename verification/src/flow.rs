//! Requests that take several steps: what is to be done next, and what the
//! reply is.
//!
//! The steps that wait, that ask another service or that report something are
//! handed out one by one as actions, for the caller to perform.

use crate::clock::drawn_at;
use crate::clock::fraction_of_second;
use crate::clock::is_range;
use crate::clock::law_reading_fixes_the_number;
use crate::clock::pseudo_random_range;
use crate::clock::time_since_epoch;
use crate::clock::ClockBeforeEpoch;
use crate::reply::Reply;
use crate::reply::OK;
use crate::text::append_decimal;
use crate::text::decimal;
use std::time::SystemTime;
use vstd::prelude::*;

verus! {

/// The task that a step belongs to. Each task is a span of its own in the trace,
/// below that of the handler.
#[derive(Clone, Copy, Debug, PartialEq, Eq, Structural)]
pub enum Task {
    Handler,
    ValidateInput,
    QueryDatabase,
    CallDownstreamService,
    VerifyCard,
    ProcessPayment,
    Authorize,
    Capture,
}

/// A request to another service.
#[derive(Clone, Copy, Debug, PartialEq, Eq, Structural)]
pub enum Target {
    /// `/charge` of the billing service.
    Charge,
    /// `/process` of the payment gateway.
    Process,
}

/// What is worth a warning.
#[derive(Clone, Copy, Debug, PartialEq, Eq, Structural)]
pub enum Warning {
    DownstreamSlow,
    AuthorizationSlow,
}

/// What a reply tells of the number that was drawn.
#[derive(Clone, Copy, Debug, PartialEq, Eq, Structural)]
pub enum Answer {
    WorkDone,
    Charged,
    Transaction,
}

/// A step of a request.
#[derive(Clone, Copy, Debug, PartialEq, Eq, Structural)]
pub enum Step {
    /// Wait for a number of milliseconds that is drawn from a range.
    Sleep { task: Task, min: u64, max: u64 },
    /// Draw the number that the reply tells of.
    Draw { task: Task, min: u64, max: u64 },
    /// Draw a number up to `max`, and warn if it is zero.
    WarnOnZero { task: Task, max: u64, warning: Warning },
    /// Ask another service. What it replies makes no difference.
    Call { task: Task, target: Target },
    /// Reply.
    Finish { answer: Answer },
}

impl Step {
    /// The range that the step draws a number from, if it draws one.
    pub open spec fn range(self) -> Option<(u64, u64)> {
        match self {
            Step::Sleep { min, max, .. } => Some((min, max)),
            Step::Draw { min, max, .. } => Some((min, max)),
            Step::WarnOnZero { max, .. } => Some((0, max)),
            Step::Call { .. } => None,
            Step::Finish { .. } => None,
        }
    }

    /// Whether the step can draw the number; any will do for a step that draws
    /// none.
    pub open spec fn admits(self, n: u64) -> bool {
        self.range() matches Some((min, max)) ==> min <= n <= max
    }

    /// Whether the step draws the number at some reading of the clock; any will
    /// do for a step that draws none.
    pub open spec fn draws(self, n: u64) -> bool {
        self.range() matches Some((min, max)) ==> exists|reading: SystemTime|
            Ok::<u64, ClockBeforeEpoch>(n) == #[trigger] drawn_at(reading, min, max)
    }

    /// Whether the step draws no number at some reading of the clock: it needs
    /// one, and the reading lies before the Unix epoch.
    pub open spec fn can_fail(self) -> bool {
        self.range() matches Some((min, max)) && exists|reading: SystemTime|
            Err::<u64, ClockBeforeEpoch>(ClockBeforeEpoch) == #[trigger] drawn_at(
                reading,
                min,
                max,
            )
    }

    /// The task that the step belongs to.
    pub open spec fn belongs_to(self) -> Task {
        match self {
            Step::Sleep { task, .. } => task,
            Step::Draw { task, .. } => task,
            Step::WarnOnZero { task, .. } => task,
            Step::Call { task, .. } => task,
            Step::Finish { .. } => Task::Handler,
        }
    }

    /// The number that the reply will tell of, after the step drew `n`.
    pub open spec fn number_after(self, n: u64, number: u64) -> u64 {
        match self {
            Step::Draw { .. } => n,
            _ => number,
        }
    }

    /// What is to be done, where the step drew `n` and the reply is to tell of
    /// `number`.
    pub open spec fn action(self, n: u64, number: u64) -> ActionView {
        match self {
            Step::Sleep { .. } => ActionView::Sleep(n),
            Step::Draw { .. } => ActionView::Proceed,
            Step::WarnOnZero { warning, .. } => if n == 0 {
                ActionView::Warn(warning)
            } else {
                ActionView::Proceed
            },
            Step::Call { target, .. } => ActionView::Call(target),
            Step::Finish { answer } => ActionView::Reply(OK, answer.body(number)),
        }
    }
}

impl Answer {
    /// The text of the reply that tells of a number.
    pub open spec fn body(self, number: u64) -> Seq<char> {
        match self {
            Answer::WorkDone => "work done, rows="@ + decimal(number as nat),
            Answer::Charged => "charged "@ + decimal(number as nat) + ".00"@,
            Answer::Transaction => "txn "@ + decimal(number as nat),
        }
    }

    /// The reply that tells of a number.
    pub fn reply(self, number: u64) -> (r: Reply)
        ensures
            r@ == (OK, self.body(number)),
    {
        let mut body = match self {
            Answer::WorkDone => "work done, rows=".to_owned(),
            Answer::Charged => "charged ".to_owned(),
            Answer::Transaction => "txn ".to_owned(),
        };
        append_decimal(&mut body, number);
        if self == Answer::Charged {
            body.append(".00");
        }
        Reply { status: OK, body }
    }
}

/// What is to be done next.
pub enum Action {
    /// Wait for so many milliseconds.
    Sleep(u64),
    /// Go on at once.
    Proceed,
    /// Warn, and go on.
    Warn(Warning),
    /// Ask another service, and go on whatever it replies.
    Call(Target),
    /// Send the reply. Nothing is left to be done.
    Reply(Reply),
}

/// What is to be done next, with the reply as a status and a text.
pub ghost enum ActionView {
    Sleep(u64),
    Proceed,
    Warn(Warning),
    Call(Target),
    Reply(u16, Seq<char>),
}

impl View for Action {
    type V = ActionView;

    open spec fn view(&self) -> ActionView {
        match *self {
            Action::Sleep(millis) => ActionView::Sleep(millis),
            Action::Proceed => ActionView::Proceed,
            Action::Warn(warning) => ActionView::Warn(warning),
            Action::Call(target) => ActionView::Call(target),
            Action::Reply(r) => ActionView::Reply(r.status, r.body@),
        }
    }
}

/// Whether every step that draws a number can draw one.
pub open spec fn can_be_taken(steps: Seq<Step>) -> bool {
    forall|i: int|
        0 <= i < steps.len() ==> ((#[trigger] steps[i]).range() matches Some((min, max))
            ==> is_range(min, max))
}

/// A request on its way: its steps, how many of them are taken, and the number
/// that the reply will tell of.
pub struct Flow {
    pub steps: Vec<Step>,
    pub taken: usize,
    pub number: u64,
}

impl Flow {
    /// Whether the steps can be taken.
    pub open spec fn wf(self) -> bool {
        self.taken <= self.steps@.len() && can_be_taken(self.steps@)
    }

    /// Whether all steps are taken.
    pub open spec fn is_over(self) -> bool {
        self.taken == self.steps@.len()
    }

    /// The step that comes next.
    pub open spec fn next(self) -> Step {
        self.steps@[self.taken as int]
    }

    /// The steps that are left.
    pub open spec fn rest(self) -> Seq<Step> {
        self.steps@.skip(self.taken as int)
    }

    /// Whether `after` is this flow with one more step taken, one that drew `n`.
    pub open spec fn steps_to(self, n: u64, after: Flow) -> bool {
        &&& after.steps@ == self.steps@
        &&& after.taken == self.taken + 1
        &&& after.number == self.next().number_after(n, self.number)
    }

    /// A request at its start.
    pub fn new(steps: Vec<Step>) -> (flow: Flow)
        requires
            can_be_taken(steps@),
        ensures
            flow.wf(),
            flow.steps@ == steps@,
            flow.taken == 0,
            flow.number == 0,
    {
        Flow { steps, taken: 0, number: 0 }
    }

    /// The task that the next step belongs to.
    pub fn task(&self) -> (task: Option<Task>)
        requires
            self.wf(),
        ensures
            task == (if self.is_over() {
                None
            } else {
                Some(self.next().belongs_to())
            }),
    {
        if self.taken < self.steps.len() {
            Some(
                match self.steps[self.taken] {
                    Step::Sleep { task, .. } => task,
                    Step::Draw { task, .. } => task,
                    Step::WarnOnZero { task, .. } => task,
                    Step::Call { task, .. } => task,
                    Step::Finish { .. } => Task::Handler,
                },
            )
        } else {
            None
        }
    }

    /// The range that the next step draws a number from.
    pub fn range(&self) -> (range: Option<(u64, u64)>)
        requires
            self.wf(),
        ensures
            range == (if self.is_over() {
                None
            } else {
                self.next().range()
            }),
            range matches Some((min, max)) ==> is_range(min, max),
    {
        if self.taken < self.steps.len() {
            match self.steps[self.taken] {
                Step::Sleep { min, max, .. } => Some((min, max)),
                Step::Draw { min, max, .. } => Some((min, max)),
                Step::WarnOnZero { max, .. } => Some((0, max)),
                Step::Call { .. } => None,
                Step::Finish { .. } => None,
            }
        } else {
            None
        }
    }

    /// Takes the next step with the number that was drawn for it, and tells what
    /// is to be done. There is nothing to be done once all steps are taken.
    pub fn advance(&mut self, n: u64) -> (action: Option<Action>)
        requires
            old(self).wf(),
        ensures
            final(self).wf(),
            action is None <==> old(self).is_over(),
            action is None ==> *final(self) == *old(self),
            action matches Some(a) ==> {
                &&& old(self).steps_to(n, *final(self))
                &&& a@ == old(self).next().action(n, old(self).number)
            },
    {
        if self.taken >= self.steps.len() {
            return None;
        }
        let step = self.steps[self.taken];
        let action = match step {
            Step::Sleep { .. } => Action::Sleep(n),
            Step::Draw { .. } => Action::Proceed,
            Step::WarnOnZero { warning, .. } => if n == 0 {
                Action::Warn(warning)
            } else {
                Action::Proceed
            },
            Step::Call { target, .. } => Action::Call(target),
            Step::Finish { answer } => Action::Reply(answer.reply(self.number)),
        };
        match step {
            Step::Draw { .. } => {
                self.number = n;
            },
            _ => {},
        }
        self.taken = self.taken + 1;
        Some(action)
    }

    /// Takes the next step, with a number drawn from the clock where the step
    /// needs one. Where the clock stands before the Unix epoch, such a step is
    /// not taken, and only there.
    pub fn step(&mut self) -> (action: Result<Option<Action>, ClockBeforeEpoch>)
        requires
            old(self).wf(),
        ensures
            final(self).wf(),
            action is Err ==> *final(self) == *old(self) && !old(self).is_over()
                && old(self).next().can_fail(),
            action matches Ok(None) ==> old(self).is_over() && *final(self) == *old(self),
            action matches Ok(Some(a)) ==> {
                &&& !old(self).is_over()
                &&& exists|n: u64|
                    old(self).next().draws(n) && old(self).next().admits(n)
                        && old(self).steps_to(n, *final(self)) && a@ == #[trigger] old(
                        self,
                    ).next().action(n, old(self).number)
            },
    {
        match self.range() {
            Some((min, max)) => match pseudo_random_range(min, max) {
                Ok(n) => {
                    assert(old(self).next().admits(n) && old(self).next().draws(n));
                    Ok(self.advance(n))
                },
                Err(e) => Err(e),
            },
            None => {
                let n: u64 = 0;
                assert(!self.is_over() ==> old(self).next().admits(n) && old(self).next().draws(n));
                Ok(self.advance(n))
            },
        }
    }
}

/// What is done when steps are taken one after another, where they draw the
/// given numbers in turn, a step that draws none passing over its number.
pub open spec fn run(steps: Seq<Step>, number: u64, drawn: Seq<u64>) -> Seq<ActionView>
    decreases steps.len(),
{
    if steps.len() == 0 {
        Seq::empty()
    } else {
        seq![steps[0].action(drawn[0], number)] + run(
            steps.drop_first(),
            steps[0].number_after(drawn[0], number),
            drawn.drop_first(),
        )
    }
}

/// Whether there is a number for each step, and it is one that the step can
/// draw.
pub open spec fn can_be_drawn(steps: Seq<Step>, drawn: Seq<u64>) -> bool {
    &&& drawn.len() == steps.len()
    &&& forall|i: int| 0 <= i < steps.len() ==> (#[trigger] steps[i]).admits(drawn[i])
}

/// Whether the steps end in a reply, and reply only there.
pub open spec fn ends_in_reply(steps: Seq<Step>) -> bool {
    &&& steps.len() > 0
    &&& forall|i: int| 0 <= i < steps.len() ==> ((#[trigger] steps[i] is Finish) <==> i
            == steps.len() - 1)
}

/// How many milliseconds are spent waiting.
pub open spec fn total_sleep(actions: Seq<ActionView>) -> nat
    decreases actions.len(),
{
    if actions.len() == 0 {
        0
    } else {
        total_sleep(actions.drop_last()) + (match actions.last() {
            ActionView::Sleep(millis) => millis as nat,
            _ => 0nat,
        })
    }
}

/// Taking one step does the first action of the run, and leaves the rest of the
/// run to be done.
pub proof fn law_steps_follow_the_run(before: Flow, n: u64, after: Flow, drawn: Seq<u64>)
    requires
        before.wf(),
        !before.is_over(),
        before.steps_to(n, after),
        drawn.len() == before.rest().len(),
        drawn[0] == n,
    ensures
        run(before.rest(), before.number, drawn) == seq![before.next().action(n, before.number)]
            + run(after.rest(), after.number, drawn.drop_first()),
        after.rest() == before.rest().drop_first(),
{
    assert(after.rest() =~= before.rest().drop_first());
    assert(before.rest()[0] == before.next());
}

/// A run does one action for each step.
pub proof fn law_run_takes_every_step(steps: Seq<Step>, number: u64, drawn: Seq<u64>)
    ensures
        run(steps, number, drawn).len() == steps.len(),
    decreases steps.len(),
{
    if steps.len() > 0 {
        law_run_takes_every_step(
            steps.drop_first(),
            steps[0].number_after(drawn[0], number),
            drawn.drop_first(),
        );
    }
}

/// A request whose steps end in a reply is replied to once, at its end.
pub proof fn law_one_reply_at_the_end(steps: Seq<Step>, number: u64, drawn: Seq<u64>)
    requires
        ends_in_reply(steps),
    ensures
        run(steps, number, drawn).len() == steps.len(),
        forall|i: int|
            0 <= i < steps.len() ==> ((#[trigger] run(steps, number, drawn)[i] is Reply) <==> i
                == steps.len() - 1),
    decreases steps.len(),
{
    law_run_takes_every_step(steps, number, drawn);
    let rest = steps.drop_first();
    let number_then = steps[0].number_after(drawn[0], number);
    let then = run(rest, number_then, drawn.drop_first());
    assert(run(steps, number, drawn)[0] == steps[0].action(drawn[0], number));
    assert(steps[0] is Finish <==> steps.len() == 1);
    if steps.len() > 1 {
        assert forall|i: int| 0 <= i < rest.len() implies ((#[trigger] rest[i] is Finish) <==> i
            == rest.len() - 1) by {
            assert(rest[i] == steps[i + 1]);
        }
        law_one_reply_at_the_end(rest, number_then, drawn.drop_first());
        assert forall|i: int| 0 <= i < steps.len() implies ((#[trigger] run(
            steps,
            number,
            drawn,
        )[i] is Reply) <==> i == steps.len() - 1) by {
            if i > 0 {
                assert(run(steps, number, drawn)[i] == then[i - 1]);
            }
        }
    }
}

/// What is done at each step: a wait is as long as the number drawn for it, there
/// is a warning if, and only if, zero was drawn, and the service that is named is
/// asked, whatever was drawn or done before.
pub proof fn law_actions_follow_the_numbers(
    steps: Seq<Step>,
    number: u64,
    drawn: Seq<u64>,
    i: int,
)
    requires
        drawn.len() == steps.len(),
        0 <= i < steps.len(),
    ensures
        run(steps, number, drawn).len() == steps.len(),
        match steps[i] {
            Step::Sleep { .. } => run(steps, number, drawn)[i] == ActionView::Sleep(drawn[i]),
            Step::Draw { .. } => run(steps, number, drawn)[i] == ActionView::Proceed,
            Step::WarnOnZero { warning, .. } => {
                &&& drawn[i] == 0 ==> run(steps, number, drawn)[i] == ActionView::Warn(warning)
                &&& drawn[i] != 0 ==> run(steps, number, drawn)[i] == ActionView::Proceed
            },
            Step::Call { target, .. } => run(steps, number, drawn)[i] == ActionView::Call(target),
            Step::Finish { .. } => run(steps, number, drawn)[i] is Reply,
        },
    decreases steps.len(),
{
    law_run_takes_every_step(steps, number, drawn);
    let then = run(
        steps.drop_first(),
        steps[0].number_after(drawn[0], number),
        drawn.drop_first(),
    );
    if i > 0 {
        law_actions_follow_the_numbers(
            steps.drop_first(),
            steps[0].number_after(drawn[0], number),
            drawn.drop_first(),
            i - 1,
        );
        assert(run(steps, number, drawn)[i] == then[i - 1]);
    }
}

/// A reply before which no number is drawn tells of the number at the start.
proof fn lemma_reply_without_draw(
    steps: Seq<Step>,
    number: u64,
    drawn: Seq<u64>,
    i: int,
    answer: Answer,
)
    requires
        drawn.len() == steps.len(),
        0 <= i < steps.len(),
        steps[i] == (Step::Finish { answer }),
        forall|j: int| 0 <= j < i ==> !(#[trigger] steps[j] is Draw),
    ensures
        run(steps, number, drawn)[i] == ActionView::Reply(OK, answer.body(number)),
    decreases steps.len(),
{
    law_run_takes_every_step(steps, number, drawn);
    if i > 0 {
        let rest = steps.drop_first();
        assert(!(steps[0] is Draw));
        assert forall|j: int| 0 <= j < i - 1 implies !(#[trigger] rest[j] is Draw) by {
            assert(rest[j] == steps[j + 1]);
        }
        lemma_reply_without_draw(rest, number, drawn.drop_first(), i - 1, answer);
        assert(run(steps, number, drawn)[i] == run(rest, number, drawn.drop_first())[i - 1]);
    }
}

/// A reply tells of the number that was drawn last before it, with status 200:
/// the rows, the amount or the transaction, in decimal notation.
pub proof fn law_reply_tells_the_last_number(
    steps: Seq<Step>,
    number: u64,
    drawn: Seq<u64>,
    d: int,
    i: int,
    answer: Answer,
)
    requires
        drawn.len() == steps.len(),
        0 <= d < i < steps.len(),
        steps[d] is Draw,
        steps[i] == (Step::Finish { answer }),
        forall|j: int| d < j < i ==> !(#[trigger] steps[j] is Draw),
    ensures
        run(steps, number, drawn)[i] == ActionView::Reply(
            200,
            match answer {
                Answer::WorkDone => "work done, rows="@ + decimal(drawn[d] as nat),
                Answer::Charged => "charged "@ + decimal(drawn[d] as nat) + ".00"@,
                Answer::Transaction => "txn "@ + decimal(drawn[d] as nat),
            },
        ),
    decreases steps.len(),
{
    law_run_takes_every_step(steps, number, drawn);
    let rest = steps.drop_first();
    let then = steps[0].number_after(drawn[0], number);
    assert(rest[i - 1] == steps[i]);
    assert(run(steps, number, drawn)[i] == run(rest, then, drawn.drop_first())[i - 1]);
    if d == 0 {
        assert forall|j: int| 0 <= j < i - 1 implies !(#[trigger] rest[j] is Draw) by {
            assert(rest[j] == steps[j + 1]);
        }
        lemma_reply_without_draw(rest, then, drawn.drop_first(), i - 1, answer);
    } else {
        assert forall|j: int| d - 1 < j < i - 1 implies !(#[trigger] rest[j] is Draw) by {
            assert(rest[j] == steps[j + 1]);
        }
        assert(rest[d - 1] == steps[d]);
        law_reply_tells_the_last_number(rest, then, drawn.drop_first(), d - 1, i - 1, answer);
    }
}

/// A step draws what the clock shows, and nothing else: the number that a reading
/// stands for can be drawn, and a number that is drawn lies in the range and is as
/// far from its start as the nanoseconds of some reading are, but for whole rounds.
pub proof fn law_steps_draw_by_the_clock(step: Step, min: u64, max: u64, n: u64)
    requires
        step.range() == Some((min, max)),
        is_range(min, max),
    ensures
        forall|reading: SystemTime|
            #[trigger] drawn_at(reading, min, max) == Ok::<u64, ClockBeforeEpoch>(n) ==> step.draws(
                n,
            ) && step.admits(n),
        step.draws(n) ==> min <= n <= max && exists|reading: SystemTime|
            (#[trigger] time_since_epoch(reading)) matches Some(elapsed) && (fraction_of_second(
                elapsed,
            ) - (n - min)) % (max - min + 1) == 0,
        step.admits(n) <==> min <= n <= max,
{
    assert forall|reading: SystemTime|
        #[trigger] drawn_at(reading, min, max) == Ok::<u64, ClockBeforeEpoch>(
            n,
        ) implies step.draws(n) && step.admits(n) by {
        law_reading_fixes_the_number(reading, min, max);
    }
    if step.draws(n) {
        let reading = choose|reading: SystemTime|
            Ok::<u64, ClockBeforeEpoch>(n) == #[trigger] drawn_at(reading, min, max);
        law_reading_fixes_the_number(reading, min, max);
        assert(time_since_epoch(reading) is Some);
    }
}

} // verus!
