//! The metrics of a service: what is recorded for each request, and how the
//! recorded metrics are exposed.

use crate::reply::reply;
use crate::reply::Reply;
use crate::reply::INTERNAL_SERVER_ERROR;
use crate::reply::OK;
use crate::text::decimal;
use crate::text::decimal_text;
use crate::text::law_decimal_tells_numbers_apart;
use crate::text::law_three_digits_read_back;
use prometheus::proto::MetricFamily;
use prometheus::proto::MetricType;
use prometheus::Encoder;
use prometheus::TextEncoder;
use std::time::Duration;
use vstd::prelude::*;

verus! {

// ---------------------------------------------------------------------------
// Recording
// ---------------------------------------------------------------------------

/// An instrument that requests are recorded with.
#[derive(Clone, Copy, Debug, PartialEq, Eq, Structural)]
pub enum Instrument {
    /// A counter.
    Requests,
    /// A histogram.
    Duration,
    /// A counter that goes up and down.
    InFlight,
}

impl Instrument {
    /// The name of the instrument.
    pub open spec fn spec_name(self) -> Seq<char> {
        match self {
            Instrument::Requests => "http_requests"@,
            Instrument::Duration => "http_request_duration_seconds"@,
            Instrument::InFlight => "http_requests_in_flight"@,
        }
    }

    /// What the instrument shows.
    pub open spec fn spec_description(self) -> Seq<char> {
        match self {
            Instrument::Requests => "Total number of HTTP requests received"@,
            Instrument::Duration => "HTTP request duration in seconds"@,
            Instrument::InFlight => "Number of HTTP requests currently being handled"@,
        }
    }

    /// The name of the instrument.
    pub fn name(self) -> (name: &'static str)
        ensures
            name@ == self.spec_name(),
    {
        match self {
            Instrument::Requests => "http_requests",
            Instrument::Duration => "http_request_duration_seconds",
            Instrument::InFlight => "http_requests_in_flight",
        }
    }

    /// What the instrument shows.
    pub fn description(self) -> (description: &'static str)
        ensures
            description@ == self.spec_description(),
    {
        match self {
            Instrument::Requests => "Total number of HTTP requests received",
            Instrument::Duration => "HTTP request duration in seconds",
            Instrument::InFlight => "Number of HTTP requests currently being handled",
        }
    }
}

/// The attributes that a request is recorded under.
pub struct Attributes {
    pub method: String,
    pub path: String,
    pub status: String,
}

/// What is recorded.
pub enum Update {
    /// Add to the number of requests in flight.
    InFlight(i64),
    /// Add to the number of requests under the attributes.
    Requests(u64, Attributes),
    /// Record how long a request under the attributes took.
    Duration(Duration, Attributes),
}

/// What is recorded, with the attributes as pairs of a name and a value.
pub ghost enum UpdateView {
    InFlight(int),
    Requests(nat, Seq<(Seq<char>, Seq<char>)>),
    Duration(Duration, Seq<(Seq<char>, Seq<char>)>),
}

impl View for Attributes {
    type V = Seq<(Seq<char>, Seq<char>)>;

    open spec fn view(&self) -> Seq<(Seq<char>, Seq<char>)> {
        seq![("method"@, self.method@), ("path"@, self.path@), ("status"@, self.status@)]
    }
}

impl View for Update {
    type V = UpdateView;

    open spec fn view(&self) -> UpdateView {
        match *self {
            Update::InFlight(change) => UpdateView::InFlight(change as int),
            Update::Requests(count, attributes) => UpdateView::Requests(count as nat, attributes@),
            Update::Duration(elapsed, attributes) => UpdateView::Duration(elapsed, attributes@),
        }
    }
}

impl Attributes {
    /// The attributes as pairs of a name and a value, in order.
    pub fn pairs(self) -> (pairs: [(&'static str, String); 3])
        ensures
            pairs@.map_values(|pair: (&'static str, String)| (pair.0@, pair.1@)) == self@,
    {
        let pairs = [("method", self.method), ("path", self.path), ("status", self.status)];
        assert(pairs@.map_values(|pair: (&'static str, String)| (pair.0@, pair.1@)) =~= self@);
        pairs
    }
}

/// A request that is being handled.
pub struct TrackedRequest {
    pub method: String,
    pub path: String,
}

/// What is recorded when a request comes in: one more is in flight.
pub open spec fn start_updates() -> Seq<UpdateView> {
    seq![UpdateView::InFlight(1)]
}

/// The attributes that a request is recorded under: its method and path, and the
/// status of the reply in decimal notation.
pub open spec fn attributes_of(method: Seq<char>, path: Seq<char>, status: u16) -> Seq<
    (Seq<char>, Seq<char>),
> {
    seq![("method"@, method), ("path"@, path), ("status"@, decimal(status as nat))]
}

/// What is recorded when a request is done: one less is in flight, one more is
/// counted, and the time that it took.
pub open spec fn end_updates(
    method: Seq<char>,
    path: Seq<char>,
    status: u16,
    elapsed: Duration,
) -> Seq<UpdateView> {
    let attributes = attributes_of(method, path, status);
    seq![
        UpdateView::InFlight(-1),
        UpdateView::Requests(1, attributes),
        UpdateView::Duration(elapsed, attributes),
    ]
}

/// What is recorded when a request is given up before it is done: one less is in
/// flight.
pub open spec fn abandon_updates() -> Seq<UpdateView> {
    seq![UpdateView::InFlight(-1)]
}

/// Updates, as they are recorded.
pub open spec fn updates_view(updates: Seq<Update>) -> Seq<UpdateView> {
    updates.map_values(|update: Update| update@)
}

impl TrackedRequest {
    /// A request comes in. This tells what is to be recorded before it is
    /// handled.
    pub fn start(method: String, path: String) -> (started: (TrackedRequest, Vec<Update>))
        ensures
            started.0.method == method,
            started.0.path == path,
            updates_view(started.1@) == start_updates(),
    {
        let updates = vec![Update::InFlight(1)];
        assert(updates_view(updates@) =~= start_updates());
        (TrackedRequest { method, path }, updates)
    }

    /// The request is done. This tells what is to be recorded of it.
    pub fn end(self, status: u16, elapsed: Duration) -> (updates: Vec<Update>)
        ensures
            updates_view(updates@) == end_updates(self.method@, self.path@, status, elapsed),
            updates@.len() == 3,
            updates@[0]@ == UpdateView::InFlight(-1),
            updates@[1]@ matches UpdateView::Requests(count, attributes) && count == 1
                && attributes.len() == 3 && attributes[0] == ("method"@, self.method@)
                && attributes[1] == ("path"@, self.path@) && attributes[2].0 == "status"@ && (100
                <= status <= 999 ==> attributes[2].1.len() == 3 && 100 * (attributes[2].1[0] as int
                - '0' as int) + 10 * (attributes[2].1[1] as int - '0' as int) + (
            attributes[2].1[2] as int - '0' as int) == status),
            updates@[2]@ matches UpdateView::Duration(time, attributes) && time == elapsed
                && updates@[1]@ == UpdateView::Requests(1, attributes),
    {
        let counted = Attributes {
            method: self.method.clone(),
            path: self.path.clone(),
            status: decimal_text(status as u64),
        };
        let timed = Attributes {
            method: self.method,
            path: self.path,
            status: decimal_text(status as u64),
        };
        let updates = vec![
            Update::InFlight(-1),
            Update::Requests(1, counted),
            Update::Duration(elapsed, timed),
        ];
        assert(updates_view(updates@) =~= end_updates(self.method@, self.path@, status, elapsed));
        proof {
            law_request_is_recorded_as_it_was(self.method@, self.path@, status, elapsed);
            assert(updates@[0]@ == updates_view(updates@)[0]);
            assert(updates@[1]@ == updates_view(updates@)[1]);
            assert(updates@[2]@ == updates_view(updates@)[2]);
        }
        updates
    }

    /// The request is given up before it is done, as when the client leaves. This
    /// tells what is to be recorded of it: it is no longer being handled, and
    /// there is no reply to count or to time.
    pub fn abandon(self) -> (updates: Vec<Update>)
        ensures
            updates_view(updates@) == abandon_updates(),
    {
        let updates = vec![Update::InFlight(-1)];
        assert(updates_view(updates@) =~= abandon_updates());
        updates
    }
}

/// A request that comes in, is done, or is given up. The number tells the
/// requests apart that are handled side by side.
pub ghost enum RequestEvent {
    Start { id: nat },
    End { id: nat, method: Seq<char>, path: Seq<char>, status: u16, elapsed: Duration },
    Abandon { id: nat },
}

impl RequestEvent {
    /// What is recorded.
    pub open spec fn updates(self) -> Seq<UpdateView> {
        match self {
            RequestEvent::Start { .. } => start_updates(),
            RequestEvent::End { method, path, status, elapsed, .. } => end_updates(
                method,
                path,
                status,
                elapsed,
            ),
            RequestEvent::Abandon { .. } => abandon_updates(),
        }
    }

    /// The requests that are being handled afterwards.
    pub open spec fn open_after(self, open: Set<nat>) -> Set<nat> {
        match self {
            RequestEvent::Start { id } => open.insert(id),
            RequestEvent::End { id, .. } => open.remove(id),
            RequestEvent::Abandon { id } => open.remove(id),
        }
    }

    /// Whether this can happen while the given requests are being handled: only
    /// one of them can be done or given up.
    pub open spec fn can_follow(self, open: Set<nat>) -> bool {
        match self {
            RequestEvent::Start { id } => !open.contains(id),
            RequestEvent::End { id, .. } => open.contains(id),
            RequestEvent::Abandon { id } => open.contains(id),
        }
    }
}

/// What is recorded while requests come in, are done and are given up.
pub open spec fn recorded(history: Seq<RequestEvent>) -> Seq<UpdateView>
    decreases history.len(),
{
    if history.len() == 0 {
        Seq::empty()
    } else {
        recorded(history.drop_last()) + history.last().updates()
    }
}

/// The requests that are being handled: they have come in, and are neither done
/// nor given up.
pub open spec fn open_requests(history: Seq<RequestEvent>) -> Set<nat>
    decreases history.len(),
{
    if history.len() == 0 {
        Set::empty()
    } else {
        history.last().open_after(open_requests(history.drop_last()))
    }
}

/// Whether a history can happen.
pub open spec fn can_happen(history: Seq<RequestEvent>) -> bool
    decreases history.len(),
{
    history.len() > 0 ==> can_happen(history.drop_last()) && history.last().can_follow(
        open_requests(history.drop_last()),
    )
}

/// The times that the requests took that are done with the given method, path
/// and status, in order.
pub open spec fn times_of(
    history: Seq<RequestEvent>,
    method: Seq<char>,
    path: Seq<char>,
    status: u16,
) -> Seq<Duration>
    decreases history.len(),
{
    if history.len() == 0 {
        Seq::empty()
    } else {
        let before = times_of(history.drop_last(), method, path, status);
        match history.last() {
            RequestEvent::End { method: m, path: p, status: s, elapsed, .. } => if m == method && p
                == path && s == status {
                before.push(elapsed)
            } else {
                before
            },
            _ => before,
        }
    }
}

/// How many requests are done.
pub open spec fn ends(history: Seq<RequestEvent>) -> nat
    decreases history.len(),
{
    if history.len() == 0 {
        0
    } else {
        ends(history.drop_last()) + (if history.last() is End {
            1nat
        } else {
            0nat
        })
    }
}

/// The number of requests in flight that updates add up to.
pub open spec fn in_flight(updates: Seq<UpdateView>) -> int
    decreases updates.len(),
{
    if updates.len() == 0 {
        0
    } else {
        in_flight(updates.drop_last()) + (match updates.last() {
            UpdateView::InFlight(change) => change,
            _ => 0,
        })
    }
}

/// The number of requests that updates count, under whatever attributes.
pub open spec fn counted(updates: Seq<UpdateView>) -> nat
    decreases updates.len(),
{
    if updates.len() == 0 {
        0
    } else {
        counted(updates.drop_last()) + (match updates.last() {
            UpdateView::Requests(count, _) => count,
            _ => 0,
        })
    }
}

/// The number of requests that updates time, under whatever attributes.
pub open spec fn timed(updates: Seq<UpdateView>) -> nat
    decreases updates.len(),
{
    if updates.len() == 0 {
        0
    } else {
        timed(updates.drop_last()) + (match updates.last() {
            UpdateView::Duration(_, _) => 1nat,
            _ => 0,
        })
    }
}

/// The number of requests that updates count under the given attributes.
pub open spec fn counted_under(
    updates: Seq<UpdateView>,
    attributes: Seq<(Seq<char>, Seq<char>)>,
) -> nat
    decreases updates.len(),
{
    if updates.len() == 0 {
        0
    } else {
        counted_under(updates.drop_last(), attributes) + (match updates.last() {
            UpdateView::Requests(count, under) => if under == attributes {
                count
            } else {
                0
            },
            _ => 0,
        })
    }
}

/// The times that updates record under the given attributes, in order.
pub open spec fn times_under(
    updates: Seq<UpdateView>,
    attributes: Seq<(Seq<char>, Seq<char>)>,
) -> Seq<Duration>
    decreases updates.len(),
{
    if updates.len() == 0 {
        Seq::empty()
    } else {
        let before = times_under(updates.drop_last(), attributes);
        match updates.last() {
            UpdateView::Duration(elapsed, under) => if under == attributes {
                before.push(elapsed)
            } else {
                before
            },
            _ => before,
        }
    }
}

/// What updates come to is what the earlier and the later ones come to together.
proof fn lemma_updates_add_up(
    earlier: Seq<UpdateView>,
    later: Seq<UpdateView>,
    attributes: Seq<(Seq<char>, Seq<char>)>,
)
    ensures
        in_flight(earlier + later) == in_flight(earlier) + in_flight(later),
        counted(earlier + later) == counted(earlier) + counted(later),
        timed(earlier + later) == timed(earlier) + timed(later),
        counted_under(earlier + later, attributes) == counted_under(earlier, attributes)
            + counted_under(later, attributes),
        times_under(earlier + later, attributes) == times_under(earlier, attributes)
            + times_under(later, attributes),
    decreases later.len(),
{
    if later.len() == 0 {
        assert(earlier + later =~= earlier);
        assert(times_under(earlier, attributes) + times_under(later, attributes) =~= times_under(
            earlier,
            attributes,
        ));
    } else {
        lemma_updates_add_up(earlier, later.drop_last(), attributes);
        assert((earlier + later).drop_last() =~= earlier + later.drop_last());
        assert((earlier + later).last() == later.last());
        assert(times_under(earlier + later, attributes) =~= times_under(earlier, attributes)
            + times_under(later, attributes));
    }
}

/// What the updates of one event come to.
proof fn lemma_updates_of_event(event: RequestEvent, attributes: Seq<(Seq<char>, Seq<char>)>)
    ensures
        in_flight(event.updates()) == (if event is Start {
            1int
        } else {
            -1
        }),
        counted(event.updates()) == (if event is End {
            1nat
        } else {
            0
        }),
        timed(event.updates()) == counted(event.updates()),
        match event {
            RequestEvent::End { method, path, status, elapsed, .. } => if attributes
                == attributes_of(method, path, status) {
                &&& counted_under(event.updates(), attributes) == 1
                &&& times_under(event.updates(), attributes) == seq![elapsed]
            } else {
                &&& counted_under(event.updates(), attributes) == 0
                &&& times_under(event.updates(), attributes) == Seq::<Duration>::empty()
            },
            _ => {
                &&& counted_under(event.updates(), attributes) == 0
                &&& times_under(event.updates(), attributes) == Seq::<Duration>::empty()
            },
        },
{
    reveal_with_fuel(in_flight, 4);
    reveal_with_fuel(counted, 4);
    reveal_with_fuel(timed, 4);
    reveal_with_fuel(counted_under, 4);
    reveal_with_fuel(times_under, 4);
    let updates = event.updates();
    if event is End {
        assert(updates.drop_last() =~= seq![updates[0], updates[1]]);
        assert(updates.drop_last().drop_last() =~= seq![updates[0]]);
        assert(updates.drop_last().drop_last().drop_last() =~= Seq::empty());
    } else {
        assert(updates.drop_last() =~= Seq::empty());
    }
}

/// The attributes tell the method, the path and the status.
proof fn lemma_attributes_tell_apart(
    method: Seq<char>,
    path: Seq<char>,
    status: u16,
    other_method: Seq<char>,
    other_path: Seq<char>,
    other_status: u16,
)
    requires
        attributes_of(method, path, status) == attributes_of(other_method, other_path, other_status),
    ensures
        method == other_method,
        path == other_path,
        status == other_status,
{
    let a = attributes_of(method, path, status);
    let b = attributes_of(other_method, other_path, other_status);
    assert(a[0].1 == b[0].1 && a[1].1 == b[1].1 && a[2].1 == b[2].1);
    law_decimal_tells_numbers_apart(status as nat, other_status as nat);
}

/// A request that is done is recorded as it was. One less is in flight; one more
/// is counted; and it is timed by the time that it took. It is counted and timed
/// under its own method and path, and under its status, which is written in three
/// digits that read as that very status.
pub proof fn law_request_is_recorded_as_it_was(
    method: Seq<char>,
    path: Seq<char>,
    status: u16,
    elapsed: Duration,
)
    ensures
        end_updates(method, path, status, elapsed).len() == 3,
        end_updates(method, path, status, elapsed)[0] == UpdateView::InFlight(-1),
        end_updates(method, path, status, elapsed)[1] matches UpdateView::Requests(
            count,
            attributes,
        ) && count == 1 && attributes.len() == 3 && attributes[0] == ("method"@, method)
            && attributes[1] == ("path"@, path) && attributes[2].0 == "status"@ && (100 <= status
            <= 999 ==> attributes[2].1.len() == 3 && 100 * (attributes[2].1[0] as int - '0' as int)
            + 10 * (attributes[2].1[1] as int - '0' as int) + (attributes[2].1[2] as int
            - '0' as int) == status),
        end_updates(method, path, status, elapsed)[2] matches UpdateView::Duration(time, attributes)
            && time == elapsed && end_updates(method, path, status, elapsed)[1]
            == UpdateView::Requests(1, attributes),
{
    if 100 <= status <= 999 {
        law_three_digits_read_back(status as nat);
    }
}

/// However requests come in, are done and are given up, side by side or one after
/// another: the number in flight is that of the requests that are being handled
/// right then, so it is never negative.
pub proof fn law_in_flight_is_what_is_being_handled(history: Seq<RequestEvent>)
    requires
        can_happen(history),
    ensures
        open_requests(history).finite(),
        in_flight(recorded(history)) == open_requests(history).len(),
        in_flight(recorded(history)) >= 0,
    decreases history.len(),
{
    if history.len() > 0 {
        let none = Seq::<(Seq<char>, Seq<char>)>::empty();
        law_in_flight_is_what_is_being_handled(history.drop_last());
        lemma_updates_add_up(recorded(history.drop_last()), history.last().updates(), none);
        lemma_updates_of_event(history.last(), none);
    }
}

/// Every request that is done is counted once and timed once, and no other is.
pub proof fn law_metrics_follow_requests(history: Seq<RequestEvent>)
    ensures
        counted(recorded(history)) == ends(history),
        timed(recorded(history)) == ends(history),
    decreases history.len(),
{
    if history.len() > 0 {
        let none = Seq::<(Seq<char>, Seq<char>)>::empty();
        law_metrics_follow_requests(history.drop_last());
        lemma_updates_add_up(recorded(history.drop_last()), history.last().updates(), none);
        lemma_updates_of_event(history.last(), none);
    }
}

/// Under a method, a path and a status, as many requests are counted as are done
/// with them, and the times recorded are those that these requests took.
pub proof fn law_metrics_tell_requests_apart(
    history: Seq<RequestEvent>,
    method: Seq<char>,
    path: Seq<char>,
    status: u16,
)
    ensures
        counted_under(recorded(history), attributes_of(method, path, status)) == times_of(
            history,
            method,
            path,
            status,
        ).len(),
        times_under(recorded(history), attributes_of(method, path, status)) == times_of(
            history,
            method,
            path,
            status,
        ),
    decreases history.len(),
{
    let attributes = attributes_of(method, path, status);
    if history.len() > 0 {
        let before = recorded(history.drop_last());
        law_metrics_tell_requests_apart(history.drop_last(), method, path, status);
        lemma_updates_add_up(before, history.last().updates(), attributes);
        lemma_updates_of_event(history.last(), attributes);
        match history.last() {
            RequestEvent::End { method: m, path: p, status: s, .. } => {
                if attributes == attributes_of(m, p, s) {
                    lemma_attributes_tell_apart(method, path, status, m, p, s);
                }
            },
            _ => {},
        }
        assert(times_under(recorded(history), attributes) =~= times_of(
            history,
            method,
            path,
            status,
        ));
    }
}

/// A request that is given up leaves the metrics as they would be without it,
/// whatever was recorded before it came in and while it was being handled.
pub proof fn law_abandoned_request_changes_nothing(
    before: Seq<UpdateView>,
    between: Seq<UpdateView>,
    attributes: Seq<(Seq<char>, Seq<char>)>,
)
    ensures
        in_flight(before + start_updates() + between + abandon_updates()) == in_flight(
            before + between,
        ),
        counted_under(before + start_updates() + between + abandon_updates(), attributes)
            == counted_under(before + between, attributes),
        times_under(before + start_updates() + between + abandon_updates(), attributes)
            == times_under(before + between, attributes),
{
    let started = before + start_updates();
    lemma_updates_of_event(RequestEvent::Start { id: 0 }, attributes);
    lemma_updates_of_event(RequestEvent::Abandon { id: 0 }, attributes);
    lemma_updates_add_up(before, start_updates(), attributes);
    lemma_updates_add_up(started, between, attributes);
    lemma_updates_add_up(started + between, abandon_updates(), attributes);
    lemma_updates_add_up(before, between, attributes);
    assert(times_under(started + between + abandon_updates(), attributes) =~= times_under(
        before + between,
        attributes,
    ));
}

// ---------------------------------------------------------------------------
// Exposing
// ---------------------------------------------------------------------------

/// `prometheus::proto::MetricFamily`, the metrics of one name.
#[verifier::external_type_specification]
#[verifier::external_body]
pub struct ExMetricFamily(prometheus::proto::MetricFamily);

/// `prometheus::Error`, the error of metrics that cannot be encoded.
#[verifier::external_type_specification]
#[verifier::external_body]
pub struct ExPrometheusError(prometheus::Error);

/// What kind of metrics a family holds.
#[derive(Clone, Copy, Debug, PartialEq, Eq, Structural)]
pub enum FamilyType {
    Counter,
    Gauge,
    Summary,
    Untyped,
    Histogram,
}

/// The kind of metrics that a family holds.
pub uninterp spec fn type_of_family(family: MetricFamily) -> FamilyType;

/// The number of metrics that a family holds.
pub uninterp spec fn size_of_family(family: MetricFamily) -> nat;

/// The name of a family.
pub uninterp spec fn name_of_family(family: MetricFamily) -> Seq<char>;

/// The text that `TextEncoder` makes of families, in the text format of
/// Prometheus.
pub uninterp spec fn exposition(families: Seq<MetricFamily>) -> Seq<u8>;

/// The message that an error holds, where it is `prometheus::Error::Msg`.
pub uninterp spec fn error_message(err: prometheus::Error) -> Option<Seq<char>>;

/// `MetricFamily::get_field_type` tells the kind of metrics that a family holds.
#[verifier::external_body]
fn family_type(family: &MetricFamily) -> (kind: FamilyType)
    ensures
        kind == type_of_family(*family),
{
    match family.get_field_type() {
        MetricType::COUNTER => FamilyType::Counter,
        MetricType::GAUGE => FamilyType::Gauge,
        MetricType::SUMMARY => FamilyType::Summary,
        MetricType::UNTYPED => FamilyType::Untyped,
        MetricType::HISTOGRAM => FamilyType::Histogram,
    }
}

/// `MetricFamily::get_metric` gives the metrics of a family; this is their
/// number.
#[verifier::external_body]
fn family_size(family: &MetricFamily) -> (size: usize)
    ensures
        size == size_of_family(*family),
{
    family.get_metric().len()
}

/// `MetricFamily::name` gives the name of a family, which is empty where none
/// was set.
#[verifier::external_body]
fn family_name(family: &MetricFamily) -> (name: &str)
    ensures
        name@ == name_of_family(*family),
{
    family.name()
}

/// Whether a family has what an encoder asks for: metrics and a name.
pub open spec fn is_complete(family: MetricFamily) -> bool {
    size_of_family(family) > 0 && name_of_family(family).len() > 0
}

/// Whether families can be encoded.
pub open spec fn all_complete(families: Seq<MetricFamily>) -> bool {
    forall|i: int| 0 <= i < families.len() ==> is_complete(#[trigger] families[i])
}

/// Whether an encoder comes to a family that it has no format for, one of no
/// particular type. It stops before that at a family that is not complete.
pub open spec fn meets_untyped(families: Seq<MetricFamily>) -> bool {
    exists|i: int|
        0 <= i < families.len() && type_of_family(#[trigger] families[i]) == FamilyType::Untyped
            && all_complete(families.take(i + 1))
}

/// How the message begins of the error on a family that is not complete: it tells
/// what the family has not.
pub open spec fn refusal(family: MetricFamily) -> Seq<char> {
    if size_of_family(family) == 0 {
        "MetricFamily has no metrics: "@
    } else {
        "MetricFamily has no name: "@
    }
}

/// Whether there is a message, and it is about the first family that is not
/// complete.
pub open spec fn tells_of_first_incomplete(
    message: Option<Seq<char>>,
    families: Seq<MetricFamily>,
) -> bool {
    &&& message matches Some(text)
    &&& forall|i: int|
        0 <= i < families.len() && all_complete(families.take(i)) && !is_complete(
            #[trigger] families[i],
        ) ==> refusal(families[i]).is_prefix_of(text)
}

/// `TextEncoder::encode`, into a fresh buffer, gives the text of families. No
/// families give an empty text, and any others a text that is not empty. It fails
/// where a family has no metrics or no name, and on no other families. The error
/// then holds a message that begins with which of the two the first such family
/// has not. What follows in the message shows the family with its cached size,
/// which can change behind a shared reference, so nothing is claimed of that part.
/// There is no format for a family of no particular type, and the encoder must not
/// come to one.
#[verifier::external_body]
fn encode(families: &Vec<MetricFamily>) -> (encoded: Result<Vec<u8>, prometheus::Error>)
    requires
        !meets_untyped(families@),
    ensures
        encoded is Ok <==> all_complete(families@),
        encoded matches Ok(text) ==> text@ == exposition(families@),
        encoded matches Err(err) ==> tells_of_first_incomplete(error_message(err), families@),
        encoded matches Ok(text) ==> (text@.len() == 0 <==> families@.len() == 0),
{
    let mut buffer = Vec::new();
    match TextEncoder::new().encode(families, &mut buffer) {
        Ok(()) => Ok(buffer),
        Err(err) => Err(err),
    }
}

/// `TextEncoder::format_type` names the text format of Prometheus, as a media
/// type.
#[verifier::external_body]
fn format_type() -> (media_type: String)
    ensures
        media_type@ == "text/plain; version=0.0.4"@,
{
    TextEncoder::new().format_type().to_string()
}

/// A reply with metrics.
pub struct Exposition {
    pub status: u16,
    pub content_type: String,
    pub body: Vec<u8>,
}

/// Metrics that could not be encoded: the reply, and the cause.
pub struct EncodeFailure {
    pub reply: Reply,
    pub cause: prometheus::Error,
}

/// The reply to a scrape, given what encoding the metrics came to.
pub fn metrics_reply(encoded: Result<Vec<u8>, prometheus::Error>) -> (r: Result<
    Exposition,
    EncodeFailure,
>)
    ensures
        match encoded {
            Ok(text) => {
                &&& r matches Ok(exposed)
                &&& exposed.status == OK
                &&& exposed.content_type@ == "text/plain; version=0.0.4"@
                &&& exposed.body == text
            },
            Err(err) => {
                &&& r matches Err(failure)
                &&& failure.reply@ == (INTERNAL_SERVER_ERROR, "failed to encode metrics"@)
                &&& failure.cause == err
            },
        },
{
    match encoded {
        Ok(body) => Ok(Exposition { status: OK, content_type: format_type(), body }),
        Err(cause) => Err(
            EncodeFailure {
                reply: reply(INTERNAL_SERVER_ERROR, "failed to encode metrics"),
                cause,
            },
        ),
    }
}

/// The reply to a scrape of the given metrics: their text where each family has
/// metrics and a name, and else a failure, whose cause tells what the first family
/// that is not complete has not. The text is empty where there are no metrics, and
/// only there.
pub open spec fn is_metrics_reply(
    families: Seq<MetricFamily>,
    r: Result<Exposition, EncodeFailure>,
) -> bool {
    if all_complete(families) {
        &&& r matches Ok(exposed)
        &&& exposed.status == OK
        &&& exposed.content_type@ == "text/plain; version=0.0.4"@
        &&& exposed.body@ == exposition(families)
        &&& exposed.body@.len() == 0 <==> families.len() == 0
    } else {
        &&& r matches Err(failure)
        &&& failure.reply@ == (INTERNAL_SERVER_ERROR, "failed to encode metrics"@)
        &&& tells_of_first_incomplete(error_message(failure.cause), families)
    }
}

/// The reply to a scrape of the given metrics.
pub fn metrics_handler(families: &Vec<MetricFamily>) -> (r: Result<Exposition, EncodeFailure>)
    requires
        !meets_untyped(families@),
    ensures
        is_metrics_reply(families@, r),
        r is Ok <==> forall|i: int|
            0 <= i < families@.len() ==> size_of_family(#[trigger] families@[i]) > 0
                && name_of_family(families@[i]).len() > 0,
{
    metrics_reply(encode(families))
}

/// The reply to a scrape of the given metrics, unless there is no format for
/// them.
pub fn checked_metrics_handler(families: &Vec<MetricFamily>) -> (r: Option<
    Result<Exposition, EncodeFailure>,
>)
    ensures
        r is None <==> meets_untyped(families@),
        r matches Some(reply) ==> is_metrics_reply(families@, reply),
{
    let mut i: usize = 0;
    while i < families.len()
        invariant_except_break
            0 <= i <= families@.len(),
            all_complete(families@.take(i as int)),
            forall|j: int|
                0 <= j < i ==> type_of_family(#[trigger] families@[j]) != FamilyType::Untyped,
        ensures
            !meets_untyped(families@),
        decreases families@.len() - i,
    {
        let family = &families[i];
        if family_size(family) == 0 || family_name(family).is_empty() {
            proof {
                assert forall|j: int|
                    0 <= j < families@.len() && type_of_family(#[trigger] families@[j])
                        == FamilyType::Untyped implies !all_complete(families@.take(j + 1)) by {
                    assert(families@.take(j + 1)[i as int] == families@[i as int]);
                }
            }
            break;
        }
        proof {
            assert(families@.take(i + 1) =~= families@.take(i as int).push(families@[i as int]));
            assert(all_complete(families@.take(i + 1)));
        }
        if family_type(family) == FamilyType::Untyped {
            return None;
        }
        i = i + 1;
    }
    Some(metrics_handler(families))
}

/// A scrape succeeds if, and only if, each family has metrics and a name, however
/// many there are. It then gives status 200, the media type of the text format and
/// the text of these families; and else status 500 and a fixed text.
pub proof fn law_scrape_exposes_all_or_fails(
    families: Seq<MetricFamily>,
    r: Result<Exposition, EncodeFailure>,
)
    requires
        is_metrics_reply(families, r),
    ensures
        r is Ok <==> forall|i: int|
            0 <= i < families.len() ==> size_of_family(#[trigger] families[i]) > 0
                && name_of_family(families[i]).len() > 0,
        r matches Ok(exposed) ==> exposed.status == 200 && exposed.content_type@
            == "text/plain; version=0.0.4"@ && exposed.body@ == exposition(families) && (
        exposed.body@.len() == 0 <==> families.len() == 0),
        r matches Err(failure) ==> failure.reply.status == 500 && failure.reply.body@
            == "failed to encode metrics"@ && error_message(failure.cause) is Some,
{
    if all_complete(families) {
        assert forall|i: int| 0 <= i < families.len() implies size_of_family(#[trigger] families[i])
            > 0 && name_of_family(families[i]).len() > 0 by {
            assert(is_complete(families[i]));
        }
    }
}

/// There is a reply to every scrape without a family of no particular type. Such a
/// family stands in the way where each before it, and it itself, has metrics and a
/// name, and only there.
pub proof fn law_only_untyped_metrics_have_no_format(families: Seq<MetricFamily>, i: int)
    ensures
        (forall|j: int|
            0 <= j < families.len() ==> type_of_family(#[trigger] families[j])
                != FamilyType::Untyped) ==> !meets_untyped(families),
        0 <= i < families.len() && type_of_family(families[i]) == FamilyType::Untyped && (forall|
            j: int,
        |
            0 <= j <= i ==> size_of_family(#[trigger] families[j]) > 0 && name_of_family(
                families[j],
            ).len() > 0) ==> meets_untyped(families),
        0 <= i < families.len() && (size_of_family(families[i]) == 0 || name_of_family(
            families[i],
        ).len() == 0) && (forall|j: int|
            0 <= j < i ==> type_of_family(#[trigger] families[j]) != FamilyType::Untyped)
            ==> !meets_untyped(families),
{
    if 0 <= i < families.len() {
        if forall|j: int|
            0 <= j <= i ==> size_of_family(#[trigger] families[j]) > 0 && name_of_family(
                families[j],
            ).len() > 0 {
            let upto = families.take(i + 1);
            assert forall|j: int| 0 <= j < upto.len() implies is_complete(#[trigger] upto[j]) by {
                assert(upto[j] == families[j]);
            }
            assert(all_complete(families.take(i + 1)));
        }
        if !is_complete(families[i]) {
            assert forall|k: int| i <= k < families.len() implies !all_complete(
                #[trigger] families.take(k + 1),
            ) by {
                assert(families.take(k + 1)[i] == families[i]);
            }
        }
    }
}

} // verus!
