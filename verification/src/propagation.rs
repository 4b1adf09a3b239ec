//! Trace context and baggage on their way from one service to the next, in the
//! header fields of the W3C formats.

use crate::baggage::escaped;
use crate::baggage::escaped_byte;
use crate::baggage::has_escape;
use crate::baggage::is_key;
use crate::baggage::is_key_char;
use crate::baggage::is_space;
use crate::baggage::is_trimmed;
use crate::baggage::lemma_member_offers_its_name;
use crate::baggage::member;
use crate::baggage::offers;
use crate::baggage::trimmed;
use crate::headers::all_visible;
use crate::headers::ascii_bytes;
use crate::headers::first_value;
use crate::headers::header_contents;
use crate::headers::no_headers;
use crate::text::hex;
use axum::http::HeaderMap;
use axum::http::HeaderValue;
use opentelemetry::baggage::BaggageExt;
use opentelemetry::baggage::KeyValueMetadata;
use opentelemetry::propagation::TextMapPropagator;
use opentelemetry::trace::SpanContext;
use opentelemetry::trace::SpanId;
use opentelemetry::trace::TraceContextExt;
use opentelemetry::trace::TraceFlags;
use opentelemetry::trace::TraceId;
use opentelemetry::trace::TraceState;
use opentelemetry::Context;
use opentelemetry_http::HeaderExtractor;
use opentelemetry_http::HeaderInjector;
use opentelemetry_sdk::propagation::BaggagePropagator;
use opentelemetry_sdk::propagation::TraceContextPropagator;
use vstd::prelude::*;
use vstd::utf8::encode_utf8;

verus! {

// ---------------------------------------------------------------------------
// Trace context
// ---------------------------------------------------------------------------

/// `opentelemetry::trace::TraceState`, the vendor entries of a trace.
#[verifier::external_type_specification]
#[verifier::external_body]
pub struct ExTraceState(opentelemetry::trace::TraceState);

/// The entries that a trace state holds, each a key and a value, in order.
pub uninterp spec fn trace_state_entries(state: TraceState) -> Seq<(Seq<char>, Seq<char>)>;

/// What other services need to know of a span to put their own below it.
pub struct SpanLink {
    pub trace_id: u128,
    pub span_id: u64,
    pub flags: u8,
    pub trace_state: TraceState,
}

impl SpanLink {
    /// The ids, the flags and the vendor entries.
    pub open spec fn parts(self) -> (u128, u64, u8, Seq<(Seq<char>, Seq<char>)>) {
        (self.trace_id, self.span_id, self.flags, trace_state_entries(self.trace_state))
    }

    /// Whether the link names a span: neither id is zero.
    pub open spec fn names_a_span(self) -> bool {
        self.trace_id != 0 && self.span_id != 0
    }

    /// Whether the link names a span.
    pub fn is_valid(&self) -> (valid: bool)
        ensures
            valid == self.names_a_span(),
    {
        self.trace_id != 0 && self.span_id != 0
    }
}

/// The parts of a link that names no span.
pub open spec fn no_link() -> (u128, u64, u8, Seq<(Seq<char>, Seq<char>)>) {
    (0, 0, 0, Seq::empty())
}

/// The `traceparent` field: the format's version, the two ids and the flags, in
/// hexadecimal notation.
pub open spec fn traceparent(trace_id: u128, span_id: u64, flags: u8) -> Seq<char> {
    hex(0, 2) + seq!['-'] + hex(trace_id as nat, 32) + seq!['-'] + hex(span_id as nat, 16) + seq![
        '-',
    ] + hex(flags as nat, 2)
}

/// The `tracestate` field: the entries, separated by commas.
pub open spec fn tracestate(entries: Seq<(Seq<char>, Seq<char>)>) -> Seq<char>
    decreases entries.len(),
{
    if entries.len() == 0 {
        Seq::empty()
    } else {
        let member = entries.last().0 + seq!['='] + entries.last().1;
        if entries.len() == 1 {
            member
        } else {
            tracestate(entries.drop_last()) + seq![','] + member
        }
    }
}

/// Whether a character is one that a header value can be read back with: a
/// visible ASCII character, a space or a tab.
pub open spec fn is_visible_char(c: char) -> bool {
    32 <= c as u32 && (c as u32) < 127 || c as u32 == 9
}

/// Whether entries can be carried by a header field.
pub open spec fn visible_entries(entries: Seq<(Seq<char>, Seq<char>)>) -> bool {
    forall|i: int|
        0 <= i < entries.len() ==> (#[trigger] entries[i]).0.all(|c: char| is_visible_char(c))
            && entries[i].1.all(|c: char| is_visible_char(c))
}

/// The parts of the link that `TraceContextPropagator` reads from the first
/// values of the fields `traceparent` and `tracestate`.
pub uninterp spec fn w3c_link(traceparent: Option<Seq<u8>>, tracestate: Option<Seq<u8>>) -> (
    u128,
    u64,
    u8,
    Seq<(Seq<char>, Seq<char>)>,
);

/// The link that header fields carry.
pub open spec fn carried_link(contents: Map<Seq<char>, Seq<Seq<u8>>>) -> (
    u128,
    u64,
    u8,
    Seq<(Seq<char>, Seq<char>)>,
) {
    w3c_link(first_value(contents, "traceparent"@), first_value(contents, "tracestate"@))
}

/// `TraceContextPropagator::extract_with_context`, through `HeaderExtractor`,
/// reads a link from the first values of the fields `traceparent` and
/// `tracestate`. Without a valid `traceparent` the link names no span and is
/// otherwise empty. A `traceparent` of the format's first version gives its two
/// ids, and of the flags the lowest bit, which tells whether the span is sampled;
/// with an id of zero it is not valid.
#[verifier::external_body]
fn extract_link(headers: &HeaderMap<HeaderValue>) -> (link: SpanLink)
    ensures
        (link.trace_id, link.span_id, link.flags, trace_state_entries(link.trace_state))
            == w3c_link(
            first_value(header_contents(*headers), "traceparent"@),
            first_value(header_contents(*headers), "tracestate"@),
        ),
        link.trace_id == 0 || link.span_id == 0 ==> link.parts() == no_link(),
        first_value(header_contents(*headers), "traceparent"@) is None ==> link.parts()
            == no_link(),
        forall|trace_id: u128, span_id: u64, flags: u8|
            first_value(header_contents(*headers), "traceparent"@) == Some(
                ascii_bytes(#[trigger] traceparent(trace_id, span_id, flags)),
            ) && trace_id != 0 && span_id != 0 ==> link.trace_id == trace_id && link.span_id
                == span_id && link.flags == flags % 2,
        forall|trace_id: u128, span_id: u64, flags: u8|
            first_value(header_contents(*headers), "traceparent"@) == Some(
                ascii_bytes(#[trigger] traceparent(trace_id, span_id, flags)),
            ) && (trace_id == 0 || span_id == 0) ==> link.parts() == no_link(),
{
    let cx = TraceContextPropagator::new().extract_with_context(
        &Context::new(),
        &HeaderExtractor(headers),
    );
    let span = cx.span();
    let found = span.span_context();
    SpanLink {
        trace_id: u128::from_be_bytes(found.trace_id().to_bytes()),
        span_id: u64::from_be_bytes(found.span_id().to_bytes()),
        flags: found.trace_flags().to_u8(),
        trace_state: found.trace_state().clone(),
    }
}

/// How many fields a header map may have for a field to be added to it: well
/// below what a header map has room for.
pub open spec fn has_room(headers: HeaderMap<HeaderValue>) -> bool {
    header_contents(headers).dom().finite() && header_contents(headers).dom().len() < 1024
}

/// `TraceContextPropagator::inject_context`, through `HeaderInjector`, writes a
/// link that names a span into the fields `traceparent` and `tracestate`, with
/// the sampling bit alone of the flags, and leaves the headers as they are for
/// any other. What it wrote, it reads back; the vendor entries as far as a
/// header field can carry them.
#[verifier::external_body]
fn inject_link(link: &SpanLink, headers: &mut HeaderMap<HeaderValue>)
    requires
        has_room(*old(headers)),
    ensures
        !link.names_a_span() ==> header_contents(*final(headers)) == header_contents(*old(headers)),
        link.names_a_span() ==> header_contents(*final(headers)).remove("tracestate"@)
            == header_contents(*old(headers)).insert(
            "traceparent"@,
            seq![ascii_bytes(traceparent(link.trace_id, link.span_id, link.flags % 2))],
        ).remove("tracestate"@),
        link.names_a_span() && visible_entries(link.parts().3) ==> header_contents(
            *final(headers),
        ).contains_pair("tracestate"@, seq![ascii_bytes(tracestate(link.parts().3))]),
        link.names_a_span() ==> carried_link(header_contents(*final(headers))).0 == link.trace_id
            && carried_link(header_contents(*final(headers))).1 == link.span_id
            && carried_link(header_contents(*final(headers))).2 == link.flags % 2,
        link.names_a_span() && visible_entries(link.parts().3) ==> carried_link(
            header_contents(*final(headers)),
        ).3 == link.parts().3,
        !link.names_a_span() && first_value(header_contents(*old(headers)), "traceparent"@) is None
            ==> carried_link(header_contents(*final(headers))) == no_link(),
{
    let cx = Context::new().with_remote_span_context(
        SpanContext::new(
            TraceId::from(link.trace_id),
            SpanId::from(link.span_id),
            TraceFlags::new(link.flags),
            true,
            link.trace_state.clone(),
        ),
    );
    TraceContextPropagator::new().inject_context(&cx, &mut HeaderInjector(headers));
}

// ---------------------------------------------------------------------------
// Baggage
// ---------------------------------------------------------------------------

/// A name and a value that a request takes along from service to service, with
/// the properties that belong to the value.
pub struct BaggageItem {
    pub key: String,
    pub value: String,
    pub metadata: String,
}

/// What baggage items say: under each name a value and its properties.
pub open spec fn baggage_map(items: Seq<BaggageItem>) -> Map<Seq<char>, (Seq<char>, Seq<char>)>
    decreases items.len(),
{
    if items.len() == 0 {
        Map::empty()
    } else {
        baggage_map(items.drop_last()).insert(
            items.last().key@,
            (items.last().value@, items.last().metadata@),
        )
    }
}

/// Whether no name occurs twice.
pub open spec fn distinct_keys(items: Seq<BaggageItem>) -> bool {
    forall|i: int, j: int|
        0 <= i < j < items.len() ==> (#[trigger] items[i]).key@ != (#[trigger] items[j]).key@
}

/// Under a name that occurs once, the items say what its item says; and every
/// name comes from an item.
pub proof fn lemma_baggage_map(items: Seq<BaggageItem>)
    requires
        distinct_keys(items),
    ensures
        forall|i: int|
            0 <= i < items.len() ==> baggage_map(items).contains_pair(
                (#[trigger] items[i]).key@,
                (items[i].value@, items[i].metadata@),
            ),
        forall|key: Seq<char>| #[trigger]
            baggage_map(items).contains_key(key) ==> exists|i: int|
                0 <= i < items.len() && (#[trigger] items[i]).key@ == key,
    decreases items.len(),
{
    if items.len() > 0 {
        let before = items.drop_last();
        lemma_baggage_map(before);
        assert forall|i: int| 0 <= i < items.len() implies baggage_map(items).contains_pair(
            (#[trigger] items[i]).key@,
            (items[i].value@, items[i].metadata@),
        ) by {
            if i < items.len() - 1 {
                assert(before[i] == items[i]);
                assert(items[i].key@ != items[items.len() - 1].key@);
            }
        }
        assert forall|key: Seq<char>| #[trigger]
            baggage_map(items).contains_key(key) implies exists|i: int|
            0 <= i < items.len() && (#[trigger] items[i]).key@ == key by {
            if key == items.last().key@ {
                assert(items[items.len() - 1].key@ == key);
            } else {
                assert(baggage_map(before).contains_key(key));
                let i = choose|i: int| 0 <= i < before.len() && (#[trigger] before[i]).key@ == key;
                assert(items[i].key@ == key);
            }
        }
    }
}

/// The field `baggage` with one item that has no properties.
pub open spec fn plain_baggage(key: Seq<char>, value: Seq<char>) -> Seq<char> {
    key + seq!['='] + value
}

/// Whether a character stands for itself in a value: a visible ASCII character
/// that is no quote and no separator.
pub open spec fn is_plain_char(c: char) -> bool {
    33 <= c as u32 && c as u32 <= 126 && c != '"' && c != ',' && c != ';' && c != '='
}

/// Whether a name and a value make an item that stands for itself in the field
/// `baggage`, within the limit of the field.
pub open spec fn is_plain_item(key: Seq<char>, value: Seq<char>) -> bool {
    &&& is_key(key) && !has_escape(key)
    &&& value.all(|c: char| is_plain_char(c)) && !has_escape(value)
    &&& plain_baggage(key, value).len() <= 8192
}

/// One item without properties.
pub open spec fn one_item(key: Seq<char>, value: Seq<char>) -> Map<
    Seq<char>,
    (Seq<char>, Seq<char>),
> {
    Map::empty().insert(key, (value, Seq::empty()))
}

/// What `BaggagePropagator` reads from the first value of the field `baggage`:
/// under each name a value and its properties.
pub uninterp spec fn w3c_baggage(baggage: Option<Seq<u8>>) -> Map<
    Seq<char>,
    (Seq<char>, Seq<char>),
>;

/// The baggage that header fields carry.
pub open spec fn carried_baggage(contents: Map<Seq<char>, Seq<Seq<u8>>>) -> Map<
    Seq<char>,
    (Seq<char>, Seq<char>),
> {
    w3c_baggage(first_value(contents, "baggage"@))
}

/// Whether there is a value that baggage is read from: one of visible ASCII that
/// is within the format's limit of length.
pub open spec fn is_legible_value(value: Option<Seq<u8>>) -> bool {
    value matches Some(bytes) && all_visible(bytes) && bytes.len() <= 8192
}

/// `BaggagePropagator::extract_with_context`, through `HeaderExtractor`, reads
/// baggage from the first value of the field `baggage`, and none without one or
/// where the value is not visible ASCII or too long. No name occurs twice in it,
/// and each can be a name. A name and a value that hold no escapes and no
/// separators are read as they stand. The order of the items is left open.
#[verifier::external_body]
fn extract_baggage(headers: &HeaderMap<HeaderValue>) -> (items: Vec<BaggageItem>)
    ensures
        baggage_map(items@) == w3c_baggage(first_value(header_contents(*headers), "baggage"@)),
        distinct_keys(items@),
        forall|i: int| 0 <= i < items@.len() ==> is_key((#[trigger] items@[i]).key@),
        !is_legible_value(first_value(header_contents(*headers), "baggage"@)) ==> items@.len() == 0,
        forall|key: Seq<char>, value: Seq<char>|
            first_value(header_contents(*headers), "baggage"@) == Some(
                ascii_bytes(#[trigger] plain_baggage(key, value)),
            ) && is_plain_item(key, value) ==> baggage_map(items@) == one_item(key, value),
{
    let cx = BaggagePropagator::new().extract_with_context(
        &Context::new(),
        &HeaderExtractor(headers),
    );
    cx.baggage().iter().map(
        |(key, (value, metadata))| BaggageItem {
            key: key.as_str().to_string(),
            value: value.as_str().to_string(),
            metadata: metadata.as_str().to_string(),
        },
    ).collect()
}

/// Whether properties can be carried as they stand: visible ASCII without a
/// comma, and no space at either end or beside a semicolon.
pub open spec fn is_plain_metadata(text: Seq<char>) -> bool {
    &&& text.all(|c: char| is_visible_char(c) && c != ',')
    &&& forall|i: int|
        0 <= i < text.len() && is_space(#[trigger] text[i]) ==> 0 < i < text.len() - 1 && text[i
            - 1] != ';' && text[i + 1] != ';'
}

/// Whether an item can be carried as it stands.
pub open spec fn is_carriable(item: BaggageItem) -> bool {
    &&& is_key(item.key@) && !has_escape(item.key@)
    &&& is_trimmed(item.value@) && !has_escape(item.value@)
    &&& is_plain_metadata(item.metadata@) && !has_escape(item.metadata@)
}

/// The items whose names can be names. The others are dropped.
pub open spec fn named(items: Seq<BaggageItem>) -> Seq<BaggageItem>
    decreases items.len(),
{
    if items.len() == 0 {
        Seq::empty()
    } else if is_key(items.last().key@) {
        named(items.drop_last()).push(items.last())
    } else {
        named(items.drop_last())
    }
}

/// The text of an item in the field `baggage`.
pub open spec fn member_of(item: BaggageItem) -> Seq<char> {
    member(item.key@, item.value@, item.metadata@)
}

/// The field `baggage`: the items, separated by commas.
pub open spec fn baggage_field(items: Seq<BaggageItem>) -> Seq<char>
    decreases items.len(),
{
    if items.len() == 0 {
        Seq::empty()
    } else if items.len() == 1 {
        member_of(items.last())
    } else {
        baggage_field(items.drop_last()) + seq![','] + member_of(items.last())
    }
}

/// How many bytes items take in a context.
pub open spec fn content_len(items: Seq<BaggageItem>) -> nat
    decreases items.len(),
{
    if items.len() == 0 {
        0
    } else {
        content_len(items.drop_last()) + items.last().key@.len() + encode_utf8(
            items.last().value@,
        ).len() + encode_utf8(trimmed(items.last().metadata@)).len()
    }
}

/// Whether a context can hold all the items at once.
pub open spec fn fit_in_context(items: Seq<BaggageItem>) -> bool {
    &&& distinct_keys(items)
    &&& items.len() <= 64
    &&& content_len(items) <= 8192
}

/// Whether a field can be written at all: it holds no control character but the
/// tab.
pub open spec fn is_writable(field: Seq<char>) -> bool {
    field.all(|c: char| 32 <= c as u32 && c as u32 != 127 || c as u32 == 9)
}

/// Whether a field is read back to its end: it is visible ASCII, and within the
/// format's limits of length and of members.
pub open spec fn is_legible(field: Seq<char>) -> bool {
    &&& field.all(|c: char| is_visible_char(c))
    &&& field.len() <= 8192
    &&& field.to_multiset().count(',') < 64
}

/// Whether a value is the field with the items in some order.
pub open spec fn is_field_of(value: Seq<u8>, items: Seq<BaggageItem>) -> bool {
    exists|order: Seq<BaggageItem>|
        order.to_multiset() == items.to_multiset() && value == encode_utf8(
            #[trigger] baggage_field(order),
        )
}

/// Whether an item stands alone: no other item reads as one of its name.
pub open spec fn stands_alone(items: Seq<BaggageItem>, i: int) -> bool {
    forall|j: int|
        0 <= j < items.len() && j != i ==> !offers(member_of(#[trigger] items[j]), items[i].key@)
}

/// Whether the items arrive, one by one: each that can be carried as it stands
/// does so, whatever becomes of the others, unless another reads as one of its
/// name; and nothing arrives under a name that no item reads as.
pub open spec fn arrive(
    items: Seq<BaggageItem>,
    carried: Map<Seq<char>, (Seq<char>, Seq<char>)>,
) -> bool {
    &&& forall|i: int|
        0 <= i < items.len() && is_carriable(#[trigger] items[i]) && stands_alone(items, i)
            ==> carried.contains_pair(items[i].key@, (items[i].value@, items[i].metadata@))
    &&& forall|key: Seq<char>| #[trigger]
        carried.contains_key(key) ==> is_key(key) && exists|i: int|
            0 <= i < items.len() && offers(member_of(#[trigger] items[i]), key)
}

/// Whether baggage reaches the next service as it stands: a context can hold it,
/// its field is legible, and each item can be carried.
pub open spec fn reaches_next_service(items: Seq<BaggageItem>) -> bool {
    &&& fit_in_context(items)
    &&& is_legible(baggage_field(items))
    &&& forall|i: int| 0 <= i < items.len() ==> is_carriable(#[trigger] items[i])
}

/// Items that can be carried all have names that can be names.
proof fn lemma_all_named(items: Seq<BaggageItem>)
    requires
        forall|i: int| 0 <= i < items.len() ==> is_carriable(#[trigger] items[i]),
    ensures
        named(items) == items,
    decreases items.len(),
{
    if items.len() > 0 {
        let before = items.drop_last();
        assert forall|i: int| 0 <= i < before.len() implies is_carriable(#[trigger] before[i]) by {
            assert(before[i] == items[i]);
        }
        lemma_all_named(before);
        assert(is_carriable(items[items.len() - 1]));
        assert(before.push(items.last()) =~= items);
    }
}

/// An item that can be carried reads as one of its own name, and of no other.
proof fn lemma_carriable_offers_its_name(item: BaggageItem, key: Seq<char>)
    requires
        is_carriable(item),
        offers(member_of(item), key),
    ensures
        key == item.key@,
{
    let metadata = item.metadata@;
    if metadata.len() > 0 {
        assert(!is_space(metadata[0]) && !is_space(metadata[metadata.len() - 1]));
    }
    assert forall|i: int| 0 <= i < metadata.len() implies #[trigger] metadata[i] != ',' by {
        let plain = |c: char| is_visible_char(c) && c != ',';
        assert(metadata.all(plain));
        assert(plain(metadata[i]));
    }
    lemma_member_offers_its_name(item.key@, item.value@, metadata, key);
}

/// Where each item can be carried and they arrive, what arrives is what they say.
proof fn lemma_all_arrive(
    items: Seq<BaggageItem>,
    carried: Map<Seq<char>, (Seq<char>, Seq<char>)>,
)
    requires
        reaches_next_service(items),
        arrive(items, carried),
    ensures
        carried == baggage_map(items),
{
    lemma_baggage_map(items);
    assert forall|i: int| 0 <= i < items.len() implies carried.contains_pair(
        (#[trigger] items[i]).key@,
        (items[i].value@, items[i].metadata@),
    ) by {
        assert forall|j: int| 0 <= j < items.len() && j != i implies !offers(
            member_of(#[trigger] items[j]),
            items[i].key@,
        ) by {
            if offers(member_of(items[j]), items[i].key@) {
                lemma_carriable_offers_its_name(items[j], items[i].key@);
            }
        }
        assert(stands_alone(items, i));
    }
    assert forall|key: Seq<char>|
        carried.contains_key(key) == #[trigger] baggage_map(items).contains_key(key) && (
        carried.contains_key(key) ==> carried[key] == baggage_map(items)[key]) by {
        if baggage_map(items).contains_key(key) {
            let i = choose|i: int| 0 <= i < items.len() && (#[trigger] items[i]).key@ == key;
            assert(carried.contains_pair(items[i].key@, (items[i].value@, items[i].metadata@)));
        }
        if carried.contains_key(key) {
            let i = choose|i: int|
                0 <= i < items.len() && offers(member_of(#[trigger] items[i]), key);
            lemma_carriable_offers_its_name(items[i], key);
        }
    }
    assert(carried =~= baggage_map(items));
}

/// `BaggagePropagator::inject_context`, through `HeaderInjector`, writes baggage
/// into the field `baggage` and touches no other field. Items whose names cannot
/// be names are dropped; where none is left, that field is left alone too. The
/// rest of the contract is on items that a context can hold. They are written one
/// after another, in an order that is left open, unless a control character in
/// their properties keeps the field from being written. A legible field, in
/// headers that had none, is read back item by item: those that hold nothing that
/// the format drops or takes for an escape come back as they stand, unless another
/// reads as one of the same name; and no name comes back that no item reads as.
#[verifier::external_body]
fn inject_baggage(items: &Vec<BaggageItem>, headers: &mut HeaderMap<HeaderValue>)
    requires
        has_room(*old(headers)),
    ensures
        header_contents(*final(headers)).remove("baggage"@) == header_contents(
            *old(headers),
        ).remove("baggage"@),
        named(items@).len() == 0 ==> header_contents(*final(headers)) == header_contents(
            *old(headers),
        ),
        fit_in_context(named(items@)) && !is_writable(baggage_field(named(items@)))
            ==> header_contents(*final(headers)) == header_contents(*old(headers)),
        fit_in_context(named(items@)) && is_writable(baggage_field(named(items@))) && named(
            items@,
        ).len() > 0 ==> header_contents(*final(headers)).contains_key("baggage"@)
            && header_contents(*final(headers))["baggage"@].len() == 1 && is_field_of(
            header_contents(*final(headers))["baggage"@][0],
            named(items@),
        ),
        fit_in_context(named(items@)) && is_legible(baggage_field(named(items@))) && first_value(
            header_contents(*old(headers)),
            "baggage"@,
        ) is None ==> arrive(named(items@), carried_baggage(header_contents(*final(headers)))),
{
    let baggage: Vec<KeyValueMetadata> = items.iter().map(
        |item|
            KeyValueMetadata::new(
                item.key.clone(),
                item.value.clone(),
                item.metadata.as_str(),
            ),
    ).collect();
    let cx = Context::new().with_baggage(baggage);
    BaggagePropagator::new().inject_context(&cx, &mut HeaderInjector(headers));
}

// ---------------------------------------------------------------------------
// Requests
// ---------------------------------------------------------------------------

/// What an incoming request brings along: the span of the caller, if it named
/// one, and baggage.
pub struct Incoming {
    pub parent: Option<SpanLink>,
    pub baggage: Vec<BaggageItem>,
}

impl Incoming {
    /// Whether this is what the header fields carry: the caller's span where
    /// they name one, and else none, so that the request starts a trace of its
    /// own; and the baggage.
    pub open spec fn is_carried_by(self, contents: Map<Seq<char>, Seq<Seq<u8>>>) -> bool {
        &&& self.parent is Some <==> carried_link(contents).0 != 0
        &&& self.parent matches Some(link) ==> link.names_a_span() && link.parts() == carried_link(
            contents,
        )
        &&& distinct_keys(self.baggage@)
        &&& baggage_map(self.baggage@) == carried_baggage(contents)
    }

    /// Whether the fields of the W3C formats are honoured. A `traceparent` of the
    /// format's first version names the caller's span, and tells by the lowest
    /// bit of its flags whether that is sampled; with an id of zero it names
    /// none. A `baggage` field with one plain item brings that item. Without the
    /// field `traceparent` there is no caller, and without a legible field
    /// `baggage` no baggage. Each baggage item has a name that can be one.
    pub open spec fn honours_fields(self, contents: Map<Seq<char>, Seq<Seq<u8>>>) -> bool {
        &&& first_value(contents, "traceparent"@) is None ==> self.parent is None
        &&& !is_legible_value(first_value(contents, "baggage"@)) ==> self.baggage@.len() == 0
        &&& forall|i: int|
            0 <= i < self.baggage@.len() ==> is_key((#[trigger] self.baggage@[i]).key@)
        &&& forall|trace_id: u128, span_id: u64, flags: u8|
            first_value(contents, "traceparent"@) == Some(
                ascii_bytes(#[trigger] traceparent(trace_id, span_id, flags)),
            ) ==> if trace_id != 0 && span_id != 0 {
                &&& self.parent matches Some(link)
                &&& link.trace_id == trace_id
                &&& link.span_id == span_id
                &&& link.flags == flags % 2
            } else {
                self.parent is None
            }
        &&& forall|key: Seq<char>, value: Seq<char>|
            first_value(contents, "baggage"@) == Some(
                ascii_bytes(#[trigger] plain_baggage(key, value)),
            ) && is_plain_item(key, value) ==> baggage_map(self.baggage@) == one_item(key, value)
    }
}

/// Reads what an incoming request brings along from its headers.
pub fn extract(headers: &HeaderMap<HeaderValue>) -> (incoming: Incoming)
    ensures
        incoming.is_carried_by(header_contents(*headers)),
        incoming.honours_fields(header_contents(*headers)),
{
    let link = extract_link(headers);
    let baggage = extract_baggage(headers);
    if link.is_valid() {
        Incoming { parent: Some(link), baggage }
    } else {
        Incoming { parent: None, baggage }
    }
}

/// Whether header fields carry a span and baggage: who reads them back finds
/// the ids and the sampling bit of the span; its vendor entries and the baggage
/// too, item by item, as far as header fields can carry them.
pub open spec fn carries(
    contents: Map<Seq<char>, Seq<Seq<u8>>>,
    link: SpanLink,
    baggage: Seq<BaggageItem>,
) -> bool {
    &&& link.names_a_span() ==> {
        &&& carried_link(contents).0 == link.trace_id
        &&& carried_link(contents).1 == link.span_id
        &&& carried_link(contents).2 == link.flags % 2
    }
    &&& link.names_a_span() && visible_entries(link.parts().3) ==> carried_link(contents).3
        == link.parts().3
    &&& !link.names_a_span() ==> carried_link(contents) == no_link()
    &&& fit_in_context(named(baggage)) && is_legible(baggage_field(named(baggage))) ==> arrive(
        named(baggage),
        carried_baggage(contents),
    )
    &&& reaches_next_service(baggage) ==> carried_baggage(contents) == baggage_map(baggage)
}

/// Whether these are the headers that a request to the next service gets: they
/// carry the span and the baggage in the three fields of the W3C formats, and
/// there is no other field. The field `baggage` holds the items that have names
/// that can be names; it is missing where there is none, or where a control
/// character keeps it from being written.
pub open spec fn are_sent_with(
    contents: Map<Seq<char>, Seq<Seq<u8>>>,
    link: SpanLink,
    baggage: Seq<BaggageItem>,
) -> bool {
    &&& carries(contents, link, baggage)
    &&& link.names_a_span() ==> first_value(contents, "traceparent"@) == Some(
        ascii_bytes(traceparent(link.trace_id, link.span_id, (link.flags % 2) as u8)),
    )
    &&& link.names_a_span() && visible_entries(link.parts().3) ==> first_value(
        contents,
        "tracestate"@,
    ) == Some(ascii_bytes(tracestate(link.parts().3)))
    &&& !link.names_a_span() ==> !contents.contains_key("traceparent"@) && !contents.contains_key(
        "tracestate"@,
    )
    &&& named(baggage).len() == 0 ==> !contents.contains_key("baggage"@)
    &&& fit_in_context(named(baggage)) ==> (contents.contains_key("baggage"@) <==> named(
        baggage,
    ).len() > 0 && is_writable(baggage_field(named(baggage))))
    &&& fit_in_context(named(baggage)) ==> (first_value(contents, "baggage"@) matches Some(value)
        ==> is_field_of(value, named(baggage)))
    &&& forall|name: Seq<char>| #[trigger]
        contents.contains_key(name) ==> name == "traceparent"@ || name == "tracestate"@ || name
            == "baggage"@
}

/// The headers of a request to the next service: they carry the given span, as
/// the parent of what that service does, and the baggage.
pub fn inject(link: &SpanLink, baggage: &Vec<BaggageItem>) -> (headers: HeaderMap<HeaderValue>)
    ensures
        are_sent_with(header_contents(headers), *link, baggage@),
{
    let mut headers = no_headers();
    let ghost start = header_contents(headers);
    inject_link(link, &mut headers);
    let ghost linked = header_contents(headers);
    proof {
        lemma_field_names_differ();
        assert forall|name: Seq<char>| #[trigger] linked.contains_key(name) implies name
            == "traceparent"@ || name == "tracestate"@ by {
            if name != "tracestate"@ && link.names_a_span() {
                assert(linked.remove("tracestate"@).contains_key(name));
            }
        }
        assert(linked.dom().subset_of(set!["traceparent"@, "tracestate"@]));
        vstd::set_lib::lemma_len_subset(linked.dom(), set!["traceparent"@, "tracestate"@]);
        if link.names_a_span() {
            lemma_same_but_for(
                linked,
                start.insert(
                    "traceparent"@,
                    seq![ascii_bytes(traceparent(link.trace_id, link.span_id, link.flags % 2))],
                ),
                "tracestate"@,
                "traceparent"@,
            );
        }
    }
    inject_baggage(baggage, &mut headers);
    proof {
        let sent = header_contents(headers);
        lemma_same_but_for(sent, linked, "baggage"@, "traceparent"@);
        lemma_same_but_for(sent, linked, "baggage"@, "tracestate"@);
        assert(!linked.contains_key("baggage"@));
        assert forall|name: Seq<char>| #[trigger] sent.contains_key(name) implies name
            == "traceparent"@ || name == "tracestate"@ || name == "baggage"@ by {
            if name != "baggage"@ {
                lemma_same_but_for(sent, linked, "baggage"@, name);
            }
        }
        if reaches_next_service(baggage@) {
            lemma_all_named(baggage@);
            lemma_all_arrive(baggage@, carried_baggage(sent));
        }
    }
    headers
}

/// The names of the three fields that carry trace context and baggage differ.
proof fn lemma_field_names_differ()
    ensures
        "traceparent"@ != "tracestate"@,
        "traceparent"@ != "baggage"@,
        "tracestate"@ != "baggage"@,
{
    reveal_strlit("traceparent");
    reveal_strlit("tracestate");
    reveal_strlit("baggage");
    assert("traceparent"@.len() == 11);
    assert("tracestate"@.len() == 10);
    assert("baggage"@.len() == 7);
}

/// Headers that are the same without one field agree on every other field.
proof fn lemma_same_but_for(
    a: Map<Seq<char>, Seq<Seq<u8>>>,
    b: Map<Seq<char>, Seq<Seq<u8>>>,
    field: Seq<char>,
    name: Seq<char>,
)
    requires
        a.remove(field) == b.remove(field),
        name != field,
    ensures
        a.contains_key(name) == b.contains_key(name),
        a.contains_key(name) ==> a[name] == b[name],
        first_value(a, name) == first_value(b, name),
{
    assert(a.remove(field).contains_key(name) == a.contains_key(name));
    assert(b.remove(field).contains_key(name) == b.contains_key(name));
    if a.contains_key(name) {
        assert(a.remove(field)[name] == a[name]);
        assert(b.remove(field)[name] == b[name]);
    }
}

/// A service that reads the headers another one sent continues its trace: its
/// parent is the span that was sent, with its sampling bit and, as far as header
/// fields can carry them, its vendor entries. Where no span was sent, it starts
/// a trace of its own. The baggage that was sent is the baggage that arrives: each
/// item that can be carried and that no other reads as, and all of it where each
/// can be carried.
pub proof fn law_next_service_continues_the_trace(
    contents: Map<Seq<char>, Seq<Seq<u8>>>,
    link: SpanLink,
    baggage: Seq<BaggageItem>,
    incoming: Incoming,
)
    requires
        carries(contents, link, baggage),
        incoming.is_carried_by(contents),
    ensures
        link.trace_id != 0 && link.span_id != 0 ==> {
            &&& incoming.parent matches Some(parent)
            &&& parent.trace_id == link.trace_id
            &&& parent.span_id == link.span_id
            &&& parent.flags == link.flags % 2
            &&& visible_entries(trace_state_entries(link.trace_state)) ==> trace_state_entries(
                parent.trace_state,
            ) == trace_state_entries(link.trace_state)
        },
        link.trace_id == 0 || link.span_id == 0 ==> incoming.parent is None,
        fit_in_context(named(baggage)) && is_legible(baggage_field(named(baggage))) ==> arrive(
            named(baggage),
            baggage_map(incoming.baggage@),
        ),
        reaches_next_service(baggage) ==> baggage_map(incoming.baggage@) == baggage_map(baggage),
{
}

/// Three services in a row share one trace: where the second one, in the trace
/// that it continues, asks the third, the third continues the trace of the
/// first.
pub proof fn law_one_trace_across_three_services(
    to_second: Map<Seq<char>, Seq<Seq<u8>>>,
    first_link: SpanLink,
    first_baggage: Seq<BaggageItem>,
    at_second: Incoming,
    to_third: Map<Seq<char>, Seq<Seq<u8>>>,
    second_link: SpanLink,
    second_baggage: Seq<BaggageItem>,
    at_third: Incoming,
)
    requires
        first_link.trace_id != 0 && first_link.span_id != 0,
        carries(to_second, first_link, first_baggage),
        at_second.is_carried_by(to_second),
        second_link.trace_id != 0 && second_link.span_id != 0,
        at_second.parent matches Some(parent) ==> second_link.trace_id == parent.trace_id,
        carries(to_third, second_link, second_baggage),
        at_third.is_carried_by(to_third),
    ensures
        at_third.parent matches Some(parent) && parent.trace_id == first_link.trace_id
            && parent.span_id == second_link.span_id,
{
    law_next_service_continues_the_trace(to_second, first_link, first_baggage, at_second);
    law_next_service_continues_the_trace(to_third, second_link, second_baggage, at_third);
}

/// Vendor entries of visible ASCII characters, spaces and tabs can be carried.
pub proof fn law_visible_entries_can_be_carried(entries: Seq<(Seq<char>, Seq<char>)>)
    requires
        forall|i: int, j: int|
            0 <= i < entries.len() && 0 <= j < entries[i].0.len() ==> ' ' <= #[trigger] entries[i].0[j]
                <= '~' || entries[i].0[j] == '\t',
        forall|i: int, j: int|
            0 <= i < entries.len() && 0 <= j < entries[i].1.len() ==> ' ' <= #[trigger] entries[i].1[j]
                <= '~' || entries[i].1[j] == '\t',
    ensures
        visible_entries(entries),
{
    assert forall|i: int| 0 <= i < entries.len() implies (#[trigger] entries[i]).0.all(
        |c: char| is_visible_char(c),
    ) && entries[i].1.all(|c: char| is_visible_char(c)) by {
        assert forall|j: int| 0 <= j < entries[i].0.len() implies is_visible_char(
            #[trigger] entries[i].0[j],
        ) by {
            lemma_visible(entries[i].0[j]);
        }
        assert forall|j: int| 0 <= j < entries[i].1.len() implies is_visible_char(
            #[trigger] entries[i].1[j],
        ) by {
            lemma_visible(entries[i].1[j]);
        }
    }
}

/// From the space to the tilde, and for the tab, a character is visible.
proof fn lemma_visible(c: char)
    requires
        ' ' <= c <= '~' || c == '\t',
    ensures
        is_visible_char(c),
{
}

/// Whether a character is a letter in lower case, a digit, a dot, a hyphen or an
/// underscore.
pub open spec fn is_word_char(c: char) -> bool {
    'a' <= c <= 'z' || '0' <= c <= '9' || c == '.' || c == '-' || c == '_'
}

/// What holds of a character of a word.
proof fn lemma_word_char(c: char)
    requires
        is_word_char(c),
    ensures
        is_key_char(c),
        is_visible_char(c),
        !is_space(c),
        c != '%',
        c != ',',
{
}

/// Whatever a value holds, it is written in visible characters without a comma, at
/// most three for each byte.
proof fn lemma_escaped_is_visible(bytes: Seq<u8>)
    ensures
        escaped(bytes).len() <= 3 * bytes.len(),
        forall|i: int|
            0 <= i < escaped(bytes).len() ==> is_visible_char(#[trigger] escaped(bytes)[i])
                && escaped(bytes)[i] != ',',
    decreases bytes.len(),
{
    if bytes.len() > 0 {
        let byte = bytes.last();
        let before = escaped(bytes.drop_last());
        let last = escaped_byte(byte);
        lemma_escaped_is_visible(bytes.drop_last());
        assert((byte / 16) < 16 && (byte % 16) < 16);
        assert forall|i: int| 0 <= i < last.len() implies is_visible_char(#[trigger] last[i])
            && last[i] != ',' by {}
        assert forall|i: int| 0 <= i < escaped(bytes).len() implies is_visible_char(
            #[trigger] escaped(bytes)[i],
        ) && escaped(bytes)[i] != ',' by {
            if i >= before.len() {
                assert(escaped(bytes)[i] == last[i - before.len()]);
            } else {
                assert(escaped(bytes)[i] == before[i]);
            }
        }
    }
}

/// Whether items are plain. A name is a word. A value is any text without a
/// percent sign that begins and ends in a visible ASCII character, if it is not
/// empty. Properties are words with equals signs and semicolons. No item takes more
/// than 125 bytes, where those of the value count three times.
pub open spec fn are_plain(items: Seq<BaggageItem>) -> bool {
    forall|i: int|
        0 <= i < items.len() ==> {
            let item = #[trigger] items[i];
            &&& item.key@.len() > 0
            &&& item.key@.len() + 3 * encode_utf8(item.value@).len() + item.metadata@.len() <= 125
            &&& forall|j: int| 0 <= j < item.key@.len() ==> is_word_char(#[trigger] item.key@[j])
            &&& forall|j: int| 0 <= j < item.value@.len() ==> #[trigger] item.value@[j] != '%'
            &&& item.value@.len() > 0 ==> '!' <= item.value@[0] <= '~' && '!'
                <= item.value@[item.value@.len() - 1] <= '~'
            &&& forall|j: int|
                0 <= j < item.metadata@.len() ==> is_word_char(#[trigger] item.metadata@[j])
                    || item.metadata@[j] == '=' || item.metadata@[j] == ';'
        }
}

/// From the exclamation mark to the tilde, a character is no white space.
proof fn lemma_no_space(c: char)
    requires
        '!' <= c <= '~',
    ensures
        !is_space(c),
{
}

/// A plain item can be carried, in visible characters without a comma.
proof fn lemma_plain_item(items: Seq<BaggageItem>, i: int)
    requires
        are_plain(items),
        0 <= i < items.len(),
    ensures
        is_carriable(items[i]),
        member_of(items[i]).len() <= 127,
        items[i].key@.len() + encode_utf8(items[i].value@).len() + encode_utf8(
            trimmed(items[i].metadata@),
        ).len() <= 125,
        forall|j: int|
            0 <= j < member_of(items[i]).len() ==> is_visible_char(
                #[trigger] member_of(items[i])[j],
            ) && member_of(items[i])[j] != ',',
{
    let item = items[i];
    let key = item.key@;
    let value = item.value@;
    let metadata = item.metadata@;
    let bytes = encode_utf8(value);
    assert forall|j: int| 0 <= j < key.len() implies is_key_char(#[trigger] key[j])
        && is_visible_char(key[j]) && key[j] != ',' && key[j] != '%' by {
        lemma_word_char(key[j]);
    }
    assert forall|j: int| 0 <= j < metadata.len() implies is_visible_char(#[trigger] metadata[j])
        && metadata[j] != ',' && metadata[j] != '%' && !is_space(metadata[j]) && '\0'
        <= metadata[j] <= '\u{7f}' by {
        if is_word_char(metadata[j]) {
            lemma_word_char(metadata[j]);
        }
    }
    if value.len() > 0 {
        lemma_no_space(value[0]);
        lemma_no_space(value[value.len() - 1]);
    }
    lemma_escaped_is_visible(bytes);
    assert(vstd::utf8::is_ascii_chars(metadata));
    vstd::utf8::is_ascii_chars_encode_utf8(metadata);
    assert(trimmed(value) == value && trimmed(metadata) == metadata);
    let text = member_of(item);
    let head = key.len() as int;
    let tail = head + 1 + escaped(bytes).len();
    assert forall|j: int| 0 <= j < text.len() implies is_visible_char(#[trigger] text[j]) && text[j]
        != ',' by {
        if j < head {
            assert(text[j] == key[j]);
        } else if j > head && j < tail {
            assert(text[j] == escaped(bytes)[j - head - 1]);
        } else if j > tail {
            assert(text[j] == metadata[j - tail - 1]);
        }
    }
}

/// The field of plain items is legible, and a context can hold them.
proof fn lemma_plain_field(items: Seq<BaggageItem>)
    requires
        are_plain(items),
    ensures
        content_len(items) <= 125 * items.len(),
        baggage_field(items).len() <= 128 * items.len(),
        items.len() > 0 ==> baggage_field(items).len() < 128 * items.len(),
        forall|j: int|
            0 <= j < baggage_field(items).len() ==> is_visible_char(
                #[trigger] baggage_field(items)[j],
            ),
        items.len() > 0 ==> baggage_field(items).to_multiset().count(',') == items.len() - 1,
        items.len() == 0 ==> baggage_field(items).to_multiset().count(',') == 0,
    decreases items.len(),
{
    broadcast use vstd::seq_lib::group_to_multiset_ensures;

    if items.len() == 0 {
        assert(baggage_field(items) =~= Seq::empty());
    } else {
        let before = items.drop_last();
        let last = items.len() - 1;
        let item = items[last];
        let text = member_of(item);
        assert forall|i: int| 0 <= i < before.len() implies #[trigger] before[i] == items[i] by {}
        assert(are_plain(before));
        lemma_plain_field(before);
        lemma_plain_item(items, last);
        assert(!text.contains(','));
        assert(text.to_multiset().count(',') == 0);
        if items.len() > 1 {
            let joined = baggage_field(before) + seq![','];
            assert(baggage_field(items) =~= joined + text);
            vstd::seq_lib::lemma_multiset_commutative(joined, text);
            assert(joined =~= baggage_field(before).push(','));
            assert forall|j: int| 0 <= j < baggage_field(items).len() implies is_visible_char(
                #[trigger] baggage_field(items)[j],
            ) by {
                if j >= joined.len() {
                    assert(baggage_field(items)[j] == text[j - joined.len()]);
                } else if j < baggage_field(before).len() {
                    assert(baggage_field(items)[j] == baggage_field(before)[j]);
                }
            }
        }
    }
}

/// Plain baggage arrives whole: up to 64 plain items of different names are brought
/// by the request that they were sent with, each with its value and its properties,
/// and no other item is.
pub proof fn law_plain_baggage_arrives(
    contents: Map<Seq<char>, Seq<Seq<u8>>>,
    link: SpanLink,
    baggage: Seq<BaggageItem>,
    incoming: Incoming,
)
    requires
        carries(contents, link, baggage),
        incoming.is_carried_by(contents),
        baggage.len() <= 64,
        are_plain(baggage),
        forall|i: int, j: int|
            0 <= i < j < baggage.len() ==> (#[trigger] baggage[i]).key@ != (
            #[trigger] baggage[j]).key@,
    ensures
        forall|i: int|
            0 <= i < baggage.len() ==> exists|j: int|
                0 <= j < incoming.baggage@.len() && (#[trigger] incoming.baggage@[j]).key@ == (
                #[trigger] baggage[i]).key@ && incoming.baggage@[j].value@ == baggage[i].value@
                    && incoming.baggage@[j].metadata@ == baggage[i].metadata@,
        forall|j: int|
            0 <= j < incoming.baggage@.len() ==> exists|i: int|
                0 <= i < baggage.len() && (#[trigger] baggage[i]).key@ == (
                #[trigger] incoming.baggage@[j]).key@ && incoming.baggage@[j].value@
                    == baggage[i].value@ && incoming.baggage@[j].metadata@ == baggage[i].metadata@,
{
    let arrived = incoming.baggage@;
    lemma_plain_field(baggage);
    assert forall|i: int| 0 <= i < baggage.len() implies is_carriable(#[trigger] baggage[i]) by {
        lemma_plain_item(baggage, i);
    }
    assert(baggage_field(baggage).all(|c: char| is_visible_char(c)));
    assert(reaches_next_service(baggage));
    assert(baggage_map(arrived) == baggage_map(baggage));
    lemma_baggage_map(baggage);
    lemma_baggage_map(arrived);
    assert forall|i: int| 0 <= i < baggage.len() implies exists|j: int|
        0 <= j < arrived.len() && (#[trigger] arrived[j]).key@ == (#[trigger] baggage[i]).key@
            && arrived[j].value@ == baggage[i].value@ && arrived[j].metadata@
            == baggage[i].metadata@ by {
        assert(baggage_map(arrived).contains_key(baggage[i].key@));
        let j = choose|j: int|
            0 <= j < arrived.len() && (#[trigger] arrived[j]).key@ == baggage[i].key@;
        assert(baggage_map(arrived)[arrived[j].key@] == (arrived[j].value@, arrived[j].metadata@));
    }
    assert forall|j: int| 0 <= j < arrived.len() implies exists|i: int|
        0 <= i < baggage.len() && (#[trigger] baggage[i]).key@ == (#[trigger] arrived[j]).key@
            && arrived[j].value@ == baggage[i].value@ && arrived[j].metadata@
            == baggage[i].metadata@ by {
        assert(baggage_map(baggage).contains_key(arrived[j].key@));
        let i = choose|i: int|
            0 <= i < baggage.len() && (#[trigger] baggage[i]).key@ == arrived[j].key@;
        assert(baggage_map(baggage)[baggage[i].key@] == (baggage[i].value@, baggage[i].metadata@));
    }
}

} // verus!
