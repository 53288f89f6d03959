//! What holds of every parse, stated over the model and proved.

use crate::decode::{loop_outcome, verdict, Outcome};
use crate::error::ParseError;
use crate::events::{follows, is_trace, run, step, Event, ParseView};
use crate::field::{canonical_name, is_header_name, is_header_value, lemma_canonical_name};
use crate::headers::{has_room, SURE_ROOM};
use crate::status::is_status_code;
use vstd::prelude::*;

verus! {

/// Every event keeps a well-formed state well-formed, whether or not the
/// header map takes the entry that it is offered.
pub proof fn lemma_well_formed_is_kept(s: ParseView, e: Event, t: ParseView)
    requires
        s.well_formed(),
        follows(s, e, t),
    ensures
        t.well_formed(),
{
    if let Event::HeaderField(data) = e {
        if is_header_name(data) {
            lemma_canonical_name(data);
        }
    }
}

/// Every state that a parse goes through is well-formed where the first
/// one is, as the state in which every parse starts is.
pub proof fn lemma_trace_is_well_formed(states: Seq<ParseView>, events: Seq<Event>, i: int)
    requires
        is_trace(states, events),
        states[0].well_formed(),
        0 <= i < states.len(),
    ensures
        states[i].well_formed(),
        ParseView::fresh().well_formed(),
    decreases i,
{
    if i > 0 {
        lemma_trace_is_well_formed(states, events, i - 1);
        assert(follows(states[i - 1], events[i - 1], states[i - 1 + 1]));
        lemma_well_formed_is_kept(states[i - 1], events[i - 1], states[i]);
    }
}

/// A single event runs as one step.
pub proof fn lemma_run_one(s: ParseView, e: Event)
    ensures
        run(s, seq![e]) == step(s, e),
{
    let events = seq![e];
    assert(events.drop_last() =~= Seq::<Event>::empty());
    assert(run(s, events.drop_last()) == s);
}

/// The first violation wins: once one is recorded, no series of events
/// changes the state in any way.
pub proof fn lemma_error_latches(s: ParseView, events: Seq<Event>)
    requires
        s.error is Some,
    ensures
        run(s, events) == s,
    decreases events.len(),
{
    if events.len() > 0 {
        lemma_error_latches(s, events.drop_last());
    }
}

/// The grouping of events does not matter: a series of events handled in
/// two parts, one after the other, leaves the state that the whole series
/// leaves when handled at once.
pub proof fn lemma_run_concat(s: ParseView, first: Seq<Event>, second: Seq<Event>)
    ensures
        run(s, first + second) == run(run(s, first), second),
    decreases second.len(),
{
    let all = first + second;
    if second.len() == 0 {
        assert(all =~= first);
    } else {
        assert(all.drop_last() =~= first + second.drop_last());
        assert(all.last() == second.last());
        lemma_run_concat(s, first, second.drop_last());
    }
}

/// A status line without a numeric status code, or with a number that is no
/// status code, ends the parse with `MalformedStatus`, and nothing that the
/// tokenizer reports afterwards is taken in.
pub proof fn lemma_bad_status_ends_parse(s: ParseView, code: Option<u16>, rest: Seq<Event>)
    requires
        s.error is None,
        code matches Some(c) ==> !is_status_code(c),
    ensures
        run(step(s, Event::Status(code)), rest) == s.fail(ParseError::MalformedStatus),
{
    lemma_error_latches(step(s, Event::Status(code)), rest);
}

/// Bytes that are no header name end the parse with `MalformedHeaderName`,
/// and no header or body that the tokenizer reports afterwards is taken in.
pub proof fn lemma_bad_header_name_ends_parse(s: ParseView, data: Seq<u8>, rest: Seq<Event>)
    requires
        s.error is None,
        !is_header_name(data),
    ensures
        run(step(s, Event::HeaderField(data)), rest) == s.fail(ParseError::MalformedHeaderName),
{
    lemma_error_latches(step(s, Event::HeaderField(data)), rest);
}

/// Bytes that hold a control character, a space or anything beyond ASCII
/// are no header name.
pub proof fn lemma_name_bytes_are_visible_ascii(data: Seq<u8>, i: int)
    requires
        0 <= i < data.len(),
        data[i] <= 0x20 || data[i] >= 0x7f,
    ensures
        !is_header_name(data),
{
}

/// A header value that arrives with no name pending ends the parse with
/// `MissingHeaderName`; one that is no header value ends it with
/// `MalformedHeaderValue`.
pub proof fn lemma_bad_header_value_ends_parse(s: ParseView, data: Seq<u8>, rest: Seq<Event>)
    requires
        s.error is None,
        s.pending_name is None || !is_header_value(data),
    ensures
        run(step(s, Event::HeaderValue(data)), rest) == s.fail(
            if s.pending_name is None {
                ParseError::MissingHeaderName
            } else {
                ParseError::MalformedHeaderValue
            },
        ),
{
    lemma_error_latches(step(s, Event::HeaderValue(data)), rest);
}

/// In the states that a parse goes through, a violation stays as it was
/// first recorded, and so does everything else from then on.
pub proof fn lemma_trace_error_latches(
    states: Seq<ParseView>,
    events: Seq<Event>,
    i: int,
    j: int,
)
    requires
        is_trace(states, events),
        0 <= i <= j < states.len(),
        states[i].error is Some,
    ensures
        states[j] == states[i],
    decreases j - i,
{
    if i < j {
        lemma_trace_error_latches(states, events, i, j - 1);
        assert(follows(states[j - 1], events[j - 1], states[j - 1 + 1]));
    }
}

/// A parse that ends without a violation has gone exactly the way that
/// `run` describes: the header map has refused nothing.
pub proof fn lemma_trace_without_error(states: Seq<ParseView>, events: Seq<Event>)
    requires
        is_trace(states, events),
        states.last().error is None,
    ensures
        states.last() == run(states[0], events),
    decreases events.len(),
{
    if events.len() > 0 {
        let n = events.len() - 1;
        let earlier = states.drop_last();
        assert(is_trace(earlier, events.drop_last())) by {
            assert forall|k: int| 0 <= k < events.drop_last().len() implies follows(
                #[trigger] earlier[k],
                events.drop_last()[k],
                earlier[k + 1],
            ) by {
                assert(follows(states[k], events[k], states[k + 1]));
            }
        }
        assert(follows(states[n], events[n], states[n + 1]));
        assert(earlier.last() == states[n]);
        lemma_trace_without_error(earlier, events.drop_last());
    }
}

/// The number of header values among the events.
pub open spec fn header_values(events: Seq<Event>) -> nat
    decreases events.len(),
{
    if events.len() == 0 {
        0
    } else {
        header_values(events.drop_last()) + if events.last() is HeaderValue {
            1nat
        } else {
            0nat
        }
    }
}

/// True where a header map that starts out with the entries of `s` has
/// room for every header value among the events.
pub open spec fn has_room_for(s: ParseView, events: Seq<Event>) -> bool {
    &&& s.headers.dom().finite()
    &&& s.headers.dom().len() + header_values(events) <= SURE_ROOM + 1
}

/// The header values of two series of events add up.
pub proof fn lemma_header_values_concat(first: Seq<Event>, second: Seq<Event>)
    ensures
        header_values(first + second) == header_values(first) + header_values(second),
    decreases second.len(),
{
    let all = first + second;
    if second.len() == 0 {
        assert(all =~= first);
    } else {
        assert(all.drop_last() =~= first + second.drop_last());
        assert(all.last() == second.last());
        lemma_header_values_concat(first, second.drop_last());
    }
}

/// While the header map has room it refuses nothing: a parse whose header
/// map has room for every header value that it is given goes exactly the
/// way that `run` describes, and its header map gains at most one name
/// with each header value.
pub proof fn lemma_trace_with_room(states: Seq<ParseView>, events: Seq<Event>)
    requires
        is_trace(states, events),
        has_room_for(states[0], events),
    ensures
        states.last() == run(states[0], events),
        states.last().headers.dom().finite(),
        states.last().headers.dom().len() <= states[0].headers.dom().len() + header_values(
            events,
        ),
    decreases events.len(),
{
    if events.len() > 0 {
        let n = events.len() - 1;
        let earlier = states.drop_last();
        assert(is_trace(earlier, events.drop_last())) by {
            assert forall|k: int| 0 <= k < events.drop_last().len() implies follows(
                #[trigger] earlier[k],
                events.drop_last()[k],
                earlier[k + 1],
            ) by {
                assert(follows(states[k], events[k], states[k + 1]));
            }
        }
        assert(earlier[0] == states[0]);
        lemma_trace_with_room(earlier, events.drop_last());
        assert(earlier.last() == states[n]);
        assert(follows(states[n], events[n], states[n + 1]));
        if events.last() is HeaderValue {
            assert(has_room(states[n].headers));
        }
    }
}

/// Parsing again gives the same, as long as the header map has room: two
/// parses that start alike and see the same events, among them no more
/// header values than the map has room for, end in the same state.
pub proof fn lemma_same_events_same_state(
    one: Seq<ParseView>,
    other: Seq<ParseView>,
    events: Seq<Event>,
)
    requires
        is_trace(one, events),
        is_trace(other, events),
        one[0] == other[0],
        has_room_for(one[0], events),
    ensures
        one.last() == other.last(),
{
    lemma_trace_with_room(one, events);
    lemma_trace_with_room(other, events);
}

/// Parsing again gives the same: two parses that start alike, see the same
/// events and both end without a violation end in the same state, and so
/// in responses that are equal field by field.
pub proof fn lemma_same_events_same_result(
    one: Seq<ParseView>,
    other: Seq<ParseView>,
    events: Seq<Event>,
)
    requires
        is_trace(one, events),
        is_trace(other, events),
        one[0] == other[0],
        one.last().error is None,
        other.last().error is None,
    ensures
        one.last() == other.last(),
        one.last().response() == other.last().response(),
{
    lemma_trace_without_error(one, events);
    lemma_trace_without_error(other, events);
}

/// The events of a series of headers: for each header its name, then its
/// value.
pub open spec fn field_events(fields: Seq<(Seq<u8>, Seq<u8>)>) -> Seq<Event>
    decreases fields.len(),
{
    if fields.len() == 0 {
        Seq::empty()
    } else {
        field_events(fields.drop_last()) + seq![
            Event::HeaderField(fields.last().0),
            Event::HeaderValue(fields.last().1),
        ]
    }
}

/// The events of a body that arrives in parts.
pub open spec fn body_events(parts: Seq<Seq<u8>>) -> Seq<Event>
    decreases parts.len(),
{
    if parts.len() == 0 {
        Seq::empty()
    } else {
        body_events(parts.drop_last()) + seq![Event::Body(parts.last())]
    }
}

/// The events of a whole message, in the order in which a tokenizer reports
/// them.
pub open spec fn message_events(
    status: u16,
    fields: Seq<(Seq<u8>, Seq<u8>)>,
    parts: Seq<Seq<u8>>,
) -> Seq<Event> {
    seq![Event::MessageBegin, Event::Status(Some(status))] + field_events(fields)
        + seq![Event::HeadersComplete] + body_events(parts) + seq![Event::MessageComplete]
}

/// The headers that a series of headers leaves in a map: each under its
/// name in lower case, a later one in place of an earlier one of that name.
pub open spec fn stored_fields(
    base: Map<Seq<u8>, Seq<u8>>,
    fields: Seq<(Seq<u8>, Seq<u8>)>,
) -> Map<Seq<u8>, Seq<u8>>
    decreases fields.len(),
{
    if fields.len() == 0 {
        base
    } else {
        stored_fields(base, fields.drop_last()).insert(
            canonical_name(fields.last().0),
            fields.last().1,
        )
    }
}

/// The value that came last under a name, if any value came under it.
/// Names are compared in lower case.
pub open spec fn last_value(fields: Seq<(Seq<u8>, Seq<u8>)>, name: Seq<u8>) -> Option<Seq<u8>>
    decreases fields.len(),
{
    if fields.len() == 0 {
        None
    } else if canonical_name(fields.last().0) == name {
        Some(fields.last().1)
    } else {
        last_value(fields.drop_last(), name)
    }
}

/// The last write wins: after a series of headers a map holds under each
/// name the value that came last for it, whatever the case in which the
/// name was written each time, and otherwise what it held before.
pub proof fn lemma_stored_fields(
    base: Map<Seq<u8>, Seq<u8>>,
    fields: Seq<(Seq<u8>, Seq<u8>)>,
    name: Seq<u8>,
)
    ensures
        stored_fields(base, fields).contains_key(name) <==> base.contains_key(name) || last_value(
            fields,
            name,
        ) is Some,
        last_value(fields, name) matches Some(value) ==> stored_fields(base, fields)[name]
            == value,
        last_value(fields, name) is None && base.contains_key(name) ==> stored_fields(
            base,
            fields,
        )[name] == base[name],
    decreases fields.len(),
{
    if fields.len() > 0 {
        lemma_stored_fields(base, fields.drop_last(), name);
    }
}

/// The parts of a body, one after the other.
pub open spec fn joined(parts: Seq<Seq<u8>>) -> Seq<u8>
    decreases parts.len(),
{
    if parts.len() == 0 {
        Seq::empty()
    } else {
        joined(parts.drop_last()) + parts.last()
    }
}

/// All names are header names and all values are header values.
pub open spec fn are_valid_fields(fields: Seq<(Seq<u8>, Seq<u8>)>) -> bool {
    forall|i: int|
        0 <= i < fields.len() ==> is_header_name((#[trigger] fields[i]).0) && is_header_value(
            fields[i].1,
        )
}

/// A series of valid headers changes the header map and nothing else.
pub proof fn lemma_run_fields(s: ParseView, fields: Seq<(Seq<u8>, Seq<u8>)>)
    requires
        s.error is None,
        s.pending_name is None,
        are_valid_fields(fields),
    ensures
        run(s, field_events(fields)) == (ParseView {
            headers: stored_fields(s.headers, fields),
            ..s
        }),
    decreases fields.len(),
{
    if fields.len() == 0 {
        assert(stored_fields(s.headers, fields) == s.headers);
    } else {
        let earlier = fields.drop_last();
        let name = Event::HeaderField(fields.last().0);
        let value = Event::HeaderValue(fields.last().1);
        assert(are_valid_fields(earlier)) by {
            assert forall|i: int| 0 <= i < earlier.len() implies is_header_name(
                (#[trigger] earlier[i]).0,
            ) && is_header_value(earlier[i].1) by {
                assert(earlier[i] == fields[i]);
            }
        }
        lemma_run_fields(s, earlier);
        let mid = run(s, field_events(earlier));
        lemma_run_concat(s, field_events(earlier), seq![name, value]);
        assert(seq![name, value] =~= seq![name] + seq![value]);
        lemma_run_concat(mid, seq![name], seq![value]);
        lemma_run_one(mid, name);
        lemma_run_one(step(mid, name), value);
        assert(is_header_name(fields[fields.len() - 1].0));
    }
}

/// The parts of a body are appended to the body, and nothing else changes.
pub proof fn lemma_run_body(s: ParseView, parts: Seq<Seq<u8>>)
    requires
        s.error is None,
    ensures
        run(s, body_events(parts)) == (ParseView { body: s.body + joined(parts), ..s }),
    decreases parts.len(),
{
    if parts.len() == 0 {
        assert(s.body + joined(parts) =~= s.body);
    } else {
        let earlier = parts.drop_last();
        let last = Event::Body(parts.last());
        lemma_run_body(s, earlier);
        let mid = run(s, body_events(earlier));
        lemma_run_concat(s, body_events(earlier), seq![last]);
        lemma_run_one(mid, last);
        assert((s.body + joined(earlier)) + parts.last() =~= s.body + joined(parts));
    }
}

/// A well-formed message is taken in exactly: its status code, each of its
/// headers under its name in lower case, with the value that came last for
/// a name, and its body, whatever the parts in which the body arrives. No
/// violation is recorded and the message is complete.
pub proof fn lemma_well_formed_message(
    status: u16,
    fields: Seq<(Seq<u8>, Seq<u8>)>,
    parts: Seq<Seq<u8>>,
)
    requires
        is_status_code(status),
        are_valid_fields(fields),
    ensures
        run(ParseView::fresh(), message_events(status, fields, parts)) == (ParseView {
            error: None,
            status: Some(status),
            pending_name: None,
            headers: stored_fields(Map::empty(), fields),
            body: joined(parts),
            complete: true,
        }),
{
    let begin = seq![Event::MessageBegin, Event::Status(Some(status))];
    let s0 = ParseView::fresh();
    assert(begin =~= seq![Event::MessageBegin] + seq![Event::Status(Some(status))]);
    lemma_run_concat(s0, seq![Event::MessageBegin], seq![Event::Status(Some(status))]);
    lemma_run_one(s0, Event::MessageBegin);
    lemma_run_one(s0, Event::Status(Some(status)));
    let s1 = run(s0, begin);
    lemma_run_fields(s1, fields);
    lemma_run_concat(s0, begin, field_events(fields));
    let s2 = run(s0, begin + field_events(fields));
    lemma_run_concat(s0, begin + field_events(fields), seq![Event::HeadersComplete]);
    lemma_run_one(s2, Event::HeadersComplete);
    let upto_headers = begin + field_events(fields) + seq![Event::HeadersComplete];
    lemma_run_body(s2, parts);
    lemma_run_concat(s0, upto_headers, body_events(parts));
    let s3 = run(s0, upto_headers + body_events(parts));
    lemma_run_concat(s0, upto_headers + body_events(parts), seq![Event::MessageComplete]);
    lemma_run_one(s3, Event::MessageComplete);
    assert(s0.body + joined(parts) =~= joined(parts));
}

/// The events of a series of reads, one read after the other.
pub open spec fn all_events(reads: Seq<Seq<Event>>) -> Seq<Event>
    decreases reads.len(),
{
    if reads.len() == 0 {
        Seq::empty()
    } else {
        reads.first() + all_events(reads.drop_first())
    }
}

/// True where the events, handled from the state `s` on, make up one
/// message that is taken in without a violation: the message is complete
/// after the last event and not before.
pub open spec fn completes_at_end(s: ParseView, events: Seq<Event>) -> bool {
    &&& run(s, events).error is None
    &&& run(s, events).complete
    &&& forall|k: int| 0 <= k < events.len() ==> !(#[trigger] run(s, events.take(k))).complete
}

/// The loop does not depend on where the reads fall: however the events of
/// one message are spread over the reads, the loop ends with the verdict on
/// the state that all of them leave, which is the verdict that it reaches
/// where a single read brings them all.
pub proof fn lemma_reads_are_immaterial(s: ParseView, reads: Seq<Seq<Event>>)
    requires
        reads.len() > 0,
        completes_at_end(s, all_events(reads)),
    ensures
        Some(loop_outcome(s, reads)) == verdict(run(s, all_events(reads))),
        loop_outcome(s, reads) == loop_outcome(s, seq![all_events(reads)]),
    decreases reads.len(),
{
    let events = all_events(reads);
    let first = reads.first();
    let rest = reads.drop_first();
    let later = all_events(rest);
    let fed = run(s, first);
    lemma_run_concat(s, first, later);
    if fed.error is Some {
        lemma_error_latches(fed, later);
    }
    if verdict(fed) is Some {
        if first.len() < events.len() {
            assert(events.take(first.len() as int) =~= first);
            assert(!run(s, events.take(first.len() as int)).complete);
        }
        assert(events =~= first);
    } else {
        if rest.len() == 0 {
            assert(events =~= first);
        }
        assert(completes_at_end(fed, later)) by {
            assert forall|k: int| 0 <= k < later.len() implies !(#[trigger] run(
                fed,
                later.take(k),
            )).complete by {
                lemma_run_concat(s, first, later.take(k));
                assert(events.take(first.len() + k) =~= first + later.take(k));
                assert(!run(s, events.take(first.len() + k)).complete);
            }
        }
        lemma_reads_are_immaterial(fed, rest);
    }
    let single = seq![events];
    assert(single.first() == events);
    assert(single.drop_first().len() == 0);
    assert(verdict(run(s, events)) is Some);
}

/// A stream that ends before the message does is an error and never a
/// success: where no read brings a verdict, the loop ends with
/// `UnexpectedEof`.
pub proof fn lemma_stream_end_is_an_error(s: ParseView, reads: Seq<Seq<Event>>)
    requires
        forall|k: int|
            0 < k <= reads.len() ==> verdict(run(s, #[trigger] all_events(reads.take(k))))
                is None,
    ensures
        loop_outcome(s, reads) == Outcome::Failed(ParseError::UnexpectedEof),
    decreases reads.len(),
{
    if reads.len() > 0 {
        let first = reads.first();
        let rest = reads.drop_first();
        let fed = run(s, first);
        assert(verdict(fed) is None) by {
            let one = reads.take(1);
            assert(one.first() == first);
            assert(one.drop_first() =~= Seq::<Seq<Event>>::empty());
            assert(all_events(one.drop_first()) =~= Seq::<Event>::empty());
            assert(all_events(one) =~= first);
            assert(verdict(run(s, all_events(reads.take(1)))) is None);
        }
        assert forall|k: int| 0 < k <= rest.len() implies verdict(
            run(fed, #[trigger] all_events(rest.take(k))),
        ) is None by {
            let upto = reads.take(k + 1);
            assert(upto.first() == first);
            assert(upto.drop_first() =~= rest.take(k));
            assert(all_events(upto) == first + all_events(rest.take(k)));
            lemma_run_concat(s, first, all_events(rest.take(k)));
            assert(verdict(run(s, all_events(reads.take(k + 1)))) is None);
        }
        lemma_stream_end_is_an_error(fed, rest);
    }
}

/// A single event counts as a header value where it is one.
pub proof fn lemma_header_values_one(e: Event)
    ensures
        header_values(seq![e]) == if e is HeaderValue {
            1nat
        } else {
            0nat
        },
{
    let one = seq![e];
    assert(one.drop_last() =~= Seq::<Event>::empty());
    assert(header_values(one.drop_last()) == 0);
    assert(one.last() == e);
}

/// The header values of a series of headers are as many as the headers.
pub proof fn lemma_header_values_of_fields(fields: Seq<(Seq<u8>, Seq<u8>)>)
    ensures
        header_values(field_events(fields)) == fields.len(),
    decreases fields.len(),
{
    if fields.len() > 0 {
        let name = Event::HeaderField(fields.last().0);
        let value = Event::HeaderValue(fields.last().1);
        let pair = seq![name, value];
        lemma_header_values_of_fields(fields.drop_last());
        lemma_header_values_concat(field_events(fields.drop_last()), pair);
        assert(pair =~= seq![name] + seq![value]);
        lemma_header_values_concat(seq![name], seq![value]);
        lemma_header_values_one(name);
        lemma_header_values_one(value);
    }
}

/// A body brings no header value.
pub proof fn lemma_header_values_of_body(parts: Seq<Seq<u8>>)
    ensures
        header_values(body_events(parts)) == 0,
    decreases parts.len(),
{
    if parts.len() > 0 {
        let last = seq![Event::Body(parts.last())];
        lemma_header_values_of_body(parts.drop_last());
        lemma_header_values_concat(body_events(parts.drop_last()), last);
        lemma_header_values_one(Event::Body(parts.last()));
    }
}

/// A message has as many header values as headers.
pub proof fn lemma_header_values_of_message(
    status: u16,
    fields: Seq<(Seq<u8>, Seq<u8>)>,
    parts: Seq<Seq<u8>>,
)
    ensures
        header_values(message_events(status, fields, parts)) == fields.len(),
{
    let begin = seq![Event::MessageBegin, Event::Status(Some(status))];
    let headers_end = seq![Event::HeadersComplete];
    let end = seq![Event::MessageComplete];
    assert(begin =~= seq![Event::MessageBegin] + seq![Event::Status(Some(status))]);
    lemma_header_values_concat(seq![Event::MessageBegin], seq![Event::Status(Some(status))]);
    lemma_header_values_one(Event::MessageBegin);
    lemma_header_values_one(Event::Status(Some(status)));
    lemma_header_values_one(Event::HeadersComplete);
    lemma_header_values_one(Event::MessageComplete);
    lemma_header_values_of_fields(fields);
    lemma_header_values_of_body(parts);
    lemma_header_values_concat(begin, field_events(fields));
    lemma_header_values_concat(begin + field_events(fields), headers_end);
    lemma_header_values_concat(begin + field_events(fields) + headers_end, body_events(parts));
    lemma_header_values_concat(
        begin + field_events(fields) + headers_end + body_events(parts),
        end,
    );
}

/// A well-formed message with no more headers than the header map has room
/// for is taken in exactly by every parse: a fresh parse that is given its
/// events ends without a violation, complete, with its status code, each of
/// its headers under its name in lower case with the value that came last
/// for the name, and its body.
pub proof fn lemma_well_formed_message_is_taken_in(
    states: Seq<ParseView>,
    status: u16,
    fields: Seq<(Seq<u8>, Seq<u8>)>,
    parts: Seq<Seq<u8>>,
)
    requires
        is_trace(states, message_events(status, fields, parts)),
        states[0] == ParseView::fresh(),
        is_status_code(status),
        are_valid_fields(fields),
        fields.len() <= SURE_ROOM + 1,
    ensures
        states.last() == (ParseView {
            error: None,
            status: Some(status),
            pending_name: None,
            headers: stored_fields(Map::empty(), fields),
            body: joined(parts),
            complete: true,
        }),
{
    lemma_header_values_of_message(status, fields, parts);
    lemma_trace_with_room(states, message_events(status, fields, parts));
    lemma_well_formed_message(status, fields, parts);
}

} // verus!
