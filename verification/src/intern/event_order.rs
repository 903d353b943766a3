//! The order of journal events in time.
//!
//! Events are kept in ascending order of their times, told apart to the
//! microsecond. Among events of one time, the one that came first stays
//! first.

use vstd::prelude::*;
use crate::usnjrnl::usn_record::CommonUsnRecord;

verus! {

/// The time by which an event is ordered: whole microseconds.
pub open spec fn event_key(event: CommonUsnRecord) -> int {
    event.data.spec_timestamp().spec_order_key()
}

/// Whether no event stands before an earlier one.
pub open spec fn is_time_ordered(events: Seq<CommonUsnRecord>) -> bool {
    forall|i: int, j: int|
        0 <= i < j < events.len() ==> event_key(#[trigger] events[i]) <= event_key(
            #[trigger] events[j],
        )
}

/// The place of a further event among ordered events: behind the last
/// event that is not later than it.
pub open spec fn insert_position(events: Seq<CommonUsnRecord>, event: CommonUsnRecord) -> int
    decreases events.len(),
{
    if events.len() == 0 {
        0
    } else if event_key(events.last()) <= event_key(event) {
        events.len() as int
    } else {
        insert_position(events.drop_last(), event)
    }
}

/// Ordered events with one more event put in its place.
pub open spec fn placed(events: Seq<CommonUsnRecord>, event: CommonUsnRecord) -> Seq<
    CommonUsnRecord,
> {
    events.insert(insert_position(events, event), event)
}

/// The events in ascending order of time; events of one time keep the
/// order in which they stand in `events`.
pub open spec fn time_ordered(events: Seq<CommonUsnRecord>) -> Seq<CommonUsnRecord>
    decreases events.len(),
{
    if events.len() == 0 {
        Seq::<CommonUsnRecord>::empty()
    } else {
        placed(time_ordered(events.drop_last()), events.last())
    }
}

/// The test that picks the events of one time.
pub open spec fn at_time(key: int) -> spec_fn(CommonUsnRecord) -> bool {
    |event: CommonUsnRecord| event_key(event) == key
}

/// The place of a further event lies inside the sequence or at its end;
/// every event from that place on is later than the further event.
pub proof fn lemma_insert_position_bounds(events: Seq<CommonUsnRecord>, event: CommonUsnRecord)
    ensures
        0 <= insert_position(events, event) <= events.len(),
        forall|i: int|
            insert_position(events, event) <= i < events.len() ==> event_key(
                #[trigger] events[i],
            ) > event_key(event),
    decreases events.len(),
{
    if events.len() > 0 && event_key(events.last()) > event_key(event) {
        lemma_insert_position_bounds(events.drop_last(), event);
        let p = insert_position(events, event);
        assert forall|i: int| p <= i < events.len() implies event_key(#[trigger] events[i])
            > event_key(event) by {
            if i < events.len() - 1 {
                assert(events[i] == events.drop_last()[i]);
            }
        }
    }
}

/// Among ordered events, no event before the place of a further event is
/// later than it.
pub proof fn lemma_insert_position_prefix(events: Seq<CommonUsnRecord>, event: CommonUsnRecord)
    requires
        is_time_ordered(events),
    ensures
        forall|i: int|
            0 <= i < insert_position(events, event) ==> event_key(#[trigger] events[i])
                <= event_key(event),
    decreases events.len(),
{
    if events.len() > 0 {
        if event_key(events.last()) <= event_key(event) {
            assert forall|i: int| 0 <= i < events.len() implies event_key(#[trigger] events[i])
                <= event_key(event) by {
                if i < events.len() - 1 {
                    assert(event_key(events[i]) <= event_key(events[events.len() - 1]));
                }
            }
        } else {
            let front = events.drop_last();
            assert(is_time_ordered(front)) by {
                assert forall|i: int, j: int| 0 <= i < j < front.len() implies event_key(
                    #[trigger] front[i],
                ) <= event_key(#[trigger] front[j]) by {
                    assert(front[i] == events[i]);
                    assert(front[j] == events[j]);
                }
            }
            lemma_insert_position_prefix(front, event);
            lemma_insert_position_bounds(front, event);
            assert forall|i: int| 0 <= i < insert_position(events, event) implies event_key(
                #[trigger] events[i],
            ) <= event_key(event) by {
                assert(events[i] == front[i]);
            }
        }
    }
}

/// To put a further event in its place keeps ordered events ordered.
pub proof fn lemma_placed_is_ordered(events: Seq<CommonUsnRecord>, event: CommonUsnRecord)
    requires
        is_time_ordered(events),
    ensures
        is_time_ordered(placed(events, event)),
{
    lemma_insert_position_bounds(events, event);
    lemma_insert_position_prefix(events, event);
    let p = insert_position(events, event);
    let after = placed(events, event);
    assert forall|i: int, j: int| 0 <= i < j < after.len() implies event_key(#[trigger] after[i])
        <= event_key(#[trigger] after[j]) by {
        if j < p {
            assert(after[i] == events[i]);
            assert(after[j] == events[j]);
        } else if j == p {
            assert(after[i] == events[i]);
        } else if i < p {
            assert(after[i] == events[i]);
            assert(after[j] == events[j - 1]);
            if i < j - 1 {
                assert(event_key(events[i]) <= event_key(events[j - 1]));
            }
        } else if i == p {
            assert(after[j] == events[j - 1]);
        } else {
            assert(after[i] == events[i - 1]);
            assert(after[j] == events[j - 1]);
        }
    }
}

/// The events in order are ordered.
pub proof fn lemma_time_ordered_is_ordered(events: Seq<CommonUsnRecord>)
    ensures
        is_time_ordered(time_ordered(events)),
        time_ordered(events).len() == events.len(),
    decreases events.len(),
{
    if events.len() > 0 {
        lemma_time_ordered_is_ordered(events.drop_last());
        lemma_placed_is_ordered(time_ordered(events.drop_last()), events.last());
        lemma_insert_position_bounds(time_ordered(events.drop_last()), events.last());
    }
}

/// The events in order are the same events: each as often as before.
pub proof fn lemma_time_ordered_is_permutation(events: Seq<CommonUsnRecord>)
    ensures
        time_ordered(events).to_multiset() == events.to_multiset(),
    decreases events.len(),
{
    if events.len() > 0 {
        let front = events.drop_last();
        let ordered_front = time_ordered(front);
        lemma_time_ordered_is_permutation(front);
        lemma_insert_position_bounds(ordered_front, events.last());
        vstd::seq_lib::to_multiset_insert(
            ordered_front,
            insert_position(ordered_front, events.last()),
            events.last(),
        );
        assert(events =~= front.push(events.last()));
        vstd::seq_lib::to_multiset_build(front, events.last());
    } else {
        assert(time_ordered(events) =~= events);
    }
}

/// To put a further event in its place among ordered events leaves the
/// events of every time in the order in which they would stand had the
/// event been put at the end.
pub proof fn lemma_placed_is_stable(
    events: Seq<CommonUsnRecord>,
    event: CommonUsnRecord,
    key: int,
)
    ensures
        placed(events, event).filter(at_time(key)) == events.push(event).filter(at_time(key)),
{
    lemma_insert_position_bounds(events, event);
    let p = insert_position(events, event);
    let head = events.take(p);
    let tail = events.skip(p);
    let one = seq![event];
    assert(placed(events, event) =~= head + one + tail);
    assert(events.push(event) =~= head + tail + one);
    Seq::filter_distributes_over_add(head + one, tail, at_time(key));
    Seq::filter_distributes_over_add(head, one, at_time(key));
    Seq::filter_distributes_over_add(head + tail, one, at_time(key));
    Seq::filter_distributes_over_add(head, tail, at_time(key));
    if event_key(event) == key {
        assert forall|i: int| 0 <= i < tail.len() implies !(at_time(key))(#[trigger] tail[i]) by {
            assert(tail[i] == events[p + i]);
        }
        tail.lemma_all_neg_filter_empty(at_time(key));
        assert(tail.filter(at_time(key)) =~= Seq::<CommonUsnRecord>::empty());
        assert(head.filter(at_time(key)) + one.filter(at_time(key)) + tail.filter(at_time(key))
            =~= head.filter(at_time(key)) + tail.filter(at_time(key)) + one.filter(
            at_time(key),
        ));
    } else {
        assert forall|i: int| 0 <= i < one.len() implies !(at_time(key))(#[trigger] one[i]) by {}
        one.lemma_all_neg_filter_empty(at_time(key));
        assert(one.filter(at_time(key)) =~= Seq::<CommonUsnRecord>::empty());
        assert(head.filter(at_time(key)) + one.filter(at_time(key)) + tail.filter(at_time(key))
            =~= head.filter(at_time(key)) + tail.filter(at_time(key)) + one.filter(
            at_time(key),
        ));
    }
}

/// The events of one time stand in the ordered sequence as they stood
/// before: ordering is stable.
pub proof fn lemma_time_ordered_is_stable(events: Seq<CommonUsnRecord>, key: int)
    ensures
        time_ordered(events).filter(at_time(key)) == events.filter(at_time(key)),
    decreases events.len(),
{
    if events.len() > 0 {
        let front = events.drop_last();
        lemma_time_ordered_is_stable(front, key);
        lemma_placed_is_stable(time_ordered(front), events.last(), key);
        time_ordered(front).lemma_filter_push(events.last(), at_time(key));
        front.lemma_filter_push(events.last(), at_time(key));
        assert(events =~= front.push(events.last()));
    } else {
        assert(time_ordered(events) =~= events);
    }
}

/// Ordered events are their own ordering.
pub proof fn lemma_ordered_stays(events: Seq<CommonUsnRecord>)
    requires
        is_time_ordered(events),
    ensures
        time_ordered(events) == events,
    decreases events.len(),
{
    if events.len() > 0 {
        let front = events.drop_last();
        assert(is_time_ordered(front)) by {
            assert forall|i: int, j: int| 0 <= i < j < front.len() implies event_key(
                #[trigger] front[i],
            ) <= event_key(#[trigger] front[j]) by {
                assert(front[i] == events[i]);
                assert(front[j] == events[j]);
            }
        }
        lemma_ordered_stays(front);
        lemma_last_goes_last(front, events.last());
        assert(events =~= front.push(events.last()));
    } else {
        assert(time_ordered(events) =~= events);
    }
}

/// An event that is not earlier than any of the events goes to their end.
pub proof fn lemma_last_goes_last(events: Seq<CommonUsnRecord>, event: CommonUsnRecord)
    requires
        is_time_ordered(events.push(event)),
    ensures
        placed(events, event) == events.push(event),
{
    if events.len() > 0 {
        let whole = events.push(event);
        assert(whole[events.len() - 1] == events.last());
        assert(whole[events.len() as int] == event);
        assert(event_key(events.last()) <= event_key(event));
    }
    assert(events.insert(events.len() as int, event) =~= events.push(event));
}

/// More events are brought into the order of ordered events one by one.
pub proof fn lemma_time_ordered_push(events: Seq<CommonUsnRecord>, event: CommonUsnRecord)
    ensures
        time_ordered(events.push(event)) == placed(time_ordered(events), event),
{
    assert(events.push(event).drop_last() =~= events);
}

/// Puts one more event in its place among ordered events.
pub fn insert_event(events: &mut Vec<CommonUsnRecord>, event: CommonUsnRecord)
    ensures
        final(events)@ == placed(old(events)@, event),
{
    let mut at: usize = events.len();
    let mut searching: bool = at > 0;
    proof {
        assert(events@.take(at as int) =~= events@);
    }
    while searching
        invariant
            at <= events@.len(),
            events@ == old(events)@,
            searching ==> at > 0,
            insert_position(events@, event) == insert_position(events@.take(at as int), event),
            !searching ==> insert_position(events@.take(at as int), event) == at,
        decreases at + if searching {
            1int
        } else {
            0int
        },
    {
        let ghost front = events@.take(at as int);
        assert(front.last() == events@[at - 1]);
        if events[at - 1].data.timestamp().not_after(&event.data.timestamp()) {
            searching = false;
        } else {
            assert(front.drop_last() =~= events@.take(at - 1));
            at = at - 1;
            searching = at > 0;
        }
    }
    events.insert(at, event);
}

/// Brings events into ascending order of time. Events of one time keep
/// their order.
pub fn sort_events(events: Vec<CommonUsnRecord>) -> (ordered: Vec<CommonUsnRecord>)
    ensures
        ordered@ == time_ordered(events@),
{
    let mut ordered: Vec<CommonUsnRecord> = Vec::new();
    merge_events(&mut ordered, events);
    proof {
        assert(Seq::<CommonUsnRecord>::empty() + events@ =~= events@);
    }
    ordered
}

/// Brings further events into the order of events that are ordered.
pub fn merge_events(ordered: &mut Vec<CommonUsnRecord>, events: Vec<CommonUsnRecord>)
    requires
        is_time_ordered(old(ordered)@),
    ensures
        final(ordered)@ == time_ordered(old(ordered)@ + events@),
{
    let mut rest = events;
    let mut reversed: Vec<CommonUsnRecord> = Vec::new();
    while rest.len() > 0
        invariant
            reversed@.len() + rest@.len() == events@.len(),
            forall|i: int| 0 <= i < rest@.len() ==> rest@[i] == events@[i],
            forall|i: int|
                0 <= i < reversed@.len() ==> reversed@[i] == events@[events@.len() - 1 - i],
        decreases rest@.len(),
    {
        let event = rest.pop().unwrap();
        reversed.push(event);
    }
    proof {
        lemma_ordered_stays(ordered@);
        assert(ordered@ + events@.take(0) =~= ordered@);
    }
    let ghost mut done: int = 0;
    while reversed.len() > 0
        invariant
            0 <= done <= events@.len(),
            reversed@.len() == events@.len() - done,
            forall|i: int|
                0 <= i < reversed@.len() ==> reversed@[i] == events@[events@.len() - 1 - i],
            ordered@ == time_ordered(old(ordered)@ + events@.take(done)),
        decreases reversed@.len(),
    {
        let event = reversed.pop().unwrap();
        proof {
            assert(event == events@[done]);
            lemma_time_ordered_push(old(ordered)@ + events@.take(done), event);
            assert((old(ordered)@ + events@.take(done)).push(event) =~= old(ordered)@
                + events@.take(done + 1));
        }
        insert_event(ordered, event);
        proof {
            done = done + 1;
        }
    }
    proof {
        assert(events@.take(done) =~= events@);
    }
}

} // verus!
