//! Cutting a batch into groups that each span at most sixteen hours.
//!
//! The service refuses a call whose events span more than a day. A batch is
//! therefore put in time order, without changing the order of events that carry
//! the same timestamp, and cut greedily: a group is closed as soon as the next
//! event lies more than sixteen hours after the first event of the group.

use vstd::prelude::*;
use crate::event::LogEvent;

verus! {

/// Longest span of one group, in milliseconds (sixteen hours).
pub const GROUP_SPAN_MS: i64 = 57_600_000;

/// The timestamps of `events` never decrease.
pub open spec fn in_time_order(events: Seq<LogEvent>) -> bool {
    forall|i: int, j: int|
        0 <= i <= j < events.len() ==> events[i].timestamp <= events[j].timestamp
}

/// The events of `events` that carry `timestamp`, in the order in which they
/// stand there.
pub open spec fn stamped(events: Seq<LogEvent>, timestamp: i64) -> Seq<LogEvent> {
    events.filter(|event: LogEvent| event.timestamp == timestamp)
}

/// `sorted` holds the events of `events` in time order, and events with the
/// same timestamp stand in it as they stood in `events`.
pub open spec fn is_stable_sort(events: Seq<LogEvent>, sorted: Seq<LogEvent>) -> bool {
    &&& in_time_order(sorted)
    &&& forall|timestamp: i64| #[trigger] stamped(sorted, timestamp) == stamped(events, timestamp)
}

/// No event of `events` carries `timestamp`, so none is selected.
proof fn lemma_stamped_none(events: Seq<LogEvent>, timestamp: i64)
    requires
        forall|i: int| 0 <= i < events.len() ==> events[i].timestamp != timestamp,
    ensures
        stamped(events, timestamp).len() == 0,
    decreases events.len(),
{
    reveal(Seq::filter);
    if events.len() > 0 {
        lemma_stamped_none(events.drop_last(), timestamp);
    }
}

/// Putting `event` behind every event that is not newer, and before all newer
/// ones, keeps a stable sort stable.
proof fn lemma_insert_keeps_stable_sort(
    events: Seq<LogEvent>,
    sorted: Seq<LogEvent>,
    event: LogEvent,
    at: int,
)
    requires
        is_stable_sort(events, sorted),
        0 <= at <= sorted.len(),
        forall|i: int| 0 <= i < at ==> sorted[i].timestamp <= event.timestamp,
        forall|i: int| at <= i < sorted.len() ==> sorted[i].timestamp > event.timestamp,
    ensures
        is_stable_sort(events.push(event), sorted.insert(at, event)),
{
    let older = sorted.subrange(0, at);
    let newer = sorted.subrange(at, sorted.len() as int);
    let inserted = sorted.insert(at, event);
    sorted.insert_ensures(at, event);
    assert(in_time_order(inserted)) by {
        assert forall|i: int, j: int| 0 <= i <= j < inserted.len() implies inserted[i].timestamp
            <= inserted[j].timestamp by {
            if i < at && j > at {
                assert(inserted[j] == sorted[j - 1]);
            } else if i > at {
                assert(inserted[i] == sorted[i - 1]);
                assert(inserted[j] == sorted[j - 1]);
            } else if j > at {
                assert(inserted[j] == sorted[j - 1]);
            }
        }
    }
    assert(sorted =~= older + newer);
    assert forall|timestamp: i64| #[trigger]
        stamped(inserted, timestamp) == stamped(events.push(event), timestamp) by {
        let pred = |e: LogEvent| e.timestamp == timestamp;
        Seq::filter_distributes_over_add(older, newer, pred);
        Seq::filter_distributes_over_add(older.push(event), newer, pred);
        older.lemma_filter_push(event, pred);
        events.lemma_filter_push(event, pred);
        assert(stamped(sorted, timestamp) == stamped(events, timestamp));
        if event.timestamp == timestamp {
            lemma_stamped_none(newer, timestamp);
            assert(stamped(newer, timestamp) =~= Seq::empty());
            assert(stamped(inserted, timestamp) =~= stamped(older, timestamp).push(event));
            assert(stamped(sorted, timestamp) =~= stamped(older, timestamp));
        }
    }
}

/// If some event of `events` is selected for `timestamp`, then `events` holds
/// an event with that timestamp.
proof fn lemma_stamped_some(events: Seq<LogEvent>, timestamp: i64) -> (at: int)
    requires
        stamped(events, timestamp).len() > 0,
    ensures
        0 <= at < events.len(),
        events[at].timestamp == timestamp,
{
    let pred = |event: LogEvent| event.timestamp == timestamp;
    let found = stamped(events, timestamp)[0];
    events.lemma_filter_pred(pred, 0);
    assert(events.filter(pred).contains(found));
    events.lemma_filter_contains_rev(pred, found);
    choose|at: int| 0 <= at < events.len() && events[at] == found
}

/// Two sequences in time order that hold, for every timestamp, the same
/// events in the same order are one and the same sequence.
proof fn lemma_time_order_unique(a: Seq<LogEvent>, b: Seq<LogEvent>)
    requires
        in_time_order(a),
        in_time_order(b),
        forall|timestamp: i64| #[trigger] stamped(a, timestamp) == stamped(b, timestamp),
    ensures
        a == b,
    decreases a.len(),
{
    if a.len() == 0 && b.len() == 0 {
        assert(a =~= b);
    } else if a.len() == 0 {
        let timestamp = b[0].timestamp;
        b.lemma_filter_contains(|event: LogEvent| event.timestamp == timestamp, 0);
        lemma_stamped_none(a, timestamp);
        assert(stamped(b, timestamp).len() > 0);
        assert(stamped(a, timestamp) == stamped(b, timestamp));
    } else {
        let x = a.last();
        let a_init = a.drop_last();
        assert(a =~= a_init.push(x));
        a_init.lemma_filter_push(x, |event: LogEvent| event.timestamp == x.timestamp);
        assert(stamped(a, x.timestamp) == stamped(a_init, x.timestamp).push(x));
        assert(stamped(b, x.timestamp) == stamped(a, x.timestamp));
        let b_at = lemma_stamped_some(b, x.timestamp);
        let y = b.last();
        let b_init = b.drop_last();
        assert(b =~= b_init.push(y));
        b_init.lemma_filter_push(y, |event: LogEvent| event.timestamp == y.timestamp);
        assert(stamped(b, y.timestamp) == stamped(b_init, y.timestamp).push(y));
        assert(stamped(a, y.timestamp) == stamped(b, y.timestamp));
        let a_at = lemma_stamped_some(a, y.timestamp);
        assert(a[a_at].timestamp <= x.timestamp);
        assert(b[b_at].timestamp <= y.timestamp);
        assert(x.timestamp == y.timestamp);
        assert(x == stamped(a, x.timestamp).last());
        assert(y == stamped(b, x.timestamp).last());
        assert(in_time_order(a_init)) by {
            assert forall|i: int, j: int| 0 <= i <= j < a_init.len() implies a_init[i].timestamp
                <= a_init[j].timestamp by {
                assert(a_init[i] == a[i] && a_init[j] == a[j]);
            }
        }
        assert(in_time_order(b_init)) by {
            assert forall|i: int, j: int| 0 <= i <= j < b_init.len() implies b_init[i].timestamp
                <= b_init[j].timestamp by {
                assert(b_init[i] == b[i] && b_init[j] == b[j]);
            }
        }
        assert forall|timestamp: i64| #[trigger]
            stamped(a_init, timestamp) == stamped(b_init, timestamp) by {
            let pred = |event: LogEvent| event.timestamp == timestamp;
            a_init.lemma_filter_push(x, pred);
            b_init.lemma_filter_push(y, pred);
            assert(stamped(a, timestamp) == stamped(b, timestamp));
            if timestamp == x.timestamp {
                assert(stamped(a_init, timestamp) =~= stamped(a, timestamp).drop_last());
                assert(stamped(b_init, timestamp) =~= stamped(b, timestamp).drop_last());
            }
        }
        lemma_time_order_unique(a_init, b_init);
    }
}

/// A sequence has one stable sort only.
pub proof fn lemma_stable_sort_unique(events: Seq<LogEvent>, a: Seq<LogEvent>, b: Seq<LogEvent>)
    requires
        is_stable_sort(events, a),
        is_stable_sort(events, b),
    ensures
        a == b,
{
    assert forall|timestamp: i64| #[trigger] stamped(a, timestamp) == stamped(b, timestamp) by {
        assert(stamped(a, timestamp) == stamped(events, timestamp));
        assert(stamped(b, timestamp) == stamped(events, timestamp));
    }
    lemma_time_order_unique(a, b);
}

/// The events in time order. Events that carry the same timestamp keep the
/// order in which they were handed in.
pub fn sort_by_timestamp(events: &Vec<LogEvent>) -> (sorted: Vec<LogEvent>)
    ensures
        is_stable_sort(events@, sorted@),
        sorted@.len() == events@.len(),
{
    let mut sorted: Vec<LogEvent> = Vec::new();
    let mut taken: usize = 0;
    proof {
        assert(events@.take(0) =~= Seq::empty());
    }
    while taken < events.len()
        invariant
            taken <= events.len(),
            sorted@.len() == taken,
            is_stable_sort(events@.take(taken as int), sorted@),
        decreases events.len() - taken,
    {
        let event = events[taken].duplicate();
        let mut at: usize = sorted.len();
        while at > 0 && sorted[at - 1].timestamp > event.timestamp
            invariant
                at <= sorted.len(),
                forall|i: int| at <= i < sorted.len() ==> sorted[i].timestamp > event.timestamp,
            decreases at,
        {
            at -= 1;
        }
        proof {
            assert forall|i: int| 0 <= i < at implies sorted[i].timestamp <= event.timestamp by {
                assert(sorted[i].timestamp <= sorted[at - 1].timestamp);
            }
            lemma_insert_keeps_stable_sort(events@.take(taken as int), sorted@, event, at as int);
            assert(events@.take(taken as int).push(event) =~= events@.take(taken + 1));
        }
        sorted.insert(at, event);
        taken += 1;
    }
    proof {
        assert(events@.take(taken as int) =~= events@);
    }
    sorted
}

/// What each group holds, group by group.
pub open spec fn group_views(groups: Seq<Vec<LogEvent>>) -> Seq<Seq<LogEvent>> {
    Seq::new(groups.len(), |g: int| groups[g]@)
}

/// `later` lies at most sixteen hours after `first`.
pub open spec fn within_span(first: LogEvent, later: LogEvent) -> bool {
    later.timestamp - first.timestamp <= GROUP_SPAN_MS
}

/// `groups` cuts the sequence that its groups make up, one after the other,
/// greedily: no group is empty, every event lies within sixteen hours of the
/// first event of its group, and a group starts only with an event that lies
/// more than sixteen hours after the first event of the group before it.
pub open spec fn is_greedy_cut(groups: Seq<Seq<LogEvent>>) -> bool {
    &&& forall|g: int| 0 <= g < groups.len() ==> (#[trigger] groups[g]).len() > 0
    &&& forall|g: int, k: int|
        0 <= g < groups.len() && 0 <= k < groups[g].len() ==> within_span(
            groups[g][0],
            #[trigger] groups[g][k],
        )
    &&& forall|g: int|
        0 < g < groups.len() ==> !within_span(groups[g - 1][0], (#[trigger] groups[g])[0])
}

/// `groups` is what grouping makes of `events`: laid end to end, the groups
/// are the stable sort of `events` by timestamp, and they cut it greedily.
pub open spec fn is_grouping(events: Seq<LogEvent>, groups: Seq<Seq<LogEvent>>) -> bool {
    &&& is_stable_sort(events, groups.flatten())
    &&& is_greedy_cut(groups)
}

/// The grouping of `events`. There is exactly one: `do_group_events`
/// computes it, and `lemma_grouping_unique` shows that there is no other.
pub open spec fn grouping_of(events: Seq<LogEvent>) -> Seq<Seq<LogEvent>> {
    choose|groups: Seq<Seq<LogEvent>>| is_grouping(events, groups)
}

/// Number of events that stand before group `g` when the groups are laid end
/// to end.
pub open spec fn group_start(groups: Seq<Seq<LogEvent>>, g: int) -> int {
    groups.take(g).flatten().len() as int
}

/// Laid end to end, the groups hold group `g` in one piece, from
/// `group_start(groups, g)` on.
pub proof fn lemma_group_in_flatten(groups: Seq<Seq<LogEvent>>, g: int)
    requires
        0 <= g < groups.len(),
    ensures
        group_start(groups, g) + groups[g].len() <= groups.flatten().len(),
        groups.flatten().subrange(
            group_start(groups, g),
            group_start(groups, g) + groups[g].len(),
        ) == groups[g],
    decreases groups.len(),
{
    let init = groups.drop_last();
    let last = groups.last();
    assert(groups =~= init.push(last));
    init.lemma_flatten_push(last);
    if g == groups.len() - 1 {
        assert(groups.take(g) =~= init);
        assert(groups.flatten().subrange(
            group_start(groups, g),
            group_start(groups, g) + groups[g].len(),
        ) =~= groups[g]);
    } else {
        lemma_group_in_flatten(init, g);
        assert(groups.take(g) =~= init.take(g));
        assert(groups.flatten().subrange(
            group_start(groups, g),
            group_start(groups, g) + groups[g].len(),
        ) =~= init.flatten().subrange(
            group_start(init, g),
            group_start(init, g) + init[g].len(),
        ));
    }
}

/// Each group of a grouping is in time order.
pub proof fn lemma_group_in_time_order(events: Seq<LogEvent>, groups: Seq<Seq<LogEvent>>, g: int)
    requires
        is_grouping(events, groups),
        0 <= g < groups.len(),
    ensures
        in_time_order(groups[g]),
{
    lemma_group_in_flatten(groups, g);
    let start = group_start(groups, g);
    let flat = groups.flatten();
    assert forall|i: int, j: int| 0 <= i <= j < groups[g].len() implies groups[g][i].timestamp
        <= groups[g][j].timestamp by {
        assert(groups[g][i] == flat.subrange(start, start + groups[g].len())[i]);
        assert(groups[g][j] == flat.subrange(start, start + groups[g].len())[j]);
        assert(flat[start + i].timestamp <= flat[start + j].timestamp);
    }
}

/// Within each group of a grouping, the newest and the oldest event lie at
/// most sixteen hours apart; and laid end to end the groups are the events,
/// stably sorted by timestamp.
pub proof fn lemma_grouping_spans(
    events: Seq<LogEvent>,
    groups: Seq<Seq<LogEvent>>,
    g: int,
    i: int,
    j: int,
)
    requires
        is_grouping(events, groups),
        0 <= g < groups.len(),
        0 <= i < groups[g].len(),
        0 <= j < groups[g].len(),
    ensures
        groups[g][i].timestamp - groups[g][j].timestamp <= GROUP_SPAN_MS,
        groups[g][j].timestamp - groups[g][i].timestamp <= GROUP_SPAN_MS,
        is_stable_sort(events, groups.flatten()),
{
    lemma_group_in_time_order(events, groups, g);
    assert(within_span(groups[g][0], groups[g][i]));
    assert(within_span(groups[g][0], groups[g][j]));
    assert(groups[g][0].timestamp <= groups[g][i].timestamp);
    assert(groups[g][0].timestamp <= groups[g][j].timestamp);
}

/// Where two greedy cuts of one sequence agree on the groups before `g`,
/// group `g` of the first is at least as long as group `g` of the second.
proof fn lemma_cut_group_not_shorter(a: Seq<Seq<LogEvent>>, b: Seq<Seq<LogEvent>>, g: int)
    requires
        is_greedy_cut(a),
        is_greedy_cut(b),
        a.flatten() == b.flatten(),
        0 <= g < a.len(),
        g < b.len(),
        a.take(g) == b.take(g),
    ensures
        a[g].len() >= b[g].len(),
{
    let flat = a.flatten();
    let start = group_start(a, g);
    lemma_group_in_flatten(a, g);
    lemma_group_in_flatten(b, g);
    assert(a[g][0] == flat.subrange(start, start + a[g].len())[0]);
    assert(b[g][0] == flat.subrange(start, start + b[g].len())[0]);
    if a[g].len() < b[g].len() {
        let cut = a[g].len() as int;
        assert(a.take(g + 1) =~= a.take(g).push(a[g]));
        a.take(g).lemma_flatten_push(a[g]);
        if a.len() == g + 1 {
            assert(a.take(g + 1) =~= a);
        } else {
            lemma_group_in_flatten(a, g + 1);
            assert(a[g + 1][0] == flat.subrange(start + cut, start + cut + a[g + 1].len())[0]);
            assert(b[g][cut] == flat.subrange(start, start + b[g].len())[cut]);
            assert(within_span(b[g][0], b[g][cut]));
            assert(!within_span(a[g][0], a[g + 1][0]));
        }
    }
}

/// Two greedy cuts of one sequence agree on their first `n` groups.
proof fn lemma_cut_prefix_unique(a: Seq<Seq<LogEvent>>, b: Seq<Seq<LogEvent>>, n: int)
    requires
        is_greedy_cut(a),
        is_greedy_cut(b),
        a.flatten() == b.flatten(),
        0 <= n <= a.len(),
        n <= b.len(),
    ensures
        a.take(n) == b.take(n),
    decreases n,
{
    if n == 0 {
        assert(a.take(0) =~= b.take(0));
    } else {
        let g = n - 1;
        lemma_cut_prefix_unique(a, b, g);
        lemma_cut_group_not_shorter(a, b, g);
        lemma_cut_group_not_shorter(b, a, g);
        lemma_group_in_flatten(a, g);
        lemma_group_in_flatten(b, g);
        assert(a[g] == b[g]);
        assert(a.take(n) =~= a.take(g).push(a[g]));
        assert(b.take(n) =~= b.take(g).push(b[g]));
    }
}

/// A sequence has one greedy cut only.
pub proof fn lemma_greedy_cut_unique(a: Seq<Seq<LogEvent>>, b: Seq<Seq<LogEvent>>)
    requires
        is_greedy_cut(a),
        is_greedy_cut(b),
        a.flatten() == b.flatten(),
    ensures
        a == b,
{
    if a.len() <= b.len() {
        let n = a.len() as int;
        lemma_cut_prefix_unique(a, b, n);
        assert(a.take(n) =~= a);
        if n < b.len() {
            lemma_group_in_flatten(b, n);
        }
        assert(b.take(n) =~= b);
    } else {
        let n = b.len() as int;
        lemma_cut_prefix_unique(a, b, n);
        assert(b.take(n) =~= b);
        lemma_group_in_flatten(a, n);
    }
}

/// Grouping is a function: whatever meets the description of the grouping of
/// `events` is the same sequence of groups.
pub proof fn lemma_grouping_unique(
    events: Seq<LogEvent>,
    a: Seq<Seq<LogEvent>>,
    b: Seq<Seq<LogEvent>>,
)
    requires
        is_grouping(events, a),
        is_grouping(events, b),
    ensures
        a == b,
{
    lemma_stable_sort_unique(events, a.flatten(), b.flatten());
    lemma_greedy_cut_unique(a, b);
}

/// Grouping is idempotent: a group that grouping has made is left in one
/// piece when it is grouped again, alone.
pub proof fn lemma_grouping_idempotent(
    events: Seq<LogEvent>,
    groups: Seq<Seq<LogEvent>>,
    g: int,
    again: Seq<Seq<LogEvent>>,
)
    requires
        is_grouping(events, groups),
        0 <= g < groups.len(),
        is_grouping(groups[g], again),
    ensures
        again == seq![groups[g]],
{
    let alone = seq![groups[g]];
    lemma_group_in_time_order(events, groups, g);
    alone.lemma_flatten_singleton();
    assert(is_greedy_cut(alone));
    assert(is_stable_sort(groups[g], alone.flatten()));
    lemma_grouping_unique(groups[g], again, alone);
}

/// Whether `later` lies more than sixteen hours after `first`.
fn is_too_new(first: &LogEvent, later: &LogEvent) -> (too_new: bool)
    ensures
        too_new == !within_span(*first, *later),
{
    (later.timestamp as i128) - (GROUP_SPAN_MS as i128) > (first.timestamp as i128)
}

/// Sorts the events by timestamp, keeping the order of events with the same
/// timestamp, and cuts the result into groups of at most sixteen hours each.
pub fn do_group_events(events: Vec<LogEvent>) -> (groups: Vec<Vec<LogEvent>>)
    ensures
        is_grouping(events@, group_views(groups@)),
        group_views(groups@) == grouping_of(events@),
        forall|g: int, i: int, j: int|
            0 <= g < groups@.len() && 0 <= i < groups@[g]@.len() && 0 <= j < groups@[g]@.len()
                ==> #[trigger] groups@[g]@[i].timestamp - #[trigger] groups@[g]@[j].timestamp
                <= GROUP_SPAN_MS,
{
    let sorted = sort_by_timestamp(&events);
    let mut groups: Vec<Vec<LogEvent>> = Vec::new();
    let mut taken: usize = 0;
    proof {
        assert(group_views(groups@) =~= Seq::empty());
        assert(sorted@.take(0) =~= group_views(groups@).flatten());
    }
    while taken < sorted.len()
        invariant
            taken <= sorted.len(),
            group_views(groups@).flatten() == sorted@.take(taken as int),
            is_greedy_cut(group_views(groups@)),
        decreases sorted.len() - taken,
    {
        let event = sorted[taken].duplicate();
        let ghost before = group_views(groups@);
        match groups.pop() {
            None => {
                let mut new_group: Vec<LogEvent> = Vec::new();
                new_group.push(event);
                groups.push(new_group);
                proof {
                    assert(group_views(groups@) =~= before.push(seq![event]));
                    before.lemma_flatten_push(seq![event]);
                }
            },
            Some(existing_group) => {
                let mut existing_group = existing_group;
                let ghost init = before.drop_last();
                let ghost open = before.last();
                proof {
                    assert(existing_group@ == open);
                    assert(before =~= init.push(open));
                    init.lemma_flatten_push(open);
                    assert(open.len() > 0);
                }
                let too_new = is_too_new(&existing_group[0], &event);
                if too_new {
                    groups.push(existing_group);
                    let mut new_group: Vec<LogEvent> = Vec::new();
                    new_group.push(event);
                    groups.push(new_group);
                    proof {
                        assert(group_views(groups@) =~= before.push(seq![event]));
                        before.lemma_flatten_push(seq![event]);
                    }
                } else {
                    existing_group.push(event);
                    groups.push(existing_group);
                    proof {
                        assert(group_views(groups@) =~= init.push(open.push(event)));
                        init.lemma_flatten_push(open.push(event));
                        assert(init.flatten() + open.push(event) =~= (init.flatten() + open).push(
                            event,
                        ));
                    }
                }
            },
        }
        proof {
            assert(sorted@.take(taken as int).push(event) =~= sorted@.take(taken + 1));
        }
        taken += 1;
    }
    proof {
        assert(sorted@.take(taken as int) =~= sorted@);
        let views = group_views(groups@);
        lemma_grouping_unique(events@, views, grouping_of(events@));
        assert forall|g: int, i: int, j: int|
            0 <= g < groups@.len() && 0 <= i < groups@[g]@.len() && 0 <= j < groups@[g]@.len()
            implies #[trigger] groups@[g]@[i].timestamp - #[trigger] groups@[g]@[j].timestamp
            <= GROUP_SPAN_MS by {
            assert(views[g] == groups@[g]@);
            lemma_grouping_spans(events@, views, g, i, j);
        }
    }
    groups
}

} // verus!
