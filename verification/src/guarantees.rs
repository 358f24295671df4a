//! What holds of every session, whatever happens to it.

use crate::eligibility::{eligible, unplayed};
use crate::message::{MessageView, Role};
use crate::sequences::{lemma_filter_keeps_distinct, lemma_filter_members};
use crate::schedule::{arranged, is_order, ActionView, Event, SessionView, TraversalOrder};
use vstd::prelude::*;
use vstd::set_lib::{lemma_int_range, lemma_subset_equality, set_int_range};

verus! {

/// An order leaves no place out: each of the places `0..len` stands in it.
pub proof fn lemma_order_covers(order: Seq<usize>, len: nat, place: int)
    requires
        is_order(order, len),
        0 <= place < len,
    ensures
        exists|k: int| 0 <= k < order.len() && #[trigger] order[k] == place,
{
    let places = Seq::new(order.len(), |k: int| order[k] as int);
    assert forall|i: int, j: int|
        0 <= i < places.len() && 0 <= j < places.len() && i != j implies places[i]
        != places[j] by {
        assert(order[i] != order[j]);
    }
    places.unique_seq_to_set();
    lemma_int_range(0, len as int);
    assert(places.to_set().subset_of(set_int_range(0, len as int))) by {
        assert forall|p: int| places.to_set().contains(p) implies set_int_range(
            0,
            len as int,
        ).contains(p) by {
            let k = choose|k: int| 0 <= k < places.len() && places[k] == p;
            assert(order[k] < len);
        }
    }
    lemma_subset_equality(places.to_set(), set_int_range(0, len as int));
    assert(set_int_range(0, len as int).contains(place));
    assert(places.to_set().contains(place));
    let k = choose|k: int| 0 <= k < places.len() && places[k] == place;
    assert(order[k] == place);
}

/// Taking the messages of a round in another order neither loses nor adds
/// one, and brings none in twice that was there once.
pub proof fn lemma_arranged_rearranges(round: Seq<MessageView>, order: Seq<usize>)
    requires
        is_order(order, round.len()),
    ensures
        arranged(round, order).len() == round.len(),
        forall|message: MessageView|
            arranged(round, order).contains(message) <==> round.contains(message),
        round.no_duplicates() ==> arranged(round, order).no_duplicates(),
{
    let lineup = arranged(round, order);
    assert forall|message: MessageView| lineup.contains(message) <==> round.contains(
        message,
    ) by {
        if lineup.contains(message) {
            let k = choose|k: int| 0 <= k < lineup.len() && lineup[k] == message;
            assert(round[order[k] as int] == message);
        }
        if round.contains(message) {
            let p = choose|p: int| 0 <= p < round.len() && round[p] == message;
            lemma_order_covers(order, round.len(), p);
            let k = choose|k: int| 0 <= k < order.len() && #[trigger] order[k] == p;
            assert(lineup[k] == message);
        }
    }
    if round.no_duplicates() {
        assert forall|i: int, j: int|
            0 <= i < lineup.len() && 0 <= j < lineup.len() && i != j implies lineup[i]
            != lineup[j] by {
            assert(order[i] != order[j]);
        }
    }
}

/// The round that begins at a tick holds the messages that the next round
/// is made of, whatever the order of play: none is lost, none is added, and
/// none comes in twice that was there once.
pub proof fn lemma_lineup_rearranges_round(state: SessionView, now: int, order: Seq<usize>)
    ensures
        state.lineup(now, order).len() == state.next_round(now).len(),
        forall|message: MessageView|
            state.lineup(now, order).contains(message) <==> state.next_round(now).contains(
                message,
            ),
        state.next_round(now).no_duplicates() ==> state.lineup(now, order).no_duplicates(),
        state.traversal == TraversalOrder::Catalog ==> state.lineup(now, order)
            == state.next_round(now),
{
    let round = state.next_round(now);
    if state.traversal == TraversalOrder::Shuffled && is_order(order, round.len()) {
        lemma_arranged_rearranges(round, order);
    }
}

/// The order handed to a tick matters only where a round begins in shuffled
/// order.
pub proof fn lemma_order_matters_only_for_shuffled_rounds(
    state: SessionView,
    now: int,
    order: Seq<usize>,
    other: Seq<usize>,
)
    requires
        state.traversal == TraversalOrder::Catalog || !state.begins_round(now),
    ensures
        state.tick(now, order) == state.tick(now, other),
{
}

/// The round that would begin at a tick is drawn from the eligible messages
/// of that moment: it holds no more of them than there are, and it is empty
/// only where none is eligible.
pub proof fn lemma_next_round_is_drawn_from_pool(state: SessionView, now: int)
    ensures
        state.next_round(now).len() <= state.pool(now).len(),
        state.next_round(now).len() == 0 <==> state.pool(now).len() == 0,
        forall|message: MessageView|
            state.next_round(now).contains(message) ==> state.pool(now).contains(message),
{
    let pool = state.pool(now);
    let keep = |message: MessageView| !state.history.contains(message);
    pool.lemma_filter_len(keep);
    assert forall|message: MessageView| state.next_round(now).contains(message) implies pool.contains(
        message,
    ) by {
        if state.next_round(now) != pool {
            lemma_filter_members(pool, keep, message);
        }
    }
}

/// Catalogs put in by `events` hold no message twice.
pub open spec fn distinct_catalogs(events: Seq<Event>) -> bool {
    forall|i: int|
        0 <= i < events.len() ==> (#[trigger] events[i] matches Event::Replace(catalog)
            ==> catalog.no_duplicates())
}

/// The run over the first `k + 1` events is the run over the first `k`,
/// followed by the event at place `k`.
pub proof fn lemma_run_unfolds(state: SessionView, events: Seq<Event>, k: int)
    requires
        0 <= k < events.len(),
    ensures
        state.run(events.take(k + 1)) == state.run(events.take(k)).apply(events[k]),
{
    assert(events.take(k + 1).drop_last() =~= events.take(k));
}

/// A session starts in a state that sessions can reach.
pub proof fn lemma_start_wf(
    catalog: Seq<MessageView>,
    message_interval: int,
    player_role: Role,
    started_at: int,
)
    requires
        message_interval > 0,
    ensures
        SessionView::start(catalog, message_interval, player_role, started_at).wf(),
{
}

/// No event leads out of the states that sessions can reach, and none
/// touches the minimum interval, the role or the start of the session.
pub proof fn lemma_apply_keeps_wf(state: SessionView, event: Event)
    requires
        state.wf(),
    ensures
        state.apply(event).wf(),
        state.apply(event).message_interval == state.message_interval,
        state.apply(event).player_role == state.player_role,
        state.apply(event).started_at == state.started_at,
{
    if let Event::Tick(now, order) = event {
        lemma_lineup_rearranges_round(state, now, order);
        lemma_next_round_is_drawn_from_pool(state, now);
    }
}

/// The same for a whole run of events.
pub proof fn lemma_run_keeps_wf(state: SessionView, events: Seq<Event>)
    requires
        state.wf(),
    ensures
        state.run(events).wf(),
        state.run(events).message_interval == state.message_interval,
        state.run(events).player_role == state.player_role,
        state.run(events).started_at == state.started_at,
    decreases events.len(),
{
    if events.len() > 0 {
        lemma_run_keeps_wf(state, events.drop_last());
        lemma_apply_keeps_wf(state.run(events.drop_last()), events.last());
    }
}

/// A tick that plays a message records its moment as that of the last
/// message, and that moment lies at least the minimum interval after the
/// one recorded before. A tick that plays none leaves the record alone.
pub proof fn lemma_tick_spaces_messages(state: SessionView, now: int, order: Seq<usize>)
    ensures
        state.tick(now, order).1 is Play ==> {
            &&& state.tick(now, order).0.last_message_at == Some(now)
            &&& state.last_message_at matches Some(last) ==> now - last >= state.message_interval
        },
        !(state.tick(now, order).1 is Play) ==> state.tick(now, order).0.last_message_at
            == state.last_message_at,
{
}

/// After a message was played at place `i`, the moment recorded for the
/// last message never lies before the moment of that tick.
proof fn lemma_record_never_falls_back(state: SessionView, events: Seq<Event>, i: int, k: int)
    requires
        state.wf(),
        state.plays_at(events, i),
        i < k <= events.len(),
    ensures
        state.run(events.take(k)).last_message_at matches Some(last) && last >= events[i]->Tick_0,
    decreases k - i,
{
    lemma_run_unfolds(state, events, k - 1);
    let before = state.run(events.take(k - 1));
    lemma_run_keeps_wf(state, events.take(k - 1));
    if k > i + 1 {
        lemma_record_never_falls_back(state, events, i, k - 1);
    }
    if let Event::Tick(now, order) = events[k - 1] {
        lemma_tick_spaces_messages(before, now, order);
    }
}

/// Messages are never played faster than the minimum interval allows: of
/// two ticks of one run that both play a message, the later one comes at
/// least the minimum interval after the earlier one.
pub proof fn lemma_rate_limit(state: SessionView, events: Seq<Event>, i: int, j: int)
    requires
        state.wf(),
        i < j,
        state.plays_at(events, i),
        state.plays_at(events, j),
    ensures
        events[j]->Tick_0 - events[i]->Tick_0 >= state.message_interval,
{
    lemma_record_never_falls_back(state, events, i, j);
    lemma_run_keeps_wf(state, events.take(j));
    lemma_tick_spaces_messages(state.run(events.take(j)), events[j]->Tick_0, events[j]->Tick_1);
}

/// A round is played from its first message to its last, in the order in
/// which it was lined up: the messages played and the messages pending,
/// taken together, are the lineup of the round from the tick that begins it
/// until the next round begins, and each tick that plays a message moves the
/// first pending one over to the played ones.
pub proof fn lemma_round_is_played_in_order(state: SessionView, event: Event)
    ensures
        match event {
            Event::Tick(now, order) => {
                let after = state.tick(now, order).0;
                if state.begins_round(now) {
                    after.history + after.pending == state.lineup(now, order)
                } else {
                    after.history + after.pending == state.history + state.pending
                }
            },
            _ => state.apply(event).history + state.apply(event).pending == state.history
                + state.pending,
        },
{
    if let Event::Tick(now, order) = event {
        let after = state.tick(now, order).0;
        if state.begins_round(now) {
            assert(after.history + after.pending =~= state.lineup(now, order));
        } else {
            assert(after.history + after.pending =~= state.history + state.pending);
        }
    }
}

/// A session over a catalog that holds no message twice starts with a
/// round that holds none twice.
pub proof fn lemma_start_distinct(
    catalog: Seq<MessageView>,
    message_interval: int,
    player_role: Role,
    started_at: int,
)
    requires
        catalog.no_duplicates(),
    ensures
        SessionView::start(catalog, message_interval, player_role, started_at).distinct(),
{
    let pool = eligible(catalog, player_role, 0);
    lemma_filter_keeps_distinct(catalog, |message: MessageView| message.applies(player_role, 0));
    assert(Seq::<MessageView>::empty() + pool =~= pool);
}

/// While catalogs hold no message twice, rounds hold none twice either.
pub proof fn lemma_apply_keeps_distinct(state: SessionView, event: Event)
    requires
        state.distinct(),
        event matches Event::Replace(catalog) ==> catalog.no_duplicates(),
    ensures
        state.apply(event).distinct(),
{
    if let Event::Tick(now, order) = event {
        if !state.stopped && state.gate_open(now) {
            let after = state.tick(now, order).0;
            if state.round_is_over(now) {
                let pool = state.pool(now);
                let lineup = state.lineup(now, order);
                lemma_filter_keeps_distinct(
                    state.catalog,
                    |message: MessageView| message.applies(state.player_role, state.elapsed(now)),
                );
                lemma_filter_keeps_distinct(
                    pool,
                    |message: MessageView| !state.history.contains(message),
                );
                lemma_lineup_rearranges_round(state, now, order);
                if lineup.len() > 0 {
                    assert(after.history + after.pending =~= lineup);
                } else {
                    assert(after.history + after.pending =~= Seq::<MessageView>::empty());
                }
            } else {
                assert(after.history + after.pending =~= state.history + state.pending);
            }
        }
    }
}

/// The same for a whole run of events.
pub proof fn lemma_run_keeps_distinct(state: SessionView, events: Seq<Event>)
    requires
        state.distinct(),
        distinct_catalogs(events),
    ensures
        state.run(events).distinct(),
    decreases events.len(),
{
    if events.len() > 0 {
        let front = events.drop_last();
        assert forall|i: int| 0 <= i < front.len() implies (#[trigger] front[i] matches Event::Replace(
            catalog,
        ) ==> catalog.no_duplicates()) by {
            assert(front[i] == events[i]);
        }
        lemma_run_keeps_distinct(state, front);
        assert(events.last() == events[events.len() - 1]);
        lemma_apply_keeps_distinct(state.run(front), events.last());
    }
}

/// A tick that plays a message puts it last in the history of the round;
/// where the tick did not begin a new round, the message was the first one
/// pending and the history before it stays.
pub proof fn lemma_tick_records_message(state: SessionView, now: int, order: Seq<usize>)
    requires
        state.tick(now, order).1 is Play,
    ensures
        state.tick(now, order).0.history.len() > 0,
        state.tick(now, order).0.history.last() == state.tick(now, order).1->Play_0,
        !state.begins_round(now) ==> {
            &&& state.pending.len() > 0
            &&& state.tick(now, order).1->Play_0 == state.pending[0]
            &&& state.tick(now, order).0.history == state.history.push(state.pending[0])
            &&& state.tick(now, order).0.pending == state.pending.skip(1)
        },
        state.begins_round(now) ==> {
            &&& state.lineup(now, order).len() > 0
            &&& state.tick(now, order).1->Play_0 == state.lineup(now, order)[0]
            &&& state.tick(now, order).0.history == seq![state.lineup(now, order)[0]]
            &&& state.tick(now, order).0.pending == state.lineup(now, order).skip(1)
        },
{
}

/// An event that does not begin a new round loses nothing of the history of
/// the round.
pub proof fn lemma_history_stays(state: SessionView, event: Event, message: MessageView)
    requires
        state.history.contains(message),
        event matches Event::Tick(now, order) ==> !state.begins_round(now),
    ensures
        state.apply(event).history.contains(message),
{
    let p = choose|p: int| 0 <= p < state.history.len() && state.history[p] == message;
    if let Event::Tick(now, order) = event {
        if state.tick(now, order).1 is Play {
            lemma_tick_records_message(state, now, order);
            assert(state.history.push(state.pending[0])[p] == message);
        }
    }
}

/// After a message was played at place `i`, it stays in the history of the
/// round for as long as no new round begins.
proof fn lemma_history_holds_message(state: SessionView, events: Seq<Event>, i: int, k: int)
    requires
        state.plays_at(events, i),
        i < k <= events.len(),
        forall|l: int| i < l < k ==> !state.begins_round_at(events, l),
    ensures
        state.run(events.take(k)).history.contains(state.played_at(events, i)),
    decreases k - i,
{
    lemma_run_unfolds(state, events, k - 1);
    let before = state.run(events.take(k - 1));
    if k == i + 1 {
        let now = events[i]->Tick_0;
        let order = events[i]->Tick_1;
        lemma_tick_records_message(before, now, order);
        let history = before.tick(now, order).0.history;
        assert(history[history.len() - 1] == state.played_at(events, i));
    } else {
        lemma_history_holds_message(state, events, i, k - 1);
        assert(!state.begins_round_at(events, k - 1));
        lemma_history_stays(before, events[k - 1], state.played_at(events, i));
    }
}

/// No message is played twice in one round: of two ticks of one run that
/// both play a message, with no new round begun after the first up to and
/// including the second, the messages differ. This holds where no catalog
/// holds a message twice.
pub proof fn lemma_no_repeat_within_round(
    state: SessionView,
    events: Seq<Event>,
    i: int,
    j: int,
)
    requires
        state.distinct(),
        distinct_catalogs(events),
        i < j,
        state.plays_at(events, i),
        state.plays_at(events, j),
        forall|l: int| i < l <= j ==> !state.begins_round_at(events, l),
    ensures
        state.played_at(events, i) != state.played_at(events, j),
{
    let before = state.run(events.take(j));
    let now = events[j]->Tick_0;
    let first = state.played_at(events, i);
    lemma_history_holds_message(state, events, i, j);
    assert forall|l: int| 0 <= l < events.take(j).len() implies (#[trigger] events.take(
        j,
    )[l] matches Event::Replace(catalog) ==> catalog.no_duplicates()) by {
        assert(events.take(j)[l] == events[l]);
    }
    lemma_run_keeps_distinct(state, events.take(j));
    assert(!state.begins_round_at(events, j));
    lemma_tick_records_message(before, now, events[j]->Tick_1);
    let p = choose|p: int| 0 <= p < before.history.len() && before.history[p] == first;
    let round = before.history + before.pending;
    assert(round[p] == first);
    assert(round[before.history.len() as int] == before.pending[0]);
}

/// A change of the pool brings something new where it can: if the pool has
/// changed and holds a message that the round before has not played, the
/// tick plays such a message, and the round that begins holds none that the
/// round before has played.
pub proof fn lemma_changed_pool_plays_something_new(
    state: SessionView,
    now: int,
    order: Seq<usize>,
)
    requires
        !state.stopped,
        state.gate_open(now),
        state.pool_changed(now),
        unplayed(state.pool(now), state.history).len() > 0,
    ensures
        state.tick(now, order).1 matches ActionView::Play(message) && !state.history.contains(
            message,
        ) && state.pool(now).contains(message),
        forall|message: MessageView|
            state.tick(now, order).0.pending.contains(message) ==> !state.history.contains(
                message,
            ),
{
    let keep = |message: MessageView| !state.history.contains(message);
    let lineup = state.lineup(now, order);
    let after = state.tick(now, order).0;
    lemma_lineup_rearranges_round(state, now, order);
    assert(lineup.contains(lineup[0]));
    lemma_filter_members(state.pool(now), keep, lineup[0]);
    assert forall|message: MessageView| after.pending.contains(message) implies !state.history.contains(
        message,
    ) by {
        let k = choose|k: int| 0 <= k < after.pending.len() && after.pending[k] == message;
        assert(lineup[k + 1] == message);
        assert(lineup.contains(message));
        lemma_filter_members(state.pool(now), keep, message);
    }
}

/// A session never stalls while there is something to say: a tick of a
/// running session that comes no sooner than the minimum interval after the
/// last message plays a message if and only if some message is eligible at
/// that moment, and skips otherwise. Where every message of the round has
/// been played, the tick begins a new round and plays its first message.
pub proof fn lemma_plays_when_due(state: SessionView, now: int, order: Seq<usize>)
    requires
        state.wf(),
        !state.stopped,
        state.gate_open(now),
    ensures
        state.tick(now, order).1 is Play <==> state.pool(now).len() > 0,
        state.tick(now, order).1 is Skip <==> state.pool(now).len() == 0,
        state.pool(now).len() > 0 && state.pending.len() == 0 ==> {
            &&& state.tick(now, order).1 == ActionView::Play(state.lineup(now, order)[0])
            &&& state.tick(now, order).0.history == seq![state.lineup(now, order)[0]]
            &&& state.tick(now, order).0.pending == state.lineup(now, order).skip(1)
            &&& state.next_round(now).contains(state.lineup(now, order)[0])
        },
{
    lemma_lineup_rearranges_round(state, now, order);
    lemma_next_round_is_drawn_from_pool(state, now);
    if state.pool(now).len() > 0 && state.pending.len() == 0 {
        assert(state.lineup(now, order).contains(state.lineup(now, order)[0]));
    }
}

/// A stopped session plays nothing, and a tick that comes too soon after
/// the last message plays nothing either; neither changes the session.
pub proof fn lemma_idle_ticks_change_nothing(state: SessionView, now: int, order: Seq<usize>)
    ensures
        state.stopped ==> state.tick(now, order) == (state, ActionView::Stop),
        !state.stopped && !state.gate_open(now) ==> state.tick(now, order) == (
            state,
            ActionView::Wait,
        ),
{
}

} // verus!
