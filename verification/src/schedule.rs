//! The scheduler as a mathematical state machine: what a session holds, and
//! what one tick of the clock, a change of catalog or a stop does to it.

use crate::eligibility::{eligible, unplayed};
use crate::message::{MessageView, Role};
use vstd::prelude::*;

verus! {

/// The order in which the messages of a round are played.
#[derive(Clone, Copy, Debug, PartialEq, Eq, Structural)]
pub enum TraversalOrder {
    /// The order of the catalog.
    Catalog,
    /// A random order, drawn anew for each round.
    Shuffled,
}

/// What a session decides at one tick.
pub enum ActionView {
    /// The session was stopped: there is nothing more to do.
    Stop,
    /// The last message is too recent: come back later.
    Wait,
    /// No message applies to the role at this moment: nothing is played.
    Skip,
    /// This message is to be played now.
    Play(MessageView),
}

/// What happens to a session.
pub enum Event {
    /// The clock is read and shows this moment. Should a round begin in
    /// shuffled order, its places are taken in the order given.
    Tick(int, Seq<usize>),
    /// The catalog is exchanged for this one.
    Replace(Seq<MessageView>),
    /// The order of play is set to this one.
    Traverse(TraversalOrder),
    /// The session is stopped.
    Stop,
}

/// Whether `order` lists each of the places `0..len` once.
pub open spec fn is_order(order: Seq<usize>, len: nat) -> bool {
    &&& order.len() == len
    &&& forall|k: int| 0 <= k < order.len() ==> #[trigger] order[k] < len
    &&& order.no_duplicates()
}

/// The messages of `round`, taken in the order that `order` gives.
pub open spec fn arranged(round: Seq<MessageView>, order: Seq<usize>) -> Seq<MessageView> {
    Seq::new(round.len(), |k: int| round[order[k] as int])
}

/// The state of a session.
pub struct SessionView {
    /// The catalog that messages are drawn from.
    pub catalog: Seq<MessageView>,
    /// The moment the session started.
    pub started_at: int,
    /// The moment of the last message, if there was one.
    pub last_message_at: Option<int>,
    /// The least time between two messages.
    pub message_interval: int,
    /// The role that is coached.
    pub player_role: Role,
    /// The order in which rounds are played.
    pub traversal: TraversalOrder,
    /// Whether the session was stopped.
    pub stopped: bool,
    /// How many messages were eligible when the round began.
    pub pool_size: nat,
    /// The messages still to be played in this round, next one first.
    pub pending: Seq<MessageView>,
    /// The messages played so far in this round, oldest first.
    pub history: Seq<MessageView>,
}

impl SessionView {
    /// The state of a session that starts at `started_at`: nothing was
    /// played, and the round holds what is eligible at the very start, in
    /// the order of the catalog.
    pub open spec fn start(
        catalog: Seq<MessageView>,
        message_interval: int,
        player_role: Role,
        started_at: int,
    ) -> SessionView {
        let pool = eligible(catalog, player_role, 0);
        SessionView {
            catalog,
            started_at,
            last_message_at: None,
            message_interval,
            player_role,
            traversal: TraversalOrder::Catalog,
            stopped: false,
            pool_size: pool.len(),
            pending: pool,
            history: Seq::empty(),
        }
    }

    /// The minimum interval is positive, and the round holds no more
    /// messages than the pool it was drawn from.
    pub open spec fn wf(self) -> bool {
        &&& self.message_interval > 0
        &&& self.pending.len() <= self.pool_size
    }

    /// No message stands twice in the catalog, and none stands twice in the
    /// round, played or pending.
    pub open spec fn distinct(self) -> bool {
        &&& self.catalog.no_duplicates()
        &&& (self.history + self.pending).no_duplicates()
    }

    /// The seconds elapsed since the start of the session at the moment
    /// `now`.
    pub open spec fn elapsed(self, now: int) -> int {
        now - self.started_at
    }

    /// Whether enough time has passed since the last message for another
    /// one.
    pub open spec fn gate_open(self, now: int) -> bool {
        match self.last_message_at {
            None => true,
            Some(last) => now - last >= self.message_interval,
        }
    }

    /// The messages that may be played at the moment `now`.
    pub open spec fn pool(self, now: int) -> Seq<MessageView> {
        eligible(self.catalog, self.player_role, self.elapsed(now))
    }

    /// Whether the pool has changed since the round began. Only its size is
    /// compared: a pool of the same size with other messages passes for
    /// unchanged.
    pub open spec fn pool_changed(self, now: int) -> bool {
        self.pool(now).len() != self.pool_size
    }

    /// Whether a message played at `now` would open a new round, because the
    /// pool has changed or because every message of the round was played.
    pub open spec fn round_is_over(self, now: int) -> bool {
        self.pool_changed(now) || self.pending.len() == 0
    }

    /// Whether a tick at `now` begins a new round.
    pub open spec fn begins_round(self, now: int) -> bool {
        !self.stopped && self.gate_open(now) && self.round_is_over(now)
    }

    /// The messages of the round that would begin at `now`, in the order of
    /// the catalog. After a change of the pool these are the eligible
    /// messages that the round before has not played; where none is left,
    /// and after a round that was played to its end, they are all the
    /// eligible messages.
    pub open spec fn next_round(self, now: int) -> Seq<MessageView> {
        let rest = unplayed(self.pool(now), self.history);
        if self.pool_changed(now) && rest.len() > 0 {
            rest
        } else {
            self.pool(now)
        }
    }

    /// The messages of the round that would begin at `now`, in the order in
    /// which they would be played. A shuffled session takes them in the
    /// order that `order` gives, provided that it lists each place of the
    /// round once; otherwise they come in the order of the catalog.
    pub open spec fn lineup(self, now: int, order: Seq<usize>) -> Seq<MessageView> {
        let round = self.next_round(now);
        if self.traversal == TraversalOrder::Shuffled && is_order(order, round.len()) {
            arranged(round, order)
        } else {
            round
        }
    }

    /// The state after a tick at `now`, and what the session decides there.
    pub open spec fn tick(self, now: int, order: Seq<usize>) -> (SessionView, ActionView) {
        if self.stopped {
            (self, ActionView::Stop)
        } else if !self.gate_open(now) {
            (self, ActionView::Wait)
        } else if !self.round_is_over(now) {
            (
                SessionView {
                    last_message_at: Some(now),
                    pending: self.pending.skip(1),
                    history: self.history.push(self.pending[0]),
                    ..self
                },
                ActionView::Play(self.pending[0]),
            )
        } else {
            let lineup = self.lineup(now, order);
            if lineup.len() > 0 {
                (
                    SessionView {
                        last_message_at: Some(now),
                        pool_size: self.pool(now).len(),
                        pending: lineup.skip(1),
                        history: seq![lineup[0]],
                        ..self
                    },
                    ActionView::Play(lineup[0]),
                )
            } else {
                (
                    SessionView {
                        pool_size: self.pool(now).len(),
                        pending: Seq::empty(),
                        history: Seq::empty(),
                        ..self
                    },
                    ActionView::Skip,
                )
            }
        }
    }

    /// The state after the catalog was exchanged: the round goes on as it
    /// was, and the next tick looks for a change of the pool.
    pub open spec fn replace(self, catalog: Seq<MessageView>) -> SessionView {
        SessionView { catalog, ..self }
    }

    /// The state after the order of play was set: it holds from the next
    /// round on.
    pub open spec fn traverse(self, traversal: TraversalOrder) -> SessionView {
        SessionView { traversal, ..self }
    }

    /// The state after the session was stopped.
    pub open spec fn stop(self) -> SessionView {
        SessionView { stopped: true, ..self }
    }

    /// The state after `event`.
    pub open spec fn apply(self, event: Event) -> SessionView {
        match event {
            Event::Tick(now, order) => self.tick(now, order).0,
            Event::Replace(catalog) => self.replace(catalog),
            Event::Traverse(traversal) => self.traverse(traversal),
            Event::Stop => self.stop(),
        }
    }

    /// The state after all of `events`, one after the other.
    pub open spec fn run(self, events: Seq<Event>) -> SessionView
        decreases events.len(),
    {
        if events.len() == 0 {
            self
        } else {
            self.run(events.drop_last()).apply(events.last())
        }
    }

    /// Whether the event at place `i` of `events` is a tick at which a
    /// message is played.
    pub open spec fn plays_at(self, events: Seq<Event>, i: int) -> bool {
        &&& 0 <= i < events.len()
        &&& events[i] matches Event::Tick(now, order)
        &&& self.run(events.take(i)).tick(now, order).1 is Play
    }

    /// The message played at place `i` of `events`.
    pub open spec fn played_at(self, events: Seq<Event>, i: int) -> MessageView
        recommends
            self.plays_at(events, i),
    {
        self.run(events.take(i)).tick(events[i]->Tick_0, events[i]->Tick_1).1->Play_0
    }

    /// Whether the event at place `i` of `events` is a tick that begins a
    /// new round.
    pub open spec fn begins_round_at(self, events: Seq<Event>, i: int) -> bool {
        &&& 0 <= i < events.len()
        &&& events[i] matches Event::Tick(now, order)
        &&& self.run(events.take(i)).begins_round(now)
    }
}

} // verus!
