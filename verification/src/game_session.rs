//! A coaching session: the state that lives through a match, and the
//! decisions taken at each tick of the clock.

use crate::catalog::views;
use crate::clock::now_seconds;
use crate::eligibility::{eligible_messages_wide, remove_played};
use crate::error::ConfigError;
use crate::message::{Message, MessageView, Role};
use crate::random::{arrange, choose_position, message_at, shuffled_order};
use crate::schedule::{is_order, ActionView, SessionView, TraversalOrder};
use rand::rngs::ThreadRng;
use vstd::prelude::*;

verus! {

/// What the caller is to do after a tick.
#[derive(Debug)]
pub enum SessionAction {
    /// The session was stopped: leave the loop.
    Stop,
    /// The last message is too recent: sleep and tick again.
    Wait,
    /// No message applies to the role at this moment: sleep and tick again.
    Skip,
    /// Play this message.
    Play(Message),
}

impl View for SessionAction {
    type V = ActionView;

    open spec fn view(&self) -> ActionView {
        match self {
            SessionAction::Stop => ActionView::Stop,
            SessionAction::Wait => ActionView::Wait,
            SessionAction::Skip => ActionView::Skip,
            SessionAction::Play(message) => ActionView::Play(message@),
        }
    }
}

/// A coaching session over a catalog of messages.
pub struct GameSession<'a> {
    messages: &'a Vec<Message>,
    started_at: i64,
    last_message_at: Option<i64>,
    message_interval: i64,
    player_role: Role,
    traversal: TraversalOrder,
    stopped: bool,
    /// Size of the eligible pool when the round began.
    pool_size: usize,
    /// The messages of the current round, in the order of play.
    queue: Vec<Message>,
    /// Place in `queue` of the next message to play.
    cursor: usize,
    /// The messages played in the current round.
    history: Vec<Message>,
}

impl<'a> View for GameSession<'a> {
    type V = SessionView;

    closed spec fn view(&self) -> SessionView {
        SessionView {
            catalog: views(self.messages@),
            started_at: self.started_at as int,
            last_message_at: match self.last_message_at {
                Some(last) => Some(last as int),
                None => None,
            },
            message_interval: self.message_interval as int,
            player_role: self.player_role,
            traversal: self.traversal,
            stopped: self.stopped,
            pool_size: self.pool_size as nat,
            pending: views(self.queue@).skip(self.cursor as int),
            history: views(self.history@),
        }
    }
}

impl<'a> GameSession<'a> {
    /// The cursor lies within the round, and the state is one that a
    /// session can reach.
    pub closed spec fn wf(&self) -> bool {
        &&& self.cursor <= self.queue.len()
        &&& self@.wf()
    }

    /// A well-formed session has a well-formed state.
    pub proof fn lemma_wf_state(&self)
        requires
            self.wf(),
        ensures
            self@.wf(),
    {
    }

    /// A session over `messages` for a player of `player_role` that starts
    /// now, by the system clock, and plays at most one message every
    /// `message_interval` seconds, in the order of the catalog. An interval
    /// that is not positive is refused.
    pub fn new(messages: &'a Vec<Message>, message_interval: i64, player_role: Role) -> (result:
        Result<Self, ConfigError>)
        ensures
            message_interval <= 0 ==> result == Err::<Self, ConfigError>(
                ConfigError::NonPositiveInterval,
            ),
            message_interval > 0 ==> result is Ok && result.unwrap().wf() && exists|started_at: i64|
                result.unwrap()@ == #[trigger] SessionView::start(
                    views(messages@),
                    message_interval as int,
                    player_role,
                    started_at as int,
                ),
    {
        let started_at = now_seconds();
        Self::starting_at(messages, message_interval, player_role, started_at)
    }

    /// The same session with its start at the moment `started_at`.
    pub fn starting_at(
        messages: &'a Vec<Message>,
        message_interval: i64,
        player_role: Role,
        started_at: i64,
    ) -> (result: Result<Self, ConfigError>)
        ensures
            message_interval <= 0 ==> result == Err::<Self, ConfigError>(
                ConfigError::NonPositiveInterval,
            ),
            message_interval > 0 ==> result is Ok && result.unwrap().wf() && result.unwrap()@
                == SessionView::start(
                views(messages@),
                message_interval as int,
                player_role,
                started_at as int,
            ),
    {
        if message_interval <= 0 {
            return Err(ConfigError::NonPositiveInterval);
        }
        let queue = eligible_messages_wide(messages, player_role, 0);
        let session = GameSession {
            messages,
            started_at,
            last_message_at: None,
            message_interval,
            player_role,
            traversal: TraversalOrder::Catalog,
            stopped: false,
            pool_size: queue.len(),
            queue,
            cursor: 0,
            history: Vec::new(),
        };
        proof {
            assert(views(session.queue@).skip(0) =~= views(session.queue@));
            assert(views(session.history@) =~= Seq::empty());
        }
        Ok(session)
    }

    /// The seconds elapsed since the start of the session at the moment
    /// `now`.
    pub fn duration(&self, now: i64) -> (seconds: i128)
        ensures
            seconds == self@.elapsed(now as int),
    {
        now as i128 - self.started_at as i128
    }

    /// The messages that may be played at the moment `now`, in the order of
    /// the catalog.
    pub fn valid_message_sequence(&self, now: i64) -> (pool: Vec<Message>)
        ensures
            views(pool@) == self@.pool(now as int),
    {
        eligible_messages_wide(self.messages, self.player_role, self.duration(now))
    }

    /// One of the messages that may be played at the moment `now`, drawn
    /// with `rng`, or none where none may be played.
    pub fn random_valid_message(&self, now: i64, rng: &mut ThreadRng) -> (picked: Option<Message>)
        ensures
            picked is None <==> self@.pool(now as int).len() == 0,
            picked is Some ==> self@.pool(now as int).contains(picked.unwrap()@),
    {
        let pool = self.valid_message_sequence(now);
        let position = choose_position(rng, pool.len());
        let picked = message_at(&pool, position);
        proof {
            if picked is Some {
                assert(views(pool@)[position.unwrap() as int] == picked.unwrap()@);
            }
        }
        picked
    }

    /// Exchanges the catalog. The round goes on as it was; the next tick
    /// that finds a pool of another size begins a new one.
    pub fn replace_messages(&mut self, messages: &'a Vec<Message>)
        requires
            old(self).wf(),
        ensures
            final(self).wf(),
            final(self)@ == old(self)@.replace(views(messages@)),
    {
        self.messages = messages;
    }

    /// Sets the order in which the rounds to come are played. The round
    /// under way goes on as it was.
    pub fn set_traversal(&mut self, traversal: TraversalOrder)
        requires
            old(self).wf(),
        ensures
            final(self).wf(),
            final(self)@ == old(self)@.traverse(traversal),
    {
        self.traversal = traversal;
    }

    /// Stops the session: from now on every tick answers `Stop`.
    pub fn stop(&mut self)
        requires
            old(self).wf(),
        ensures
            final(self).wf(),
            final(self)@ == old(self)@.stop(),
    {
        self.stopped = true;
    }

    /// The messages played so far in the round under way, oldest first.
    pub fn history(&self) -> (history: &Vec<Message>)
        ensures
            views(history@) == self@.history,
    {
        &self.history
    }

    /// The number of messages that were eligible when the round under way
    /// began.
    pub fn pool_size(&self) -> (size: usize)
        ensures
            size == self@.pool_size,
    {
        self.pool_size
    }

    /// The role that the session coaches.
    pub fn player_role(&self) -> (role: Role)
        ensures
            role == self@.player_role,
    {
        self.player_role
    }

    /// Whether the session was stopped.
    pub fn is_stopped(&self) -> (stopped: bool)
        ensures
            stopped == self@.stopped,
    {
        self.stopped
    }

    /// Whether enough time has passed at the moment `now` since the last
    /// message for another one.
    pub fn is_due(&self, now: i64) -> (due: bool)
        ensures
            due == self@.gate_open(now as int),
    {
        match self.last_message_at {
            None => true,
            Some(last) => now as i128 - last as i128 >= self.message_interval as i128,
        }
    }

    /// Whether a tick at the moment `now` would begin a new round.
    pub fn begins_round(&self, now: i64) -> (begins: bool)
        requires
            self.wf(),
        ensures
            begins == self@.begins_round(now as int),
    {
        if self.stopped || !self.is_due(now) {
            return false;
        }
        let pool = self.valid_message_sequence(now);
        pool.len() != self.pool_size || self.cursor >= self.queue.len()
    }

    /// The messages of the round that would begin at the moment `now`, in
    /// the order of the catalog.
    pub fn next_round(&self, now: i64) -> (round: Vec<Message>)
        ensures
            views(round@) == self@.next_round(now as int),
    {
        let pool = self.valid_message_sequence(now);
        if pool.len() != self.pool_size {
            let rest = remove_played(pool, &self.history);
            if rest.len() > 0 {
                return rest;
            }
            return self.valid_message_sequence(now);
        }
        pool
    }

    /// One tick of the clock at the moment `now`: decides whether a message
    /// is played and which, and moves the session on accordingly. Where a
    /// round begins in shuffled order, the order is drawn with `rng`.
    pub fn tick(&mut self, now: i64, rng: &mut ThreadRng) -> (action: SessionAction)
        requires
            old(self).wf(),
        ensures
            final(self).wf(),
            exists|order: Seq<usize>|
                {
                    &&& old(self)@.traversal == TraversalOrder::Shuffled && old(
                        self,
                    )@.begins_round(now as int) ==> is_order(
                        order,
                        old(self)@.next_round(now as int).len(),
                    )
                    &&& final(self)@ == (#[trigger] old(self)@.tick(now as int, order)).0
                    &&& action@ == old(self)@.tick(now as int, order).1
                },
    {
        let order = match self.traversal {
            TraversalOrder::Shuffled if self.begins_round(now) => {
                let round = self.next_round(now);
                shuffled_order(rng, round.len())
            },
            _ => Vec::new(),
        };
        self.tick_in_order(now, &order)
    }

    /// The tick at the moment `now` for a given order: where a round begins
    /// in shuffled order, its messages are taken in the order that `order`
    /// gives, provided that it lists each place of the round once; in every
    /// other case `order` is not looked at.
    pub fn tick_in_order(&mut self, now: i64, order: &Vec<usize>) -> (action: SessionAction)
        requires
            old(self).wf(),
        ensures
            final(self).wf(),
            final(self)@ == old(self)@.tick(now as int, order@).0,
            action@ == old(self)@.tick(now as int, order@).1,
    {
        if self.stopped {
            return SessionAction::Stop;
        }
        if !self.is_due(now) {
            return SessionAction::Wait;
        }
        let pool = self.valid_message_sequence(now);
        let message = if pool.len() == self.pool_size && self.cursor < self.queue.len() {
            let message = self.queue[self.cursor].clone();
            proof {
                let pending = views(self.queue@).skip(self.cursor as int);
                assert(pending[0] == message@);
                assert(pending.skip(1) =~= views(self.queue@).skip(self.cursor + 1));
            }
            self.cursor += 1;
            message
        } else {
            let round = self.next_round(now);
            let lineup = match self.traversal {
                TraversalOrder::Shuffled => arrange(round, order),
                TraversalOrder::Catalog => round,
            };
            proof {
                // The round holds no more messages than the pool.
                self@.pool(now as int).lemma_filter_len(
                    |message: MessageView| !self@.history.contains(message),
                );
            }
            self.pool_size = pool.len();
            self.history = Vec::new();
            if lineup.len() == 0 {
                self.queue = lineup;
                self.cursor = 0;
                proof {
                    assert(views(self.queue@).skip(0) =~= Seq::empty());
                    assert(views(self.history@) =~= Seq::empty());
                }
                return SessionAction::Skip;
            }
            let message = lineup[0].clone();
            self.queue = lineup;
            self.cursor = 1;
            proof {
                assert(views(self.history@) =~= Seq::empty());
            }
            message
        };
        let ghost before = self.history@;
        self.history.push(message.clone());
        self.last_message_at = Some(now);
        proof {
            assert(views(self.history@) =~= views(before).push(message@));
        }
        SessionAction::Play(message)
    }
}

} // verus!
