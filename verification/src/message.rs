//! Advice messages: what is said, to which roles, and when.

use crate::error::ConfigError;
use crate::game_stage_interval::GameStageInterval;
use vstd::prelude::*;

verus! {

/// When a message may be played.
#[derive(Clone, Copy, Debug, PartialEq, Eq, Structural)]
pub enum MessageInvocationType {
    /// At any moment of the match.
    Always,
    /// Only while the elapsed time lies in the interval.
    Interval(GameStageInterval),
}

impl MessageInvocationType {
    /// An interval, where there is one, does not end before it starts.
    pub open spec fn wf(self) -> bool {
        match self {
            MessageInvocationType::Always => true,
            MessageInvocationType::Interval(interval) => interval.wf(),
        }
    }

    /// Whether the rule lets a message through after `seconds` seconds.
    pub open spec fn admits(self, seconds: int) -> bool {
        match self {
            MessageInvocationType::Always => true,
            MessageInvocationType::Interval(interval) => interval.contains(seconds),
        }
    }
}

/// The position a player holds in the team.
#[derive(Clone, Copy, Debug, PartialEq, Eq, Structural)]
pub enum Role {
    Top,
    Jungle,
    Mid,
    ADC,
    Support,
}

impl Role {
    /// Every role, in the order in which `all` lists them.
    pub open spec fn everyone() -> Seq<Role> {
        seq![Role::Top, Role::Jungle, Role::Mid, Role::ADC, Role::Support]
    }

    /// The full list of roles, for messages that concern every player.
    pub fn all() -> (roles: Vec<Role>)
        ensures
            roles@ == Role::everyone(),
    {
        vec![Role::Top, Role::Jungle, Role::Mid, Role::ADC, Role::Support]
    }
}

/// What a message is, as plain mathematical values.
pub struct MessageView {
    pub text: Seq<char>,
    pub roles: Seq<Role>,
    pub invocation_type: MessageInvocationType,
}

impl MessageView {
    /// The message with these roles, this text and this rule.
    pub open spec fn of(
        roles: Seq<Role>,
        text: Seq<char>,
        invocation_type: MessageInvocationType,
    ) -> MessageView {
        MessageView { text, roles, invocation_type }
    }

    /// The message names at least one role, and its interval, if it has one,
    /// does not end before it starts.
    pub open spec fn wf(self) -> bool {
        self.roles.len() > 0 && self.invocation_type.wf()
    }

    /// Whether the message may be played to a player of `role` after
    /// `seconds` seconds: the role is among its roles, and its rule admits
    /// the moment.
    pub open spec fn applies(self, role: Role, seconds: int) -> bool {
        self.roles.contains(role) && self.invocation_type.admits(seconds)
    }
}

/// One entry of the catalog.
#[derive(Debug)]
pub struct Message {
    pub text: String,
    pub roles: Vec<Role>,
    pub invocation_type: MessageInvocationType,
}

impl View for Message {
    type V = MessageView;

    open spec fn view(&self) -> MessageView {
        MessageView {
            text: self.text@,
            roles: self.roles@,
            invocation_type: self.invocation_type,
        }
    }
}

impl Clone for Message {
    fn clone(&self) -> (copy: Self)
        ensures
            copy@ == self@,
    {
        let mut roles: Vec<Role> = Vec::new();
        let mut i: usize = 0;
        while i < self.roles.len()
            invariant
                i <= self.roles.len(),
                roles@ == self.roles@.take(i as int),
            decreases self.roles.len() - i,
        {
            roles.push(self.roles[i]);
            assert(self.roles@.take(i + 1) == self.roles@.take(i as int).push(self.roles@[i as int]));
            i += 1;
        }
        assert(self.roles@ == self.roles@.take(i as int));
        Message { text: self.text.clone(), roles, invocation_type: self.invocation_type }
    }
}

impl PartialEq for Message {
    fn eq(&self, other: &Self) -> (equal: bool) {
        if self.roles.len() != other.roles.len() {
            return false;
        }
        let mut i: usize = 0;
        while i < self.roles.len()
            invariant
                i <= self.roles.len(),
                self.roles.len() == other.roles.len(),
                self.roles@.take(i as int) == other.roles@.take(i as int),
            decreases self.roles.len() - i,
        {
            if self.roles[i] != other.roles[i] {
                assert(self.roles@[i as int] != other.roles@[i as int]);
                return false;
            }
            assert(self.roles@.take(i + 1) == self.roles@.take(i as int).push(self.roles@[i as int]));
            assert(other.roles@.take(i + 1) == other.roles@.take(i as int).push(
                other.roles@[i as int],
            ));
            i += 1;
        }
        assert(self.roles@ == self.roles@.take(i as int));
        assert(other.roles@ == other.roles@.take(i as int));
        self.text == other.text && self.invocation_type == other.invocation_type
    }
}

impl vstd::std_specs::cmp::PartialEqSpecImpl for Message {
    open spec fn obeys_eq_spec() -> bool {
        true
    }

    open spec fn eq_spec(&self, other: &Self) -> bool {
        self@ == other@
    }
}

impl Message {
    /// What stands in the way of a message with these roles and this rule,
    /// if anything does.
    pub open spec fn rejection(roles: Seq<Role>, invocation_type: MessageInvocationType) -> Option<
        ConfigError,
    > {
        if roles.len() == 0 {
            Some(ConfigError::EmptyRoles)
        } else if !invocation_type.wf() {
            Some(ConfigError::MalformedInterval)
        } else {
            None
        }
    }

    /// Builds a message. A message without roles is refused, and so is one
    /// whose interval ends before it starts.
    pub fn new(roles: Vec<Role>, text: String, invocation_type: MessageInvocationType) -> (result:
        Result<Self, ConfigError>)
        ensures
            match result {
                Ok(message) => {
                    &&& Self::rejection(roles@, invocation_type) is None
                    &&& message@ == MessageView::of(roles@, text@, invocation_type)
                    &&& message@.wf()
                },
                Err(error) => Self::rejection(roles@, invocation_type) == Some(error),
            },
    {
        if roles.len() == 0 {
            return Err(ConfigError::EmptyRoles);
        }
        match invocation_type {
            MessageInvocationType::Always => {},
            MessageInvocationType::Interval(interval) => {
                if interval.start_timestamp > interval.end_timestamp {
                    return Err(ConfigError::MalformedInterval);
                }
            },
        }
        Ok(Message { text, roles, invocation_type })
    }

    /// Whether the message is meant for players of `role`.
    pub fn has_role(&self, role: Role) -> (found: bool)
        ensures
            found == self@.roles.contains(role),
    {
        let mut i: usize = 0;
        while i < self.roles.len()
            invariant
                i <= self.roles.len(),
                !self.roles@.take(i as int).contains(role),
            decreases self.roles.len() - i,
        {
            if self.roles[i] == role {
                return true;
            }
            assert(self.roles@.take(i + 1) == self.roles@.take(i as int).push(self.roles@[i as int]));
            i += 1;
        }
        assert(self.roles@ == self.roles@.take(i as int));
        false
    }

    /// Whether the message may be played to a player of `role` after
    /// `seconds` seconds of the match.
    pub fn is_eligible(&self, role: Role, seconds: i64) -> (eligible: bool)
        ensures
            eligible == self@.applies(role, seconds as int),
    {
        self.is_eligible_wide(role, seconds as i128)
    }

    /// The same test for a duration too wide for `i64`.
    pub(crate) fn is_eligible_wide(&self, role: Role, seconds: i128) -> (eligible: bool)
        ensures
            eligible == self@.applies(role, seconds as int),
    {
        self.has_role(role) && match self.invocation_type {
            MessageInvocationType::Always => true,
            MessageInvocationType::Interval(interval) => interval.fits_wide(seconds),
        }
    }
}

} // verus!
