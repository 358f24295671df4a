//! Catalogs of messages, and the one that comes built in.

use crate::game_stage::GameStage;
use crate::message::{Message, MessageInvocationType, MessageView, Role};
use vstd::prelude::*;

verus! {

/// What a list of messages holds, entry by entry.
pub open spec fn views(messages: Seq<Message>) -> Seq<MessageView> {
    Seq::new(messages.len(), |i: int| messages[i]@)
}

/// The built-in catalog: advice for the start of a match, advice that always
/// holds, advice for the early game, and advice for the mid and late game.
pub open spec fn default_messages() -> Seq<MessageView> {
    seq![
        MessageView::of(
            Role::everyone(),
            "Determine the starting side of the enemy jungler."@,
            MessageInvocationType::Interval(GameStage::Start.interval()),
        ),
        MessageView::of(
            seq![Role::Jungle],
            "Kite camps."@,
            MessageInvocationType::Interval(GameStage::Start.interval()),
        ),
        MessageView::of(
            Role::everyone(),
            "Stop autopiloting. Focus!"@,
            MessageInvocationType::Always,
        ),
        MessageView::of(
            seq![Role::Jungle],
            "Damage control - match enemy pressure, trade something in crossmap."@,
            MessageInvocationType::Always,
        ),
        MessageView::of(
            seq![Role::Jungle],
            "Do not flip - follow the 80% rule."@,
            MessageInvocationType::Always,
        ),
        MessageView::of(
            Role::everyone(),
            "Numbers advantage is the key."@,
            MessageInvocationType::Always,
        ),
        MessageView::of(
            seq![Role::Jungle],
            "Watch lanes more frequent! Especially between camps."@,
            MessageInvocationType::Interval(GameStage::Early.interval()),
        ),
        MessageView::of(
            seq![Role::Jungle],
            "Check the wave states and intentions of the laners."@,
            MessageInvocationType::Interval(GameStage::Early.interval()),
        ),
        MessageView::of(
            seq![Role::Jungle],
            "In dead time, gank for pressure if there is nothing else to do."@,
            MessageInvocationType::Interval(GameStage::Early.interval()),
        ),
        MessageView::of(
            seq![Role::Jungle],
            "Match the enemy jungler if you have an advantage."@,
            MessageInvocationType::Interval(GameStage::Early.interval()),
        ),
        MessageView::of(
            Role::everyone(),
            "Think about the options available to the enemy jungler."@,
            MessageInvocationType::Interval(GameStage::Early.interval()),
        ),
        MessageView::of(
            seq![Role::Jungle],
            "Play with the winning side."@,
            MessageInvocationType::Interval(GameStage::Early.interval()),
        ),
        MessageView::of(
            Role::everyone(),
            "Play for the towers."@,
            MessageInvocationType::Interval(GameStage::MidAndLate.interval()),
        ),
        MessageView::of(
            seq![Role::Jungle],
            "Be in sync with your team, don't farm when everyone is pressuring."@,
            MessageInvocationType::Interval(GameStage::MidAndLate.interval()),
        ),
        MessageView::of(
            seq![Role::Top, Role::Mid, Role::ADC, Role::Support],
            "Be in sync with your team, pressure map."@,
            MessageInvocationType::Interval(GameStage::MidAndLate.interval()),
        ),
        MessageView::of(
            Role::everyone(),
            "Push the waves, especially the mid waves, before doing anything else."@,
            MessageInvocationType::Interval(GameStage::MidAndLate.interval()),
        ),
        MessageView::of(
            Role::everyone(),
            "Abuse push into roam."@,
            MessageInvocationType::Interval(GameStage::MidAndLate.interval()),
        ),
        MessageView::of(
            Role::everyone(),
            "Try to not engage first."@,
            MessageInvocationType::Interval(GameStage::MidAndLate.interval()),
        ),
        MessageView::of(
            Role::everyone(),
            "Ward mid lane."@,
            MessageInvocationType::Interval(GameStage::MidAndLate.interval()),
        ),
        MessageView::of(
            Role::everyone(),
            "Siege into jungle vision control into objectives."@,
            MessageInvocationType::Interval(GameStage::MidAndLate.interval()),
        ),
        MessageView::of(
            Role::everyone(),
            "Check what's happening in the mid lane, be ready to cover."@,
            MessageInvocationType::Interval(GameStage::MidAndLate.interval()),
        ),
    ]
}

impl Message {
    /// The built-in catalog, in the order in which its messages are played.
    pub fn generate_default_messages() -> (messages: Vec<Message>)
        ensures
            views(messages@) == default_messages(),
            forall|i: int| 0 <= i < messages.len() ==> (#[trigger] messages[i])@.wf(),
    {
        let messages = vec![
            Message::new(
                Role::all(),
                "Determine the starting side of the enemy jungler.".to_string(),
                MessageInvocationType::Interval(GameStage::Start.to_interval()),
            ).unwrap(),
            Message::new(
                vec![Role::Jungle],
                "Kite camps.".to_string(),
                MessageInvocationType::Interval(GameStage::Start.to_interval()),
            ).unwrap(),
            Message::new(
                Role::all(),
                "Stop autopiloting. Focus!".to_string(),
                MessageInvocationType::Always,
            ).unwrap(),
            Message::new(
                vec![Role::Jungle],
                "Damage control - match enemy pressure, trade something in crossmap.".to_string(),
                MessageInvocationType::Always,
            ).unwrap(),
            Message::new(
                vec![Role::Jungle],
                "Do not flip - follow the 80% rule.".to_string(),
                MessageInvocationType::Always,
            ).unwrap(),
            Message::new(
                Role::all(),
                "Numbers advantage is the key.".to_string(),
                MessageInvocationType::Always,
            ).unwrap(),
            Message::new(
                vec![Role::Jungle],
                "Watch lanes more frequent! Especially between camps.".to_string(),
                MessageInvocationType::Interval(GameStage::Early.to_interval()),
            ).unwrap(),
            Message::new(
                vec![Role::Jungle],
                "Check the wave states and intentions of the laners.".to_string(),
                MessageInvocationType::Interval(GameStage::Early.to_interval()),
            ).unwrap(),
            Message::new(
                vec![Role::Jungle],
                "In dead time, gank for pressure if there is nothing else to do.".to_string(),
                MessageInvocationType::Interval(GameStage::Early.to_interval()),
            ).unwrap(),
            Message::new(
                vec![Role::Jungle],
                "Match the enemy jungler if you have an advantage.".to_string(),
                MessageInvocationType::Interval(GameStage::Early.to_interval()),
            ).unwrap(),
            Message::new(
                Role::all(),
                "Think about the options available to the enemy jungler.".to_string(),
                MessageInvocationType::Interval(GameStage::Early.to_interval()),
            ).unwrap(),
            Message::new(
                vec![Role::Jungle],
                "Play with the winning side.".to_string(),
                MessageInvocationType::Interval(GameStage::Early.to_interval()),
            ).unwrap(),
            Message::new(
                Role::all(),
                "Play for the towers.".to_string(),
                MessageInvocationType::Interval(GameStage::MidAndLate.to_interval()),
            ).unwrap(),
            Message::new(
                vec![Role::Jungle],
                "Be in sync with your team, don't farm when everyone is pressuring.".to_string(),
                MessageInvocationType::Interval(GameStage::MidAndLate.to_interval()),
            ).unwrap(),
            Message::new(
                vec![Role::Top, Role::Mid, Role::ADC, Role::Support],
                "Be in sync with your team, pressure map.".to_string(),
                MessageInvocationType::Interval(GameStage::MidAndLate.to_interval()),
            ).unwrap(),
            Message::new(
                Role::all(),
                "Push the waves, especially the mid waves, before doing anything else.".to_string(),
                MessageInvocationType::Interval(GameStage::MidAndLate.to_interval()),
            ).unwrap(),
            Message::new(
                Role::all(),
                "Abuse push into roam.".to_string(),
                MessageInvocationType::Interval(GameStage::MidAndLate.to_interval()),
            ).unwrap(),
            Message::new(
                Role::all(),
                "Try to not engage first.".to_string(),
                MessageInvocationType::Interval(GameStage::MidAndLate.to_interval()),
            ).unwrap(),
            Message::new(
                Role::all(),
                "Ward mid lane.".to_string(),
                MessageInvocationType::Interval(GameStage::MidAndLate.to_interval()),
            ).unwrap(),
            Message::new(
                Role::all(),
                "Siege into jungle vision control into objectives.".to_string(),
                MessageInvocationType::Interval(GameStage::MidAndLate.to_interval()),
            ).unwrap(),
            Message::new(
                Role::all(),
                "Check what's happening in the mid lane, be ready to cover.".to_string(),
                MessageInvocationType::Interval(GameStage::MidAndLate.to_interval()),
            ).unwrap(),
        ];
        proof {
            // The role lists written out one by one are the ones stated.
            let stated = default_messages();
            assert(messages@[1]@.roles =~= stated[1].roles);
            assert(messages@[3]@.roles =~= stated[3].roles);
            assert(messages@[4]@.roles =~= stated[4].roles);
            assert(messages@[6]@.roles =~= stated[6].roles);
            assert(messages@[7]@.roles =~= stated[7].roles);
            assert(messages@[8]@.roles =~= stated[8].roles);
            assert(messages@[9]@.roles =~= stated[9].roles);
            assert(messages@[11]@.roles =~= stated[11].roles);
            assert(messages@[13]@.roles =~= stated[13].roles);
            assert(messages@[14]@.roles =~= stated[14].roles);
            assert(views(messages@) =~= stated);
        }
        messages
    }
}

} // verus!
