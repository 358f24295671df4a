use match_coach::eligibility::{contains_message, eligible_messages, remove_played};
use match_coach::error::ConfigError;
use match_coach::game_stage::GameStage;
use match_coach::game_stage_interval::GameStageInterval;
use match_coach::message::{Message, MessageInvocationType, Role};
use match_coach::random::{arrange, is_valid_order, message_at, shuffled_order};

fn message(roles: Vec<Role>, text: &str, invocation_type: MessageInvocationType) -> Message {
    Message::new(roles, text.to_string(), invocation_type).unwrap()
}

fn texts(messages: &[Message]) -> Vec<&str> {
    messages.iter().map(|message| message.text.as_str()).collect()
}

#[test]
fn test_messages() {
    let messages = Message::generate_default_messages();
    assert_eq!(messages.len(), 21);
    for message in &messages {
        assert!(!message.text.is_empty());
        assert!(!message.roles.is_empty());
        if let MessageInvocationType::Interval(interval) = message.invocation_type {
            assert!(interval.start_timestamp <= interval.end_timestamp);
        }
    }
    assert_eq!(messages[0].text, "Determine the starting side of the enemy jungler.");
    assert_eq!(messages[0].roles, Role::all());
    assert_eq!(
        messages[0].invocation_type,
        MessageInvocationType::Interval(GameStage::Start.to_interval())
    );
    assert_eq!(messages[2].text, "Stop autopiloting. Focus!");
    assert_eq!(messages[2].invocation_type, MessageInvocationType::Always);
    assert_eq!(messages[14].text, "Be in sync with your team, pressure map.");
    assert_eq!(messages[14].roles, vec![Role::Top, Role::Mid, Role::ADC, Role::Support]);
    assert_eq!(
        messages[20].text,
        "Check what's happening in the mid lane, be ready to cover."
    );
    assert_eq!(
        messages[20].invocation_type,
        MessageInvocationType::Interval(GameStage::MidAndLate.to_interval())
    );
}

#[test]
fn all_roles_are_five() {
    assert_eq!(
        Role::all(),
        vec![Role::Top, Role::Jungle, Role::Mid, Role::ADC, Role::Support]
    );
}

#[test]
fn stages_partition_the_match() {
    assert_eq!(GameStage::from(0), GameStage::Start);
    assert_eq!(GameStage::from(90), GameStage::Start);
    assert_eq!(GameStage::from(91), GameStage::Early);
    assert_eq!(GameStage::from(839), GameStage::Early);
    assert_eq!(GameStage::from(840), GameStage::Early);
    assert_eq!(GameStage::from(841), GameStage::MidAndLate);
    assert_eq!(GameStage::from(3600), GameStage::MidAndLate);
    assert_eq!(GameStage::from(3601), GameStage::MidAndLate);
    assert_eq!(GameStage::from(u64::MAX), GameStage::MidAndLate);
    let stages = [GameStage::Start, GameStage::Early, GameStage::MidAndLate];
    for seconds in 0..=3600u64 {
        let holders: Vec<GameStage> = stages
            .iter()
            .copied()
            .filter(|stage| stage.to_interval().is_duration_fits(seconds as i64))
            .collect();
        assert_eq!(holders, vec![GameStage::from(seconds)]);
    }
}

#[test]
fn stage_intervals_are_as_listed() {
    assert_eq!(
        GameStage::Start.to_interval(),
        GameStageInterval { start_timestamp: 0, end_timestamp: 90 }
    );
    assert_eq!(
        GameStage::Early.to_interval(),
        GameStageInterval { start_timestamp: 91, end_timestamp: 840 }
    );
    assert_eq!(
        GameStage::MidAndLate.to_interval(),
        GameStageInterval { start_timestamp: 841, end_timestamp: 3600 }
    );
}

#[test]
fn interval_includes_both_ends() {
    let interval = GameStageInterval::new(10, 20).unwrap();
    assert!(!interval.is_duration_fits(9));
    assert!(interval.is_duration_fits(10));
    assert!(interval.is_duration_fits(15));
    assert!(interval.is_duration_fits(20));
    assert!(!interval.is_duration_fits(21));
    assert!(!interval.is_duration_fits(-15));
    let point = GameStageInterval::new(7, 7).unwrap();
    assert!(point.is_duration_fits(7));
    assert!(!point.is_duration_fits(6));
    assert!(!point.is_duration_fits(8));
    let whole = GameStageInterval::new(i64::MIN, i64::MAX).unwrap();
    assert!(whole.is_duration_fits(i64::MIN));
    assert!(whole.is_duration_fits(i64::MAX));
}

#[test]
fn interval_that_ends_before_it_starts_is_refused() {
    assert_eq!(GameStageInterval::new(5, 4), Err(ConfigError::MalformedInterval));
    assert_eq!(GameStageInterval::new(0, -1), Err(ConfigError::MalformedInterval));
    assert_eq!(
        GameStageInterval::new(3, 9),
        Ok(GameStageInterval { start_timestamp: 3, end_timestamp: 9 })
    );
}

#[test]
fn message_without_roles_is_refused() {
    let result = Message::new(Vec::new(), "x".to_string(), MessageInvocationType::Always);
    assert_eq!(result.err(), Some(ConfigError::EmptyRoles));
    let backwards = GameStageInterval { start_timestamp: 9, end_timestamp: 3 };
    // Where both are wrong the missing roles are reported.
    let result =
        Message::new(Vec::new(), "x".to_string(), MessageInvocationType::Interval(backwards));
    assert_eq!(result.err(), Some(ConfigError::EmptyRoles));
}

#[test]
fn message_with_malformed_interval_is_refused() {
    let backwards = GameStageInterval { start_timestamp: 9, end_timestamp: 3 };
    let result =
        Message::new(Role::all(), "x".to_string(), MessageInvocationType::Interval(backwards));
    assert_eq!(result.err(), Some(ConfigError::MalformedInterval));
}

#[test]
fn message_keeps_what_it_was_built_from() {
    let interval = GameStageInterval::new(3, 9).unwrap();
    let built = Message::new(
        vec![Role::Mid, Role::Top],
        "Ward.".to_string(),
        MessageInvocationType::Interval(interval),
    )
    .unwrap();
    assert_eq!(built.text, "Ward.");
    assert_eq!(built.roles, vec![Role::Mid, Role::Top]);
    assert_eq!(built.invocation_type, MessageInvocationType::Interval(interval));
}

#[test]
fn messages_are_equal_field_by_field() {
    let base = message(vec![Role::Mid, Role::Top], "Ward.", MessageInvocationType::Always);
    assert_eq!(base, base.clone());
    assert_eq!(base, message(vec![Role::Mid, Role::Top], "Ward.", MessageInvocationType::Always));
    assert_ne!(base, message(vec![Role::Mid, Role::Top], "Ward!", MessageInvocationType::Always));
    assert_ne!(base, message(vec![Role::Top, Role::Mid], "Ward.", MessageInvocationType::Always));
    assert_ne!(base, message(vec![Role::Mid], "Ward.", MessageInvocationType::Always));
    assert_ne!(
        base,
        message(vec![Role::Mid, Role::Top, Role::ADC], "Ward.", MessageInvocationType::Always)
    );
    assert_ne!(
        base,
        message(
            vec![Role::Mid, Role::Top],
            "Ward.",
            MessageInvocationType::Interval(GameStage::Start.to_interval())
        )
    );
    assert_ne!(
        message(Role::all(), "x", MessageInvocationType::Interval(GameStage::Start.to_interval())),
        message(Role::all(), "x", MessageInvocationType::Interval(GameStage::Early.to_interval()))
    );
}

#[test]
fn eligibility_needs_role_and_moment() {
    let start = message(
        vec![Role::Jungle, Role::Mid],
        "Kite camps.",
        MessageInvocationType::Interval(GameStage::Start.to_interval()),
    );
    assert!(start.has_role(Role::Jungle));
    assert!(start.has_role(Role::Mid));
    assert!(!start.has_role(Role::Top));
    assert!(start.is_eligible(Role::Jungle, 0));
    assert!(start.is_eligible(Role::Jungle, 90));
    assert!(!start.is_eligible(Role::Jungle, 91));
    assert!(!start.is_eligible(Role::Jungle, -1));
    assert!(!start.is_eligible(Role::Support, 10));
    let always = message(vec![Role::Support], "Focus!", MessageInvocationType::Always);
    assert!(always.is_eligible(Role::Support, i64::MAX));
    assert!(always.is_eligible(Role::Support, i64::MIN));
    assert!(!always.is_eligible(Role::ADC, 0));
}

#[test]
fn start_message_leaves_the_pool_after_the_start() {
    let catalog = vec![
        message(Role::all(), "Focus!", MessageInvocationType::Always),
        message(
            Role::all(),
            "Pick a side.",
            MessageInvocationType::Interval(GameStage::Start.to_interval()),
        ),
    ];
    assert_eq!(
        texts(&eligible_messages(&catalog, Role::Jungle, 0)),
        vec!["Focus!", "Pick a side."]
    );
    assert_eq!(texts(&eligible_messages(&catalog, Role::Jungle, 91)), vec!["Focus!"]);
}

#[test]
fn eligible_messages_keep_the_order_of_the_catalog() {
    let catalog = Message::generate_default_messages();
    assert_eq!(
        texts(&eligible_messages(&catalog, Role::Jungle, 30)),
        vec![
            "Determine the starting side of the enemy jungler.",
            "Kite camps.",
            "Stop autopiloting. Focus!",
            "Damage control - match enemy pressure, trade something in crossmap.",
            "Do not flip - follow the 80% rule.",
            "Numbers advantage is the key.",
        ]
    );
    assert_eq!(
        texts(&eligible_messages(&catalog, Role::Support, 30)),
        vec![
            "Determine the starting side of the enemy jungler.",
            "Stop autopiloting. Focus!",
            "Numbers advantage is the key.",
        ]
    );
    assert_eq!(
        texts(&eligible_messages(&catalog, Role::Top, 500)),
        vec![
            "Stop autopiloting. Focus!",
            "Numbers advantage is the key.",
            "Think about the options available to the enemy jungler.",
        ]
    );
    assert_eq!(eligible_messages(&catalog, Role::Jungle, 500).len(), 10);
    assert_eq!(eligible_messages(&catalog, Role::Jungle, 2000).len(), 12);
    assert_eq!(eligible_messages(&catalog, Role::ADC, 2000).len(), 10);
    // Past the last interval only what always holds is left.
    assert_eq!(
        texts(&eligible_messages(&catalog, Role::ADC, 3601)),
        vec!["Stop autopiloting. Focus!", "Numbers advantage is the key."]
    );
    assert!(eligible_messages(&Vec::new(), Role::ADC, 0).is_empty());
}

#[test]
fn duplicates_in_the_catalog_stay_in_the_pool() {
    let catalog = vec![
        message(Role::all(), "a", MessageInvocationType::Always),
        message(vec![Role::Top], "b", MessageInvocationType::Always),
        message(Role::all(), "a", MessageInvocationType::Always),
    ];
    assert_eq!(texts(&eligible_messages(&catalog, Role::Mid, 0)), vec!["a", "a"]);
}

#[test]
fn played_messages_are_removed_from_a_pool() {
    let a = message(Role::all(), "a", MessageInvocationType::Always);
    let b = message(Role::all(), "b", MessageInvocationType::Always);
    let c = message(Role::all(), "c", MessageInvocationType::Always);
    let other_a = message(vec![Role::Top], "a", MessageInvocationType::Always);
    let pool = vec![a.clone(), b.clone(), c.clone(), a.clone()];
    assert!(contains_message(&pool, &b));
    assert!(!contains_message(&pool, &other_a));
    assert!(!contains_message(&Vec::new(), &a));
    assert_eq!(texts(&remove_played(pool.clone(), &vec![a.clone()])), vec!["b", "c"]);
    assert_eq!(texts(&remove_played(pool.clone(), &vec![c.clone(), b.clone()])), vec!["a", "a"]);
    assert_eq!(texts(&remove_played(pool.clone(), &vec![other_a])), vec!["a", "b", "c", "a"]);
    assert_eq!(texts(&remove_played(pool.clone(), &Vec::new())), vec!["a", "b", "c", "a"]);
    assert!(remove_played(pool.clone(), &pool).is_empty());
}

#[test]
fn drawn_position_picks_the_message() {
    let pool = vec![
        message(Role::all(), "a", MessageInvocationType::Always),
        message(Role::all(), "b", MessageInvocationType::Always),
    ];
    assert_eq!(message_at(&pool, Some(0)), Some(pool[0].clone()));
    assert_eq!(message_at(&pool, Some(1)), Some(pool[1].clone()));
    assert_eq!(message_at(&pool, Some(2)), None);
    assert_eq!(message_at(&pool, None), None);
    assert_eq!(message_at(&Vec::new(), Some(0)), None);
}

#[test]
fn orders_list_each_place_once() {
    assert!(is_valid_order(&vec![], 0));
    assert!(is_valid_order(&vec![0], 1));
    assert!(is_valid_order(&vec![2, 0, 1], 3));
    assert!(!is_valid_order(&vec![2, 0, 2], 3));
    assert!(!is_valid_order(&vec![0, 1, 3], 3));
    assert!(!is_valid_order(&vec![0, 1], 3));
    assert!(!is_valid_order(&vec![0, 1, 2, 3], 3));
    assert!(!is_valid_order(&vec![0], 0));
}

#[test]
fn shuffled_order_lists_each_place_once() {
    let mut rng = rand::thread_rng();
    assert!(shuffled_order(&mut rng, 0).is_empty());
    assert_eq!(shuffled_order(&mut rng, 1), vec![0]);
    let straight: Vec<usize> = (0..64).collect();
    let mut moved = false;
    for _ in 0..8 {
        let order = shuffled_order(&mut rng, 64);
        assert!(is_valid_order(&order, 64));
        let mut sorted = order.clone();
        sorted.sort();
        assert_eq!(sorted, straight);
        if order != straight {
            moved = true;
        }
    }
    // Eight shuffles of sixty-four places do not all leave them in line.
    assert!(moved);
}

#[test]
fn messages_are_arranged_by_an_order() {
    let round = vec![
        message(Role::all(), "a", MessageInvocationType::Always),
        message(Role::all(), "b", MessageInvocationType::Always),
        message(Role::all(), "c", MessageInvocationType::Always),
    ];
    assert_eq!(texts(&arrange(round.clone(), &vec![2, 0, 1])), vec!["c", "a", "b"]);
    assert_eq!(texts(&arrange(round.clone(), &vec![1, 2, 0])), vec!["b", "c", "a"]);
    assert_eq!(texts(&arrange(round.clone(), &vec![0, 1, 2])), vec!["a", "b", "c"]);
    assert!(arrange(Vec::new(), &Vec::new()).is_empty());
    // What is no order of the round leaves it as it is.
    assert_eq!(texts(&arrange(round.clone(), &vec![2, 0])), vec!["a", "b", "c"]);
    assert_eq!(texts(&arrange(round.clone(), &vec![2, 0, 0])), vec!["a", "b", "c"]);
    assert_eq!(texts(&arrange(round.clone(), &vec![2, 0, 3])), vec!["a", "b", "c"]);
    assert_eq!(texts(&arrange(round, &Vec::new())), vec!["a", "b", "c"]);
}
