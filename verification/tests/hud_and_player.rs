use kitchen_fire::hud::{
    firehose_instruction_text, health_text, score_text, PlayerHealth, Score, DEFAULT_HEALTH,
};
use kitchen_fire::player::{movement_intent, next_firehose_state, PlayerFirehoseState};

#[test]
fn score_text_starts_at_zero() {
    assert_eq!(score_text(&Score::new()), "Score: 0");
    assert_eq!(score_text(&Score::default()), "Score: 0");
}

#[test]
fn score_text_prints_decimal() {
    assert_eq!(score_text(&Score(7)), "Score: 7");
    assert_eq!(score_text(&Score(10)), "Score: 10");
    assert_eq!(score_text(&Score(42)), "Score: 42");
    assert_eq!(score_text(&Score(1000007)), "Score: 1000007");
    assert_eq!(score_text(&Score(usize::MAX)), format!("Score: {}", usize::MAX));
}

#[test]
fn full_health_shows_five_hearts() {
    assert_eq!(DEFAULT_HEALTH, 10);
    assert_eq!(PlayerHealth::new().0, DEFAULT_HEALTH);
    assert_eq!(PlayerHealth::default().0, DEFAULT_HEALTH);
    assert_eq!(health_text(&PlayerHealth(10)), "\u{2665}\u{2665}\u{2665}\u{2665}\u{2665}");
}

#[test]
fn health_text_for_every_health() {
    let expected = [
        "     ",
        "\u{2661}    ",
        "\u{2665}\u{2661}   ",
        "\u{2665}\u{2661}   ",
        "\u{2665}\u{2665}\u{2661}  ",
        "\u{2665}\u{2665}   ",
        "\u{2665}\u{2665}\u{2665}\u{2661} ",
        "\u{2665}\u{2665}\u{2665}\u{2661} ",
        "\u{2665}\u{2665}\u{2665}\u{2665}\u{2661}",
        "\u{2665}\u{2665}\u{2665}\u{2665}\u{2661}",
        "\u{2665}\u{2665}\u{2665}\u{2665}\u{2665}",
    ];
    for (health, want) in expected.iter().enumerate() {
        let text = health_text(&PlayerHealth(health));
        assert_eq!(&text, want, "health {}", health);
        assert_eq!(text.chars().count(), 5);
    }
}

#[test]
fn firehose_hint_follows_state() {
    assert_eq!(
        firehose_instruction_text(PlayerFirehoseState::Closed),
        "Space: fire extinguisher"
    );
    assert_eq!(
        firehose_instruction_text(PlayerFirehoseState::Open),
        "Space: fire extinguisher (It's Stuck!!)"
    );
}

#[test]
fn losing_health_stops_at_zero() {
    let mut h = PlayerHealth(2);
    h.lose_one();
    assert_eq!(h.0, 1);
    h.lose_one();
    assert_eq!(h.0, 0);
    h.lose_one();
    assert_eq!(h.0, 0);
}

#[test]
fn space_opens_the_hose() {
    assert_eq!(PlayerFirehoseState::default(), PlayerFirehoseState::Closed);
    assert_eq!(next_firehose_state(true), Some(PlayerFirehoseState::Open));
    assert_eq!(next_firehose_state(false), None);
}

#[test]
fn open_hose_stays_open() {
    let mut state = PlayerFirehoseState::Closed;
    for pressed in [false, true, false, false] {
        if let Some(next) = next_firehose_state(pressed) {
            state = next;
        }
    }
    assert_eq!(state, PlayerFirehoseState::Open);
}

#[test]
fn movement_intent_adds_axes() {
    assert_eq!(movement_intent(false, false, false, false), (0, 0));
    assert_eq!(movement_intent(true, false, false, false), (0, 1));
    assert_eq!(movement_intent(false, true, false, false), (0, -1));
    assert_eq!(movement_intent(false, false, true, false), (-1, 0));
    assert_eq!(movement_intent(false, false, false, true), (1, 0));
    assert_eq!(movement_intent(true, true, false, false), (0, 0));
    assert_eq!(movement_intent(true, false, true, false), (-1, 1));
    assert_eq!(movement_intent(true, true, true, true), (0, 0));
}

#[test]
fn hose_stays_closed_until_space() {
    let mut state = PlayerFirehoseState::default();
    for _ in 0..10 {
        if let Some(next) = next_firehose_state(false) {
            state = next;
        }
        assert_eq!(state, PlayerFirehoseState::Closed);
    }
    if let Some(next) = next_firehose_state(true) {
        state = next;
    }
    assert_eq!(state, PlayerFirehoseState::Open);
}
