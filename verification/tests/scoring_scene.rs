//! Scoring and scene-event behaviour: the passed-platform counter, the
//! stopwatch, the scoreboard text, and restart.

use keep_it_rolling_game::components::Cleanup;
use keep_it_rolling_game::events::SceneEvent;
use keep_it_rolling_game::resources::{GroundsResource, PreviousScoresRes, ScoresResource};
use keep_it_rolling_game::scene::{handle_scene_events, scene_setup};
use keep_it_rolling_game::scoring::{
    display_scoreboard, format_two_digits, format_u64, setup_scoring, update_grounds_passed,
    update_stopwatch,
};
use keep_it_rolling_game::state::GameState;
use keep_it_rolling_game::world::GameWorld;

#[test]
fn setup_scoring_resets_the_record() {
    let mut scores = ScoresResource {
        stopwatch: Some(9999),
        grounds_passed: 7,
    };
    setup_scoring(&mut scores);
    assert_eq!(scores.stopwatch, Some(0));
    assert_eq!(scores.grounds_passed, 0);
}

#[test]
fn stopwatch_accumulates_elapsed_time() {
    let mut scores = ScoresResource::default();
    update_stopwatch(&mut scores, 500);
    // Unstarted stopwatch stays unstarted.
    assert_eq!(scores.stopwatch, None);
    setup_scoring(&mut scores);
    update_stopwatch(&mut scores, 500);
    update_stopwatch(&mut scores, 250);
    assert_eq!(scores.stopwatch, Some(750));
}

#[test]
fn three_advances_count_three_platforms() {
    // Advances A -> B -> C -> D: the previous ground takes the values
    // A, B, C; the counter ends at exactly 3 despite repeated frames.
    let mut scores = ScoresResource {
        stopwatch: Some(0),
        grounds_passed: 0,
    };
    let mut last = None;
    for (prev, expected) in [(10u64, 1u64), (20, 2), (30, 3)] {
        let res = GroundsResource {
            previous_ground: Some(prev),
            current_ground: Some(prev + 1),
            next_ground: None,
        };
        update_grounds_passed(&res, &mut scores, &mut last);
        assert_eq!(scores.grounds_passed, expected);
        // A second frame with the same previous ground does not
        // double-count.
        update_grounds_passed(&res, &mut scores, &mut last);
        assert_eq!(scores.grounds_passed, expected);
    }
}

#[test]
fn no_previous_ground_counts_nothing() {
    let mut scores = ScoresResource {
        stopwatch: Some(0),
        grounds_passed: 0,
    };
    let mut last = None;
    update_grounds_passed(&GroundsResource::default(), &mut scores, &mut last);
    assert_eq!(scores.grounds_passed, 0);
    assert_eq!(last, None);
}

#[test]
fn scoreboard_formats_minutes_seconds_and_count() {
    let scores = ScoresResource {
        stopwatch: Some(65_000),
        grounds_passed: 3,
    };
    let line = display_scoreboard(&scores).unwrap();
    assert_eq!(line, "Time: 01:05  Panels: 3");
}

#[test]
fn scoreboard_is_empty_before_play() {
    assert!(display_scoreboard(&ScoresResource::default()).is_none());
}

#[test]
fn decimal_formatting_exact_values() {
    assert_eq!(format_u64(0), "0");
    assert_eq!(format_u64(7), "7");
    assert_eq!(format_u64(42), "42");
    assert_eq!(format_u64(1234567890), "1234567890");
    assert_eq!(format_two_digits(5), "05");
    assert_eq!(format_two_digits(59), "59");
    assert_eq!(format_two_digits(120), "120");
}

#[test]
fn restart_resets_chain_and_archives_scores() {
    let mut world = GameWorld::new();
    let mut grounds = GroundsResource::default();
    assert!(scene_setup(&mut world, &mut grounds, true));
    let scores = ScoresResource {
        stopwatch: Some(12_000),
        grounds_passed: 2,
    };
    let mut archive = PreviousScoresRes::default();
    let next = handle_scene_events(
        &mut world,
        &mut grounds,
        &scores,
        &mut archive,
        &vec![SceneEvent::Restart],
    );
    assert_eq!(next, Some(GameState::Menu));
    assert_eq!(grounds, GroundsResource::default());
    assert_eq!(archive.0.len(), 1);
    assert_eq!(archive.0[0], scores);
    // Every ball, ground, light, camera and game-over sensor carries a
    // recursive cleanup directive.
    for e in world.entities.iter().filter(|e| e.parent.is_none()) {
        assert_eq!(e.cleanup, Some(Cleanup::Recursive));
    }
}

#[test]
fn start_event_changes_nothing() {
    let mut world = GameWorld::new();
    let mut grounds = GroundsResource::default();
    assert!(scene_setup(&mut world, &mut grounds, true));
    let before_grounds = grounds;
    let before_entities = world.entities.clone();
    let scores = ScoresResource::default();
    let mut archive = PreviousScoresRes::default();
    let next = handle_scene_events(
        &mut world,
        &mut grounds,
        &scores,
        &mut archive,
        &vec![SceneEvent::Start],
    );
    assert_eq!(next, None);
    assert_eq!(grounds, before_grounds);
    assert_eq!(world.entities, before_entities);
    assert_eq!(archive.0.len(), 0);
}

#[test]
fn each_restart_archives_one_record() {
    let mut world = GameWorld::new();
    let mut grounds = GroundsResource::default();
    assert!(scene_setup(&mut world, &mut grounds, true));
    let scores = ScoresResource {
        stopwatch: Some(500),
        grounds_passed: 1,
    };
    let mut archive = PreviousScoresRes::default();
    handle_scene_events(
        &mut world,
        &mut grounds,
        &scores,
        &mut archive,
        &vec![SceneEvent::Restart, SceneEvent::Restart],
    );
    assert_eq!(archive.0.len(), 2);
}
