use scoundrel::game::GameEvent;
use scoundrel::history::{
    build_history_indented_lines, game_event_line, group_by_room, HistoryLine, RoomRecord,
};

fn heading(text: &str) -> HistoryLine {
    HistoryLine { text: text.to_string(), heading: true }
}

fn plain(text: &str) -> HistoryLine {
    HistoryLine { text: text.to_string(), heading: false }
}

#[test]
fn event_lines_text() {
    assert_eq!(game_event_line(&GameEvent::RoomStart { number: 12 }), "Room 12");
    assert_eq!(
        game_event_line(&GameEvent::Potion { value: 6, hp_before: 14, hp_after: 20 }),
        "🧪 +6 HP 14→20"
    );
    assert_eq!(game_event_line(&GameEvent::PotionDiscarded { value: 9 }), "🧪 discarded 9");
    assert_eq!(game_event_line(&GameEvent::Weapon { value: 10 }), "🗡️ equip 10");
    assert_eq!(game_event_line(&GameEvent::Avoid), "🌀 avoid room");
}

#[test]
fn fight_lines_text() {
    assert_eq!(
        game_event_line(&GameEvent::Fight { monster: 14, with_weapon: Some(5), damage_taken: 9 }),
        "👾 14 with 5 → dmg 9 💥"
    );
    assert_eq!(
        game_event_line(&GameEvent::Fight { monster: 3, with_weapon: Some(8), damage_taken: 0 }),
        "👾 3 with 8 → dmg 0 ✅"
    );
    assert_eq!(
        game_event_line(&GameEvent::Fight { monster: 11, with_weapon: None, damage_taken: 11 }),
        "👾 11 barehand → dmg 11 💥"
    );
}

#[test]
fn grouping_an_empty_history() {
    assert_eq!(group_by_room(&Vec::new()), Vec::<RoomRecord>::new());
}

#[test]
fn grouping_splits_at_room_starts() {
    let history = vec![
        GameEvent::RoomStart { number: 1 },
        GameEvent::Weapon { value: 4 },
        GameEvent::Avoid,
        GameEvent::RoomStart { number: 2 },
        GameEvent::RoomStart { number: 3 },
        GameEvent::PotionDiscarded { value: 2 },
    ];
    assert_eq!(
        group_by_room(&history),
        vec![
            RoomRecord { number: 1, events: vec![GameEvent::Weapon { value: 4 }, GameEvent::Avoid] },
            RoomRecord { number: 2, events: vec![] },
            RoomRecord { number: 3, events: vec![GameEvent::PotionDiscarded { value: 2 }] },
        ]
    );
}

#[test]
fn events_before_any_room_start_belong_to_room_1() {
    let history = vec![
        GameEvent::Avoid,
        GameEvent::Weapon { value: 4 },
        GameEvent::RoomStart { number: 7 },
        GameEvent::Avoid,
    ];
    assert_eq!(
        group_by_room(&history),
        vec![
            RoomRecord { number: 1, events: vec![GameEvent::Avoid, GameEvent::Weapon { value: 4 }] },
            RoomRecord { number: 7, events: vec![GameEvent::Avoid] },
        ]
    );
}

#[test]
fn grouping_keeps_every_action_in_order() {
    let history = vec![
        GameEvent::RoomStart { number: 1 },
        GameEvent::Potion { value: 2, hp_before: 3, hp_after: 5 },
        GameEvent::Fight { monster: 5, with_weapon: None, damage_taken: 5 },
        GameEvent::RoomStart { number: 2 },
        GameEvent::Avoid,
        GameEvent::RoomStart { number: 3 },
        GameEvent::Weapon { value: 9 },
    ];
    let rooms = group_by_room(&history);
    let numbers: Vec<u32> = rooms.iter().map(|r| r.number).collect();
    assert_eq!(numbers, vec![1, 2, 3]);
    let mut flat: Vec<GameEvent> = Vec::new();
    for r in &rooms {
        flat.extend(r.events.iter().copied());
    }
    let actions: Vec<GameEvent> = history
        .iter()
        .copied()
        .filter(|e| !matches!(e, GameEvent::RoomStart { .. }))
        .collect();
    assert_eq!(flat, actions);
}

#[test]
fn an_empty_history_is_shown_as_one_line() {
    assert_eq!(build_history_indented_lines(&Vec::new()), vec![plain("No battles happened.")]);
}

#[test]
fn the_history_is_laid_out_room_by_room() {
    let history = vec![
        GameEvent::RoomStart { number: 1 },
        GameEvent::Weapon { value: 4 },
        GameEvent::Fight { monster: 6, with_weapon: Some(4), damage_taken: 2 },
        GameEvent::RoomStart { number: 2 },
        GameEvent::RoomStart { number: 3 },
        GameEvent::Avoid,
    ];
    assert_eq!(
        build_history_indented_lines(&history),
        vec![
            heading("Room 1"),
            plain("  🗡️ equip 4"),
            plain("  👾 6 with 4 → dmg 2 💥"),
            plain(""),
            heading("Room 2"),
            plain("  (no actions)"),
            plain(""),
            heading("Room 3"),
            plain("  🌀 avoid room"),
            plain(""),
        ]
    );
}

#[test]
fn a_history_without_a_room_start_is_shown_under_room_1() {
    let history = vec![GameEvent::Avoid];
    assert_eq!(
        build_history_indented_lines(&history),
        vec![heading("Room 1"), plain("  🌀 avoid room"), plain("")]
    );
}
