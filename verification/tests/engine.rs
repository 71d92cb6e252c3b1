use scoundrel::cards::{Card, Rank, Suit};
use scoundrel::deck::Deck;
use scoundrel::game::{Game, GameEvent, GamePhase, UseMode};
use scoundrel::leaderboard::ScoreEntry;
use scoundrel::player::{Player, WeaponState};

fn card(suit: Suit, rank: u8) -> Card {
    Card::new(suit, Rank::new(rank))
}

fn club(rank: u8) -> Card {
    card(Suit::Clubs, rank)
}

fn spade(rank: u8) -> Card {
    card(Suit::Spades, rank)
}

fn heart(rank: u8) -> Card {
    card(Suit::Hearts, rank)
}

fn diamond(rank: u8) -> Card {
    card(Suit::Diamonds, rank)
}

/// A running game with the given room and deck (bottom first), named "Tester".
fn running(room: [Option<Card>; 4], deck: Vec<Card>) -> Game {
    let mut g = Game::with_deck(Deck { cards: deck }, Vec::new());
    g.phase = GamePhase::Running;
    g.room = room;
    g.room_number = 1;
    g.history.push(GameEvent::RoomStart { number: 1 });
    g.log.clear();
    g.player_name = "Tester".to_string();
    g
}

/// One of the slots that hold a card, chosen by `n`. The room of a running game is never empty.
fn occupied_slot(g: &Game, n: usize) -> usize {
    let slots: Vec<usize> = (0..4).filter(|i| g.room[*i].is_some()).collect();
    slots[n % slots.len()]
}

fn weapon(value: u8, kills: Vec<Card>) -> WeaponState {
    let last = kills.last().map(|c| c.monster_value());
    WeaponState { value, last_monster: last, stack: kills }
}

// ----- opening and starting -----

#[test]
fn a_new_game_opens_on_the_menu() {
    let g = Game::new(Vec::new());
    assert_eq!(g.phase, GamePhase::Menu);
    assert_eq!(g.player.hp, 20);
    assert_eq!(g.player.max_hp, 20);
    assert!(g.player.weapon.is_none());
    assert_eq!(g.deck.len(), 44);
    assert_eq!(g.room, [None, None, None, None]);
    assert_eq!(g.selected, 0);
    assert_eq!(g.choices_this_turn, 0);
    assert!(!g.avoided_last_turn);
    assert!(!g.potion_used_this_turn);
    assert!(g.discard.is_empty());
    assert_eq!(
        g.log,
        vec!["Welcome to Scoundrel (terminal)!", "Press 'n' for quick new run or use menu."]
    );
    assert!(!g.show_help);
    assert_eq!(g.score, None);
    assert_eq!(g.last_card_potion_value, None);
    assert_eq!(g.menu_selected, 0);
    assert_eq!(g.name_input, "");
    assert_eq!(g.player_name, "Scoundrel");
    assert!(g.history.is_empty());
    assert!(g.leaderboard.is_empty());
    assert_eq!(g.new_rank_pos, None);
    assert_eq!(g.room_number, 0);
    assert_eq!(g.game_over_scroll, 0);
}

#[test]
fn a_new_game_keeps_the_loaded_scores() {
    let board = vec![ScoreEntry { name: "old".to_string(), score: 3, won: true, ts: 9 }];
    let g = Game::new(board);
    assert_eq!(g.leaderboard.len(), 1);
    assert_eq!(g.leaderboard[0].name, "old");
    assert_eq!(g.leaderboard[0].score, 3);
    assert_eq!(g.leaderboard[0].ts, 9);
}

#[test]
fn with_deck_keeps_the_deck_as_given() {
    let g = Game::with_deck(Deck { cards: vec![club(2), heart(3)] }, Vec::new());
    assert_eq!(g.deck.cards, vec![club(2), heart(3)]);
    assert_eq!(g.phase, GamePhase::Menu);
}

#[test]
fn new_run_deals_the_first_room() {
    let mut g = Game::new(Vec::new());
    g.player.hp = 3;
    g.discard.push(club(2));
    g.score = Some(4);
    g.avoided_last_turn = true;
    g.new_run();
    assert_eq!(g.phase, GamePhase::Running);
    assert_eq!(g.player.hp, 20);
    assert_eq!(g.deck.len(), 40);
    assert_eq!(g.visible_count(), 4);
    assert_eq!(g.room_number, 1);
    assert_eq!(g.selected, 0);
    assert_eq!(g.choices_this_turn, 0);
    assert!(!g.avoided_last_turn);
    assert!(g.discard.is_empty());
    assert_eq!(g.score, None);
    assert_eq!(g.history, vec![GameEvent::RoomStart { number: 1 }]);
    assert_eq!(g.log, vec!["A fresh dungeon awaits..."]);
}

#[test]
fn new_run_plays_with_the_44_cards() {
    let mut g = Game::new(Vec::new());
    g.new_run();
    let mut cards: Vec<Card> = g.deck.cards.clone();
    for slot in g.room.iter() {
        cards.push(slot.unwrap());
    }
    assert_eq!(cards.len(), 44);
    for c in Deck::scoundrel_deck().cards {
        assert_eq!(cards.iter().filter(|d| **d == c).count(), 1);
    }
}

#[test]
fn start_run_deals_from_the_top_of_the_deck() {
    let mut g = Game::new(Vec::new());
    g.start_run(Deck { cards: vec![club(2), club(3), club(4), club(5), club(6), club(7)] });
    assert_eq!(g.room, [Some(club(7)), Some(club(6)), Some(club(5)), Some(club(4))]);
    assert_eq!(g.deck.cards, vec![club(2), club(3)]);
    assert_eq!(g.phase, GamePhase::Running);
    assert_eq!(g.room_number, 1);
}

#[test]
fn start_run_with_a_short_deck_leaves_slots_empty() {
    let mut g = Game::new(Vec::new());
    g.start_run(Deck { cards: vec![club(2), club(3)] });
    assert_eq!(g.room, [Some(club(3)), Some(club(2)), None, None]);
    assert!(g.deck.is_empty());
    assert_eq!(g.phase, GamePhase::Running);
}

#[test]
fn start_run_without_cards_is_won_at_once() {
    let mut g = Game::new(Vec::new());
    g.start_run(Deck { cards: Vec::new() });
    assert_eq!(g.phase, GamePhase::GameOver);
    assert_eq!(g.score, Some(20));
    assert_eq!(g.room_number, 1);
    assert_eq!(g.history, vec![GameEvent::RoomStart { number: 1 }]);
    assert_eq!(g.leaderboard.len(), 1);
    assert!(g.leaderboard[0].won);
}

// ----- potions -----

#[test]
fn a_potion_heals_by_its_value() {
    let mut g = running([Some(heart(6)), Some(club(2)), Some(club(3)), Some(club(4))], vec![]);
    g.player.hp = 10;
    g.take_selected_default();
    assert_eq!(g.player.hp, 16);
    assert!(g.potion_used_this_turn);
    assert_eq!(g.last_card_potion_value, Some(6));
    assert_eq!(g.discard, vec![heart(6)]);
    assert_eq!(
        g.history.last(),
        Some(&GameEvent::Potion { value: 6, hp_before: 10, hp_after: 16 })
    );
    assert_eq!(g.log, vec!["You drink a potion (6). HP 10→16."]);
    assert_eq!(g.room[0], None);
    assert_eq!(g.choices_this_turn, 1);
}

#[test]
fn a_potion_heals_up_to_the_cap() {
    let mut g = running([Some(heart(10)), Some(club(2)), Some(club(3)), Some(club(4))], vec![]);
    g.player.hp = 17;
    g.take_selected_default();
    assert_eq!(g.player.hp, 20);
    assert_eq!(
        g.history.last(),
        Some(&GameEvent::Potion { value: 10, hp_before: 17, hp_after: 20 })
    );
    assert_eq!(g.log, vec!["You drink a potion (10). HP 17→20."]);
}

#[test]
fn a_second_potion_in_a_turn_is_wasted() {
    let mut g = running([Some(heart(3)), Some(heart(8)), Some(club(3)), Some(club(4))], vec![]);
    g.player.hp = 5;
    g.take_selected_default();
    assert_eq!(g.player.hp, 8);
    g.selected = 1;
    g.take_selected_default();
    assert_eq!(g.player.hp, 8);
    assert!(g.potion_used_this_turn);
    assert_eq!(g.last_card_potion_value, Some(3));
    assert_eq!(g.discard, vec![heart(3), heart(8)]);
    assert_eq!(g.history.last(), Some(&GameEvent::PotionDiscarded { value: 8 }));
    assert_eq!(
        g.log.last().unwrap(),
        "You already used a potion this turn; this one is discarded."
    );
    assert_eq!(g.choices_this_turn, 2);
}

#[test]
fn a_potion_heals_again_in_the_next_turn() {
    let mut g = running(
        [Some(heart(3)), Some(club(2)), None, None],
        vec![heart(4), club(5), club(6), club(7)],
    );
    g.player.hp = 5;
    g.take_selected_default();
    assert_eq!(g.player.hp, 8);
    // One card was left, so the turn ended and the room was refilled.
    assert_eq!(g.room_number, 2);
    assert!(!g.potion_used_this_turn);
    assert_eq!(g.room, [Some(club(7)), Some(club(2)), Some(club(6)), Some(club(5))]);
    g.deck.cards = vec![heart(4)];
    g.room[0] = Some(heart(9));
    g.selected = 0;
    g.take_selected_default();
    assert_eq!(g.player.hp, 17);
}

// ----- weapons -----

#[test]
fn a_weapon_is_equipped() {
    let mut g = running([Some(diamond(7)), Some(club(2)), Some(club(3)), Some(club(4))], vec![]);
    g.last_card_potion_value = Some(4);
    g.take_selected_default();
    let w = g.player.weapon.as_ref().unwrap();
    assert_eq!(w.value, 7);
    assert_eq!(w.last_monster, None);
    assert!(w.stack.is_empty());
    assert!(g.discard.is_empty());
    assert_eq!(g.last_card_potion_value, None);
    assert_eq!(g.history.last(), Some(&GameEvent::Weapon { value: 7 }));
    assert_eq!(g.log, vec!["You equip a weapon (7)."]);
    assert_eq!(g.player.hp, 20);
}

#[test]
fn a_new_weapon_discards_the_old_one_and_its_kills() {
    let mut g = running([Some(diamond(9)), Some(club(2)), Some(club(3)), Some(club(4))], vec![]);
    g.player.weapon = Some(weapon(5, vec![spade(12), club(8)]));
    g.discard.push(heart(2));
    g.take_selected_default();
    assert_eq!(g.discard, vec![heart(2), diamond(5), spade(12), club(8)]);
    let w = g.player.weapon.as_ref().unwrap();
    assert_eq!(w.value, 9);
    assert_eq!(w.last_monster, None);
    assert!(w.stack.is_empty());
}

#[test]
fn a_fresh_weapon_can_be_used_on_anything() {
    let w = WeaponState::new(4);
    assert_eq!(w.value, 4);
    assert_eq!(w.last_monster, None);
    assert!(w.stack.is_empty());
    assert!(w.can_use_on(14));
    assert!(w.can_use_on(0));
}

#[test]
fn a_used_weapon_only_serves_against_weaker_or_equal_monsters() {
    let w = weapon(4, vec![club(8)]);
    assert!(w.can_use_on(8));
    assert!(w.can_use_on(2));
    assert!(!w.can_use_on(9));
    assert!(!w.can_use_on(14));
}

// ----- monsters -----

#[test]
fn a_barehanded_fight_costs_the_full_value() {
    let mut g = running([Some(spade(11)), Some(club(2)), Some(club(3)), Some(club(4))], vec![]);
    g.last_card_potion_value = Some(4);
    g.take_selected_default();
    assert_eq!(g.player.hp, 9);
    assert_eq!(g.discard, vec![spade(11)]);
    assert_eq!(g.last_card_potion_value, None);
    assert_eq!(
        g.history.last(),
        Some(&GameEvent::Fight { monster: 11, with_weapon: None, damage_taken: 11 })
    );
    assert_eq!(g.log, vec!["You fight barehanded. Monster 11 hits you (11 dmg). HP 20→9."]);
}

#[test]
fn a_weapon_absorbs_its_value() {
    let mut g = running([Some(spade(1)), Some(club(2)), Some(club(3)), Some(club(4))], vec![]);
    g.player.weapon = Some(weapon(5, vec![]));
    g.take_selected_default();
    assert_eq!(g.player.hp, 11);
    assert!(g.discard.is_empty());
    let w = g.player.weapon.as_ref().unwrap();
    assert_eq!(w.stack, vec![spade(1)]);
    assert_eq!(w.last_monster, Some(14));
    assert_eq!(
        g.history.last(),
        Some(&GameEvent::Fight { monster: 14, with_weapon: Some(5), damage_taken: 9 })
    );
    assert_eq!(g.log, vec!["You strike with 5. Monster 14 hits back (9 dmg). HP 20→11."]);
}

#[test]
fn a_strong_weapon_takes_no_damage() {
    let mut g = running([Some(club(3)), Some(club(2)), Some(club(5)), Some(club(4))], vec![]);
    g.player.weapon = Some(weapon(8, vec![]));
    g.take_selected_weapon();
    assert_eq!(g.player.hp, 20);
    let w = g.player.weapon.as_ref().unwrap();
    assert_eq!(w.stack, vec![club(3)]);
    assert_eq!(w.last_monster, Some(3));
    assert_eq!(
        g.history.last(),
        Some(&GameEvent::Fight { monster: 3, with_weapon: Some(8), damage_taken: 0 })
    );
    assert_eq!(g.log, vec!["You strike with 8. Monster 3 falls."]);
}

#[test]
fn a_monster_of_the_weapons_value_deals_no_damage() {
    let mut g = running([Some(club(8)), Some(club(2)), Some(club(5)), Some(club(4))], vec![]);
    g.player.weapon = Some(weapon(8, vec![]));
    g.take_selected_default();
    assert_eq!(g.player.hp, 20);
    assert_eq!(g.player.weapon.as_ref().unwrap().last_monster, Some(8));
}

#[test]
fn barehand_mode_leaves_the_weapon_aside() {
    let mut g = running([Some(club(6)), Some(club(2)), Some(club(5)), Some(club(4))], vec![]);
    g.player.weapon = Some(weapon(8, vec![]));
    g.take_selected_barehand();
    assert_eq!(g.player.hp, 14);
    assert_eq!(g.discard, vec![club(6)]);
    let w = g.player.weapon.as_ref().unwrap();
    assert!(w.stack.is_empty());
    assert_eq!(w.last_monster, None);
    assert_eq!(
        g.history.last(),
        Some(&GameEvent::Fight { monster: 6, with_weapon: None, damage_taken: 6 })
    );
}

#[test]
fn a_weapon_that_cannot_be_used_means_bare_hands() {
    let mut g = running([Some(club(9)), Some(club(2)), Some(club(5)), Some(club(4))], vec![]);
    g.player.weapon = Some(weapon(7, vec![spade(6)]));
    g.take_selected_weapon();
    assert_eq!(g.player.hp, 11);
    assert_eq!(g.discard, vec![club(9)]);
    let w = g.player.weapon.as_ref().unwrap();
    assert_eq!(w.stack, vec![spade(6)]);
    assert_eq!(w.last_monster, Some(6));
    assert_eq!(
        g.history.last(),
        Some(&GameEvent::Fight { monster: 9, with_weapon: None, damage_taken: 9 })
    );
}

#[test]
fn weapon_mode_without_a_weapon_means_bare_hands() {
    let mut g = running([Some(club(4)), Some(club(2)), Some(club(5)), Some(club(6))], vec![]);
    g.take_selected_weapon();
    assert_eq!(g.player.hp, 16);
    assert!(g.player.weapon.is_none());
    assert_eq!(g.discard, vec![club(4)]);
}

#[test]
fn kills_with_one_weapon_never_rise() {
    let mut g = running(
        [Some(club(10)), Some(club(7)), Some(club(9)), Some(club(7))],
        vec![club(2), club(3), club(4), club(5)],
    );
    g.player.weapon = Some(weapon(10, vec![]));
    g.selected = 0;
    g.take_selected_default();
    g.selected = 1;
    g.take_selected_default();
    // 9 is stronger than the 7 fought last: bare hands.
    g.selected = 2;
    g.take_selected_default();
    assert_eq!(g.player.hp, 11);
    let w = g.player.weapon.as_ref().unwrap();
    assert_eq!(w.stack, vec![club(10), club(7)]);
    assert_eq!(w.last_monster, Some(7));
    // The turn ended with the third pick; the equal 7 can still be fought with the weapon.
    assert_eq!(g.room_number, 2);
    g.selected = 3;
    g.take_selected_default();
    let w = g.player.weapon.as_ref().unwrap();
    assert_eq!(w.stack, vec![club(10), club(7), club(7)]);
    let values: Vec<u8> = w.stack.iter().map(|c| c.monster_value()).collect();
    assert!(values.windows(2).all(|p| p[0] >= p[1]));
}

#[test]
fn resolve_card_emits_one_event_each() {
    let mut g = running([None, None, None, None], vec![]);
    let before = g.history.len();
    g.resolve_card(heart(2), UseMode::Default);
    g.resolve_card(heart(3), UseMode::Default);
    g.resolve_card(diamond(4), UseMode::Default);
    g.resolve_card(club(3), UseMode::Weapon);
    g.resolve_card(club(2), UseMode::Barehand);
    assert_eq!(g.history.len(), before + 5);
    assert_eq!(
        g.history[before..].to_vec(),
        vec![
            GameEvent::Potion { value: 2, hp_before: 20, hp_after: 20 },
            GameEvent::PotionDiscarded { value: 3 },
            GameEvent::Weapon { value: 4 },
            GameEvent::Fight { monster: 3, with_weapon: Some(4), damage_taken: 0 },
            GameEvent::Fight { monster: 2, with_weapon: None, damage_taken: 2 },
        ]
    );
    assert_eq!(g.log.len(), 5);
}

// ----- taking cards -----

#[test]
fn taking_outside_a_run_only_logs_a_notice() {
    for phase in [GamePhase::Menu, GamePhase::NameEntry, GamePhase::Leaderboard, GamePhase::GameOver]
    {
        let mut g = running(
            [Some(club(5)), Some(heart(2)), Some(diamond(3)), Some(club(4))],
            vec![club(9)],
        );
        g.phase = phase;
        g.score = Some(7);
        g.choices_this_turn = 1;
        for (slot, step) in [0usize, 1, 2].iter().enumerate() {
            g.selected = slot;
            match step {
                0 => g.take_selected_default(),
                1 => g.take_selected_barehand(),
                _ => g.take_selected_weapon(),
            }
        }
        assert_eq!(g.player.hp, 20);
        assert!(g.player.weapon.is_none());
        assert_eq!(
            g.room,
            [Some(club(5)), Some(heart(2)), Some(diamond(3)), Some(club(4))]
        );
        assert_eq!(g.deck.cards, vec![club(9)]);
        assert!(g.discard.is_empty());
        assert_eq!(g.history, vec![GameEvent::RoomStart { number: 1 }]);
        assert_eq!(g.choices_this_turn, 1);
        assert!(!g.potion_used_this_turn);
        assert_eq!(g.room_number, 1);
        assert_eq!(g.phase, phase);
        assert_eq!(g.score, Some(7));
        assert!(g.leaderboard.is_empty());
        assert_eq!(g.log, vec!["No run is in progress."; 3]);
    }
}

#[test]
fn taking_from_an_empty_slot_does_nothing() {
    let mut g = running([Some(club(5)), None, Some(club(3)), Some(club(4))], vec![club(9)]);
    g.selected = 1;
    g.take_selected_default();
    assert_eq!(g.player.hp, 20);
    assert_eq!(g.room, [Some(club(5)), None, Some(club(3)), Some(club(4))]);
    assert_eq!(g.deck.len(), 1);
    assert_eq!(g.choices_this_turn, 0);
    assert!(g.log.is_empty());
    assert_eq!(g.history.len(), 1);
    assert_eq!(g.room_number, 1);
}

#[test]
fn three_picks_end_the_turn_and_carry_the_fourth_card() {
    let mut g = running(
        [Some(club(2)), Some(club(3)), Some(club(4)), Some(club(5))],
        vec![spade(6), spade(7), spade(8), spade(9)],
    );
    g.selected = 0;
    g.take_selected_default();
    assert_eq!((g.choices_this_turn, g.visible_count(), g.room_number), (1, 3, 1));
    g.selected = 1;
    g.take_selected_default();
    assert_eq!((g.choices_this_turn, g.visible_count(), g.room_number), (2, 2, 1));
    g.selected = 2;
    g.take_selected_default();
    assert_eq!((g.choices_this_turn, g.visible_count(), g.room_number), (0, 4, 2));
    assert_eq!(g.room, [Some(spade(9)), Some(spade(8)), Some(spade(7)), Some(club(5))]);
    assert_eq!(g.deck.cards, vec![spade(6)]);
    assert_eq!(g.player.hp, 11);
    assert_eq!(g.history.last(), Some(&GameEvent::RoomStart { number: 2 }));
    assert_eq!(g.phase, GamePhase::Running);
}

#[test]
fn at_the_pick_limit_the_turn_is_ended_without_a_take() {
    let mut g = running(
        [Some(club(2)), Some(club(3)), None, None],
        vec![spade(6), spade(7), spade(8)],
    );
    g.choices_this_turn = 3;
    g.potion_used_this_turn = true;
    g.avoided_last_turn = true;
    let events = g.history.len();
    g.take_selected_default();
    assert_eq!(g.player.hp, 20);
    assert!(g.discard.is_empty());
    assert_eq!(g.log, vec!["You've already taken 3 cards. Ending turn."]);
    assert_eq!(g.choices_this_turn, 0);
    assert!(!g.potion_used_this_turn);
    assert!(!g.avoided_last_turn);
    assert_eq!(g.room, [Some(club(2)), Some(club(3)), Some(spade(8)), Some(spade(7))]);
    assert_eq!(g.deck.cards, vec![spade(6)]);
    assert_eq!(g.room_number, 2);
    // Only the start of the next room is recorded.
    assert_eq!(g.history.len(), events + 1);
    assert_eq!(g.history.last(), Some(&GameEvent::RoomStart { number: 2 }));
}

#[test]
fn with_one_card_left_a_fourth_pick_goes_through() {
    let mut g = running([None, Some(heart(3)), None, None], vec![club(6), club(7), club(8)]);
    g.choices_this_turn = 3;
    g.player.hp = 10;
    g.selected = 1;
    g.take_selected_default();
    assert_eq!(g.player.hp, 13);
    assert_eq!(g.discard, vec![heart(3)]);
    assert_eq!(g.choices_this_turn, 0);
    assert_eq!(g.room, [Some(club(8)), Some(club(7)), Some(club(6)), None]);
    assert_eq!(g.room_number, 2);
    assert_eq!(g.selected, 1);
}

#[test]
fn leaving_one_card_ends_the_turn_early() {
    let mut g = running([Some(club(2)), Some(club(3)), None, None], vec![spade(6), spade(7)]);
    g.potion_used_this_turn = true;
    g.avoided_last_turn = true;
    g.selected = 1;
    g.take_selected_default();
    assert_eq!(g.choices_this_turn, 0);
    assert!(!g.potion_used_this_turn);
    assert!(!g.avoided_last_turn);
    assert_eq!(g.room, [Some(club(2)), Some(spade(7)), Some(spade(6)), None]);
    assert_eq!(g.room_number, 2);
    assert_eq!(g.selected, 1);
}

#[test]
fn refill_leaves_cards_where_they_lie() {
    let mut g = running([None, Some(club(3)), None, Some(club(5))], vec![spade(6), spade(7), spade(8)]);
    g.selected = 3;
    g.refill_room();
    assert_eq!(g.room, [Some(spade(8)), Some(club(3)), Some(spade(7)), Some(club(5))]);
    assert_eq!(g.deck.cards, vec![spade(6)]);
    assert_eq!(g.selected, 3);
    assert_eq!(g.phase, GamePhase::Running);
    assert_eq!(g.room_number, 1);
}

#[test]
fn refill_stops_when_the_deck_is_empty() {
    let mut g = running([None, None, Some(club(3)), None], vec![spade(6)]);
    g.selected = 1;
    g.refill_room();
    assert_eq!(g.room, [Some(spade(6)), None, Some(club(3)), None]);
    assert!(g.deck.is_empty());
    // The selected slot stayed empty: the cursor snaps to the first card.
    assert_eq!(g.selected, 0);
    assert_eq!(g.phase, GamePhase::Running);
}

#[test]
fn refill_of_a_full_room_draws_nothing() {
    let mut g = running(
        [Some(club(2)), Some(club(3)), Some(club(4)), Some(club(5))],
        vec![spade(6), spade(7)],
    );
    g.refill_room();
    assert_eq!(g.room, [Some(club(2)), Some(club(3)), Some(club(4)), Some(club(5))]);
    assert_eq!(g.deck.len(), 2);
}

#[test]
fn visible_count_counts_cards() {
    let mut g = running([None, None, None, None], vec![]);
    assert_eq!(g.visible_count(), 0);
    g.room[2] = Some(club(2));
    assert_eq!(g.visible_count(), 1);
    g.room = [Some(club(2)), Some(club(3)), Some(club(4)), Some(club(5))];
    assert_eq!(g.visible_count(), 4);
}

#[test]
fn end_turn_resets_the_turn_and_enters_the_next_room() {
    let mut g = running([Some(club(2)), None, None, None], vec![spade(6), spade(7), spade(8)]);
    g.choices_this_turn = 2;
    g.potion_used_this_turn = true;
    g.avoided_last_turn = true;
    g.room_number = 6;
    g.end_turn();
    assert_eq!(g.choices_this_turn, 0);
    assert!(!g.potion_used_this_turn);
    assert!(!g.avoided_last_turn);
    assert_eq!(g.visible_count(), 4);
    assert_eq!(g.room_number, 7);
    assert_eq!(g.history.last(), Some(&GameEvent::RoomStart { number: 7 }));
}

// ----- avoiding -----

#[test]
fn avoiding_puts_the_room_under_the_deck() {
    let mut g = running(
        [Some(club(2)), Some(club(3)), Some(club(4)), Some(club(5))],
        vec![spade(6), spade(7), spade(8), spade(9), spade(10)],
    );
    g.potion_used_this_turn = true;
    g.choices_this_turn = 0;
    g.avoid_room();
    assert!(g.avoided_last_turn);
    assert!(!g.potion_used_this_turn);
    assert_eq!(g.choices_this_turn, 0);
    assert_eq!(g.room, [Some(spade(10)), Some(spade(9)), Some(spade(8)), Some(spade(7))]);
    assert_eq!(g.deck.cards, vec![club(5), club(4), club(3), club(2), spade(6)]);
    assert_eq!(g.room_number, 2);
    assert_eq!(g.log, vec!["You avoid the room, slipping past the dangers."]);
    let n = g.history.len();
    assert_eq!(g.history[n - 2], GameEvent::Avoid);
    assert_eq!(g.history[n - 1], GameEvent::RoomStart { number: 2 });
    assert_eq!(g.player.hp, 20);
    assert!(g.discard.is_empty());
}

#[test]
fn avoided_cards_come_back_last_and_in_slot_order() {
    let mut g = running(
        [Some(club(2)), Some(club(3)), Some(club(4)), Some(club(5))],
        vec![spade(6)],
    );
    g.avoid_room();
    // One card was in the deck; the other three slots draw the avoided cards, slot 0 first.
    assert_eq!(g.room, [Some(spade(6)), Some(club(2)), Some(club(3)), Some(club(4))]);
    assert_eq!(g.deck.cards, vec![club(5)]);
}

#[test]
fn avoiding_twice_in_a_row_only_works_once() {
    let mut g = running(
        [Some(club(2)), Some(club(3)), Some(club(4)), Some(club(5))],
        vec![spade(6), spade(7), spade(8), spade(9)],
    );
    g.avoid_room();
    let room = g.room;
    let deck = g.deck.cards.clone();
    let events = g.history.len();
    g.avoid_room();
    assert_eq!(g.room, room);
    assert_eq!(g.deck.cards, deck);
    assert_eq!(g.history.len(), events);
    assert_eq!(g.room_number, 2);
    assert!(g.avoided_last_turn);
    assert_eq!(
        g.log,
        vec![
            "You avoid the room, slipping past the dangers.",
            "You cannot avoid two rooms in a row."
        ]
    );
}

#[test]
fn avoiding_is_allowed_again_after_a_played_turn() {
    let mut g = running(
        [Some(club(2)), Some(club(3)), Some(club(4)), Some(club(5))],
        vec![spade(2), spade(3), spade(4), heart(5), heart(6), heart(7), heart(8)],
    );
    g.avoid_room();
    assert_eq!(g.room_number, 2);
    for slot in 0..3 {
        g.selected = slot;
        g.take_selected_default();
    }
    assert_eq!(g.room_number, 3);
    assert!(!g.avoided_last_turn);
    assert_eq!(g.visible_count(), 4);
    g.avoid_room();
    assert!(g.avoided_last_turn);
    assert_eq!(g.room_number, 4);
}

#[test]
fn avoiding_needs_a_full_room() {
    let mut g = running([Some(club(2)), Some(club(3)), Some(club(4)), None], vec![spade(6)]);
    g.avoid_room();
    assert_eq!(g.room, [Some(club(2)), Some(club(3)), Some(club(4)), None]);
    assert_eq!(g.deck.cards, vec![spade(6)]);
    assert!(!g.avoided_last_turn);
    assert_eq!(g.room_number, 1);
    assert_eq!(g.history.len(), 1);
    assert_eq!(g.log, vec!["You may only avoid when 4 cards are visible."]);
}

#[test]
fn avoiding_outside_a_run_only_logs_a_notice() {
    for phase in [GamePhase::Menu, GamePhase::NameEntry, GamePhase::Leaderboard, GamePhase::GameOver]
    {
        let mut g = running(
            [Some(club(2)), Some(club(3)), Some(club(4)), Some(club(5))],
            vec![club(9)],
        );
        g.phase = phase;
        g.avoid_room();
        assert_eq!(g.log, vec!["No run is in progress."]);
        assert!(!g.avoided_last_turn);
        assert_eq!(g.room, [Some(club(2)), Some(club(3)), Some(club(4)), Some(club(5))]);
        assert_eq!(g.deck.cards, vec![club(9)]);
        assert_eq!(g.history, vec![GameEvent::RoomStart { number: 1 }]);
        assert_eq!(g.room_number, 1);
        assert_eq!(g.phase, phase);
    }
}

// ----- scoring -----

#[test]
fn death_is_scored_with_the_monsters_left() {
    let mut g = running([Some(spade(8)), Some(club(5)), None, None], vec![club(7)]);
    g.player.hp = 5;
    g.take_selected_barehand();
    assert_eq!(g.player.hp, -3);
    assert_eq!(g.phase, GamePhase::GameOver);
    assert_eq!(g.score, Some(-15));
    assert_eq!(g.log.last().unwrap(), "You fall... Final score: -15.");
    // Death skips the pick count and the refill.
    assert_eq!(g.choices_this_turn, 0);
    assert_eq!(g.room, [None, Some(club(5)), None, None]);
    assert_eq!(g.deck.cards, vec![club(7)]);
    assert_eq!(g.room_number, 1);
    assert_eq!(g.leaderboard.len(), 1);
    assert_eq!(g.leaderboard[0].name, "Tester");
    assert_eq!(g.leaderboard[0].score, -15);
    assert!(!g.leaderboard[0].won);
    assert_eq!(g.new_rank_pos, Some(1));
    assert_eq!(g.game_over_scroll, 0);
}

#[test]
fn finish_death_counts_only_monsters() {
    let mut g = running(
        [Some(heart(9)), Some(club(5)), Some(diamond(10)), Some(spade(1))],
        vec![club(7), heart(4), diamond(3), spade(13)],
    );
    g.player.hp = -3;
    g.game_over_scroll = 9;
    g.finish_death();
    // -3 - (7 + 13) - (5 + 14)
    assert_eq!(g.score, Some(-42));
    assert_eq!(g.phase, GamePhase::GameOver);
    assert_eq!(g.game_over_scroll, 0);
}

#[test]
fn death_at_exactly_zero() {
    let mut g = running([Some(spade(5)), None, None, None], vec![]);
    g.player.hp = 5;
    g.take_selected_default();
    assert_eq!(g.player.hp, 0);
    assert_eq!(g.phase, GamePhase::GameOver);
    assert_eq!(g.score, Some(0));
    assert_eq!(g.leaderboard[0].won, false);
}

#[test]
fn victory_with_a_last_potion_at_full_health_scores_the_bonus() {
    let mut g = running([Some(heart(6)), None, None, None], vec![]);
    g.player.hp = 15;
    g.take_selected_default();
    assert_eq!(g.player.hp, 20);
    assert_eq!(g.phase, GamePhase::GameOver);
    assert_eq!(g.score, Some(26));
    assert_eq!(g.log.last().unwrap(), "You clear the dungeon. Final score: 26.");
    assert_eq!(g.leaderboard.len(), 1);
    assert_eq!(g.leaderboard[0].score, 26);
    assert!(g.leaderboard[0].won);
    assert_eq!(g.new_rank_pos, Some(1));
    // The run is over: no further room is entered.
    assert_eq!(g.room_number, 1);
    assert_eq!(
        g.history.last(),
        Some(&GameEvent::Potion { value: 6, hp_before: 15, hp_after: 20 })
    );
}

#[test]
fn victory_below_full_health_scores_no_bonus() {
    let mut g = running([Some(heart(6)), None, None, None], vec![]);
    g.player.hp = 12;
    g.take_selected_default();
    assert_eq!(g.player.hp, 18);
    assert_eq!(g.phase, GamePhase::GameOver);
    assert_eq!(g.score, Some(18));
}

#[test]
fn victory_after_a_monster_scores_no_bonus() {
    let mut g = running([Some(club(2)), None, None, None], vec![]);
    g.player.weapon = Some(weapon(9, vec![]));
    g.last_card_potion_value = Some(6);
    g.take_selected_default();
    assert_eq!(g.player.hp, 20);
    assert_eq!(g.phase, GamePhase::GameOver);
    assert_eq!(g.score, Some(20));
}

#[test]
fn finish_victory_scores_health_and_bonus() {
    let mut g = running([None, None, None, None], vec![]);
    g.player.hp = 20;
    g.last_card_potion_value = Some(6);
    g.finish_victory();
    assert_eq!(g.score, Some(26));
    let mut h = running([None, None, None, None], vec![]);
    h.player.hp = 18;
    h.last_card_potion_value = Some(6);
    h.finish_victory();
    assert_eq!(h.score, Some(18));
    let mut k = running([None, None, None, None], vec![]);
    k.player.hp = 20;
    k.finish_victory();
    assert_eq!(k.score, Some(20));
}

#[test]
fn a_wasted_last_potion_keeps_the_bonus_of_the_first() {
    let mut g = running([Some(heart(4)), Some(heart(9)), None, None], vec![]);
    g.player.hp = 18;
    g.selected = 0;
    g.take_selected_default();
    // One card was left: the turn ended, and the potion flag with it.
    assert_eq!(g.room_number, 2);
    g.potion_used_this_turn = true;
    g.selected = 1;
    g.take_selected_default();
    assert_eq!(g.phase, GamePhase::GameOver);
    assert_eq!(g.score, Some(24));
}

#[test]
fn record_score_ranks_the_run() {
    let mut g = running([None, None, None, None], vec![]);
    g.leaderboard = vec![
        ScoreEntry { name: "a".to_string(), score: 3, won: true, ts: 1 },
        ScoreEntry { name: "b".to_string(), score: 30, won: true, ts: 2 },
        ScoreEntry { name: "c".to_string(), score: 10, won: true, ts: 3 },
    ];
    g.score = Some(10);
    g.record_score(true, 77);
    let got: Vec<(String, i32, u64)> =
        g.leaderboard.iter().map(|e| (e.name.clone(), e.score, e.ts)).collect();
    assert_eq!(
        got,
        vec![
            ("b".to_string(), 30, 2),
            ("c".to_string(), 10, 3),
            ("Tester".to_string(), 10, 77),
            ("a".to_string(), 3, 1),
        ]
    );
    assert_eq!(g.new_rank_pos, Some(3));
}

#[test]
fn record_score_ranks_a_lookalike_by_the_first_match() {
    let mut g = running([None, None, None, None], vec![]);
    g.leaderboard = vec![
        ScoreEntry { name: "Tester".to_string(), score: 10, won: true, ts: 1 },
        ScoreEntry { name: "x".to_string(), score: 10, won: true, ts: 2 },
    ];
    g.score = Some(10);
    g.record_score(true, 77);
    assert_eq!(g.leaderboard.len(), 3);
    assert_eq!(g.leaderboard[2].ts, 77);
    assert_eq!(g.new_rank_pos, Some(1));
}

#[test]
fn the_run_that_comes_second_has_rank_two() {
    let mut g = running([None, None, None, None], vec![]);
    g.player_name = "Ann".to_string();
    g.score = Some(20);
    g.leaderboard = vec![
        ScoreEntry { name: "Bob".to_string(), score: 30, won: true, ts: 1 },
        ScoreEntry { name: "Cy".to_string(), score: 10, won: false, ts: 2 },
    ];
    g.push_score_and_rank(true);
    let scores: Vec<i32> = g.leaderboard.iter().map(|e| e.score).collect();
    let names: Vec<String> = g.leaderboard.iter().map(|e| e.name.clone()).collect();
    assert_eq!(scores, vec![30, 20, 10]);
    assert_eq!(names, vec!["Bob", "Ann", "Cy"]);
    assert!(g.leaderboard[1].won);
    assert_eq!(g.new_rank_pos, Some(2));
}

#[test]
fn the_best_run_has_rank_one_and_the_worst_the_length() {
    let mut g = running([None, None, None, None], vec![]);
    g.leaderboard = vec![
        ScoreEntry { name: "Bob".to_string(), score: 30, won: true, ts: 1 },
        ScoreEntry { name: "Cy".to_string(), score: 10, won: false, ts: 2 },
    ];
    g.score = Some(31);
    g.record_score(true, 3);
    assert_eq!(g.new_rank_pos, Some(1));
    g.score = Some(-40);
    g.record_score(false, 4);
    assert_eq!(g.new_rank_pos, Some(4));
    assert_eq!(g.leaderboard.len(), 4);
}

#[test]
fn record_score_without_a_score_enters_zero() {
    let mut g = running([None, None, None, None], vec![]);
    g.score = None;
    g.record_score(false, 5);
    assert_eq!(g.leaderboard.len(), 1);
    assert_eq!(g.leaderboard[0].score, 0);
    assert!(!g.leaderboard[0].won);
    assert_eq!(g.leaderboard[0].ts, 5);
    assert_eq!(g.new_rank_pos, Some(1));
}

#[test]
fn push_score_and_rank_stamps_the_current_time() {
    let mut g = running([None, None, None, None], vec![]);
    g.score = Some(4);
    g.push_score_and_rank(true);
    assert_eq!(g.leaderboard.len(), 1);
    assert_eq!(g.leaderboard[0].score, 4);
    // Well after the year 2001.
    assert!(g.leaderboard[0].ts > 1_000_000_000);
    assert_eq!(g.new_rank_pos, Some(1));
}

#[test]
fn submitted_runs_come_back_in_descending_order() {
    let mut g = running([None, None, None, None], vec![]);
    let scores = [5, -3, 20, 5, 0, 26, -15];
    for (i, s) in scores.iter().enumerate() {
        g.score = Some(*s);
        g.player_name = format!("run-{}", i);
        g.record_score(*s > 0, i as u64);
        let rank = g.new_rank_pos.unwrap();
        assert!(1 <= rank && rank <= g.leaderboard.len());
        assert_eq!(g.leaderboard[rank - 1].name, g.player_name);
        assert_eq!(g.leaderboard[rank - 1].score, *s);
        assert_eq!(g.leaderboard[rank - 1].ts, i as u64);
    }
    let got: Vec<i32> = g.leaderboard.iter().map(|e| e.score).collect();
    assert_eq!(got, vec![26, 20, 5, 5, 0, -3, -15]);
    // Equal scores stay in the order of submission.
    assert_eq!(g.leaderboard[2].name, "run-0");
    assert_eq!(g.leaderboard[3].name, "run-3");
}

#[test]
fn a_whole_run_keeps_its_books() {
    let mut g = Game::new(Vec::new());
    g.new_run();
    let mut steps = 0;
    while g.phase == GamePhase::Running && steps < 500 {
        let events = g.history.len();
        let picks = g.choices_this_turn;
        let hp = g.player.hp;
        assert!(hp >= 1 && hp <= 20);
        assert!(g.selected < 4);
        assert!(g.deck.len() + g.visible_count() <= 44);
        if steps % 7 == 3 {
            g.avoid_room();
        } else {
            g.selected = occupied_slot(&g, steps);
            g.take_selected_default();
            if picks < 3 {
                assert!(g.history.len() > events);
            }
        }
        if let Some(w) = &g.player.weapon {
            let values: Vec<u8> = w.stack.iter().map(|c| c.monster_value()).collect();
            assert!(values.windows(2).all(|p| p[0] >= p[1]));
            assert_eq!(w.last_monster, values.last().copied());
        }
        assert!(g.choices_this_turn <= 2 || g.phase != GamePhase::Running);
        steps += 1;
    }
    assert_eq!(g.phase, GamePhase::GameOver);
    assert!(g.score.is_some());
    assert_eq!(g.leaderboard.len(), 1);
    assert_eq!(g.leaderboard[0].score, g.score.unwrap());
    assert_eq!(g.leaderboard[0].won, g.player.hp > 0);
    assert_eq!(g.new_rank_pos, Some(1));
}

#[test]
fn player_starts_at_full_health() {
    let p = Player::new();
    assert_eq!(p.hp, 20);
    assert_eq!(p.max_hp, 20);
    assert!(p.weapon.is_none());
}

// ----- well-formedness -----

#[test]
fn fresh_games_are_well_formed() {
    let mut g = Game::new(Vec::new());
    assert!(g.is_well_formed());
    g.new_run();
    assert!(g.is_well_formed());
    assert!(running([Some(club(2)), None, None, None], vec![club(3)]).is_well_formed());
}

#[test]
fn states_out_of_bounds_are_not_well_formed() {
    let base = || running([Some(club(2)), None, None, None], vec![club(3)]);
    let mut g = base();
    g.selected = 4;
    assert!(!g.is_well_formed());
    let mut g = base();
    g.choices_this_turn = 4;
    assert!(!g.is_well_formed());
    let mut g = base();
    g.player.hp = 21;
    assert!(!g.is_well_formed());
    let mut g = base();
    g.player.hp = 0;
    assert!(!g.is_well_formed());
    g.phase = GamePhase::GameOver;
    assert!(g.is_well_formed());
    g.player.hp = -13;
    assert!(g.is_well_formed());
    g.player.hp = -14;
    assert!(!g.is_well_formed());
    let mut g = base();
    g.player.max_hp = 30;
    assert!(!g.is_well_formed());
    let mut g = base();
    g.deck.cards = vec![club(2); 44];
    assert!(!g.is_well_formed());
    g.room = [None, None, None, None];
    assert!(g.is_well_formed());
}

#[test]
fn the_room_counter_must_leave_room_for_the_rooms_ahead() {
    // One card in the deck and one in the room: at most 2 * 2 + 1 rooms can still begin.
    let mut g = running([Some(club(2)), None, None, None], vec![club(3)]);
    g.room_number = u32::MAX - 5;
    assert!(g.is_well_formed());
    g.room_number = u32::MAX - 4;
    assert!(!g.is_well_formed());
    g.avoided_last_turn = true;
    assert!(g.is_well_formed());
    g.choices_this_turn = 3;
    assert!(!g.is_well_formed());
    g.room_number = u32::MAX - 6;
    assert!(g.is_well_formed());
    g.room_number = u32::MAX;
    assert!(!g.is_well_formed());
}

#[test]
fn every_new_room_uses_up_rooms_ahead() {
    let ahead = |g: &Game| -> u64 {
        g.room_number as u64
            + 2 * (g.deck.len() + g.visible_count()) as u64
            + if g.avoided_last_turn { 0 } else { 1 }
            + if g.choices_this_turn >= 3 { 2 } else { 0 }
    };
    let mut g = Game::new(Vec::new());
    g.new_run();
    let mut steps = 0;
    while g.phase == GamePhase::Running && steps < 500 {
        let before = ahead(&g);
        let room = g.room_number;
        if steps % 3 == 0 {
            g.avoid_room();
        } else {
            g.selected = occupied_slot(&g, steps);
            g.take_selected_weapon();
        }
        assert!(ahead(&g) <= before);
        assert!(g.room_number == room || g.room_number == room + 1);
        steps += 1;
    }
    assert_eq!(g.phase, GamePhase::GameOver);
    assert!(g.room_number <= 90);
}

#[test]
fn weapons_with_rising_kills_are_not_well_formed() {
    assert!(weapon(5, vec![]).is_well_formed());
    assert!(weapon(5, vec![spade(9), club(9), club(3)]).is_well_formed());
    assert!(!weapon(5, vec![spade(3), club(9)]).is_well_formed());
    assert!(!weapon(5, vec![spade(9), club(3), club(4)]).is_well_formed());
    let mut w = weapon(5, vec![spade(9)]);
    w.last_monster = None;
    assert!(!w.is_well_formed());
    w.last_monster = Some(8);
    assert!(!w.is_well_formed());
    let mut w = weapon(5, vec![]);
    w.last_monster = Some(3);
    assert!(!w.is_well_formed());
    let mut p = Player::new();
    assert!(p.is_well_formed());
    p.weapon = Some(weapon(5, vec![spade(3), club(9)]));
    assert!(!p.is_well_formed());
}

#[test]
fn moves_keep_the_game_well_formed() {
    let mut g = Game::new(Vec::new());
    g.new_run();
    let mut steps = 0;
    while g.phase == GamePhase::Running && steps < 500 {
        assert!(g.is_well_formed());
        if steps % 5 == 0 {
            g.avoid_room();
        } else {
            g.selected = occupied_slot(&g, steps * 7);
            match steps % 3 {
                0 => g.take_selected_default(),
                1 => g.take_selected_weapon(),
                _ => g.take_selected_barehand(),
            }
        }
        steps += 1;
    }
    assert!(g.is_well_formed());
}

// ----- projected damage -----

#[test]
fn projected_damage_of_the_selected_card() {
    let mut g = running([Some(club(9)), Some(heart(4)), Some(diamond(3)), None], vec![]);
    assert_eq!(g.projected_damage(), 9);
    g.player.weapon = Some(weapon(6, vec![]));
    assert_eq!(g.projected_damage(), 3);
    g.player.weapon = Some(weapon(10, vec![]));
    assert_eq!(g.projected_damage(), 0);
    // A weapon that has fought a weaker monster is of no use.
    g.player.weapon = Some(weapon(6, vec![club(4)]));
    assert_eq!(g.projected_damage(), 9);
    g.selected = 1;
    assert_eq!(g.projected_damage(), 0);
    g.selected = 2;
    assert_eq!(g.projected_damage(), 0);
    g.selected = 3;
    assert_eq!(g.projected_damage(), 0);
    g.selected = 0;
    g.phase = GamePhase::GameOver;
    assert_eq!(g.projected_damage(), 0);
}

#[test]
fn projected_damage_is_what_a_take_costs() {
    let mut g = running([Some(spade(12)), Some(club(2)), Some(club(3)), Some(club(4))], vec![]);
    g.player.weapon = Some(weapon(7, vec![]));
    let projected = g.projected_damage();
    let before = g.player.hp;
    g.take_selected_default();
    assert_eq!(before - g.player.hp, projected);
    assert_eq!(projected, 5);
}

// ----- the cards in play -----

fn key(c: &Card) -> (u8, u8) {
    let s = match c.suit {
        Suit::Clubs => 0,
        Suit::Diamonds => 1,
        Suit::Hearts => 2,
        Suit::Spades => 3,
    };
    (s, c.rank.value())
}

fn cards_in_play(g: &Game) -> Vec<(u8, u8)> {
    let mut all: Vec<Card> = g.deck.cards.clone();
    all.extend(g.room.iter().flatten().copied());
    all.extend(g.discard.iter().copied());
    if let Some(w) = &g.player.weapon {
        all.push(diamond(w.value));
        all.extend(w.stack.iter().copied());
    }
    let mut keys: Vec<(u8, u8)> = all.iter().map(key).collect();
    keys.sort();
    keys
}

#[test]
fn no_move_loses_or_copies_a_card() {
    let mut built: Vec<(u8, u8)> = Deck::scoundrel_deck().cards.iter().map(key).collect();
    built.sort();
    for round in 0..6 {
        let mut g = Game::new(Vec::new());
        g.new_run();
        assert_eq!(cards_in_play(&g), built);
        let mut steps = 0;
        while g.phase == GamePhase::Running && steps < 500 {
            if (steps + round) % 4 == 0 {
                g.avoid_room();
            } else {
                g.selected = occupied_slot(&g, steps * 3 + round);
                if steps % 2 == 0 {
                    g.take_selected_default();
                } else {
                    g.take_selected_barehand();
                }
            }
            assert_eq!(cards_in_play(&g), built);
            steps += 1;
        }
        assert_eq!(g.phase, GamePhase::GameOver);
    }
}
