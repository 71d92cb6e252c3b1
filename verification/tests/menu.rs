use scoundrel::game::{Game, GamePhase};

#[test]
fn scores_path_names_the_score_file() {
    assert_eq!(Game::scores_path(), "scoundrel_scores.json");
}

#[test]
fn help_toggles() {
    let mut g = Game::new(Vec::new());
    assert!(!g.show_help);
    g.toggle_help();
    assert!(g.show_help);
    g.toggle_help();
    assert!(!g.show_help);
}

#[test]
fn tick_changes_nothing() {
    let mut g = Game::new(Vec::new());
    g.new_run();
    let room = g.room;
    let deck = g.deck.cards.clone();
    g.tick();
    assert_eq!(g.room, room);
    assert_eq!(g.deck.cards, deck);
    assert_eq!(g.phase, GamePhase::Running);
    assert_eq!(g.player.hp, 20);
    assert_eq!(g.room_number, 1);
}

#[test]
fn the_cursor_moves_within_the_room() {
    let mut g = Game::new(Vec::new());
    g.new_run();
    assert_eq!(g.selected, 0);
    g.move_selection(1, 0);
    assert_eq!(g.selected, 1);
    g.move_selection(1, 5);
    assert_eq!(g.selected, 2);
    g.move_selection(-1, 0);
    assert_eq!(g.selected, 1);
    g.move_selection(0, -1);
    assert_eq!(g.selected, 1);
}

#[test]
fn the_cursor_stops_at_the_ends() {
    let mut g = Game::new(Vec::new());
    g.new_run();
    g.move_selection(-1, 0);
    assert_eq!(g.selected, 0);
    g.move_selection(7, 0);
    assert_eq!(g.selected, 3);
    g.move_selection(1, 0);
    assert_eq!(g.selected, 3);
    g.move_selection(-100, 0);
    assert_eq!(g.selected, 0);
    g.move_selection(i32::MAX, 0);
    assert_eq!(g.selected, 3);
    g.move_selection(i32::MIN, 0);
    assert_eq!(g.selected, 0);
}

#[test]
fn the_cursor_stays_outside_a_run() {
    let mut g = Game::new(Vec::new());
    assert_eq!(g.phase, GamePhase::Menu);
    g.move_selection(2, 0);
    assert_eq!(g.selected, 0);
    g.phase = GamePhase::GameOver;
    g.selected = 2;
    g.move_selection(-1, 0);
    assert_eq!(g.selected, 2);
}

#[test]
fn the_menu_cursor_moves_between_three_entries() {
    let mut g = Game::new(Vec::new());
    g.select_menu_up();
    assert_eq!(g.menu_selected, 0);
    g.select_menu_down();
    assert_eq!(g.menu_selected, 1);
    g.select_menu_down();
    assert_eq!(g.menu_selected, 2);
    g.select_menu_down();
    assert_eq!(g.menu_selected, 2);
    g.select_menu_up();
    assert_eq!(g.menu_selected, 1);
}

#[test]
fn the_first_menu_entry_leads_to_name_entry() {
    let mut g = Game::new(Vec::new());
    g.name_input = "left over".to_string();
    g.menu_activate();
    assert_eq!(g.phase, GamePhase::NameEntry);
    assert_eq!(g.name_input, "");
}

#[test]
fn the_second_menu_entry_leads_to_the_score_list() {
    let mut g = Game::new(Vec::new());
    g.name_input = "kept".to_string();
    g.select_menu_down();
    g.menu_activate();
    assert_eq!(g.phase, GamePhase::Leaderboard);
    assert_eq!(g.name_input, "kept");
}

#[test]
fn the_third_menu_entry_changes_nothing() {
    let mut g = Game::new(Vec::new());
    g.menu_selected = 2;
    g.menu_activate();
    assert_eq!(g.phase, GamePhase::Menu);
    g.menu_selected = 9;
    g.menu_activate();
    assert_eq!(g.phase, GamePhase::Menu);
}

#[test]
fn typed_characters_are_appended() {
    let mut g = Game::new(Vec::new());
    for ch in "Ann Lee!~".chars() {
        g.name_input_char(ch);
    }
    assert_eq!(g.name_input, "Ann Lee!~");
}

#[test]
fn characters_that_do_not_print_are_refused() {
    let mut g = Game::new(Vec::new());
    for ch in ['\n', '\t', '\u{7f}', '\u{1b}', 'é', '→', '\u{0}', '\u{a0}'] {
        g.name_input_char(ch);
    }
    assert_eq!(g.name_input, "");
    g.name_input_char(' ');
    g.name_input_char('!');
    g.name_input_char('~');
    assert_eq!(g.name_input, " !~");
}

#[test]
fn a_name_takes_twenty_characters() {
    let mut g = Game::new(Vec::new());
    for _ in 0..25 {
        g.name_input_char('x');
    }
    assert_eq!(g.name_input, "xxxxxxxxxxxxxxxxxxxx");
    assert_eq!(g.name_input.len(), 20);
}

#[test]
fn the_name_limit_counts_bytes() {
    let mut g = Game::new(Vec::new());
    g.name_input = "ééééééééé".to_string();
    assert_eq!(g.name_input.len(), 18);
    g.name_input_char('a');
    g.name_input_char('b');
    g.name_input_char('c');
    assert_eq!(g.name_input, "éééééééééab");
}

#[test]
fn backspace_deletes_the_last_character() {
    let mut g = Game::new(Vec::new());
    g.name_input = "abé".to_string();
    g.name_input_backspace();
    assert_eq!(g.name_input, "ab");
    g.name_input_backspace();
    g.name_input_backspace();
    assert_eq!(g.name_input, "");
    g.name_input_backspace();
    assert_eq!(g.name_input, "");
}

#[test]
fn submitting_a_name_starts_a_run_under_it() {
    let mut g = Game::new(Vec::new());
    g.phase = GamePhase::NameEntry;
    g.name_input = "  Ann Lee \t".to_string();
    g.name_input_submit();
    assert_eq!(g.player_name, "Ann Lee");
    assert_eq!(g.name_input, "  Ann Lee \t");
    assert_eq!(g.phase, GamePhase::Running);
    assert_eq!(g.room_number, 1);
    assert_eq!(g.visible_count(), 4);
    assert_eq!(g.deck.len(), 40);
}

#[test]
fn submitting_a_blank_name_keeps_the_old_one() {
    let mut g = Game::new(Vec::new());
    g.name_input = "   ".to_string();
    g.name_input_submit();
    assert_eq!(g.player_name, "Scoundrel");
    assert_eq!(g.phase, GamePhase::Running);
    let mut h = Game::new(Vec::new());
    h.player_name = "Bob".to_string();
    h.name_input_submit();
    assert_eq!(h.player_name, "Bob");
    assert_eq!(h.phase, GamePhase::Running);
}

#[test]
fn trimming_removes_unicode_white_space() {
    let mut g = Game::new(Vec::new());
    g.name_input = "\u{a0}\u{2003}\u{3000}Zed\u{85}\n".to_string();
    g.name_input_submit();
    assert_eq!(g.player_name, "Zed");
}
