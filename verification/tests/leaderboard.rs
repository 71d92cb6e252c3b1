use scoundrel::leaderboard::{find_rank, sort_descending, ScoreEntry};

fn entry(name: &str, score: i32, won: bool, ts: u64) -> ScoreEntry {
    ScoreEntry { name: name.to_string(), score, won, ts }
}

fn names(board: &Vec<ScoreEntry>) -> Vec<String> {
    board.iter().map(|e| e.name.clone()).collect()
}

#[test]
fn sort_puts_best_score_first() {
    let mut board = vec![
        entry("c", -4, false, 1),
        entry("a", 26, true, 2),
        entry("b", 7, true, 3),
        entry("d", -120, false, 4),
    ];
    sort_descending(&mut board);
    assert_eq!(names(&board), vec!["a", "b", "c", "d"]);
    let scores: Vec<i32> = board.iter().map(|e| e.score).collect();
    assert_eq!(scores, vec![26, 7, -4, -120]);
}

#[test]
fn sort_keeps_equal_scores_in_order() {
    let mut board = vec![
        entry("first", 5, true, 10),
        entry("low", 1, true, 11),
        entry("second", 5, false, 12),
        entry("high", 9, true, 13),
        entry("third", 5, true, 14),
    ];
    sort_descending(&mut board);
    assert_eq!(names(&board), vec!["high", "first", "second", "third", "low"]);
    assert_eq!(board[1].ts, 10);
    assert_eq!(board[2].ts, 12);
    assert_eq!(board[3].ts, 14);
}

#[test]
fn sort_of_short_lists() {
    let mut none: Vec<ScoreEntry> = Vec::new();
    sort_descending(&mut none);
    assert!(none.is_empty());
    let mut one = vec![entry("solo", 3, true, 1)];
    sort_descending(&mut one);
    assert_eq!(names(&one), vec!["solo"]);
}

#[test]
fn sort_agrees_with_a_stable_standard_sort() {
    let mut board: Vec<ScoreEntry> = Vec::new();
    let mut seed: u32 = 12345;
    for i in 0..60u64 {
        seed = seed.wrapping_mul(1103515245).wrapping_add(12345);
        let score = ((seed >> 16) % 9) as i32 - 4;
        board.push(entry("n", score, score > 0, i));
    }
    let mut expected: Vec<(i32, u64)> = board.iter().map(|e| (e.score, e.ts)).collect();
    expected.sort_by(|a, b| b.0.cmp(&a.0));
    sort_descending(&mut board);
    let got: Vec<(i32, u64)> = board.iter().map(|e| (e.score, e.ts)).collect();
    assert_eq!(got, expected);
}

#[test]
fn find_rank_gives_the_first_match_counted_from_one() {
    let board = vec![
        entry("ann", 9, true, 1),
        entry("bob", 5, true, 2),
        entry("bob", 5, false, 3),
        entry("bob", 5, true, 4),
    ];
    assert_eq!(find_rank(&board, &"ann".to_string(), 9, true), Some(1));
    assert_eq!(find_rank(&board, &"bob".to_string(), 5, true), Some(2));
    assert_eq!(find_rank(&board, &"bob".to_string(), 5, false), Some(3));
}

#[test]
fn find_rank_of_the_last_entry_is_the_length() {
    let board = vec![entry("a", 9, true, 1), entry("b", 5, true, 2), entry("c", 1, false, 3)];
    assert_eq!(find_rank(&board, &"c".to_string(), 1, false), Some(3));
    assert_eq!(find_rank(&vec![entry("solo", 0, true, 1)], &"solo".to_string(), 0, true), Some(1));
}

#[test]
fn find_rank_without_a_match() {
    let board = vec![entry("ann", 9, true, 1)];
    assert_eq!(find_rank(&board, &"ann".to_string(), 8, true), None);
    assert_eq!(find_rank(&board, &"ann".to_string(), 9, false), None);
    assert_eq!(find_rank(&board, &"Ann".to_string(), 9, true), None);
    assert_eq!(find_rank(&Vec::new(), &"ann".to_string(), 9, true), None);
}
