//! Rule and turn-resolution engine of Scoundrel, a single-player dungeon
//! crawl played with a pruned deck of playing cards.
//!
//! A player descends through rooms of four cards, fights the monsters
//! (clubs and spades), drinks the potions (hearts) and equips the weapons
//! (diamonds), and tries to clear the deck with as much health as possible.
//!
//! Every function carries a contract that Verus proves. The contracts are
//! stated over a mathematical picture of the game:
//!
//! - [`cards`], [`deck`] and [`player`] hold the values the game is played
//!   with;
//! - [`rules`] states each move as a function from one state of the game to
//!   the next;
//! - [`game`], [`menu`], [`turn`] and [`combat`] hold the executable engine,
//!   proved to follow the rules;
//! - [`leaderboard`] ranks finished runs, [`history`] reads the events of a
//!   run room by room, and [`text`] writes the lines of the log;
//! - [`invariants`], [`laws`] and [`tally`] prove what holds of every game.
//!
//! Drawing the screen, reading keys and keeping the score list on disk are
//! left to the program that embeds the engine.

pub mod cards;
pub mod combat;
pub mod deck;
pub mod game;
pub mod history;
pub mod invariants;
pub mod laws;
pub mod leaderboard;
pub mod menu;
pub mod player;
pub mod rules;
pub mod seqs;
pub mod tally;
pub mod text;
pub mod turn;
