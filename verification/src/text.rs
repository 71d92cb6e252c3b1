//! The log lines the engine writes, and the decimal notation they use.

use vstd::prelude::*;
use vstd::string::StringExecFns;

verus! {

/// The text of one decimal digit.
pub open spec fn digit_text(d: int) -> Seq<char> {
    if d == 0 {
        "0"@
    } else if d == 1 {
        "1"@
    } else if d == 2 {
        "2"@
    } else if d == 3 {
        "3"@
    } else if d == 4 {
        "4"@
    } else if d == 5 {
        "5"@
    } else if d == 6 {
        "6"@
    } else if d == 7 {
        "7"@
    } else if d == 8 {
        "8"@
    } else {
        "9"@
    }
}

/// Decimal notation of a natural number, without leading zeros.
pub open spec fn decimal_nat(n: nat) -> Seq<char>
    decreases n,
{
    if n < 10 {
        digit_text(n as int)
    } else {
        decimal_nat(n / 10) + digit_text((n % 10) as int)
    }
}

/// Decimal notation of an integer, with a minus sign if it is negative.
pub open spec fn decimal(n: int) -> Seq<char> {
    if n < 0 {
        "-"@ + decimal_nat((-n) as nat)
    } else {
        decimal_nat(n as nat)
    }
}

/// The text of one decimal digit.
fn digit_str(d: u64) -> (s: &'static str)
    requires
        d < 10,
    ensures
        s@ == digit_text(d as int),
{
    match d {
        0 => "0",
        1 => "1",
        2 => "2",
        3 => "3",
        4 => "4",
        5 => "5",
        6 => "6",
        7 => "7",
        8 => "8",
        _ => "9",
    }
}

/// Appends the decimal notation of `n` to `s`.
fn push_decimal_nat(s: &mut String, n: u64)
    ensures
        final(s)@ == old(s)@ + decimal_nat(n as nat),
    decreases n,
{
    if n >= 10 {
        push_decimal_nat(s, n / 10);
    }
    s.append(digit_str(n % 10));
}

/// Appends the decimal notation of `n` to `s`.
pub fn push_decimal(s: &mut String, n: i64)
    ensures
        final(s)@ == old(s)@ + decimal(n as int),
{
    if n < 0 {
        s.append("-");
        let m: u64 = (-(n + 1)) as u64 + 1;
        push_decimal_nat(s, m);
    } else {
        push_decimal_nat(s, n as u64);
    }
}

/// The line logged when a potion restores health.
pub open spec fn potion_line(heal: int, before: int, after: int) -> Seq<char> {
    "You drink a potion ("@ + decimal(heal) + "). HP "@ + decimal(before) + "→"@ + decimal(after)
        + "."@
}

/// The line logged when a weapon is equipped.
pub open spec fn equip_line(value: int) -> Seq<char> {
    "You equip a weapon ("@ + decimal(value) + ")."@
}

/// The line logged when a monster is fought with the weapon and hits back.
pub open spec fn strike_hurt_line(weapon: int, monster: int, dmg: int, before: int, after: int) -> Seq<
    char,
> {
    "You strike with "@ + decimal(weapon) + ". Monster "@ + decimal(monster) + " hits back ("@
        + decimal(dmg) + " dmg). HP "@ + decimal(before) + "→"@ + decimal(after) + "."@
}

/// The line logged when the weapon absorbs the whole blow.
pub open spec fn strike_clean_line(weapon: int, monster: int) -> Seq<char> {
    "You strike with "@ + decimal(weapon) + ". Monster "@ + decimal(monster) + " falls."@
}

/// The line logged for a bare-handed fight.
pub open spec fn barehand_line(monster: int, before: int, after: int) -> Seq<char> {
    "You fight barehanded. Monster "@ + decimal(monster) + " hits you ("@ + decimal(monster)
        + " dmg). HP "@ + decimal(before) + "→"@ + decimal(after) + "."@
}

/// The line logged when the dungeon is cleared.
pub open spec fn victory_line(score: int) -> Seq<char> {
    "You clear the dungeon. Final score: "@ + decimal(score) + "."@
}

/// The line logged when the player dies.
pub open spec fn death_line(score: int) -> Seq<char> {
    "You fall... Final score: "@ + decimal(score) + "."@
}

/// Writes the line for a potion that heals.
pub fn potion_message(heal: u8, before: i32, after: i32) -> (s: String)
    ensures
        s@ == potion_line(heal as int, before as int, after as int),
{
    let mut s = "You drink a potion (".to_string();
    push_decimal(&mut s, heal as i64);
    s.append("). HP ");
    push_decimal(&mut s, before as i64);
    s.append("→");
    push_decimal(&mut s, after as i64);
    s.append(".");
    s
}

/// Writes the line for a weapon that is equipped.
pub fn equip_message(value: u8) -> (s: String)
    ensures
        s@ == equip_line(value as int),
{
    let mut s = "You equip a weapon (".to_string();
    push_decimal(&mut s, value as i64);
    s.append(").");
    s
}

/// Writes the line for a fight with the weapon in which the monster hits
/// back.
pub fn strike_hurt_message(weapon: u8, monster: u8, dmg: i32, before: i32, after: i32) -> (s:
    String)
    ensures
        s@ == strike_hurt_line(
            weapon as int,
            monster as int,
            dmg as int,
            before as int,
            after as int,
        ),
{
    let mut s = "You strike with ".to_string();
    push_decimal(&mut s, weapon as i64);
    s.append(". Monster ");
    push_decimal(&mut s, monster as i64);
    s.append(" hits back (");
    push_decimal(&mut s, dmg as i64);
    s.append(" dmg). HP ");
    push_decimal(&mut s, before as i64);
    s.append("→");
    push_decimal(&mut s, after as i64);
    s.append(".");
    s
}

/// Writes the line for a fight in which the weapon absorbs the whole blow.
pub fn strike_clean_message(weapon: u8, monster: u8) -> (s: String)
    ensures
        s@ == strike_clean_line(weapon as int, monster as int),
{
    let mut s = "You strike with ".to_string();
    push_decimal(&mut s, weapon as i64);
    s.append(". Monster ");
    push_decimal(&mut s, monster as i64);
    s.append(" falls.");
    s
}

/// Writes the line for a bare-handed fight.
pub fn barehand_message(monster: u8, before: i32, after: i32) -> (s: String)
    ensures
        s@ == barehand_line(monster as int, before as int, after as int),
{
    let mut s = "You fight barehanded. Monster ".to_string();
    push_decimal(&mut s, monster as i64);
    s.append(" hits you (");
    push_decimal(&mut s, monster as i64);
    s.append(" dmg). HP ");
    push_decimal(&mut s, before as i64);
    s.append("→");
    push_decimal(&mut s, after as i64);
    s.append(".");
    s
}

/// Writes the line for a cleared dungeon.
pub fn victory_message(score: i32) -> (s: String)
    ensures
        s@ == victory_line(score as int),
{
    let mut s = "You clear the dungeon. Final score: ".to_string();
    push_decimal(&mut s, score as i64);
    s.append(".");
    s
}

/// Writes the line for the death of the player.
pub fn death_message(score: i32) -> (s: String)
    ensures
        s@ == death_line(score as int),
{
    let mut s = "You fall... Final score: ".to_string();
    push_decimal(&mut s, score as i64);
    s.append(".");
    s
}

/// The first of the two lines a new game greets the player with.
pub open spec fn welcome_line() -> Seq<char> {
    "Welcome to Scoundrel (terminal)!"@
}

/// The second of the two lines a new game greets the player with.
pub open spec fn hint_line() -> Seq<char> {
    "Press 'n' for quick new run or use menu."@
}

/// The line that opens the log of a run.
pub open spec fn fresh_dungeon_line() -> Seq<char> {
    "A fresh dungeon awaits..."@
}

/// The notice given when a card is to be taken or a room avoided while no
/// run is on.
pub open spec fn no_run_line() -> Seq<char> {
    "No run is in progress."@
}

/// The notice given when a second room in a row is to be avoided.
pub open spec fn no_double_avoid_line() -> Seq<char> {
    "You cannot avoid two rooms in a row."@
}

/// The notice given when a room that is no longer full is to be avoided.
pub open spec fn need_full_room_line() -> Seq<char> {
    "You may only avoid when 4 cards are visible."@
}

/// The line logged when a room is avoided.
pub open spec fn avoid_line() -> Seq<char> {
    "You avoid the room, slipping past the dangers."@
}

/// The notice given when a fourth card is picked from a room.
pub open spec fn pick_limit_line() -> Seq<char> {
    "You've already taken 3 cards. Ending turn."@
}

/// The line logged when a second potion is taken in one turn.
pub open spec fn wasted_potion_line() -> Seq<char> {
    "You already used a potion this turn; this one is discarded."@
}

/// The name a player has until one is entered.
pub open spec fn default_name() -> Seq<char> {
    "Scoundrel"@
}

/// The characters that Unicode gives the property White_Space.
pub open spec fn is_whitespace(c: char) -> bool {
    let n = c as u32;
    ||| 0x09 <= n <= 0x0D
    ||| n == 0x20
    ||| n == 0x85
    ||| n == 0xA0
    ||| n == 0x1680
    ||| 0x2000 <= n <= 0x200A
    ||| n == 0x2028
    ||| n == 0x2029
    ||| n == 0x202F
    ||| n == 0x205F
    ||| n == 0x3000
}

/// The text without the white space it begins with.
pub open spec fn trimmed_start(s: Seq<char>) -> Seq<char>
    decreases s.len(),
{
    if s.len() > 0 && is_whitespace(s.first()) {
        trimmed_start(s.drop_first())
    } else {
        s
    }
}

/// The text without the white space it ends with.
pub open spec fn trimmed_end(s: Seq<char>) -> Seq<char>
    decreases s.len(),
{
    if s.len() > 0 && is_whitespace(s.last()) {
        trimmed_end(s.drop_last())
    } else {
        s
    }
}

/// The text without the white space at either end.
pub open spec fn trimmed(s: Seq<char>) -> Seq<char> {
    trimmed_end(trimmed_start(s))
}

/// The printable characters of ASCII other than the space: `!` to `~`.
pub open spec fn is_ascii_graphic(c: char) -> bool {
    '!' <= c <= '~'
}

/// `String::push` appends one character.
pub assume_specification[ String::push ](s: &mut String, ch: char)
    ensures
        final(s)@ == old(s)@.push(ch),
;

/// `String::pop` removes the last character and returns it, or returns
/// `None` and leaves the string alone if it is empty.
pub assume_specification[ String::pop ](s: &mut String) -> (c: Option<char>)
    ensures
        old(s)@.len() == 0 ==> c.is_none() && final(s)@ == old(s)@,
        old(s)@.len() > 0 ==> c == Some(old(s)@.last()) && final(s)@ == old(s)@.drop_last(),
;

/// `str::trim` returns the slice without leading and trailing white space,
/// white space being the characters with the Unicode property White_Space.
pub assume_specification[ str::trim ](s: &str) -> (t: &str)
    ensures
        t@ == trimmed(s@),
;

/// The lines of a log, each as a sequence of characters.
pub open spec fn lines_view(lines: Seq<String>) -> Seq<Seq<char>> {
    lines.map_values(|s: String| s@)
}

/// Appends a fixed line to a log.
pub fn log_line(log: &mut Vec<String>, line: &str)
    ensures
        lines_view(final(log)@) == lines_view(old(log)@).push(line@),
{
    log.push(line.to_string());
    assert(lines_view(log@) =~= lines_view(old(log)@).push(line@));
}

/// Appends a composed line to a log.
pub fn log_message(log: &mut Vec<String>, line: String)
    ensures
        lines_view(final(log)@) == lines_view(old(log)@).push(line@),
{
    log.push(line);
    assert(lines_view(log@) =~= lines_view(old(log)@).push(line@));
}

} // verus!
