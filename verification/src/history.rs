//! The history of a run room by room: a view derived from the flat list of
//! events, which stays the only record.

use crate::game::GameEvent;
use crate::text::{decimal, push_decimal};
use vstd::prelude::*;
use vstd::string::StringExecFns;

verus! {

/// The events of one room.
#[derive(Debug, Clone, PartialEq, Eq)]
pub struct RoomRecord {
    /// Number of the room.
    pub number: u32,
    /// What happened in the room, in order.
    pub events: Vec<GameEvent>,
}

/// The events of one room as a mathematical value.
pub ghost struct RoomView {
    pub number: u32,
    pub events: Seq<GameEvent>,
}

impl View for RoomRecord {
    type V = RoomView;

    open spec fn view(&self) -> RoomView {
        RoomView { number: self.number, events: self.events@ }
    }
}

/// The records of a list, each as a mathematical value.
pub open spec fn rooms_view(rooms: Seq<RoomRecord>) -> Seq<RoomView> {
    rooms.map_values(|r: RoomRecord| r@)
}

/// The test that an event is no start of a room.
pub open spec fn is_action() -> spec_fn(GameEvent) -> bool {
    |ev: GameEvent| !(ev is RoomStart)
}

/// The rooms with one more event taken up: the start of a room opens a
/// record of its own, and any other event joins the last record. An event
/// that comes before any start opens a record for room 1.
pub open spec fn with_event(rooms: Seq<RoomView>, ev: GameEvent) -> Seq<RoomView> {
    match ev {
        GameEvent::RoomStart { number } => rooms.push(RoomView { number, events: Seq::empty() }),
        _ => if rooms.len() == 0 {
            seq![RoomView { number: 1, events: seq![ev] }]
        } else {
            rooms.drop_last().push(
                RoomView { number: rooms.last().number, events: rooms.last().events.push(ev) },
            )
        },
    }
}

/// The history split into rooms.
pub open spec fn rooms_of(history: Seq<GameEvent>) -> Seq<RoomView>
    decreases history.len(),
{
    if history.len() == 0 {
        Seq::empty()
    } else {
        with_event(rooms_of(history.drop_last()), history.last())
    }
}

/// The events of all rooms, one room after the other.
pub open spec fn actions_of(rooms: Seq<RoomView>) -> Seq<GameEvent>
    decreases rooms.len(),
{
    if rooms.len() == 0 {
        Seq::empty()
    } else {
        actions_of(rooms.drop_last()) + rooms.last().events
    }
}

/// Splitting a history into rooms loses nothing and adds nothing: read
/// room by room, the records hold exactly the events of the history that
/// are not room starts, in their order, and no record holds a room start.
pub proof fn lemma_rooms_hold_the_actions(history: Seq<GameEvent>)
    ensures
        actions_of(rooms_of(history)) == history.filter(is_action()),
        forall|r: int, k: int|
            0 <= r < rooms_of(history).len() && 0 <= k < rooms_of(history)[r].events.len()
                ==> !(#[trigger] rooms_of(history)[r].events[k] is RoomStart),
    decreases history.len(),
{
    reveal(Seq::filter);
    if history.len() > 0 {
        let head = history.drop_last();
        let ev = history.last();
        let before = rooms_of(head);
        let after = rooms_of(history);
        lemma_rooms_hold_the_actions(head);
        match ev {
            GameEvent::RoomStart { number } => {
                assert(after.drop_last() == before);
                assert(actions_of(after) == actions_of(before));
            },
            _ => {
                if before.len() == 0 {
                    assert(after.drop_last() == Seq::<RoomView>::empty());
                    assert(actions_of(after) == seq![ev]);
                    assert(actions_of(before) == Seq::<GameEvent>::empty());
                    assert(actions_of(after) == actions_of(before).push(ev));
                } else {
                    assert(after.drop_last() == before.drop_last());
                    assert(actions_of(after) == actions_of(before.drop_last())
                        + before.last().events.push(ev));
                    assert(actions_of(after) == actions_of(before).push(ev));
                }
                assert forall|r: int, k: int|
                    0 <= r < after.len() && 0 <= k < after[r].events.len() implies !(
                #[trigger] after[r].events[k] is RoomStart) by {
                    if before.len() > 0 {
                        if r < after.len() - 1 {
                            assert(after[r] == before[r]);
                        } else if k < before.last().events.len() {
                            assert(after[r].events[k] == before[r].events[k]);
                        }
                    }
                }
            },
        }
    }
}

/// Every room start of the history opens one record, in order; the only
/// other record is one for room 1 in front, if the history begins with an
/// event that is no room start.
pub proof fn lemma_rooms_follow_the_starts(history: Seq<GameEvent>)
    ensures
        rooms_of(history).len() == history.filter(|ev: GameEvent| ev is RoomStart).len() + (if history.len()
            > 0 && !(history[0] is RoomStart) {
            1int
        } else {
            0int
        }),
    decreases history.len(),
{
    reveal(Seq::filter);
    if history.len() > 0 {
        let head = history.drop_last();
        lemma_rooms_follow_the_starts(head);
        if head.len() > 0 {
            assert(head[0] == history[0]);
        }
    }
}

/// Splits the history into rooms.
pub fn group_by_room(history: &Vec<GameEvent>) -> (rooms: Vec<RoomRecord>)
    ensures
        rooms_view(rooms@) == rooms_of(history@),
{
    let mut rooms: Vec<RoomRecord> = Vec::new();
    assert(rooms_view(rooms@) =~= rooms_of(history@.take(0)));
    let mut i: usize = 0;
    while i < history.len()
        invariant
            i <= history.len(),
            rooms_view(rooms@) == rooms_of(history@.take(i as int)),
        decreases history.len() - i,
    {
        let ghost before = rooms_view(rooms@);
        assert(history@.take(i + 1).drop_last() == history@.take(i as int));
        assert(history@.take(i + 1).last() == history@[i as int]);
        let ev = history[i];
        match ev {
            GameEvent::RoomStart { number } => {
                rooms.push(RoomRecord { number, events: Vec::new() });
            },
            _ => {
                match rooms.pop() {
                    Some(mut last) => {
                        last.events.push(ev);
                        rooms.push(last);
                    },
                    None => {
                        let mut events: Vec<GameEvent> = Vec::new();
                        events.push(ev);
                        rooms.push(RoomRecord { number: 1, events });
                    },
                }
            },
        }
        assert(rooms_view(rooms@) =~= with_event(before, ev));
        i = i + 1;
    }
    assert(history@.take(i as int) == history@);
    rooms
}

/// How the weapon of a fight is told.
pub open spec fn weapon_note(with_weapon: Option<u8>) -> Seq<char> {
    match with_weapon {
        Some(v) => " with "@ + decimal(v as int),
        None => " barehand"@,
    }
}

/// The mark behind a fight: one for a fight that hurt, one for a clean
/// kill.
pub open spec fn damage_mark(damage_taken: u8) -> Seq<char> {
    if damage_taken > 0 {
        " 💥"@
    } else {
        " ✅"@
    }
}

/// The text that tells one event.
pub open spec fn event_line(ev: GameEvent) -> Seq<char> {
    match ev {
        GameEvent::RoomStart { number } => "Room "@ + decimal(number as int),
        GameEvent::Potion { value, hp_before, hp_after } => "🧪 +"@ + decimal(value as int)
            + " HP "@ + decimal(hp_before as int) + "→"@ + decimal(hp_after as int),
        GameEvent::PotionDiscarded { value } => "🧪 discarded "@ + decimal(value as int),
        GameEvent::Weapon { value } => "🗡️ equip "@ + decimal(value as int),
        GameEvent::Fight { monster, with_weapon, damage_taken } => "👾 "@ + decimal(monster as int)
            + weapon_note(with_weapon) + " → dmg "@ + decimal(damage_taken as int) + damage_mark(
            damage_taken,
        ),
        GameEvent::Avoid => "🌀 avoid room"@,
    }
}

/// Tells one event in a line of text.
pub fn game_event_line(ev: &GameEvent) -> (s: String)
    ensures
        s@ == event_line(*ev),
{
    match ev {
        GameEvent::RoomStart { number } => {
            let mut s = "Room ".to_string();
            push_decimal(&mut s, *number as i64);
            s
        },
        GameEvent::Potion { value, hp_before, hp_after } => {
            let mut s = "🧪 +".to_string();
            push_decimal(&mut s, *value as i64);
            s.append(" HP ");
            push_decimal(&mut s, *hp_before as i64);
            s.append("→");
            push_decimal(&mut s, *hp_after as i64);
            s
        },
        GameEvent::PotionDiscarded { value } => {
            let mut s = "🧪 discarded ".to_string();
            push_decimal(&mut s, *value as i64);
            s
        },
        GameEvent::Weapon { value } => {
            let mut s = "🗡️ equip ".to_string();
            push_decimal(&mut s, *value as i64);
            s
        },
        GameEvent::Fight { monster, with_weapon, damage_taken } => {
            let mut s = "👾 ".to_string();
            push_decimal(&mut s, *monster as i64);
            match with_weapon {
                Some(v) => {
                    let mut w = " with ".to_string();
                    push_decimal(&mut w, *v as i64);
                    s.append(w.as_str());
                },
                None => {
                    s.append(" barehand");
                },
            }
            s.append(" → dmg ");
            push_decimal(&mut s, *damage_taken as i64);
            if *damage_taken > 0 {
                s.append(" 💥");
            } else {
                s.append(" ✅");
            }
            s
        },
        GameEvent::Avoid => "🌀 avoid room".to_string(),
    }
}

/// One line of the history as it is shown after a run. Headings name a
/// room; the other lines stand under them.
#[derive(Debug, Clone, PartialEq, Eq)]
pub struct HistoryLine {
    pub text: String,
    pub heading: bool,
}

/// A line of the history as a mathematical value.
pub ghost struct LineView {
    pub text: Seq<char>,
    pub heading: bool,
}

impl View for HistoryLine {
    type V = LineView;

    open spec fn view(&self) -> LineView {
        LineView { text: self.text@, heading: self.heading }
    }
}

/// The lines of a list, each as a mathematical value.
pub open spec fn lines_of(lines: Seq<HistoryLine>) -> Seq<LineView> {
    lines.map_values(|l: HistoryLine| l@)
}

/// The heading of a room.
pub open spec fn room_heading(number: u32) -> LineView {
    LineView { text: "Room "@ + decimal(number as int), heading: true }
}

/// A line that is no heading.
pub open spec fn plain_line(text: Seq<char>) -> LineView {
    LineView { text, heading: false }
}

/// The events of a room, each on an indented line.
pub open spec fn action_lines(events: Seq<GameEvent>) -> Seq<LineView> {
    events.map_values(|ev: GameEvent| plain_line("  "@ + event_line(ev)))
}

/// The lines of one room: its heading, its events or a note that there
/// were none, and an empty line.
pub open spec fn room_lines(room: RoomView) -> Seq<LineView> {
    seq![room_heading(room.number)] + (if room.events.len() == 0 {
        seq![plain_line("  (no actions)"@)]
    } else {
        action_lines(room.events)
    }) + seq![plain_line(""@)]
}

/// The lines of the rooms, one room after the other.
pub open spec fn rooms_lines(rooms: Seq<RoomView>) -> Seq<LineView>
    decreases rooms.len(),
{
    if rooms.len() == 0 {
        Seq::empty()
    } else {
        rooms_lines(rooms.drop_last()) + room_lines(rooms.last())
    }
}

/// The history as it is shown after a run.
pub open spec fn history_lines(history: Seq<GameEvent>) -> Seq<LineView> {
    if history.len() == 0 {
        seq![plain_line("No battles happened."@)]
    } else {
        rooms_lines(rooms_of(history))
    }
}

/// Appends a line that is no heading.
fn push_plain(lines: &mut Vec<HistoryLine>, text: String)
    ensures
        lines_of(final(lines)@) == lines_of(old(lines)@).push(plain_line(text@)),
{
    lines.push(HistoryLine { text, heading: false });
    assert(lines_of(lines@) =~= lines_of(old(lines)@).push(plain_line(text@)));
}

/// Appends the lines of one room.
fn push_room(lines: &mut Vec<HistoryLine>, room: &RoomRecord)
    ensures
        lines_of(final(lines)@) == lines_of(old(lines)@) + room_lines(room@),
{
    let mut title = "Room ".to_string();
    push_decimal(&mut title, room.number as i64);
    lines.push(HistoryLine { text: title, heading: true });
    assert(lines_of(lines@) =~= lines_of(old(lines)@) + seq![room_heading(room.number)]);
    if room.events.len() == 0 {
        push_plain(lines, "  (no actions)".to_string());
    } else {
        let ghost base = lines_of(lines@);
        let mut k: usize = 0;
        while k < room.events.len()
            invariant
                k <= room.events.len(),
                lines_of(lines@) == base + action_lines(room.events@.take(k as int)),
            decreases room.events.len() - k,
        {
            let mut text = "  ".to_string();
            text.append(game_event_line(&room.events[k]).as_str());
            push_plain(lines, text);
            assert(action_lines(room.events@.take(k + 1)) =~= action_lines(
                room.events@.take(k as int),
            ).push(plain_line("  "@ + event_line(room.events@[k as int]))));
            k = k + 1;
        }
        assert(room.events@.take(k as int) == room.events@);
    }
    push_plain(lines, "".to_string());
    assert(lines_of(lines@) =~= lines_of(old(lines)@) + room_lines(room@));
}

/// Lays the history out room by room: a heading for each room, the events
/// of the room indented under it, and an empty line after it.
pub fn build_history_indented_lines(history: &Vec<GameEvent>) -> (lines: Vec<HistoryLine>)
    ensures
        lines_of(lines@) == history_lines(history@),
{
    let mut lines: Vec<HistoryLine> = Vec::new();
    if history.len() == 0 {
        push_plain(&mut lines, "No battles happened.".to_string());
        assert(lines_of(lines@) =~= history_lines(history@));
        return lines;
    }
    let rooms = group_by_room(history);
    let ghost all = rooms_view(rooms@);
    assert(lines_of(lines@) =~= rooms_lines(all.take(0)));
    let mut r: usize = 0;
    while r < rooms.len()
        invariant
            r <= rooms.len(),
            all == rooms_view(rooms@),
            lines_of(lines@) == rooms_lines(all.take(r as int)),
        decreases rooms.len() - r,
    {
        assert(all.take(r + 1).drop_last() == all.take(r as int));
        assert(all.take(r + 1).last() == rooms@[r as int]@);
        push_room(&mut lines, &rooms[r]);
        r = r + 1;
    }
    assert(all.take(r as int) == all);
    lines
}

} // verus!
