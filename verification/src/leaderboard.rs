//! The score list: one entry per finished run, best score first.

use crate::seqs::{lemma_filter_all, lemma_filter_none};
use vstd::prelude::*;

verus! {

/// The outcome of one finished run.
#[derive(Debug, Clone)]
pub struct ScoreEntry {
    pub name: String,
    pub score: i32,
    pub won: bool,
    /// Seconds since the Unix epoch at which the run ended.
    pub ts: u64,
}

/// A score entry as a mathematical value.
pub ghost struct EntryView {
    pub name: Seq<char>,
    pub score: int,
    pub won: bool,
    pub ts: u64,
}

impl View for ScoreEntry {
    type V = EntryView;

    open spec fn view(&self) -> EntryView {
        EntryView { name: self.name@, score: self.score as int, won: self.won, ts: self.ts }
    }
}

/// The entries of a list, each as a mathematical value.
pub open spec fn board_view(entries: Seq<ScoreEntry>) -> Seq<EntryView> {
    entries.map_values(|e: ScoreEntry| e@)
}

impl EntryView {
    /// Whether the entry shows this name, score and outcome. The time stamp
    /// does not take part: two runs that look alike on screen are alike here.
    pub open spec fn shows(self, name: Seq<char>, score: int, won: bool) -> bool {
        self.name == name && self.score == score && self.won == won
    }
}

/// Best score first: no entry scores less than one that follows it.
pub open spec fn descending(board: Seq<EntryView>) -> bool {
    forall|i: int, j: int| 0 <= i <= j < board.len() ==> board[i].score >= board[j].score
}

/// The first index at or after `i` whose entry scores less than `score`, or
/// the length of the board if there is none.
pub open spec fn slot_from(board: Seq<EntryView>, score: int, i: int) -> int
    decreases board.len() - i,
{
    if 0 <= i < board.len() && board[i].score >= score {
        slot_from(board, score, i + 1)
    } else {
        i
    }
}

/// Where an entry with `score` goes in a board: behind the leading entries
/// that score at least as much.
pub open spec fn slot_for(board: Seq<EntryView>, score: int) -> int {
    slot_from(board, score, 0)
}

/// The board with `e` put in its slot.
pub open spec fn placed(board: Seq<EntryView>, e: EntryView) -> Seq<EntryView> {
    board.insert(slot_for(board, e.score), e)
}

/// The entries in descending order of score, entries of equal score in the
/// order in which they stood.
pub open spec fn ranked(entries: Seq<EntryView>) -> Seq<EntryView>
    decreases entries.len(),
{
    if entries.len() == 0 {
        entries
    } else {
        placed(ranked(entries.drop_last()), entries.last())
    }
}

/// The index at or after `i` of the first entry that shows the given name,
/// score and outcome.
pub open spec fn first_shown_from(
    board: Seq<EntryView>,
    name: Seq<char>,
    score: int,
    won: bool,
    i: int,
) -> Option<int>
    decreases board.len() - i,
{
    if i < 0 || i >= board.len() {
        None
    } else if board[i].shows(name, score, won) {
        Some(i)
    } else {
        first_shown_from(board, name, score, won, i + 1)
    }
}

/// The index of the first entry that shows the given name, score and outcome.
pub open spec fn first_shown(board: Seq<EntryView>, name: Seq<char>, score: int, won: bool) -> Option<
    int,
> {
    first_shown_from(board, name, score, won, 0)
}

/// The rank of the first entry that shows the given name, score and
/// outcome: its place in the board, the first place being 1.
pub open spec fn rank_shown(board: Seq<EntryView>, name: Seq<char>, score: int, won: bool) -> Option<
    int,
> {
    match first_shown(board, name, score, won) {
        Some(i) => Some(i + 1),
        None => None,
    }
}

/// The slot lies inside the searched range, everything before it scores at
/// least `score`, and the entry at it, if any, scores less.
pub proof fn lemma_slot_from(board: Seq<EntryView>, score: int, i: int)
    requires
        0 <= i <= board.len(),
    ensures
        i <= slot_from(board, score, i) <= board.len(),
        forall|k: int| i <= k < slot_from(board, score, i) ==> board[k].score >= score,
        slot_from(board, score, i) < board.len() ==> board[slot_from(board, score, i)].score
            < score,
    decreases board.len() - i,
{
    if i < board.len() && board[i].score >= score {
        lemma_slot_from(board, score, i + 1);
    }
}

/// Putting an entry in its slot keeps a descending board descending.
pub proof fn lemma_placed_descending(board: Seq<EntryView>, e: EntryView)
    requires
        descending(board),
    ensures
        descending(placed(board, e)),
        placed(board, e).len() == board.len() + 1,
{
    let p = slot_for(board, e.score);
    lemma_slot_from(board, e.score, 0);
    let out = placed(board, e);
    assert forall|i: int, j: int| 0 <= i <= j < out.len() implies out[i].score
        >= out[j].score by {
        if i < p && j > p {
            assert(out[i] == board[i]);
            assert(out[j] == board[j - 1]);
        } else if i == p && j > p {
            assert(out[j] == board[j - 1]);
            assert(board[p].score >= board[j - 1].score);
        }
    }
}

/// Ranking yields a board in descending order of score.
pub proof fn lemma_ranked_descending(entries: Seq<EntryView>)
    ensures
        descending(ranked(entries)),
        ranked(entries).len() == entries.len(),
    decreases entries.len(),
{
    if entries.len() > 0 {
        lemma_ranked_descending(entries.drop_last());
        lemma_placed_descending(ranked(entries.drop_last()), entries.last());
    }
}

/// Ranking neither loses nor invents an entry: the ranked board holds each
/// entry exactly as often as the list it was made from.
pub proof fn lemma_ranked_permutes(entries: Seq<EntryView>)
    ensures
        ranked(entries).to_multiset() == entries.to_multiset(),
    decreases entries.len(),
{
    broadcast use vstd::seq_lib::group_to_multiset_ensures;

    if entries.len() > 0 {
        let head = entries.drop_last();
        let e = entries.last();
        lemma_ranked_permutes(head);
        lemma_ranked_descending(head);
        lemma_slot_from(ranked(head), e.score, 0);
        assert(entries == head.push(e));
        assert(ranked(entries).to_multiset() == ranked(head).to_multiset().insert(e));
    }
}

/// Entries of one score keep their order: ranking is stable.
pub proof fn lemma_ranked_stable(entries: Seq<EntryView>, score: int)
    ensures
        ranked(entries).filter(|e: EntryView| e.score == score) == entries.filter(
            |e: EntryView| e.score == score,
        ),
    decreases entries.len(),
{
    let pred = |e: EntryView| e.score == score;
    if entries.len() == 0 {
    } else {
        let head = entries.drop_last();
        let e = entries.last();
        let r = ranked(head);
        let p = slot_for(r, e.score);
        lemma_ranked_stable(head, score);
        lemma_ranked_descending(head);
        lemma_slot_from(r, e.score, 0);
        assert(entries == head + seq![e]);
        Seq::filter_distributes_over_add(head, seq![e], pred);
        let lo = r.take(p);
        let hi = r.skip(p);
        assert(r == lo + hi);
        assert(placed(r, e) == lo + seq![e] + hi);
        Seq::filter_distributes_over_add(lo, hi, pred);
        Seq::filter_distributes_over_add(lo, seq![e], pred);
        Seq::filter_distributes_over_add(lo + seq![e], hi, pred);
        if pred(e) {
            // Everything behind the slot scores less, so the filter drops it.
            lemma_filter_none(hi, pred);
            assert(seq![e].filter(pred) == seq![e]) by {
                lemma_filter_all(seq![e], pred);
            }
        } else {
            lemma_filter_none(seq![e], pred);
        }
    }
}

/// What the search for the first matching entry finds: an index inside the
/// board whose entry matches while none before it does, or nothing if no
/// entry from `i` on matches.
pub proof fn lemma_first_shown_from(
    board: Seq<EntryView>,
    name: Seq<char>,
    score: int,
    won: bool,
    i: int,
)
    requires
        0 <= i <= board.len(),
    ensures
        match first_shown_from(board, name, score, won, i) {
            Some(p) => i <= p < board.len() && board[p].shows(name, score, won) && forall|k: int|
                i <= k < p ==> !board[k].shows(name, score, won),
            None => forall|k: int| i <= k < board.len() ==> !board[k].shows(name, score, won),
        },
    decreases board.len() - i,
{
    if i < board.len() && !board[i].shows(name, score, won) {
        lemma_first_shown_from(board, name, score, won, i + 1);
    }
}

/// Index of the first of the leading `upto` entries that scores less than
/// `score`, or `upto` if none of them does.
fn find_slot(board: &Vec<ScoreEntry>, upto: usize, score: i32) -> (p: usize)
    requires
        upto <= board.len(),
    ensures
        p == slot_for(board_view(board@).take(upto as int), score as int),
        p <= upto,
{
    let ghost lead = board_view(board@).take(upto as int);
    let mut p: usize = 0;
    while p < upto && board[p].score >= score
        invariant
            p <= upto <= board.len(),
            lead == board_view(board@).take(upto as int),
            slot_from(lead, score as int, p as int) == slot_for(lead, score as int),
        decreases upto - p,
    {
        p += 1;
    }
    p
}

/// Puts the entries in descending order of score. Entries of equal score
/// keep the order in which they stood.
pub fn sort_descending(board: &mut Vec<ScoreEntry>)
    ensures
        board_view(final(board)@) == ranked(board_view(old(board)@)),
{
    let ghost start = board_view(board@);
    let mut i: usize = 0;
    while i < board.len()
        invariant
            i <= board.len(),
            board.len() == start.len(),
            board_view(board@).take(i as int) == ranked(start.take(i as int)),
            board_view(board@).skip(i as int) == start.skip(i as int),
        decreases board.len() - i,
    {
        let ghost before = board_view(board@);
        let p = find_slot(board, i, board[i].score);
        let e = board.remove(i);
        board.insert(p, e);
        proof {
            let lead = before.take(i as int);
            assert(before.skip(i as int)[0] == start[i as int]);
            assert(e@ == start[i as int]);
            assert(start.take(i + 1).drop_last() == start.take(i as int));
            assert(start.take(i + 1).last() == start[i as int]);
            assert(board_view(board@).take(i + 1) == lead.insert(p as int, e@));
            assert(board_view(board@).skip(i + 1) == start.skip(i + 1)) by {
                let tail = start.skip(i + 1);
                assert forall|k: int| 0 <= k < tail.len() implies board_view(board@).skip(
                    i + 1,
                )[k] == #[trigger] tail[k] by {
                    assert(before.skip(i as int)[k + 1] == start.skip(i as int)[k + 1]);
                }
            }
        }
        i += 1;
    }
    assert(board_view(board@) == board_view(board@).take(i as int));
    assert(start == start.take(i as int));
}

/// The rank of the first entry with this name, score and outcome, if there
/// is one. The best entry has rank 1.
pub fn find_rank(board: &Vec<ScoreEntry>, name: &String, score: i32, won: bool) -> (r: Option<
    usize,
>)
    ensures
        match r {
            Some(p) => rank_shown(board_view(board@), name@, score as int, won) == Some(p as int),
            None => rank_shown(board_view(board@), name@, score as int, won).is_none(),
        },
{
    let mut i: usize = 0;
    while i < board.len()
        invariant
            i <= board.len(),
            first_shown_from(board_view(board@), name@, score as int, won, i as int)
                == first_shown(board_view(board@), name@, score as int, won),
        decreases board.len() - i,
    {
        if board[i].name == *name && board[i].score == score && board[i].won == won {
            return Some(i + 1);
        }
        i += 1;
    }
    None
}

} // verus!
