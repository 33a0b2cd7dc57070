//! Built-in opening book: common opening lines, played out from the start position so
//! that each position on a line is keyed by its Zobrist hash and answered with the
//! line's next move.
use vstd::prelude::*;
use crate::board::fen::fen_spec;
use crate::board::position::{Move, Position, PositionView, STARTPOS_FEN};
use crate::text::{chars_of, string_of};
use crate::uci::session::{play_move, step_of};

verus! {

/// A book keyed by Zobrist hash: candidate moves in UCI notation.
pub struct BuiltinBook {
    entries: Vec<(u64, &'static str)>,
}

/// The pick among `n` candidates for a position's hash.
pub open spec fn pick_spec(hash: u64, n: int) -> int {
    (pseudo_random_spec(hash) as usize) as int % n
}

/// A linear congruential step on the hash, for variety among candidates.
pub open spec fn pseudo_random_spec(seed: u64) -> u64 {
    seed.wrapping_mul(6364136223846793005).wrapping_add(1442695040888963407)
}

fn pseudo_random(seed: u64) -> (r: u64)
    ensures
        r == pseudo_random_spec(seed),
{
    seed.wrapping_mul(6364136223846793005).wrapping_add(1442695040888963407)
}

/// A book move is matched against the legal moves by the engine, not here: none is
/// decoded.
fn parse_book_move(_mv_str: &str) -> (r: Option<Move>)
    ensures
        r is None,
{
    None
}

impl BuiltinBook {
    /// The number of entries.
    pub closed spec fn len_spec(&self) -> nat {
        self.entries@.len()
    }

    /// The move for the position with `hash`: a candidate is picked by the hash, and it
    /// is left to the engine to match it against the legal moves, so none is returned.
    pub fn probe(&self, hash: u64) -> (r: Option<Move>)
        ensures
            r is None,
    {
        let mut candidates: Vec<&str> = Vec::new();
        let mut i: usize = 0;
        while i < self.entries.len()
            invariant
                0 <= i <= self.entries@.len(),
            decreases self.entries@.len() - i,
        {
            let (h, mv) = self.entries[i];
            if h == hash {
                candidates.push(mv);
            }
            i = i + 1;
        }
        if candidates.len() == 0 {
            return None;
        }
        let idx = (pseudo_random(hash) as usize) % candidates.len();
        parse_book_move(candidates[idx])
    }
}

/// The built-in book as the engine holds it: empty, the lines being played out by
/// [`RuntimeBook::build`].
pub fn builtin_book() -> (b: BuiltinBook)
    ensures
        b.len_spec() == 0,
{
    BuiltinBook { entries: Vec::new() }
}

// ─── Opening lines ────────────────────────────────────────────────────────────

/// The opening lines, as moves from the start position.
pub open spec fn opening_lines_spec() -> Seq<Seq<&'static str>> {
    seq![
        seq!["e2e4", "e7e5", "g1f3", "b8c6", "f1b5"],
        seq!["e2e4", "e7e5", "g1f3", "b8c6", "f1c4"],
        seq!["e2e4", "e7e5", "g1f3", "b8c6", "d2d4"],
        seq!["e2e4", "c7c5"],
        seq!["e2e4", "c7c5", "g1f3", "d7d6", "d2d4", "c5d4", "f3d4", "g8f6", "b1c3"],
        seq!["e2e4", "c7c5", "g1f3", "b8c6", "d2d4", "c5d4", "f3d4"],
        seq!["e2e4", "e7e6", "d2d4", "d7d5"],
        seq!["e2e4", "c7c6", "d2d4", "d7d5"],
        seq!["e2e4", "d7d5", "e4d5"],
        seq!["e2e4", "g8f6", "e4e5", "f6d5", "d2d4"],
        seq!["d2d4", "d7d5", "c2c4"],
        seq!["d2d4", "d7d5", "c2c4", "e7e6", "b1c3", "g8f6", "c1g5"],
        seq!["d2d4", "d7d5", "c2c4", "c7c6"],
        seq!["d2d4", "g8f6", "c2c4", "e7e6", "b1c3", "f8b4"],
        seq!["d2d4", "g8f6", "c2c4", "g7g6", "b1c3", "f8g7", "e2e4"],
        seq!["d2d4", "g8f6", "c2c4", "g7g6", "g2g3", "f8g7", "f1g2"],
        seq!["d2d4", "g8f6", "c2c4", "e7e6", "g2g3", "d7d5", "f1g2"],
        seq!["g1f3", "d7d5", "g2g3"],
        seq!["c2c4", "e7e5", "b1c3"],
        seq!["c2c4", "g8f6", "b1c3", "g7g6"],
        seq!["e2e4", "e7e5", "f2f4"],
        seq!["e2e4", "e7e5", "f2f4", "e5f4", "g1f3"],
    ]
}

/// The opening lines: Ruy Lopez, Italian, Scotch, Sicilian (and its Najdorf setup and
/// open lines), French, Caro-Kann, Scandinavian, Alekhine; Queen's Gambit (declined),
/// Slav, Nimzo-Indian, King's Indian, Catalan; Réti, English; King's Gambit (accepted).
pub fn opening_lines() -> (r: Vec<Vec<&'static str>>)
    ensures
        r@.len() == opening_lines_spec().len(),
        forall|i: int| 0 <= i < r@.len() ==> (#[trigger] r@[i])@ == opening_lines_spec()[i],
{
    let r = vec![
        vec!["e2e4", "e7e5", "g1f3", "b8c6", "f1b5"],
        vec!["e2e4", "e7e5", "g1f3", "b8c6", "f1c4"],
        vec!["e2e4", "e7e5", "g1f3", "b8c6", "d2d4"],
        vec!["e2e4", "c7c5"],
        vec!["e2e4", "c7c5", "g1f3", "d7d6", "d2d4", "c5d4", "f3d4", "g8f6", "b1c3"],
        vec!["e2e4", "c7c5", "g1f3", "b8c6", "d2d4", "c5d4", "f3d4"],
        vec!["e2e4", "e7e6", "d2d4", "d7d5"],
        vec!["e2e4", "c7c6", "d2d4", "d7d5"],
        vec!["e2e4", "d7d5", "e4d5"],
        vec!["e2e4", "g8f6", "e4e5", "f6d5", "d2d4"],
        vec!["d2d4", "d7d5", "c2c4"],
        vec!["d2d4", "d7d5", "c2c4", "e7e6", "b1c3", "g8f6", "c1g5"],
        vec!["d2d4", "d7d5", "c2c4", "c7c6"],
        vec!["d2d4", "g8f6", "c2c4", "e7e6", "b1c3", "f8b4"],
        vec!["d2d4", "g8f6", "c2c4", "g7g6", "b1c3", "f8g7", "e2e4"],
        vec!["d2d4", "g8f6", "c2c4", "g7g6", "g2g3", "f8g7", "f1g2"],
        vec!["d2d4", "g8f6", "c2c4", "e7e6", "g2g3", "d7d5", "f1g2"],
        vec!["g1f3", "d7d5", "g2g3"],
        vec!["c2c4", "e7e5", "b1c3"],
        vec!["c2c4", "g8f6", "b1c3", "g7g6"],
        vec!["e2e4", "e7e5", "f2f4"],
        vec!["e2e4", "e7e5", "f2f4", "e5f4", "g1f3"],
    ];
    assert(r@.len() == opening_lines_spec().len());
    assert forall|i: int| 0 <= i < r@.len() implies (#[trigger] r@[i])@ == opening_lines_spec()[i] by {
        assert(r@[i]@ =~= opening_lines_spec()[i]);
    }
    r
}

/// The book entries of one line played from `v`: each position's hash with the line's
/// next move, until the line ends, the position is not consistent, or the move is not
/// legal there.
pub open spec fn line_entries(v: PositionView, line: Seq<&'static str>) -> Seq<(u64, Seq<char>)>
    decreases line.len(),
{
    if line.len() == 0 {
        Seq::empty()
    } else {
        seq![(v.hash, line[0]@)] + match step_of(v, line[0]@) {
            Some(w) => line_entries(w, line.drop_first()),
            None => Seq::empty(),
        }
    }
}

/// The entries of all lines, each played from `v`, in order.
pub open spec fn lines_entries(v: PositionView, lines: Seq<Seq<&'static str>>) -> Seq<(u64, Seq<char>)>
    decreases lines.len(),
{
    if lines.len() == 0 {
        Seq::empty()
    } else {
        lines_entries(v, lines.drop_last()) + line_entries(v, lines.last())
    }
}

/// The start position.
#[verifier::opaque]
pub open spec fn start_view() -> PositionView {
    fen_spec(STARTPOS_FEN@)->Ok_0
}

/// The views of book entries.
pub open spec fn entry_views(es: Seq<(u64, String)>) -> Seq<(u64, Seq<char>)> {
    Seq::new(es.len(), |i: int| (es[i].0, es[i].1@))
}

/// The texts of lines of moves.
pub open spec fn line_views(lines: Seq<Vec<&'static str>>) -> Seq<Seq<&'static str>> {
    Seq::new(lines.len(), |i: int| lines[i]@)
}

/// Plays one line from `pos`, appending its entries.
fn play_line(pos: &mut Position, line: &Vec<&'static str>, out: &mut Vec<(u64, String)>)
    ensures
        entry_views(final(out)@) == entry_views(old(out)@) + line_entries(old(pos)@, line@),
{
    let ghost v0 = pos@;
    let mut k: usize = 0;
    assert(line@.skip(0) =~= line@);
    while k < line.len()
        invariant
            v0 == old(pos)@,
            0 <= k <= line@.len(),
            entry_views(out@) + line_entries(pos@, line@.skip(k as int))
                == entry_views(old(out)@) + line_entries(v0, line@),
        decreases line@.len() - k,
    {
        let mv_str = line[k];
        let ghost rest = line@.skip(k as int);
        let ghost v = pos@;
        let ghost before = entry_views(out@);
        assert(rest[0] == mv_str);
        assert(rest.drop_first() =~= line@.skip(k as int + 1));
        out.push((pos.hash, string_of(&chars_of(mv_str))));
        assert(entry_views(out@) =~= before + seq![(v.hash, mv_str@)]);
        if !play_move(pos, mv_str) {
            assert(line_entries(v, rest) =~= seq![(v.hash, mv_str@)]);
            assert(entry_views(out@) == before + line_entries(v, rest));
            return;
        }
        assert(line_entries(v, rest) == seq![(v.hash, mv_str@)] + line_entries(pos@, line@.skip(k as int + 1)));
        k = k + 1;
    }
    assert(line@.skip(line@.len() as int) =~= Seq::<&'static str>::empty());
}

/// Plays each line from the start position.
fn play_lines(lines: &Vec<Vec<&'static str>>) -> (r: Vec<(u64, String)>)
    ensures
        entry_views(r@) == lines_entries(start_view(), line_views(lines@)),
{
    let ghost ls = line_views(lines@);
    let mut entries: Vec<(u64, String)> = Vec::new();
    let mut i: usize = 0;
    assert(entry_views(entries@) =~= Seq::<(u64, Seq<char>)>::empty());
    while i < lines.len()
        invariant
            ls == line_views(lines@),
            0 <= i <= lines@.len(),
            entry_views(entries@) == lines_entries(start_view(), ls.take(i as int)),
        decreases lines@.len() - i,
    {
        let mut pos = Position::startpos();
        assert(pos@ == start_view()) by { reveal(start_view); }
        play_line(&mut pos, &lines[i], &mut entries);
        assert(ls.take(i as int + 1).drop_last() =~= ls.take(i as int));
        i = i + 1;
    }
    assert(ls.take(lines@.len() as int) =~= ls);
    entries
}

/// The book entries of all opening lines played from the start position.
pub fn build_book_entries() -> (r: Vec<(u64, String)>)
    ensures
        entry_views(r@) == lines_entries(start_view(), opening_lines_spec()),
{
    let lines = opening_lines();
    assert(line_views(lines@) =~= opening_lines_spec());
    play_lines(&lines)
}

// ─── Runtime book ─────────────────────────────────────────────────────────────

/// The book built once at start-up and queried during play.
pub struct RuntimeBook {
    entries: Vec<(u64, String)>,
}

/// The candidate moves of the position with `hash`, in book order.
pub open spec fn candidates(es: Seq<(u64, Seq<char>)>, hash: u64) -> Seq<Seq<char>>
    decreases es.len(),
{
    if es.len() == 0 {
        Seq::empty()
    } else {
        candidates(es.drop_last(), hash) + (if es.last().0 == hash { seq![es.last().1] } else { Seq::empty() })
    }
}

impl View for RuntimeBook {
    type V = Seq<(u64, Seq<char>)>;

    closed spec fn view(&self) -> Seq<(u64, Seq<char>)> {
        entry_views(self.entries@)
    }
}

impl RuntimeBook {
    /// Plays out the opening lines.
    pub fn build() -> (b: Self)
        ensures
            b@ == lines_entries(start_view(), opening_lines_spec()),
    {
        RuntimeBook { entries: build_book_entries() }
    }

    /// A book move for the position with `hash`: one of its candidates, picked by the
    /// hash; `None` when the book has none.
    pub fn probe(&self, hash: u64) -> (r: Option<String>)
        ensures
            ({
                let c = candidates(self@, hash);
                if c.len() == 0 { r is None } else { r matches Some(s) && s@ == c[pick_spec(hash, c.len() as int)] }
            }),
    {
        let ghost es = self@;
        let mut found: Vec<usize> = Vec::new();
        let mut i: usize = 0;
        while i < self.entries.len()
            invariant
                es == entry_views(self.entries@),
                0 <= i <= self.entries@.len(),
                found@.len() == candidates(es.take(i as int), hash).len(),
                forall|k: int| 0 <= k < found@.len() ==> #[trigger] found@[k] < self.entries@.len()
                    && self.entries@[found@[k] as int].1@ == candidates(es.take(i as int), hash)[k],
            decreases self.entries@.len() - i,
        {
            assert(es.take(i as int + 1).drop_last() =~= es.take(i as int));
            if self.entries[i].0 == hash {
                found.push(i);
            }
            i = i + 1;
        }
        assert(es.take(es.len() as int) =~= es);
        if found.len() == 0 {
            return None;
        }
        let idx = (pseudo_random(hash) as usize) % found.len();
        Some(self.entries[found[idx]].1.clone())
    }
}

/// Every candidate of a hash is a move the book records for that hash.
pub proof fn lemma_candidates_recorded(es: Seq<(u64, Seq<char>)>, hash: u64, k: int)
    requires
        0 <= k < candidates(es, hash).len(),
    ensures
        exists|i: int| 0 <= i < es.len() && #[trigger] es[i] == (hash, candidates(es, hash)[k]),
    decreases es.len(),
{
    let c0 = candidates(es.drop_last(), hash);
    if k < c0.len() {
        lemma_candidates_recorded(es.drop_last(), hash, k);
        let i = choose|i: int| 0 <= i < es.drop_last().len() && #[trigger] es.drop_last()[i] == (hash, c0[k]);
        assert(es[i] == es.drop_last()[i]);
    } else {
        assert(es[es.len() - 1] == (hash, candidates(es, hash)[k]));
    }
}

} // verus!
