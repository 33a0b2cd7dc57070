//! Polyglot opening books. A book is a sequence of 16-byte entries sorted by key: the
//! Zobrist key (big-endian `u64`), the move (big-endian `u16`), the weight (big-endian
//! `u16`) and four bytes of learning data, which are ignored.
//!
//! A move packs the destination file in bits 0–2, its rank in bits 3–5, the origin file
//! in bits 6–8, its rank in bits 9–11 and the promotion (0 none, 1 knight, 2 bishop,
//! 3 rook, 4 queen) in bits 12–14.
use vstd::prelude::*;
use crate::board::position::{Move, MoveFlag};
use crate::board::square::Square;
use crate::text::{chars_of, string_of};

verus! {

/// Size of an entry in bytes.
pub const ENTRY_SIZE: usize = 16;

#[derive(Debug, Clone, Copy)]
pub struct PolyglotEntry {
    pub key: u64,
    pub mv: u16,
    pub weight: u16,
}

pub struct PolyglotBook {
    entries: Vec<PolyglotEntry>,
}

/// The big-endian value of `n` bytes from `start`.
pub open spec fn be_value(bytes: Seq<u8>, start: int, n: nat) -> nat
    decreases n,
{
    if n == 0 { 0 } else { be_value(bytes, start, (n - 1) as nat) * 256 + bytes[start + n - 1] as nat }
}

/// The entry at index `i` of a book file.
pub open spec fn entry_at(bytes: Seq<u8>, i: int) -> PolyglotEntry {
    PolyglotEntry {
        key: be_value(bytes, 16 * i, 8) as u64,
        mv: be_value(bytes, 16 * i + 8, 2) as u16,
        weight: be_value(bytes, 16 * i + 10, 2) as u16,
    }
}

/// The entries are sorted by key, as a book file keeps them.
pub open spec fn sorted_by_key(es: Seq<PolyglotEntry>) -> bool {
    forall|i: int, j: int| 0 <= i <= j < es.len() ==> (#[trigger] es[i]).key <= (#[trigger] es[j]).key
}

/// `256^n`.
pub open spec fn pow256(n: nat) -> nat
    decreases n,
{
    if n == 0 { 1 } else { 256 * pow256((n - 1) as nat) }
}

/// Reads `n` (at most 8) bytes big-endian from `start`.
fn read_be(bytes: &[u8], start: usize, n: usize) -> (v: u64)
    requires
        n <= 8,
        start + n <= bytes@.len(),
    ensures
        v == be_value(bytes@, start as int, n as nat),
        v < pow256(n as nat),
{
    let mut v: u64 = 0;
    let len = bytes.len();
    let mut k: usize = 0;
    while k < n
        invariant
            n <= 8,
            len == bytes@.len(),
            start + n <= len,
            0 <= k <= n,
            v == be_value(bytes@, start as int, k as nat),
            v < pow256(k as nat),
        decreases n - k,
    {
        let b = bytes[start + k];
        assert(pow256(k as nat) <= pow256(7)) by {
            lemma_pow256_mono(k as nat, 7);
        }
        assert(pow256(7) == 72057594037927936) by { reveal_with_fuel(pow256, 8); }
        assert(v * 256 + b < pow256(k as nat) * 256) by (nonlinear_arith)
            requires v < pow256(k as nat), b < 256;
        v = v * 256 + b as u64;
        k = k + 1;
    }
    v
}

proof fn lemma_pow256_mono(a: nat, b: nat)
    requires
        a <= b,
    ensures
        pow256(a) <= pow256(b),
    decreases b,
{
    if a < b {
        lemma_pow256_mono(a, (b - 1) as nat);
    }
}

/// A UCI move's text from a Polyglot move: origin, destination, promotion letter.
pub open spec fn polyglot_uci(encoded: u16) -> Seq<char> {
    let to_file = encoded % 8;
    let to_rank = (encoded / 8) % 8;
    let from_file = (encoded / 64) % 8;
    let from_rank = (encoded / 512) % 8;
    let promo = (encoded / 4096) % 8;
    seq![(97 + from_file) as char, (49 + from_rank) as char, (97 + to_file) as char, (49 + to_rank) as char]
        + (if promo == 1 { seq!['n'] } else if promo == 2 { seq!['b'] } else if promo == 3 { seq!['r'] }
           else if promo == 4 { seq!['q'] } else { Seq::empty() })
}

/// The UCI text of a Polyglot move.
fn decode_polyglot_move_uci(encoded: u16) -> (s: String)
    ensures
        s@ == polyglot_uci(encoded),
{
    let to_file = (encoded % 8) as u8;
    let to_rank = ((encoded / 8) % 8) as u8;
    let from_file = ((encoded / 64) % 8) as u8;
    let from_rank = ((encoded / 512) % 8) as u8;
    let promo = (encoded / 4096) % 8;
    let mut cs: Vec<char> = Vec::new();
    cs.push((97u8 + from_file) as char);
    cs.push((49u8 + from_rank) as char);
    cs.push((97u8 + to_file) as char);
    cs.push((49u8 + to_rank) as char);
    if promo == 1 {
        cs.push('n');
    } else if promo == 2 {
        cs.push('b');
    } else if promo == 3 {
        cs.push('r');
    } else if promo == 4 {
        cs.push('q');
    }
    assert(cs@ =~= polyglot_uci(encoded));
    string_of(&cs)
}

/// The flag of a Polyglot promotion field: a promotion to knight, bishop, rook or queen,
/// else a normal move.
pub open spec fn polyglot_flag(promo: int) -> u32 {
    if promo == 1 { 5 } else if promo == 2 { 6 } else if promo == 3 { 7 } else if promo == 4 { 8 } else { 0 }
}

/// The move of a Polyglot move code: its origin and destination squares, promoting as its
/// promotion field says.
pub open spec fn polyglot_move(encoded: u16) -> Move {
    let to = (encoded / 8) % 8 * 8 + encoded % 8;
    let from = (encoded / 512) % 8 * 8 + (encoded / 64) % 8;
    Move(Move::encode(from, to, polyglot_flag(((encoded / 4096) % 8) as int)))
}

/// Decodes a Polyglot move code into a move.
fn decode_polyglot_move(encoded: u16) -> (m: Move)
    ensures
        m == polyglot_move(encoded),
{
    let to = ((encoded / 8) % 8) * 8 + encoded % 8;
    let from = ((encoded / 512) % 8) * 8 + (encoded / 64) % 8;
    let promo = (encoded / 4096) % 8;
    let flag = if promo == 1 {
        MoveFlag::PromoteKnight
    } else if promo == 2 {
        MoveFlag::PromoteBishop
    } else if promo == 3 {
        MoveFlag::PromoteRook
    } else if promo == 4 {
        MoveFlag::PromoteQueen
    } else {
        MoveFlag::Normal
    };
    Move::new(Square::from_index(from as u8), Square::from_index(to as u8), flag)
}

/// The move code that a scan of the entries with key `hash` from index `i` on keeps:
/// each entry heavier than the heaviest seen so far (`bw`, with move `bm`) replaces it, so
/// the first entry of the highest weight wins.
pub open spec fn best_code(es: Seq<PolyglotEntry>, i: int, hash: u64, bw: u16, bm: u16) -> u16
    decreases es.len() - i,
{
    if i < 0 || i >= es.len() || es[i].key != hash {
        bm
    } else if es[i].weight > bw {
        best_code(es, i + 1, hash, es[i].weight, es[i].mv)
    } else {
        best_code(es, i + 1, hash, bw, bm)
    }
}

/// The moves of one key with their weights, heaviest first, equal weights in book order.
pub open spec fn insert_by_weight(s: Seq<(Seq<char>, u16)>, x: (Seq<char>, u16)) -> Seq<(Seq<char>, u16)>
    decreases s.len(),
{
    if s.len() == 0 {
        seq![x]
    } else if s[0].1 >= x.1 {
        seq![s[0]] + insert_by_weight(s.drop_first(), x)
    } else {
        seq![x] + s
    }
}

/// Stable sort by weight, heaviest first.
pub open spec fn sort_by_weight(s: Seq<(Seq<char>, u16)>) -> Seq<(Seq<char>, u16)>
    decreases s.len(),
{
    if s.len() == 0 { Seq::empty() } else { insert_by_weight(sort_by_weight(s.drop_last()), s.last()) }
}

/// The run of entries with key `hash` from index `i` on.
pub open spec fn run_from(es: Seq<PolyglotEntry>, i: int, hash: u64) -> Seq<PolyglotEntry>
    decreases es.len() - i,
{
    if i < 0 || i >= es.len() || es[i].key != hash {
        Seq::empty()
    } else {
        seq![es[i]] + run_from(es, i + 1, hash)
    }
}

/// The first index from `i` on whose key is not below `hash`, or the end.
pub open spec fn first_not_below(es: Seq<PolyglotEntry>, hash: u64, i: int) -> int
    decreases es.len() - i,
{
    if i < 0 || i >= es.len() {
        es.len() as int
    } else if es[i].key >= hash {
        i
    } else {
        first_not_below(es, hash, i + 1)
    }
}

/// The first index whose key is not below `hash`.
pub open spec fn lower_bound(es: Seq<PolyglotEntry>, hash: u64) -> int {
    first_not_below(es, hash, 0)
}

/// The moves and weights of the entries with key `hash`, heaviest first.
pub open spec fn probe_all_spec(es: Seq<PolyglotEntry>, hash: u64) -> Seq<(Seq<char>, u16)> {
    let run = run_from(es, lower_bound(es, hash), hash);
    sort_by_weight(Seq::new(run.len(), |k: int| (polyglot_uci(run[k].mv), run[k].weight)))
}

/// The book move for `hash`: none without an entry for it, else the first of its
/// highest-weight moves.
pub open spec fn probe_spec(es: Seq<PolyglotEntry>, hash: u64) -> Option<Move> {
    if run_from(es, lower_bound(es, hash), hash).len() > 0 {
        Some(polyglot_move(best_code(es, lower_bound(es, hash), hash, 0, 0)))
    } else {
        None
    }
}

impl PolyglotBook {
    /// The book's entries.
    pub closed spec fn entries_spec(&self) -> Seq<PolyglotEntry> {
        self.entries@
    }

    /// Reads a book from the bytes of a book file: an error unless their number is a
    /// multiple of 16.
    pub fn load(bytes: &[u8]) -> (r: Result<PolyglotBook, String>)
        ensures
            bytes@.len() % 16 != 0 <==> r is Err,
            r matches Err(e) ==> e@ == "Invalid polyglot file: size not multiple of 16"@,
            r matches Ok(b) ==> b.entries_spec() == Seq::new((bytes@.len() / 16) as nat, |i: int| entry_at(bytes@, i)),
    {
        if bytes.len() % ENTRY_SIZE != 0 {
            return Err(string_of(&chars_of("Invalid polyglot file: size not multiple of 16")));
        }
        let len = bytes.len();
        let num_entries = len / ENTRY_SIZE;
        let mut entries: Vec<PolyglotEntry> = Vec::new();
        let mut i: usize = 0;
        while i < num_entries
            invariant
                len == bytes@.len(),
                num_entries == bytes@.len() / 16,
                0 <= i <= num_entries,
                entries@ == Seq::new(i as nat, |k: int| entry_at(bytes@, k)),
            decreases num_entries - i,
        {
            assert(i * 16 + 16 <= len) by (nonlinear_arith)
                requires i < num_entries, num_entries == len / 16;
            let off = i * ENTRY_SIZE;
            let key = read_be(bytes, off, 8);
            let mv = read_be(bytes, off + 8, 2);
            let weight = read_be(bytes, off + 10, 2);
            assert(pow256(2) == 65536) by { reveal_with_fuel(pow256, 3); }
            entries.push(PolyglotEntry { key, mv: mv as u16, weight: weight as u16 });
            i = i + 1;
            assert(entries@ =~= Seq::new(i as nat, |k: int| entry_at(bytes@, k)));
        }
        Ok(PolyglotBook { entries })
    }

    /// The first index whose key is not below `hash`, by binary search.
    fn partition_point(&self, hash: u64) -> (idx: usize)
        requires
            sorted_by_key(self.entries@),
        ensures
            idx <= self.entries@.len(),
            forall|j: int| 0 <= j < idx ==> (#[trigger] self.entries@[j]).key < hash,
            idx < self.entries@.len() ==> self.entries@[idx as int].key >= hash,
    {
        let mut lo: usize = 0;
        let mut hi: usize = self.entries.len();
        while lo < hi
            invariant
                sorted_by_key(self.entries@),
                0 <= lo <= hi <= self.entries@.len(),
                forall|j: int| 0 <= j < lo ==> (#[trigger] self.entries@[j]).key < hash,
                forall|j: int| hi <= j < self.entries@.len() ==> (#[trigger] self.entries@[j]).key >= hash,
            decreases hi - lo,
        {
            let mid = lo + (hi - lo) / 2;
            if self.entries[mid].key < hash {
                lo = mid + 1;
            } else {
                hi = mid;
            }
        }
        lo
    }

    /// The book move for `hash`: the first of its highest-weight moves, if the book has
    /// an entry for it.
    pub fn probe(&self, hash: u64) -> (r: Option<Move>)
        requires
            sorted_by_key(self.entries_spec()),
        ensures
            r == probe_spec(self.entries_spec(), hash),
    {
        let ghost es = self.entries@;
        let idx = self.partition_point(hash);
        proof {
            lemma_lower_bound(es, hash, idx as int);
        }
        if idx >= self.entries.len() || self.entries[idx].key != hash {
            return None;
        }
        let mut best_weight = 0u16;
        let mut best_mv = 0u16;
        let mut i = idx;
        while i < self.entries.len() && self.entries[i].key == hash
            invariant
                es == self.entries@,
                idx <= i <= es.len(),
                best_code(es, idx as int, hash, 0, 0) == best_code(es, i as int, hash, best_weight, best_mv),
            decreases es.len() - i,
        {
            if self.entries[i].weight > best_weight {
                best_weight = self.entries[i].weight;
                best_mv = self.entries[i].mv;
            }
            i = i + 1;
        }
        Some(decode_polyglot_move(best_mv))
    }

    /// All moves of `hash` with their weights, heaviest first.
    pub fn probe_all(&self, hash: u64) -> (r: Vec<(String, u16)>)
        requires
            sorted_by_key(self.entries_spec()),
        ensures
            r@.len() == probe_all_spec(self.entries_spec(), hash).len(),
            forall|k: int| 0 <= k < r@.len() ==> (#[trigger] r@[k]).0@ == probe_all_spec(self.entries_spec(), hash)[k].0
                && r@[k].1 == probe_all_spec(self.entries_spec(), hash)[k].1,
    {
        let ghost es = self.entries@;
        let idx = self.partition_point(hash);
        proof {
            lemma_lower_bound(es, hash, idx as int);
        }
        let ghost run = run_from(es, idx as int, hash);
        let ghost items = Seq::new(run.len(), |k: int| (polyglot_uci(run[k].mv), run[k].weight));
        let mut result: Vec<(String, u16)> = Vec::new();
        let mut i = idx;
        let ghost mut done: Seq<(Seq<char>, u16)> = Seq::empty();
        while i < self.entries.len() && self.entries[i].key == hash
            invariant
                es == self.entries@,
                idx <= i <= es.len(),
                run == run_from(es, idx as int, hash),
                run_from(es, idx as int, hash) == Seq::new((i - idx) as nat, |k: int| es[idx + k]) + run_from(es, i as int, hash),
                done == Seq::new((i - idx) as nat, |k: int| (polyglot_uci(es[idx + k].mv), es[idx + k].weight)),
                result@.len() == sort_by_weight(done).len(),
                forall|k: int| 0 <= k < result@.len() ==> (#[trigger] result@[k]).0@ == sort_by_weight(done)[k].0
                    && result@[k].1 == sort_by_weight(done)[k].1,
            decreases es.len() - i,
        {
            let e = self.entries[i];
            let mv_uci = decode_polyglot_move_uci(e.mv);
            let ghost x = (polyglot_uci(e.mv), e.weight);
            insert_sorted(&mut result, mv_uci, e.weight, Ghost(sort_by_weight(done)));
            proof {
                let next = Seq::new((i + 1 - idx) as nat, |k: int| (polyglot_uci(es[idx + k].mv), es[idx + k].weight));
                assert(next.drop_last() =~= done);
                assert(next.last() == x);
                assert(run_from(es, i as int, hash) == seq![es[i as int]] + run_from(es, i as int + 1, hash));
                assert(Seq::new((i + 1 - idx) as nat, |k: int| es[idx + k])
                    =~= Seq::new((i - idx) as nat, |k: int| es[idx + k]) + seq![es[i as int]]);
                done = next;
            }
            i = i + 1;
        }
        proof {
            assert(run_from(es, i as int, hash) =~= Seq::<PolyglotEntry>::empty());
            assert(run =~= Seq::new((i - idx) as nat, |k: int| es[idx + k]));
            assert(items =~= done);
        }
        result
    }

    /// The number of entries.
    pub fn num_entries(&self) -> (n: usize)
        ensures
            n == self.entries_spec().len(),
    {
        self.entries.len()
    }
}

/// The index found by binary search is the lower bound.
proof fn lemma_lower_bound(es: Seq<PolyglotEntry>, hash: u64, idx: int)
    requires
        0 <= idx <= es.len(),
        forall|j: int| 0 <= j < idx ==> (#[trigger] es[j]).key < hash,
        idx < es.len() ==> es[idx].key >= hash,
    ensures
        lower_bound(es, hash) == idx,
{
    lemma_first_not_below(es, hash, idx, 0);
}

proof fn lemma_first_not_below(es: Seq<PolyglotEntry>, hash: u64, idx: int, i: int)
    requires
        0 <= i <= idx <= es.len(),
        forall|j: int| 0 <= j < idx ==> (#[trigger] es[j]).key < hash,
        idx < es.len() ==> es[idx].key >= hash,
    ensures
        first_not_below(es, hash, i) == idx,
    decreases idx - i,
{
    if i < idx {
        assert(es[i].key < hash);
        lemma_first_not_below(es, hash, idx, i + 1);
    }
}

/// The weight of item `i`.
fn weight_at(v: &Vec<(String, u16)>, i: usize) -> (w: u16)
    requires
        i < v@.len(),
    ensures
        w == v@[i as int].1,
{
    v[i].1
}

/// Inserts a move after every move at least as heavy.
fn insert_sorted(result: &mut Vec<(String, u16)>, mv: String, weight: u16, s: Ghost<Seq<(Seq<char>, u16)>>)
    requires
        old(result)@.len() == s@.len(),
        forall|k: int| 0 <= k < old(result)@.len() ==> (#[trigger] old(result)@[k]).0@ == s@[k].0 && old(result)@[k].1 == s@[k].1,
    ensures
        final(result)@.len() == insert_by_weight(s@, (mv@, weight)).len(),
        forall|k: int| 0 <= k < final(result)@.len() ==> (#[trigger] final(result)@[k]).0@ == insert_by_weight(s@, (mv@, weight))[k].0
            && final(result)@[k].1 == insert_by_weight(s@, (mv@, weight))[k].1,
{
    let ghost x = (mv@, weight);
    let mut pos: usize = 0;
    assert(s@.take(0) + s@.skip(0) =~= s@);
    assert(s@.take(0) =~= Seq::<(Seq<char>, u16)>::empty());
    assert(s@.skip(0) =~= s@);
    let n = result.len();
    let mut more = n > 0 && weight_at(result, 0) >= weight;
    while more
        invariant
            n == result@.len(),
            x == (mv@, weight),
            result@ == old(result)@,
            0 <= pos <= s@.len(),
            result@.len() == s@.len(),
            forall|k: int| 0 <= k < result@.len() ==> (#[trigger] result@[k]).0@ == s@[k].0 && result@[k].1 == s@[k].1,
            insert_by_weight(s@, x) == s@.take(pos as int) + insert_by_weight(s@.skip(pos as int), x),
            more ==> pos < s@.len() && s@[pos as int].1 >= x.1,
            !more ==> pos >= s@.len() || s@[pos as int].1 < x.1,
        decreases s@.len() - pos,
    {
        proof {
            let t = s@.skip(pos as int);
            assert(t[0] == s@[pos as int]);
            assert(t.drop_first() =~= s@.skip(pos as int + 1));
            assert(insert_by_weight(t, x) == seq![t[0]] + insert_by_weight(t.drop_first(), x));
            assert(s@.take(pos as int + 1) =~= s@.take(pos as int) + seq![t[0]]);
        }
        pos = pos + 1;
        more = pos < n && weight_at(result, pos) >= weight;
    }
    proof {
        let t = s@.skip(pos as int);
        if pos < s@.len() {
            assert(t[0] == s@[pos as int]);
            assert(insert_by_weight(t, x) == seq![x] + t);
        } else {
            assert(t =~= Seq::<(Seq<char>, u16)>::empty());
        }
    }
    result.insert(pos, (mv, weight));
    proof {
        let t = s@.skip(pos as int);
        let expect = insert_by_weight(s@, x);
        assert(expect =~= s@.take(pos as int) + seq![x] + t);
    }
}

/// Weights never increase along the sequence.
pub open spec fn heaviest_first(s: Seq<(Seq<char>, u16)>) -> bool {
    forall|i: int, j: int| 0 <= i <= j < s.len() ==> (#[trigger] s[i]).1 >= (#[trigger] s[j]).1
}

proof fn lemma_insert_sorted(s: Seq<(Seq<char>, u16)>, x: (Seq<char>, u16))
    requires
        heaviest_first(s),
    ensures
        heaviest_first(insert_by_weight(s, x)),
        insert_by_weight(s, x).len() == s.len() + 1,
        forall|k: int| 0 <= k < insert_by_weight(s, x).len() ==> #[trigger] insert_by_weight(s, x)[k] == x
            || s.contains(insert_by_weight(s, x)[k]),
    decreases s.len(),
{
    if s.len() > 0 && s[0].1 >= x.1 {
        let t = s.drop_first();
        assert(heaviest_first(t)) by {
            assert forall|i: int, j: int| 0 <= i <= j < t.len() implies (#[trigger] t[i]).1 >= (#[trigger] t[j]).1 by {
                assert(s[i + 1].1 >= s[j + 1].1);
            }
        }
        lemma_insert_sorted(t, x);
        let r = insert_by_weight(t, x);
        let whole = seq![s[0]] + r;
        assert forall|k: int| 0 <= k < r.len() implies (#[trigger] r[k]).1 <= s[0].1 by {
            if r[k] != x {
                assert(t.contains(r[k]));
                let j = choose|j: int| 0 <= j < t.len() && t[j] == r[k];
                assert(s[j + 1] == t[j]);
            }
        }
        assert forall|i: int, j: int| 0 <= i <= j < whole.len() implies (#[trigger] whole[i]).1 >= (#[trigger] whole[j]).1 by {
            if i > 0 {
                assert(whole[i] == r[i - 1] && whole[j] == r[j - 1]);
            } else if j > 0 {
                assert(whole[j] == r[j - 1]);
            }
        }
        assert forall|k: int| 0 <= k < whole.len() implies #[trigger] whole[k] == x || s.contains(whole[k]) by {
            if k == 0 {
                assert(s[0] == whole[0]);
            } else {
                assert(whole[k] == r[k - 1]);
                if r[k - 1] != x {
                    let j = choose|j: int| 0 <= j < t.len() && t[j] == r[k - 1];
                    assert(s[j + 1] == t[j]);
                }
            }
        }
    } else if s.len() > 0 {
        let whole = seq![x] + s;
        assert forall|i: int, j: int| 0 <= i <= j < whole.len() implies (#[trigger] whole[i]).1 >= (#[trigger] whole[j]).1 by {
            if i == 0 && j > 0 {
                assert(whole[j] == s[j - 1]);
                assert(s[0].1 >= s[j - 1].1);
            } else if i > 0 {
                assert(whole[i] == s[i - 1] && whole[j] == s[j - 1]);
            }
        }
        assert forall|k: int| 0 <= k < whole.len() implies #[trigger] whole[k] == x || s.contains(whole[k]) by {
            if k > 0 {
                assert(whole[k] == s[k - 1]);
            }
        }
    }
}

/// The moves of a key come heaviest first.
pub proof fn lemma_probe_all_heaviest_first(es: Seq<PolyglotEntry>, hash: u64)
    ensures
        heaviest_first(probe_all_spec(es, hash)),
{
    let run = run_from(es, lower_bound(es, hash), hash);
    lemma_sort_sorted(Seq::new(run.len(), |k: int| (polyglot_uci(run[k].mv), run[k].weight)));
}

proof fn lemma_sort_sorted(s: Seq<(Seq<char>, u16)>)
    ensures
        heaviest_first(sort_by_weight(s)),
    decreases s.len(),
{
    if s.len() > 0 {
        lemma_sort_sorted(s.drop_last());
        lemma_insert_sorted(sort_by_weight(s.drop_last()), s.last());
    }
}

} // verus!
