//! Magic bitboard attack tables for the sliders. For each square, the occupancy of the
//! squares on the slider's lines is multiplied by a magic number and shifted to an index
//! into a table of attack sets. Magic numbers are found at run time by trial and error
//! with a xorshift generator. Each table slot also records the occupancy it was built
//! for; an occupancy whose slot holds another one is answered by walking the rays.
use vstd::prelude::*;
use crate::board::bitboard::{has_bit, popcount, lemma_and_bits, lemma_zero_bits};
use crate::movegen::attacks::{
    rook_att, bishop_att, rook_attack, bishop_attack, ray_attack, in_ray, ray_measure, rook_attacks_slow,
    bishop_attacks_slow, lemma_in_ray_on_board,
};
use crate::board::bitboard::bits_where;

verus! {

/// The attack set of a rook (`is_rook`) or a bishop on `s` with blockers `occ`.
pub open spec fn slider_att(is_rook: bool, s: int, occ: u64) -> u64 {
    if is_rook { rook_att(s, occ) } else { bishop_att(s, occ) }
}

/// Whether the slider attacks `t` from `s` with blockers `occ`.
pub open spec fn slider_attack(is_rook: bool, s: int, occ: u64, t: int) -> bool {
    if is_rook { rook_attack(s, occ, t) } else { bishop_attack(s, occ, t) }
}

/// The index of an occupancy: the product with the magic number, shifted.
pub open spec fn magic_index(occ: u64, magic: u64, shift: u32) -> int {
    (occ.wrapping_mul(magic) >> shift) as int
}

/// The `n`-th occupancy of the enumeration of the subsets of `mask` (0 first, then each
/// next one by the carry-rippler step).
pub open spec fn ripple(mask: u64, n: nat) -> u64
    decreases n,
{
    if n == 0 { 0 } else { ripple(mask, (n - 1) as nat).wrapping_sub(mask) & mask }
}

/// `2^n`.
pub open spec fn pow2_nat(n: nat) -> nat
    decreases n,
{
    if n == 0 { 1 } else { 2 * pow2_nat((n - 1) as nat) }
}

proof fn lemma_pow2_mono(a: nat, b: nat)
    requires
        a <= b,
    ensures
        pow2_nat(a) <= pow2_nat(b),
    decreases b,
{
    if a < b {
        lemma_pow2_mono(a, (b - 1) as nat);
    }
}

/// `2^bits`, for at most 16 bits.
fn table_size(bits: u32) -> (size: usize)
    requires
        bits <= 16,
    ensures
        size as int == pow2_nat(bits as nat),
        1 <= size <= 65536,
{
    let mut size: usize = 1;
    let mut j: u32 = 0;
    proof {
        assert(pow2_nat(16) == 65536) by { reveal_with_fuel(pow2_nat, 17); }
        lemma_pow2_mono(bits as nat, 16);
    }
    while j < bits
        invariant
            j <= bits <= 16,
            size as int == pow2_nat(j as nat),
            pow2_nat(bits as nat) <= 65536,
        decreases bits - j,
    {
        proof { lemma_pow2_mono((j + 1) as nat, bits as nat); }
        size = size * 2;
        j = j + 1;
    }
    proof { lemma_pow2_mono(0, bits as nat); }
    size
}

/// One xorshift step: shifts left by 13, right by 7 and left by 17, each combined by xor.
pub open spec fn xorshift(x: u64) -> u64 {
    let a = x ^ (x << 13u64);
    let b = a ^ (a >> 7u64);
    b ^ (b << 17u64)
}

/// A xorshift pseudo-random generator.
pub struct Rng(pub u64);

impl Rng {
    pub fn new(seed: u64) -> (r: Rng)
        ensures
            r.0 == seed ^ 0x9E3779B97F4A7C15,
    {
        Rng(seed ^ 0x9E3779B97F4A7C15)
    }

    pub fn next(&mut self) -> (r: u64)
        ensures
            r == xorshift(old(self).0),
            final(self).0 == r,
    {
        let mut x = self.0;
        x = x ^ (x << 13u64);
        x = x ^ (x >> 7u64);
        x = x ^ (x << 17u64);
        self.0 = x;
        x
    }
}

/// The magic index of an occupancy.
fn magic_idx(occ: u64, magic: u64, shift: u32) -> (i: u64)
    requires
        shift < 64,
    ensures
        i as int == magic_index(occ, magic, shift),
{
    occ.wrapping_mul(magic) >> shift
}

/// The most trials `find_magic` makes.
pub const MAX_TRIALS: u32 = 1000000;

/// Searches for a magic number for the slider on `sq` with the line mask `mask` of
/// `bits` bits: one under which two subsets of the mask (in the carry-rippler
/// enumeration) share an index only when their attack sets agree. Candidates are sparse
/// random numbers; `None` after [`MAX_TRIALS`] failures.
pub fn find_magic(sq: u32, mask: u64, bits: u32, is_rook: bool) -> (m: Option<u64>)
    requires
        sq < 64,
        1 <= bits <= 16,
    ensures
        m matches Some(x) ==> forall|i: int, j: int| 0 <= i < pow2_nat(bits as nat) && 0 <= j < pow2_nat(bits as nat)
            && #[trigger] magic_index(ripple(mask, i as nat), x, (64 - bits) as u32)
                == #[trigger] magic_index(ripple(mask, j as nat), x, (64 - bits) as u32)
            ==> slider_att(is_rook, sq as int, ripple(mask, i as nat)) == slider_att(is_rook, sq as int, ripple(mask, j as nat)),
{
    let size: usize = table_size(bits);
    let mut occs: Vec<u64> = Vec::new();
    let mut attacks: Vec<u64> = Vec::new();
    let mut occ: u64 = 0;
    let mut i: usize = 0;
    while i < size
        invariant
            sq < 64,
            0 <= i <= size,
            occs@.len() == i,
            attacks@.len() == i,
            occ == ripple(mask, i as nat),
            forall|k: int| 0 <= k < i ==> #[trigger] occs@[k] == ripple(mask, k as nat),
            forall|k: int| 0 <= k < i ==> #[trigger] attacks@[k] == slider_att(is_rook, sq as int, occs@[k]),
        decreases size - i,
    {
        occs.push(occ);
        let a = if is_rook { rook_attacks_slow(sq, occ) } else { bishop_attacks_slow(sq, occ) };
        attacks.push(a);
        occ = occ.wrapping_sub(mask) & mask;
        i = i + 1;
    }
    let shift: u32 = 64 - bits;
    let mut rng = Rng::new(sq as u64 + 1);
    let mut trials: u32 = 0;
    while trials < MAX_TRIALS
        invariant
            occs@.len() == size,
            attacks@.len() == size,
            size as int == pow2_nat(bits as nat),
            shift == 64 - bits,
            1 <= bits <= 16,
            forall|k: int| 0 <= k < size ==> #[trigger] occs@[k] == ripple(mask, k as nat),
            forall|k: int| 0 <= k < size ==> #[trigger] attacks@[k] == slider_att(is_rook, sq as int, occs@[k]),
        decreases MAX_TRIALS - trials,
    {
        trials = trials + 1;
        let magic = rng.next() & rng.next() & rng.next();
        if popcount(mask.wrapping_mul(magic) >> 56u64) < 6 {
            continue;
        }
        let mut used: Vec<u64> = Vec::new();
        let mut filled: Vec<bool> = Vec::new();
        let mut k: usize = 0;
        while k < size
            invariant
                0 <= k <= size,
                used@.len() == k,
                filled@.len() == k,
                forall|j: int| 0 <= j < k ==> !(#[trigger] filled@[j]),
            decreases size - k,
        {
            used.push(u64::MAX);
            filled.push(false);
            k = k + 1;
        }
        let mut ok = true;
        let mut n: usize = 0;
        while ok && n < size
            invariant
                0 <= n <= size,
                used@.len() == size,
                filled@.len() == size,
                occs@.len() == size,
                attacks@.len() == size,
                shift < 64,
                forall|j: int| 0 <= j < n ==> magic_index(#[trigger] occs@[j], magic, shift) < size
                    && filled@[magic_index(occs@[j], magic, shift)]
                    && used@[magic_index(occs@[j], magic, shift)] == attacks@[j],
            decreases size - n + (if ok { 1int } else { 0int }),
        {
            let ix = magic_idx(occs[n], magic, shift);
            if ix >= size as u64 {
                ok = false;
            } else {
                let idx = ix as usize;
                let ghost n0 = n as int;
                if !filled[idx] {
                    let ghost u0 = used@;
                    let ghost f0 = filled@;
                    used.set(idx, attacks[n]);
                    filled.set(idx, true);
                    n = n + 1;
                    proof {
                        assert forall|j: int| 0 <= j < n implies magic_index(#[trigger] occs@[j], magic, shift) < size
                            && filled@[magic_index(occs@[j], magic, shift)]
                            && used@[magic_index(occs@[j], magic, shift)] == attacks@[j] by {
                            if j < n0 {
                                assert(f0[magic_index(occs@[j], magic, shift)]);
                            }
                        }
                    }
                } else if used[idx] != attacks[n] {
                    ok = false;
                } else {
                    n = n + 1;
                }
            }
        }
        if ok {
            proof {
                assert forall|a: int, b: int| 0 <= a < pow2_nat(bits as nat) && 0 <= b < pow2_nat(bits as nat)
                    && #[trigger] magic_index(ripple(mask, a as nat), magic, shift)
                        == #[trigger] magic_index(ripple(mask, b as nat), magic, shift)
                    implies slider_att(is_rook, sq as int, ripple(mask, a as nat))
                        == slider_att(is_rook, sq as int, ripple(mask, b as nat)) by {
                    assert(occs@[a] == ripple(mask, a as nat));
                    assert(occs@[b] == ripple(mask, b as nat));
                    assert(used@[magic_index(occs@[a], magic, shift)] == attacks@[a]);
                    assert(used@[magic_index(occs@[b], magic, shift)] == attacks@[b]);
                }
            }
            return Some(magic);
        }
    }
    None
}


/// A walk over blockers `occ` reaches the same squares over `occ & m` when `m` holds every
/// square the walk can reach on an empty board.
proof fn lemma_in_ray_masked(r: int, f: int, dr: int, df: int, occ: u64, m: u64, t: int)
    requires
        forall|x: int| #[trigger] in_ray(r, f, dr, df, 0, x) ==> has_bit(m, x),
    ensures
        in_ray(r, f, dr, df, occ & m, t) == in_ray(r, f, dr, df, occ, t),
    decreases ray_measure(r, f, dr, df),
{
    if (0 <= r < 8 && 0 <= f < 8) && !(dr == 0 && df == 0) && (-1 <= dr <= 1 && -1 <= df <= 1) {
        let sq = r * 8 + f;
        lemma_and_bits(occ, m);
        lemma_zero_bits();
        assert(in_ray(r, f, dr, df, 0, sq));
        assert forall|x: int| #[trigger] in_ray(r + dr, f + df, dr, df, 0, x) implies has_bit(m, x) by {
            assert(in_ray(r, f, dr, df, 0, x));
        }
        lemma_in_ray_masked(r + dr, f + df, dr, df, occ, m, t);
    }
}

/// One ray from `s` in direction (`dr`, `df`) ignores blockers outside the slider's
/// empty-board attack set `m`.
proof fn lemma_ray_masked(is_rook: bool, s: int, dr: int, df: int, occ: u64, m: u64, t: int)
    requires
        0 <= s < 64,
        forall|x: int| 0 <= x < 64 ==> #[trigger] has_bit(m, x) == slider_attack(is_rook, s, 0, x),
        ray_attack(s, dr, df, 0, t) ==> slider_attack(is_rook, s, 0, t),
        forall|x: int| ray_attack(s, dr, df, 0, x) ==> #[trigger] slider_attack(is_rook, s, 0, x),
    ensures
        ray_attack(s, dr, df, occ & m, t) == ray_attack(s, dr, df, occ, t),
{
    let r = crate::board::bitboard::rank_of(s) + dr;
    let f = crate::board::bitboard::file_of(s) + df;
    assert forall|x: int| #[trigger] in_ray(r, f, dr, df, 0, x) implies has_bit(m, x) by {
        lemma_in_ray_on_board(r, f, dr, df, 0, x);
        assert(ray_attack(s, dr, df, 0, x));
    }
    lemma_in_ray_masked(r, f, dr, df, occ, m, t);
}

/// A slider's attack set depends only on the blockers within its empty-board attack set.
pub proof fn lemma_slider_masked(is_rook: bool, s: int, occ: u64, m: u64)
    requires
        0 <= s < 64,
        forall|x: int| 0 <= x < 64 ==> #[trigger] has_bit(m, x) == slider_attack(is_rook, s, 0, x),
    ensures
        slider_att(is_rook, s, occ & m) == slider_att(is_rook, s, occ),
{
    if is_rook {
        assert forall|t: int| rook_attack(s, occ & m, t) == #[trigger] rook_attack(s, occ, t) by {
            lemma_ray_masked(is_rook, s, 1, 0, occ, m, t);
            lemma_ray_masked(is_rook, s, -1, 0, occ, m, t);
            lemma_ray_masked(is_rook, s, 0, 1, occ, m, t);
            lemma_ray_masked(is_rook, s, 0, -1, occ, m, t);
        }
        assert((|t: int| rook_attack(s, occ & m, t)) =~= (|t: int| rook_attack(s, occ, t)));
    } else {
        assert forall|t: int| bishop_attack(s, occ & m, t) == #[trigger] bishop_attack(s, occ, t) by {
            lemma_ray_masked(is_rook, s, 1, 1, occ, m, t);
            lemma_ray_masked(is_rook, s, 1, -1, occ, m, t);
            lemma_ray_masked(is_rook, s, -1, 1, occ, m, t);
            lemma_ray_masked(is_rook, s, -1, -1, occ, m, t);
        }
        assert((|t: int| bishop_attack(s, occ & m, t)) =~= (|t: int| bishop_attack(s, occ, t)));
    }
}

/// The magic table of one square: the line mask, the magic number and shift, and for
/// each slot the occupancy it was built for and its attack set.
pub struct MagicEntry {
    pub mask: u64,
    pub magic: u64,
    pub shift: u32,
    pub keys: Vec<u64>,
    pub attacks: Vec<u64>,
}

impl MagicEntry {
    /// The mask is the slider's empty-board attack set from `sq`, and every slot holds
    /// the attack set of the occupancy it records.
    pub open spec fn wf(&self, is_rook: bool, sq: int) -> bool {
        &&& self.shift < 64
        &&& forall|x: int| 0 <= x < 64 ==> #[trigger] has_bit(self.mask, x) == slider_attack(is_rook, sq, 0, x)
        &&& self.keys@.len() == self.attacks@.len()
        &&& forall|i: int| 0 <= i < self.keys@.len() ==> #[trigger] self.attacks@[i] == slider_att(is_rook, sq, self.keys@[i])
    }

    /// Builds the table of a rook (`is_rook`) or bishop on `sq`: the mask, a magic number,
    /// and the attack set of every subset of the mask at its index. Without a magic
    /// number (none found in the trials) the table is empty.
    pub fn build(sq: u32, is_rook: bool) -> (e: MagicEntry)
        requires
            sq < 64,
        ensures
            e.wf(is_rook, sq as int),
    {
        let mask = if is_rook { rook_attacks_slow(sq, 0) } else { bishop_attacks_slow(sq, 0) };
        let bits = popcount(mask);
        let empty = MagicEntry { mask, magic: 0, shift: 0, keys: Vec::new(), attacks: Vec::new() };
        if bits == 0 || bits > 16 {
            return empty;
        }
        let magic = match find_magic(sq, mask, bits, is_rook) {
            Some(m) => m,
            None => { return empty; },
        };
        let size = table_size(bits);
        let shift: u32 = 64 - bits;
        let base = if is_rook { rook_attacks_slow(sq, 0) } else { bishop_attacks_slow(sq, 0) };
        let mut keys: Vec<u64> = Vec::new();
        let mut attacks: Vec<u64> = Vec::new();
        let mut k: usize = 0;
        while k < size
            invariant
                0 <= k <= size,
                keys@.len() == k,
                attacks@.len() == k,
                base == slider_att(is_rook, sq as int, 0),
                forall|i: int| 0 <= i < k ==> #[trigger] attacks@[i] == slider_att(is_rook, sq as int, keys@[i]),
            decreases size - k,
        {
            keys.push(0);
            attacks.push(base);
            k = k + 1;
        }
        let mut occ: u64 = 0;
        let mut n: usize = 0;
        while n < size
            invariant
                sq < 64,
                0 <= n <= size,
                shift < 64,
                keys@.len() == size,
                attacks@.len() == size,
                forall|i: int| 0 <= i < size ==> #[trigger] attacks@[i] == slider_att(is_rook, sq as int, keys@[i]),
            decreases size - n,
        {
            let ix = magic_idx(occ, magic, shift);
            if ix < size as u64 {
                let a = if is_rook { rook_attacks_slow(sq, occ) } else { bishop_attacks_slow(sq, occ) };
                keys.set(ix as usize, occ);
                attacks.set(ix as usize, a);
            }
            occ = occ.wrapping_sub(mask) & mask;
            n = n + 1;
        }
        MagicEntry { mask, magic, shift, keys, attacks }
    }

    /// The attack set for blockers `occ`: the slot of the masked occupancy when it was
    /// built for it, else a walk along the rays.
    pub fn lookup(&self, is_rook: bool, sq: u32, occ: u64) -> (a: u64)
        requires
            self.wf(is_rook, sq as int),
            sq < 64,
        ensures
            a == slider_att(is_rook, sq as int, occ),
    {
        let k = occ & self.mask;
        let ix = magic_idx(k, self.magic, self.shift);
        if ix < self.keys.len() as u64 && self.keys[ix as usize] == k {
            proof {
                lemma_slider_masked(is_rook, sq as int, occ, self.mask);
            }
            self.attacks[ix as usize]
        } else if is_rook {
            rook_attacks_slow(sq, occ)
        } else {
            bishop_attacks_slow(sq, occ)
        }
    }
}

/// The magic tables of the rooks and bishops on every square.
pub struct SliderTables {
    pub rook: Vec<MagicEntry>,
    pub bishop: Vec<MagicEntry>,
}

impl SliderTables {
    /// A well-formed table for each square and each slider.
    pub open spec fn wf(&self) -> bool {
        &&& self.rook@.len() == 64
        &&& self.bishop@.len() == 64
        &&& forall|s: int| 0 <= s < 64 ==> (#[trigger] self.rook@[s]).wf(true, s)
        &&& forall|s: int| 0 <= s < 64 ==> (#[trigger] self.bishop@[s]).wf(false, s)
    }

    /// Rook attacks from `sq` with blockers `occ`, by table lookup.
    pub fn rook_attacks(&self, sq: u32, occ: u64) -> (a: u64)
        requires
            self.wf(),
            sq < 64,
        ensures
            a == rook_att(sq as int, occ),
    {
        self.rook[sq as usize].lookup(true, sq, occ)
    }

    /// Bishop attacks from `sq` with blockers `occ`, by table lookup.
    pub fn bishop_attacks(&self, sq: u32, occ: u64) -> (a: u64)
        requires
            self.wf(),
            sq < 64,
        ensures
            a == bishop_att(sq as int, occ),
    {
        self.bishop[sq as usize].lookup(false, sq, occ)
    }
}

/// Builds the magic tables of every square.
pub fn init_sliders() -> (t: SliderTables)
    ensures
        t.wf(),
{
    let mut rook: Vec<MagicEntry> = Vec::new();
    let mut bishop: Vec<MagicEntry> = Vec::new();
    let mut sq: u32 = 0;
    while sq < 64
        invariant
            0 <= sq <= 64,
            rook@.len() == sq,
            bishop@.len() == sq,
            forall|s: int| 0 <= s < sq ==> (#[trigger] rook@[s]).wf(true, s),
            forall|s: int| 0 <= s < sq ==> (#[trigger] bishop@[s]).wf(false, s),
        decreases 64 - sq,
    {
        bishop.push(MagicEntry::build(sq, false));
        rook.push(MagicEntry::build(sq, true));
        sq = sq + 1;
    }
    SliderTables { rook, bishop }
}

} // verus!
