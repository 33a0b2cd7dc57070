//! Network weights and feature indexing.
//!
//! Each perspective's input is one feature per piece: the king bucket of that side's
//! king (by rank, the board mirrored so the king stands on files e–h), the piece's
//! color (swapped for Black's perspective), its type and its square (flipped vertically
//! for Black's perspective, mirrored with the king).
use vstd::prelude::*;

verus! {

pub const L1_SIZE: usize = 256;
pub const KING_BUCKETS: usize = 4;
pub const INPUT_SIZE: usize = 3072;

/// King bucket by square: two ranks per bucket.
pub const KING_BUCKET_MAP: [usize; 64] = [
    0, 0, 0, 0, 0, 0, 0, 0,
    0, 0, 0, 0, 0, 0, 0, 0,
    1, 1, 1, 1, 1, 1, 1, 1,
    1, 1, 1, 1, 1, 1, 1, 1,
    2, 2, 2, 2, 2, 2, 2, 2,
    2, 2, 2, 2, 2, 2, 2, 2,
    3, 3, 3, 3, 3, 3, 3, 3,
    3, 3, 3, 3, 3, 3, 3, 3,
];

/// The feature of a piece from one perspective.
pub open spec fn feature_spec(king_sq: usize, piece_color: usize, piece_type: usize, piece_sq: usize, perspective: usize) -> int {
    let (sq, color) = if perspective == 1 { (piece_sq ^ 56, piece_color ^ 1) } else { (piece_sq, piece_color) };
    let sq = if king_sq % 8 < 4 { sq ^ 7 } else { sq };
    (king_sq / 16) * 768 + color * 384 + piece_type * 64 + sq
}

/// Compute the feature index for a piece from a given perspective.
pub fn feature_index(king_sq: usize, piece_color: usize, piece_type: usize, piece_sq: usize, perspective: usize) -> (i: usize)
    requires
        king_sq < 64,
        piece_color < 2,
        piece_type < 6,
        piece_sq < 64,
    ensures
        i == feature_spec(king_sq, piece_color, piece_type, piece_sq, perspective),
        i < INPUT_SIZE,
{
    proof {
        assert((piece_sq < 64 ==> (piece_sq ^ 56) < 64 && (piece_sq ^ 7) < 64 && ((piece_sq ^ 56) ^ 7) < 64)
            && (piece_color < 2 ==> (piece_color ^ 1) < 2)) by (bit_vector);
    }
    let king_file = king_sq % 8;
    let bucket = KING_BUCKET_MAP[king_sq];
    assert(bucket == king_sq / 16);
    let (sq, color) = if perspective == 1 { (piece_sq ^ 56, piece_color ^ 1) } else { (piece_sq, piece_color) };
    let sq = if king_file < 4 { sq ^ 7 } else { sq };
    bucket * 768 + color * 384 + piece_type * 64 + sq
}

/// Output scale: network output to centipawns.
pub const NETWORK_SCALE: i32 = 400;
/// Quantization scale of the hidden layer.
pub const QA: i32 = 255;
/// Quantization scale of the output weights.
pub const QB: i32 = 64;
/// Combined scale, QA × QB.
pub const QAB: i32 = 16320;

pub const FEATURE_WEIGHT_COUNT: usize = 786432;
pub const FEATURE_BIAS_COUNT: usize = 256;
pub const OUTPUT_WEIGHT_COUNT: usize = 512;
pub const OUTPUT_BIAS_COUNT: usize = 1;
/// Size in bytes of a network file: every weight an `i16`.
pub const EXPECTED_BYTES: usize = 1574402;

/// The `i16` stored little-endian at byte `i` of `bytes`.
pub open spec fn le_i16(bytes: Seq<u8>, i: int) -> i16 {
    (bytes[i] as u16 | ((bytes[i + 1] as u16) << 8u16)) as i16
}

/// The `count` little-endian `i16` values from byte `start` on.
pub open spec fn le_i16s(bytes: Seq<u8>, start: int, count: int) -> Seq<i16> {
    Seq::new(count as nat, |k: int| le_i16(bytes, start + 2 * k))
}

/// Parsed network weights.
pub struct NetworkWeights {
    /// Weight matrix, [feature][neuron].
    pub feature_weights: Vec<i16>,
    pub feature_biases: Vec<i16>,
    /// Output weights: side to move's half, then the opponent's.
    pub output_weights: Vec<i16>,
    pub output_bias: i16,
}

impl NetworkWeights {
    /// The weight vectors have their sizes.
    pub open spec fn wf(&self) -> bool {
        &&& self.feature_weights@.len() == FEATURE_WEIGHT_COUNT
        &&& self.feature_biases@.len() == FEATURE_BIAS_COUNT
        &&& self.output_weights@.len() == OUTPUT_WEIGHT_COUNT
    }

    /// Weights read from a network file: `None` unless it has exactly the expected size.
    pub fn from_bytes(bytes: &[u8]) -> (r: Option<NetworkWeights>)
        ensures
            bytes@.len() != EXPECTED_BYTES ==> r is None,
            bytes@.len() == EXPECTED_BYTES ==> (r matches Some(w) && w.wf()
                && w.feature_weights@ == le_i16s(bytes@, 0, FEATURE_WEIGHT_COUNT as int)
                && w.feature_biases@ == le_i16s(bytes@, 2 * FEATURE_WEIGHT_COUNT, FEATURE_BIAS_COUNT as int)
                && w.output_weights@ == le_i16s(bytes@, 2 * (FEATURE_WEIGHT_COUNT + FEATURE_BIAS_COUNT), OUTPUT_WEIGHT_COUNT as int)
                && w.output_bias == le_i16(bytes@, 2 * (FEATURE_WEIGHT_COUNT + FEATURE_BIAS_COUNT + OUTPUT_WEIGHT_COUNT))),
    {
        if bytes.len() != EXPECTED_BYTES {
            return None;
        }
        let feature_weights = read_i16s(bytes, 0, FEATURE_WEIGHT_COUNT);
        let feature_biases = read_i16s(bytes, 2 * FEATURE_WEIGHT_COUNT, FEATURE_BIAS_COUNT);
        let output_weights = read_i16s(bytes, 2 * (FEATURE_WEIGHT_COUNT + FEATURE_BIAS_COUNT), OUTPUT_WEIGHT_COUNT);
        let output_bias_vec = read_i16s(bytes, 2 * (FEATURE_WEIGHT_COUNT + FEATURE_BIAS_COUNT + OUTPUT_WEIGHT_COUNT), OUTPUT_BIAS_COUNT);
        Some(NetworkWeights { feature_weights, feature_biases, output_weights, output_bias: output_bias_vec[0] })
    }

    /// The embedded network: none is built in, so there are no weights and evaluation
    /// falls back to the hand-crafted terms.
    pub fn load() -> (r: Option<NetworkWeights>)
        ensures
            r is None,
    {
        let bytes: Vec<u8> = Vec::new();
        NetworkWeights::from_bytes(bytes.as_slice())
    }
}

/// `i16::from_le_bytes`.
fn i16_from_le(b0: u8, b1: u8) -> (v: i16)
    ensures
        v == (b0 as u16 | ((b1 as u16) << 8u16)) as i16,
{
    (b0 as u16 | ((b1 as u16) << 8)) as i16
}

/// Reads `count` little-endian `i16` values from byte `start` on.
fn read_i16s(bytes: &[u8], start: usize, count: usize) -> (v: Vec<i16>)
    requires
        start + 2 * count <= bytes@.len(),
    ensures
        v@ == le_i16s(bytes@, start as int, count as int),
{
    let mut v: Vec<i16> = Vec::new();
    let len = bytes.len();
    let mut k: usize = 0;
    while k < count
        invariant
            len == bytes@.len(),
            start + 2 * count <= len,
            0 <= k <= count,
            v@ == le_i16s(bytes@, start as int, k as int),
        decreases count - k,
    {
        let o = start + 2 * k;
        v.push(i16_from_le(bytes[o], bytes[o + 1]));
        k = k + 1;
        assert(v@ =~= le_i16s(bytes@, start as int, k as int));
    }
    v
}

} // verus!
