//! The boundary detector: an 8 KiB membership bitmap over all 65,536 ordered
//! byte pairs, plus the streaming state (position since the last boundary and
//! the rolling two-byte window).

use vstd::prelude::*;

verus! {

/// The 16-bit code of an ordered byte pair: the first byte in the high
/// 8 bits, the second byte in the low 8 bits.
pub open spec fn pair_val(b1: u8, b2: u8) -> u16 {
    ((b1 as u16) << 8) | (b2 as u16)
}

/// The rolling window after one more byte arrives: the previous low byte
/// moves to the high bits and the new byte takes the low bits.
pub open spec fn step_window(w: u16, b: u8) -> u16 {
    (w << 8) | (b as u16)
}

/// The rolling window after the first `n` bytes of `data` have arrived,
/// starting from window `w0`.
pub open spec fn window_after(w0: u16, data: Seq<u8>, n: int) -> u16
    decreases n,
{
    if n <= 0 {
        w0
    } else {
        step_window(window_after(w0, data, n - 1), data[n - 1])
    }
}

/// The bitmap cell that holds the bit for pair code `v`.
pub open spec fn cell_of(v: u16) -> int {
    v as int / 8
}

/// The bit position of pair code `v` within its cell.
pub open spec fn bit_of(v: u16) -> u8 {
    (v as int % 8) as u8
}

/// Whether bit `bit` of a bitmap cell is set.
pub open spec fn bit_is_set(cell: u8, bit: u8) -> bool {
    (cell >> bit) & 1u8 == 1u8
}

proof fn lemma_zero_cell_has_no_bits(bit: u8)
    by (bit_vector)
    ensures
        !bit_is_set(0u8, bit),
{
}

proof fn lemma_or_sets_one_bit(cell: u8, i: u32, j: u8)
    by (bit_vector)
    requires
        i < 8,
        j < 8,
    ensures
        bit_is_set(cell | (1u8 << i), j) <==> (bit_is_set(cell, j) || i == j as u32),
{
}

proof fn lemma_mask_tests_bit(cell: u8, i: u32, j: u8)
    by (bit_vector)
    requires
        i < 8,
        j < 8,
        i == j as u32,
    ensures
        (cell & (1u8 << i) != 0) <==> bit_is_set(cell, j),
{
}

/// Two pair codes with the same cell and the same bit are the same code.
proof fn lemma_cell_bit_identify(v: u16, w: u16)
    by (bit_vector)
    requires
        v / 8 == w / 8,
        v % 8 == w % 8,
    ensures
        v == w,
{
}

pub proof fn lemma_pair_val_injective(a: u8, b: u8, c: u8, d: u8)
    by (bit_vector)
    ensures
        pair_val(a, b) == pair_val(c, d) <==> (a == c && b == d),
{
}

/// Every pair code is the code of the pair formed by its two bytes.
pub proof fn lemma_pair_val_covers(v: u16)
    by (bit_vector)
    ensures
        pair_val((v >> 8) as u8, v as u8) == v,
{
}

/// Ingesting two bytes leaves the window equal to their pair code, whatever
/// the window held before.
pub proof fn lemma_two_steps(w: u16, x: u8, y: u8)
    by (bit_vector)
    ensures
        step_window(step_window(w, x), y) == pair_val(x, y),
{
}

/// Streaming progress within the current chunk.
#[derive(Clone, Debug)]
struct BFBCChunkerState {
    /// The current position relative to the last chunk boundary.
    pos: usize,

    /// The rolling two-byte window; the low byte is the most recently
    /// ingested byte.
    window: u16,
}

impl BFBCChunkerState {
    fn reset(&mut self)
        ensures
            final(self).pos == 0,
            final(self).window == 0,
    {
        self.pos = 0;
        self.window = 0;
    }

    fn ingest(&mut self, b: u8)
        requires
            old(self).pos < usize::MAX,
        ensures
            final(self).pos == old(self).pos + 1,
            final(self).window == step_window(old(self).window, b),
    {
        self.pos = self.pos + 1;
        self.window = self.window << 8 | b as u16;
    }
}

/// A chunker implementing the Bytes Frequency-Based Chunking (BFBC)
/// algorithm.
///
/// The algorithm sets chunk boundaries based on frequently occurring byte
/// pairs. A minimum chunk size is enforced; afterwards, a sliding window of
/// two bytes is compared to the set of frequent byte pairs.
///
/// The set of frequent byte pairs is stored as a 2^16-bit (8 KiB) bitmap, so
/// the membership test runs in constant time regardless of how many pairs
/// were configured. Prior frequency analysis of the dataset supplies the
/// pair set; that analysis is not implemented here, and neither is a maximum
/// chunk size.
#[derive(Clone, Debug)]
pub struct BFBCChunker {
    frequent_byte_pairs: Vec<u8>,
    min_chunk_size: usize,
    state: BFBCChunkerState,
}

impl BFBCChunker {
    /// Whether the pair with code `v` is in the frequent-pair set.
    pub closed spec fn frequent(self, v: u16) -> bool {
        bit_is_set(self.frequent_byte_pairs@[cell_of(v)], bit_of(v))
    }

    /// The configured minimum chunk size.
    pub closed spec fn min_size(self) -> int {
        self.min_chunk_size as int
    }

    /// Bytes ingested since the last boundary or reset.
    pub closed spec fn pos(self) -> int {
        self.state.pos as int
    }

    /// The current rolling two-byte window.
    pub closed spec fn window(self) -> u16 {
        self.state.window
    }

    /// The bitmap spans all 65,536 pairs and the minimum chunk size is at
    /// least the window width.
    pub closed spec fn wf(self) -> bool {
        &&& self.frequent_byte_pairs@.len() == 8192
        &&& self.min_chunk_size >= 2
    }

    /// Creates a new chunker using the Bytes Frequency-Based Chunking
    /// algorithm.
    ///
    /// The given byte pairs are the frequent pairs against which each sliding
    /// window is checked once `min_chunk_size` bytes have been ingested.
    /// `min_chunk_size` must be at least 2, the size of the window.
    pub fn new(frequent_byte_pairs: Vec<(u8, u8)>, min_chunk_size: usize) -> (r: BFBCChunker)
        requires
            min_chunk_size >= 2,
        ensures
            r.wf(),
            r.min_size() == min_chunk_size,
            r.pos() == 0,
            r.window() == 0,
            forall|b1: u8, b2: u8|
                r.frequent(#[trigger] pair_val(b1, b2)) <==> frequent_byte_pairs@.contains(
                    (b1, b2),
                ),
    {
        let mut bitmap: Vec<u8> = Vec::new();
        let mut c: usize = 0;
        while c < 8192
            invariant
                c <= 8192,
                bitmap@.len() == c,
                forall|j: int| 0 <= j < c ==> bitmap@[j] == 0u8,
            decreases 8192 - c,
        {
            bitmap.push(0u8);
            c = c + 1;
        }

        assert forall|b1: u8, b2: u8|
            !bit_is_set(bitmap@[cell_of(#[trigger] pair_val(b1, b2))], bit_of(pair_val(b1, b2)))
        by {
            lemma_zero_cell_has_no_bits(bit_of(pair_val(b1, b2)));
        }

        let n = frequent_byte_pairs.len();
        let mut k: usize = 0;
        while k < n
            invariant
                k <= n,
                n == frequent_byte_pairs@.len(),
                bitmap@.len() == 8192,
                forall|b1: u8, b2: u8|
                    bit_is_set(
                        bitmap@[cell_of(#[trigger] pair_val(b1, b2))],
                        bit_of(pair_val(b1, b2)),
                    ) <==> exists|j: int| 0 <= j < k && frequent_byte_pairs@[j] == (b1, b2),
            decreases n - k,
        {
            let (b1, b2) = frequent_byte_pairs[k];
            let p: u16 = (b1 as u16) << 8 | b2 as u16;
            assert(p == pair_val(b1, b2));
            let (i1, i2) = Self::byte_pair_to_bitfield_index(p);
            let ghost prev = bitmap@;
            let cell = bitmap[i1];
            bitmap.set(i1, cell | (1u8 << i2));

            assert forall|c1: u8, c2: u8|
                bit_is_set(
                    bitmap@[cell_of(#[trigger] pair_val(c1, c2))],
                    bit_of(pair_val(c1, c2)),
                ) <==> exists|j: int| 0 <= j < k + 1 && frequent_byte_pairs@[j] == (c1, c2)
            by {
                let q = pair_val(c1, c2);
                lemma_pair_val_injective(c1, c2, b1, b2);
                if cell_of(q) == i1 as int {
                    lemma_or_sets_one_bit(prev[cell_of(q)], i2, bit_of(q));
                    if bit_of(q) as u32 == i2 {
                        lemma_cell_bit_identify(q, p);
                        assert((c1, c2) == (b1, b2));
                        assert(frequent_byte_pairs@[k as int] == (c1, c2));
                    }
                } else {
                    assert(bitmap@[cell_of(q)] == prev[cell_of(q)]);
                    assert(q != p);
                }
                if exists|j: int| 0 <= j < k && frequent_byte_pairs@[j] == (c1, c2) {
                    let j = choose|j: int| 0 <= j < k && frequent_byte_pairs@[j] == (c1, c2);
                    assert(0 <= j < k + 1 && frequent_byte_pairs@[j] == (c1, c2));
                }
            }

            k = k + 1;
        }

        let r = BFBCChunker {
            frequent_byte_pairs: bitmap,
            min_chunk_size,
            state: BFBCChunkerState { pos: 0, window: 0 },
        };

        assert forall|b1: u8, b2: u8|
            r.frequent(#[trigger] pair_val(b1, b2)) <==> frequent_byte_pairs@.contains((b1, b2))
        by {
            if frequent_byte_pairs@.contains((b1, b2)) {
                let j = choose|j: int|
                    0 <= j < frequent_byte_pairs@.len() && frequent_byte_pairs@[j] == (b1, b2);
                assert(0 <= j < n && frequent_byte_pairs@[j] == (b1, b2));
            }
        }

        r
    }

    fn byte_pair_to_bitfield_index(val: u16) -> (r: (usize, u32))
        ensures
            r.0 == cell_of(val),
            r.1 == bit_of(val) as u32,
            r.0 < 8192,
            r.1 < 8,
    {
        (val as usize / 8, val as u32 % 8)
    }

    fn is_popular_pair(&self, val: u16) -> (r: bool)
        requires
            self.wf(),
        ensures
            r == self.frequent(val),
    {
        let (i1, i2) = Self::byte_pair_to_bitfield_index(val);
        proof {
            lemma_mask_tests_bit(self.frequent_byte_pairs@[i1 as int], i2, bit_of(val));
        }
        self.frequent_byte_pairs[i1] & (1u8 << i2) != 0
    }

    /// Whether ingesting `data[i]` completes the first boundary in `data`,
    /// judged from this detector's state before any of `data` is fed: the
    /// cumulative position has reached the minimum chunk size and the window
    /// then holds a frequent pair.
    pub open spec fn boundary_at(self, data: Seq<u8>, i: int) -> bool {
        &&& self.pos() + i + 1 >= self.min_size()
        &&& self.frequent(window_after(self.window(), data, i + 1))
    }

    /// Scans `data` left to right, ingesting one byte at a time, and returns
    /// the index of the first byte whose ingestion completes a boundary:
    /// a position at least `min_chunk_size` bytes past the last boundary or
    /// reset, where the two-byte window is a frequent pair.
    ///
    /// Returns immediately at the first boundary, leaving the bytes after it
    /// unconsumed; the caller is expected to call [`Self::reset`] before
    /// scanning on. When no boundary is found, the whole buffer has been
    /// ingested and the streaming state carries over to the next call.
    pub fn find_boundary(&mut self, data: &[u8]) -> (r: Option<usize>)
        requires
            old(self).wf(),
            old(self).pos() + data@.len() <= usize::MAX,
        ensures
            final(self).wf(),
            final(self).min_size() == old(self).min_size(),
            forall|v: u16| final(self).frequent(v) == old(self).frequent(v),
            match r {
                Some(i) => {
                    &&& i < data@.len()
                    &&& old(self).boundary_at(data@, i as int)
                    &&& forall|j: int| 0 <= j < i ==> !old(self).boundary_at(data@, j)
                    &&& final(self).pos() == old(self).pos() + i + 1
                    &&& final(self).window() == window_after(old(self).window(), data@, i + 1)
                },
                None => {
                    &&& forall|j: int| 0 <= j < data@.len() ==> !old(self).boundary_at(data@, j)
                    &&& final(self).pos() == old(self).pos() + data@.len()
                    &&& final(self).window() == window_after(
                        old(self).window(),
                        data@,
                        data@.len() as int,
                    )
                },
            },
    {
        let mut i: usize = 0;
        while i < data.len()
            invariant
                i <= data@.len(),
                self.wf(),
                old(self).wf(),
                old(self).pos() + data@.len() <= usize::MAX,
                self.frequent_byte_pairs == old(self).frequent_byte_pairs,
                self.min_chunk_size == old(self).min_chunk_size,
                self.pos() == old(self).pos() + i,
                self.window() == window_after(old(self).window(), data@, i as int),
                forall|j: int| 0 <= j < i ==> !old(self).boundary_at(data@, j),
            decreases data@.len() - i,
        {
            let b = data[i];
            self.state.ingest(b);
            assert(self.window() == window_after(old(self).window(), data@, i + 1));

            if self.state.pos >= self.min_chunk_size {
                if self.is_popular_pair(self.state.window) {
                    return Some(i);
                }
            }
            assert(!old(self).boundary_at(data@, i as int));
            i = i + 1;
        }
        None
    }

    /// Zeroes the streaming state, discarding any partial window, so that
    /// scanning starts over relative to a fresh chunk start. Called by the
    /// consumer once per boundary reported, or at the start of a new stream.
    pub fn reset(&mut self)
        ensures
            final(self).wf() == old(self).wf(),
            final(self).min_size() == old(self).min_size(),
            forall|v: u16| final(self).frequent(v) == old(self).frequent(v),
            final(self).pos() == 0,
            final(self).window() == 0,
    {
        self.state.reset()
    }
}

} // verus!
