//! Behavioural laws of the boundary detector, stated and proved over the
//! specification model: the rolling window, the boundary predicate and the
//! frequent-pair set.

use vstd::prelude::*;

use crate::detector::BFBCChunker;
use crate::detector::lemma_pair_val_covers;
use crate::detector::lemma_two_steps;
use crate::detector::pair_val;
use crate::detector::step_window;
use crate::detector::window_after;

verus! {

/// The window after the first `n` bytes of a buffer does not depend on the
/// bytes past `n`.
pub proof fn lemma_window_after_prefix(w0: u16, s1: Seq<u8>, s2: Seq<u8>, n: int)
    requires
        0 <= n <= s1.len(),
    ensures
        window_after(w0, s1 + s2, n) == window_after(w0, s1, n),
    decreases n,
{
    if n > 0 {
        lemma_window_after_prefix(w0, s1, s2, n - 1);
        assert((s1 + s2)[n - 1] == s1[n - 1]);
    }
}

/// Rolling the window over a concatenation is rolling it over the first
/// buffer, then over the second from the carried window.
pub proof fn lemma_window_after_concat(w0: u16, s1: Seq<u8>, s2: Seq<u8>, k: int)
    requires
        0 <= k <= s2.len(),
    ensures
        window_after(w0, s1 + s2, s1.len() + k) == window_after(
            window_after(w0, s1, s1.len() as int),
            s2,
            k,
        ),
    decreases k,
{
    if k <= 0 {
        lemma_window_after_prefix(w0, s1, s2, s1.len() as int);
    } else {
        lemma_window_after_concat(w0, s1, s2, k - 1);
        assert((s1 + s2)[s1.len() + k - 1] == s2[k - 1]);
    }
}

/// After at least two bytes, the window holds exactly the last two bytes
/// ingested, whatever it held before.
pub proof fn lemma_window_after_ends_with_pair(w0: u16, data: Seq<u8>, n: int)
    requires
        2 <= n <= data.len(),
    ensures
        window_after(w0, data, n) == pair_val(data[n - 2], data[n - 1]),
{
    assert(window_after(w0, data, n) == step_window(
        window_after(w0, data, n - 1),
        data[n - 1],
    ));
    assert(window_after(w0, data, n - 1) == step_window(
        window_after(w0, data, n - 2),
        data[n - 2],
    ));
    lemma_two_steps(window_after(w0, data, n - 2), data[n - 2], data[n - 1]);
}

/// Once at least two bytes of the buffer have been ingested, a boundary at
/// index `i` means exactly: the cumulative position has reached the minimum
/// chunk size and the ordered pair `(data[i-1], data[i])` is frequent — the
/// reported offset points at the second byte of the matching pair.
pub proof fn lemma_boundary_names_the_pair(d: BFBCChunker, data: Seq<u8>, i: int)
    requires
        1 <= i < data.len(),
    ensures
        d.boundary_at(data, i) <==> (d.pos() + i + 1 >= d.min_size() && d.frequent(
            pair_val(data[i - 1], data[i]),
        )),
{
    lemma_window_after_ends_with_pair(d.window(), data, i + 1);
}

/// Determinism across buffering: feeding a stream as two buffers in sequence
/// finds the same boundaries, at translated offsets, as feeding their
/// concatenation at once. `d1` is the detector before either buffer; `d2`
/// holds the state `find_boundary` leaves behind when it scans all of `s1`
/// without finding a boundary. Every index within `s1` is judged alike by
/// the combined and the first buffer, and index `s1.len() + k` of the
/// combined buffer is a boundary exactly when index `k` of `s2` is.
pub proof fn lemma_split_feed_equivalence(
    d1: BFBCChunker,
    d2: BFBCChunker,
    s1: Seq<u8>,
    s2: Seq<u8>,
)
    requires
        d2.min_size() == d1.min_size(),
        forall|v: u16| d2.frequent(v) == d1.frequent(v),
        d2.pos() == d1.pos() + s1.len(),
        d2.window() == window_after(d1.window(), s1, s1.len() as int),
    ensures
        forall|i: int|
            0 <= i < s1.len() ==> (d1.boundary_at(s1 + s2, i) <==> d1.boundary_at(s1, i)),
        forall|k: int|
            0 <= k < s2.len() ==> (d1.boundary_at(s1 + s2, s1.len() + k) <==> d2.boundary_at(
                s2,
                k,
            )),
{
    assert forall|i: int|
        0 <= i < s1.len() implies (d1.boundary_at(s1 + s2, i) <==> d1.boundary_at(s1, i)) by {
        lemma_window_after_prefix(d1.window(), s1, s2, i + 1);
    }
    assert forall|k: int|
        0 <= k < s2.len() implies (d1.boundary_at(s1 + s2, s1.len() + k) <==> d2.boundary_at(
        s2,
        k,
    )) by {
        lemma_window_after_concat(d1.window(), s1, s2, k + 1);
        let w = window_after(d2.window(), s2, k + 1);
        assert(d2.frequent(w) == d1.frequent(w));
    }
}

/// Minimum-size enforcement: no boundary is ever reported at a cumulative
/// position short of the minimum chunk size, whatever the buffer holds.
pub proof fn lemma_no_boundary_below_min_size(d: BFBCChunker, data: Seq<u8>, i: int)
    requires
        d.pos() + i + 1 < d.min_size(),
    ensures
        !d.boundary_at(data, i),
{
}

/// Reset semantics: two detectors with the same frequent-pair set and the
/// same minimum chunk size, each with zeroed streaming state — one fresh
/// from construction, one just reset — judge every position of every buffer
/// alike: no window state leaks across a reset.
pub proof fn lemma_zeroed_detectors_agree(
    d1: BFBCChunker,
    d2: BFBCChunker,
    data: Seq<u8>,
    i: int,
)
    requires
        d1.min_size() == d2.min_size(),
        forall|v: u16| d1.frequent(v) == d2.frequent(v),
        d1.pos() == 0,
        d1.window() == 0,
        d2.pos() == 0,
        d2.window() == 0,
    ensures
        d1.boundary_at(data, i) <==> d2.boundary_at(data, i),
{
    let w = window_after(0u16, data, i + 1);
    assert(d1.frequent(w) == d2.frequent(w));
}

/// Idempotent pair registration: two pair lists with the same members —
/// duplicates and order notwithstanding — give detectors with identical
/// frequent-pair sets; a duplicated pair adds nothing.
pub proof fn lemma_same_members_same_frequent_set(
    d1: BFBCChunker,
    d2: BFBCChunker,
    p1: Seq<(u8, u8)>,
    p2: Seq<(u8, u8)>,
)
    requires
        forall|b1: u8, b2: u8| #[trigger] p1.contains((b1, b2)) <==> p2.contains((b1, b2)),
        forall|b1: u8, b2: u8|
            d1.frequent(#[trigger] pair_val(b1, b2)) <==> p1.contains((b1, b2)),
        forall|b1: u8, b2: u8|
            d2.frequent(#[trigger] pair_val(b1, b2)) <==> p2.contains((b1, b2)),
    ensures
        forall|v: u16| d1.frequent(v) == d2.frequent(v),
{
    assert forall|v: u16| d1.frequent(v) == d2.frequent(v) by {
        lemma_pair_val_covers(v);
        let b1 = (v >> 8) as u8;
        let b2 = v as u8;
        assert(d1.frequent(pair_val(b1, b2)) <==> p1.contains((b1, b2)));
        assert(d2.frequent(pair_val(b1, b2)) <==> p2.contains((b1, b2)));
    }
}

/// Exhaustive pair space: a freshly started detector whose sole frequent
/// pair is `(a, b)`, fed a buffer exactly `min_chunk_size` long, reports a
/// boundary precisely at the last index, and only when the buffer ends with
/// the bytes `a, b` — any other final pair reports none.
pub proof fn lemma_sole_pair_boundary(d: BFBCChunker, a: u8, b: u8, data: Seq<u8>)
    requires
        d.min_size() >= 2,
        d.pos() == 0,
        d.window() == 0,
        forall|x: u8, y: u8| d.frequent(#[trigger] pair_val(x, y)) <==> (x == a && y == b),
        data.len() == d.min_size(),
    ensures
        forall|i: int|
            0 <= i < data.len() ==> (d.boundary_at(data, i) <==> (i == data.len() - 1
                && data[data.len() - 2] == a && data[data.len() - 1] == b)),
{
    let m = data.len() as int;
    assert forall|i: int|
        0 <= i < m implies (d.boundary_at(data, i) <==> (i == m - 1 && data[m - 2] == a
        && data[m - 1] == b)) by {
        if i < m - 1 {
            assert(!d.boundary_at(data, i));
        } else {
            lemma_window_after_ends_with_pair(0u16, data, m);
            assert(d.frequent(pair_val(data[m - 2], data[m - 1])) <==> (data[m - 2] == a
                && data[m - 1] == b));
        }
    }
}

/// Empty input: no index of an empty buffer is a boundary, and the window
/// is unchanged after ingesting none of its bytes; with the contract of
/// `find_boundary`, feeding an empty buffer returns no boundary and leaves
/// the streaming state untouched.
pub proof fn lemma_empty_feed(d: BFBCChunker, data: Seq<u8>)
    requires
        data.len() == 0,
    ensures
        forall|i: int| 0 <= i < data.len() ==> !d.boundary_at(data, i),
        window_after(d.window(), data, data.len() as int) == d.window(),
{
}

} // verus!
