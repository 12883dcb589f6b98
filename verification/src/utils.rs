//! Splitting H.264 byte streams at NAL start codes (`0 0 1`).

use vstd::prelude::*;

verus! {

/// How many `0` we have to observe before a `1` means NAL.
const NAL_MIN_0_COUNT: usize = 2;

/// A start code `0 0 1` begins at position `j` of `s`.
pub open spec fn starts_nal(s: Seq<u8>, j: int) -> bool {
    &&& 0 <= j
    &&& j + 2 < s.len()
    &&& s[j] == 0
    &&& s[j + 1] == 0
    &&& s[j + 2] == 1
}

/// No start code begins at a position in `[a, b)`.
pub open spec fn no_start_in(s: Seq<u8>, a: int, b: int) -> bool {
    forall|i: int| a <= i < b ==> !#[trigger] starts_nal(s, i)
}

/// The first position at or after `k` where a start code begins.
pub open spec fn next_start(s: Seq<u8>, k: int) -> Option<int>
    decreases s.len() - k,
{
    if k < 0 || k + 2 >= s.len() {
        None
    } else if starts_nal(s, k) {
        Some(k)
    } else {
        next_start(s, k + 1)
    }
}

/// The position where the `n`-th (counting from 0) start code at or after `k` begins.
pub open spec fn nth_start_from(s: Seq<u8>, k: int, n: nat) -> Option<int>
    decreases n,
{
    if n == 0 {
        next_start(s, k)
    } else {
        match next_start(s, k) {
            Some(j) => nth_start_from(s, j + 1, (n - 1) as nat),
            None => None,
        }
    }
}

/// The part of `s` from its first start code on; empty if it holds none.
pub open spec fn from_first_start(s: Seq<u8>) -> Seq<u8> {
    match next_start(s, 0) {
        Some(f) => s.skip(f),
        None => Seq::empty(),
    }
}

/// A NAL unit: it begins with a start code and holds no other.
pub open spec fn is_nal_unit(p: Seq<u8>) -> bool {
    starts_nal(p, 0) && no_start_in(p, 1, p.len() as int)
}

/// What `next_start` finds is a start code, and none lies before it.
pub proof fn lemma_next_start_found(s: Seq<u8>, k: int)
    requires
        0 <= k,
        next_start(s, k) is Some,
    ensures
        k <= next_start(s, k)->0,
        starts_nal(s, next_start(s, k)->0),
        no_start_in(s, k, next_start(s, k)->0),
    decreases s.len() - k,
{
    if !starts_nal(s, k) {
        lemma_next_start_found(s, k + 1);
    }
}

/// When `next_start` finds nothing, no start code lies at or after `k`.
pub proof fn lemma_next_start_none(s: Seq<u8>, k: int)
    requires
        0 <= k,
        next_start(s, k) is None,
    ensures
        no_start_in(s, k, s.len() as int),
    decreases s.len() - k,
{
    if k + 2 < s.len() {
        lemma_next_start_none(s, k + 1);
    }
}

/// A range free of start codes up to the end makes `next_start` find nothing.
pub proof fn lemma_no_start_next_none(s: Seq<u8>, k: int)
    requires
        0 <= k,
        no_start_in(s, k, s.len() as int),
    ensures
        next_start(s, k) is None,
    decreases s.len() - k,
{
    if k + 2 < s.len() {
        assert(!starts_nal(s, k));
        lemma_no_start_next_none(s, k + 1);
    }
}

/// Given a stream, finds the index of the nth NAL start.
fn nth_nal_index(stream: &[u8], nth: usize) -> (r: Option<usize>)
    ensures
        r matches Some(j) ==> nth_start_from(stream@, 0, nth as nat) == Some(j as int),
        r is None ==> nth_start_from(stream@, 0, nth as nat) is None,
{
    let ghost s = stream@;
    let mut count_0: usize = 0;
    let mut n: usize = 0;
    let mut i: usize = 0;
    while i < stream.len()
        invariant
            s == stream@,
            0 <= i <= s.len(),
            count_0 <= i,
            n <= nth,
            (count_0 >= 1) <==> (i >= 1 && s[i - 1] == 0),
            (count_0 >= 2) <==> (i >= 2 && s[i - 1] == 0 && s[i - 2] == 0),
            nth_start_from(s, 0, nth as nat) == nth_start_from(
                s,
                if i >= 2 { i - 2 } else { 0 },
                (nth - n) as nat,
            ),
        decreases s.len() - i,
    {
        let byte = stream[i];
        if byte == 0 {
            proof {
                if i >= 2 {
                    assert(!starts_nal(s, i - 2));
                    assert(next_start(s, i - 2) == next_start(s, i - 1));
                }
            }
            count_0 += 1;
        } else if byte == 1 && count_0 >= NAL_MIN_0_COUNT {
            proof {
                assert(starts_nal(s, i - 2));
                assert(next_start(s, i - 2) == Some(i - 2));
            }
            if n == nth {
                return Some(i - NAL_MIN_0_COUNT);
            }
            count_0 = 0;
            n += 1;
        } else {
            proof {
                if i >= 2 {
                    assert(!starts_nal(s, i - 2));
                    assert(next_start(s, i - 2) == next_start(s, i - 1));
                }
            }
            count_0 = 0;
        }
        i += 1;
    }
    proof {
        let lo = if i >= 2 { i - 2 } else { 0 };
        assert(next_start(s, lo) is None);
    }
    None
}

/// The NAL units of a bitstream, one after the other; made by [`nal_units`].
pub struct NalUnits<'a> {
    stream: &'a [u8],
}

/// The NAL unit at the front of `s` (after skipping what precedes its first start code): up to
/// the next start code, or to the end.
pub open spec fn unit_of(s: Seq<u8>) -> Seq<u8> {
    match next_start(s, 0) {
        Some(f) => match nth_start_from(s, 0, 1) {
            Some(n) => s.subrange(f, n),
            None => s.skip(f),
        },
        None => Seq::empty(),
    }
}

/// What is left of `s` to split after its front unit: from the next start code on, or, after the
/// last unit, the bytes past its start code.
pub open spec fn rest_after_unit(s: Seq<u8>) -> Seq<u8> {
    match next_start(s, 0) {
        Some(f) => match nth_start_from(s, 0, 1) {
            Some(n) => s.skip(n),
            None => s.skip(f + 2),
        },
        None => s,
    }
}

/// Splitting off the front unit: it is a NAL unit, it and what follows make up `s` from its first
/// start code on, and what is left is shorter.
pub proof fn lemma_unit_step(s: Seq<u8>)
    requires
        next_start(s, 0) is Some,
    ensures
        is_nal_unit(unit_of(s)),
        unit_of(s) + from_first_start(rest_after_unit(s)) == from_first_start(s),
        rest_after_unit(s).len() < s.len(),
{
    let f = next_start(s, 0)->0;
    lemma_next_start_found(s, 0);
    assert(nth_start_from(s, 0, 1) == nth_start_from(s, f + 1, 0));
    let p = unit_of(s);
    let t = rest_after_unit(s);
    match nth_start_from(s, 0, 1) {
        Some(n) => {
            lemma_next_start_found(s, f + 1);
            assert(!starts_nal(s, f + 1));
            assert(!starts_nal(s, f + 2));
            assert(n >= f + 3);
            assert(starts_nal(p, 0));
            assert forall|i: int| 1 <= i < p.len() implies !#[trigger] starts_nal(p, i) by {
                if starts_nal(p, i) {
                    assert(starts_nal(s, f + i));
                }
            }
            assert(starts_nal(t, 0));
            assert(next_start(t, 0) == Some(0int));
            assert(t.skip(0) =~= t);
            assert(p + t =~= s.skip(f));
        },
        None => {
            lemma_next_start_none(s, f + 1);
            assert(starts_nal(p, 0));
            assert forall|i: int| 1 <= i < p.len() implies !#[trigger] starts_nal(p, i) by {
                if starts_nal(p, i) {
                    assert(starts_nal(s, f + i));
                }
            }
            assert forall|i: int| 0 <= i < t.len() implies !#[trigger] starts_nal(t, i) by {
                if starts_nal(t, i) {
                    assert(starts_nal(s, f + 2 + i));
                }
            }
            lemma_no_start_next_none(t, 0);
            assert(p + from_first_start(t) =~= s.skip(f));
        },
    }
}

/// The NAL units of `s`, in order, as successive calls of [`NalUnits::next`] hand them out.
pub open spec fn nal_split(s: Seq<u8>) -> Seq<Seq<u8>>
    decreases s.len(),
{
    if next_start(s, 0) is None {
        Seq::empty()
    } else {
        proof {
            lemma_unit_step(s);
        }
        seq![unit_of(s)] + nal_split(rest_after_unit(s))
    }
}

/// Splitting a stream loses and adds nothing: its NAL units, one after the other, are the stream
/// from its first start code on; each begins with a start code and holds no other.
pub proof fn law_nal_split(s: Seq<u8>)
    ensures
        nal_split(s).flatten() == from_first_start(s),
        forall|i: int| 0 <= i < nal_split(s).len() ==> is_nal_unit(#[trigger] nal_split(s)[i]),
    decreases s.len(),
{
    if next_start(s, 0) is None {
        assert(from_first_start(s) == Seq::<u8>::empty());
    } else {
        lemma_unit_step(s);
        let t = rest_after_unit(s);
        law_nal_split(t);
        let parts = nal_split(s);
        assert(parts == seq![unit_of(s)] + nal_split(t));
        assert(parts.first() == unit_of(s));
        assert(parts.drop_first() =~= nal_split(t));
        assert forall|i: int| 0 <= i < parts.len() implies is_nal_unit(#[trigger] parts[i]) by {
            if i > 0 {
                assert(parts[i] == nal_split(t)[i - 1]);
            }
        }
    }
}

/// The complete NAL units of `s`: those followed by a further start code. The last unit of a
/// stream that may still grow is not complete yet.
pub open spec fn complete_units(s: Seq<u8>) -> Seq<Seq<u8>>
    decreases s.len(),
{
    if next_start(s, 0) is None || nth_start_from(s, 0, 1) is None {
        Seq::empty()
    } else {
        proof {
            lemma_unit_step(s);
        }
        seq![unit_of(s)] + complete_units(rest_after_unit(s))
    }
}

/// The complete units of a stream are its NAL units but the last, which runs to the end of
/// what has arrived and may still grow.
pub proof fn law_complete_units_are_split_but_last(s: Seq<u8>)
    ensures
        nal_split(s).len() == 0 ==> complete_units(s) == Seq::<Seq<u8>>::empty(),
        nal_split(s).len() > 0 ==> complete_units(s) == nal_split(s).drop_last(),
    decreases s.len(),
{
    if next_start(s, 0) is Some {
        lemma_unit_step(s);
        let f = next_start(s, 0)->0;
        lemma_next_start_found(s, 0);
        assert(nth_start_from(s, 0, 1) == nth_start_from(s, f + 1, 0));
        let r = rest_after_unit(s);
        law_complete_units_are_split_but_last(r);
        if nth_start_from(s, 0, 1) is None {
            assert(from_first_start(r) == Seq::<u8>::empty()) by {
                assert(unit_of(s) + from_first_start(r) == from_first_start(s));
                assert(unit_of(s) =~= s.skip(f));
            }
            if next_start(r, 0) is Some {
                assert(from_first_start(r).len() > 0) by {
                    lemma_next_start_found(r, 0);
                }
            }
            assert(nal_split(r) == Seq::<Seq<u8>>::empty());
            assert(nal_split(s) =~= seq![unit_of(s)]);
        } else {
            let n = nth_start_from(s, 0, 1)->0;
            lemma_next_start_found(s, f + 1);
            assert(r =~= s.skip(n));
            assert(starts_nal(r, 0));
            assert(next_start(r, 0) == Some(0int));
            assert(nal_split(r).len() > 0);
            assert(nal_split(s).drop_last() =~= seq![unit_of(s)] + nal_split(r).drop_last());
        }
    }
}

/// A start code found in `s` is still the first one found after bytes are appended.
pub proof fn lemma_next_start_extend(s: Seq<u8>, d: Seq<u8>, j: int)
    requires
        0 <= j,
        next_start(s, j) is Some,
    ensures
        next_start(s + d, j) == next_start(s, j),
    decreases s.len() - j,
{
    lemma_next_start_found(s, j);
    lemma_starts_kept(s, d, j);
    if !starts_nal(s, j) {
        lemma_next_start_extend(s, d, j + 1);
    }
}

/// The search in `s` from `k` on, seen from `s.skip(k)`.
pub proof fn lemma_next_start_shift(s: Seq<u8>, k: int, j: int)
    requires
        0 <= k <= s.len(),
        0 <= j,
    ensures
        next_start(s.skip(k), j) == match next_start(s, k + j) {
            Some(x) => Some(x - k),
            None => None::<int>,
        },
    decreases s.len() - (k + j),
{
    let t = s.skip(k);
    if k + j + 2 < s.len() {
        assert(starts_nal(t, j) == starts_nal(s, k + j));
        if !starts_nal(s, k + j) {
            lemma_next_start_shift(s, k, j + 1);
        }
    }
}

/// The stream from its first start code on, once that start code is known to be at `k`.
pub proof fn lemma_first_start_at(s: Seq<u8>, k: int)
    requires
        starts_nal(s, k),
        no_start_in(s, 0, k),
    ensures
        next_start(s, 0) == Some(k),
        from_first_start(s) == s.skip(k),
{
    lemma_next_start_skip(s, 0, k);
}

/// Appending bytes keeps the complete units and may complete more: the complete units of `s`
/// begin those of `s + d`.
pub proof fn law_complete_units_grow(s: Seq<u8>, d: Seq<u8>)
    ensures
        complete_units(s).len() <= complete_units(s + d).len(),
        complete_units(s + d).subrange(0, complete_units(s).len() as int) == complete_units(s),
    decreases s.len(),
{
    if next_start(s, 0) is None || nth_start_from(s, 0, 1) is None {
        assert(complete_units(s) == Seq::<Seq<u8>>::empty());
        assert(complete_units(s + d).subrange(0, 0) =~= Seq::<Seq<u8>>::empty());
    } else {
        let f = next_start(s, 0)->0;
        lemma_next_start_found(s, 0);
        assert(nth_start_from(s, 0, 1) == nth_start_from(s, f + 1, 0));
        assert(nth_start_from(s, f + 1, 0) == next_start(s, f + 1));
        let n = nth_start_from(s, 0, 1)->0;
        lemma_next_start_found(s, f + 1);
        lemma_unit_step(s);
        let u = s + d;
        lemma_next_start_extend(s, d, 0);
        lemma_next_start_extend(s, d, f + 1);
        assert(nth_start_from(u, 0, 1) == nth_start_from(u, f + 1, 0));
        assert(nth_start_from(u, f + 1, 0) == next_start(u, f + 1));
        assert(unit_of(u) =~= unit_of(s));
        assert(rest_after_unit(u) =~= rest_after_unit(s) + d);
        law_complete_units_grow(rest_after_unit(s), d);
        let cs = complete_units(s);
        let cu = complete_units(u);
        assert(cs == seq![unit_of(s)] + complete_units(rest_after_unit(s)));
        assert(cu == seq![unit_of(u)] + complete_units(rest_after_unit(u)));
        assert(cu.subrange(0, cs.len() as int) =~= cs);
    }
}

/// With a start code at `k` and the next one at `idx`, the first complete unit of `s.skip(k)`
/// runs from `k` to `idx` and the others follow from `idx` on.
pub proof fn lemma_complete_step(s: Seq<u8>, k: int, idx: int)
    requires
        starts_nal(s, k),
        next_start(s, k + 2) == Some(idx),
    ensures
        complete_units(s.skip(k)) == seq![s.subrange(k, idx)] + complete_units(s.skip(idx)),
        next_start(s.skip(idx), 0) == Some(0int),
        from_first_start(s.skip(idx)) == s.skip(idx),
{
    let t = s.skip(k);
    lemma_next_start_found(s, k + 2);
    assert(starts_nal(t, 0));
    assert(next_start(t, 0) == Some(0int));
    assert(!starts_nal(s, k + 1));
    assert(next_start(s, k + 1) == next_start(s, k + 2));
    lemma_next_start_shift(s, k, 1);
    assert(nth_start_from(t, 0, 1) == nth_start_from(t, 1, 0));
    assert(nth_start_from(t, 1, 0) == next_start(t, 1));
    assert(nth_start_from(t, 0, 1) == Some(idx - k));
    assert(unit_of(t) =~= s.subrange(k, idx));
    assert(rest_after_unit(t) =~= s.skip(idx));
    let r = s.skip(idx);
    assert(starts_nal(r, 0));
    assert(next_start(r, 0) == Some(0int));
    assert(r.skip(0) =~= r);
}

/// Without a start code after the one at `k`, `s.skip(k)` holds no complete unit.
pub proof fn lemma_complete_none(s: Seq<u8>, k: int)
    requires
        starts_nal(s, k),
        next_start(s, k + 2) is None,
    ensures
        complete_units(s.skip(k)) == Seq::<Seq<u8>>::empty(),
{
    let t = s.skip(k);
    assert(starts_nal(t, 0));
    assert(next_start(t, 0) == Some(0int));
    assert(!starts_nal(s, k + 1));
    assert(next_start(s, k + 1) == next_start(s, k + 2));
    lemma_next_start_shift(s, k, 1);
    assert(nth_start_from(t, 0, 1) == nth_start_from(t, 1, 0));
    assert(nth_start_from(t, 1, 0) == next_start(t, 1));
}

impl<'a> NalUnits<'a> {
    /// The part of the bitstream not yet split off.
    pub closed spec fn rest(self) -> Seq<u8> {
        self.stream@
    }

    /// Returns the next NAL unit, or `None` when the rest holds no start code.
    ///
    /// A unit runs from a start code up to the next one; the last unit runs to the end of the
    /// stream. Bytes before the first start code are skipped.
    pub fn next(&mut self) -> (r: Option<&'a [u8]>)
        ensures
            r is None <==> next_start(old(self).rest(), 0) is None,
            r is None ==> final(self).rest() == old(self).rest(),
            r matches Some(p) ==> p@ == unit_of(old(self).rest()) && final(self).rest()
                == rest_after_unit(old(self).rest()),
            r matches Some(p) ==> nal_split(old(self).rest()) == seq![p@] + nal_split(
                final(self).rest(),
            ),
            r matches Some(p) ==> is_nal_unit(p@),
            r matches Some(p) ==> p@ + from_first_start(final(self).rest()) == from_first_start(
                old(self).rest(),
            ),
    {
        let stream = self.stream;
        let ghost s = stream@;
        let first = nth_nal_index(stream, 0);
        let next = nth_nal_index(stream, 1);
        match (first, next) {
            (Some(f), Some(n)) => {
                proof {
                    lemma_unit_step(s);
                    lemma_next_start_found(s, 0);
                    assert(nth_start_from(s, 0, 1) == nth_start_from(s, f + 1, 0));
                    lemma_next_start_found(s, f + 1);
                }
                let rval = slice_range(stream, f, n);
                self.stream = slice_range(stream, n, stream.len());
                proof {
                    assert(self.stream@ =~= s.skip(n as int));
                }
                Some(rval)
            },
            (Some(f), None) => {
                proof {
                    lemma_unit_step(s);
                    lemma_next_start_found(s, 0);
                }
                let rval = slice_range(stream, f, stream.len());
                self.stream = slice_range(stream, f + NAL_MIN_0_COUNT, stream.len());
                proof {
                    assert(rval@ =~= s.skip(f as int));
                    assert(self.stream@ =~= s.skip(f + 2));
                }
                Some(rval)
            },
            _ => None,
        }
    }
}

/// `s[a..b]`, borrowed.
fn slice_range<'a>(s: &'a [u8], a: usize, b: usize) -> (r: &'a [u8])
    requires
        a <= b <= s@.len(),
    ensures
        r@ == s@.subrange(a as int, b as int),
{
    vstd::slice::slice_subrange(s, a, b)
}

/// Splits a bitstream into NAL units.
///
/// This function is useful if you happen to have a H.264 bitstream and want to decode it frame by frame: You
/// apply this function to the underlying stream and run your decoder on each returned slice, preferably
/// ignoring isolated decoding errors.
///
/// In detail, given a bitstream like so (`001` being the NAL start prefix code):
///
/// ```text
/// ......001.........001......001.....
/// ```
///
/// the returned value hands out these packets, one per call of `next`:
/// ```text
///      [001.......][001....][001.....]
/// ```
///
/// In other words, any incomplete data at the beginning of the buffer is skipped,
/// NAL units in the middle are split at their boundaries, the last packet is returned
/// as-is.
pub fn nal_units(stream: &[u8]) -> (units: NalUnits<'_>)
    ensures
        units.rest() == stream@,
{
    NalUnits { stream }
}

/// Between `a` and `b` no start code begins, so the search from `a` finds what the one from `b` finds.
pub proof fn lemma_next_start_skip(s: Seq<u8>, a: int, b: int)
    requires
        0 <= a <= b,
        no_start_in(s, a, b),
    ensures
        next_start(s, a) == next_start(s, b),
    decreases b - a,
{
    if a < b && a + 2 < s.len() {
        assert(!starts_nal(s, a));
        lemma_next_start_skip(s, a + 1, b);
    }
}

/// Appending bytes keeps every start code that lay wholly in the old bytes, and adds none there.
pub proof fn lemma_starts_kept(s: Seq<u8>, t: Seq<u8>, j: int)
    requires
        0 <= j,
        j + 2 < s.len(),
    ensures
        starts_nal(s + t, j) == starts_nal(s, j),
{
    assert((s + t)[j] == s[j]);
    assert((s + t)[j + 1] == s[j + 1]);
    assert((s + t)[j + 2] == s[j + 2]);
}

/// Appends the bytes of `s` to `v`.
pub(crate) fn extend_bytes(v: &mut Vec<u8>, s: &[u8])
    ensures
        final(v)@ == old(v)@ + s@,
{
    let ghost before = v@;
    v.extend_from_slice(s);
    proof {
        let after = v@;
        assert forall|i: int| 0 <= i < after.len() implies after[i] == (before + s@)[i] by {
            if i >= before.len() {
                assert(after[i] == s@[i - before.len()]);
            }
        }
        assert(after =~= before + s@);
    }
}

/// The complete units of a pending buffer only grow when bytes are appended.
pub(crate) proof fn lemma_owed_grow(s: Seq<u8>, d: Seq<u8>)
    ensures
        complete_units(from_first_start(s)).len() <= complete_units(from_first_start(s + d)).len(),
        complete_units(from_first_start(s + d)).subrange(
            0,
            complete_units(from_first_start(s)).len() as int,
        ) == complete_units(from_first_start(s)),
{
    match next_start(s, 0) {
        Some(f) => {
            lemma_next_start_found(s, 0);
            lemma_next_start_extend(s, d, 0);
            assert((s + d).skip(f) =~= s.skip(f) + d);
            law_complete_units_grow(s.skip(f), d);
        },
        None => {
            assert(complete_units(Seq::<u8>::empty()) == Seq::<Seq<u8>>::empty());
            assert(complete_units(from_first_start(s + d)).subrange(0, 0) =~= Seq::<Seq<u8>>::empty());
        },
    }
}

/// A start code at `j` at or after `k` means the search from `k` finds one, at `j` at the latest.
proof fn lemma_next_start_at_most(s: Seq<u8>, k: int, j: int)
    requires
        0 <= k <= j,
        starts_nal(s, j),
    ensures
        next_start(s, k) matches Some(x) && k <= x <= j,
    decreases j - k,
{
    if !starts_nal(s, k) {
        lemma_next_start_at_most(s, k + 1, j);
    }
}

/// For a stream that begins with a start code and has another at `j`, the complete units of it
/// with `d` appended are those that end by `j`, followed by the complete units from `j` on with
/// `d` appended.
proof fn lemma_units_split_at_start(t: Seq<u8>, j: int, d: Seq<u8>)
    requires
        starts_nal(t, 0),
        starts_nal(t, j),
    ensures
        complete_units(t + d) == complete_units(t.take(j + 3)) + complete_units(t.skip(j) + d),
    decreases j,
{
    let u = t + d;
    let c = t.take(j + 3);
    lemma_starts_kept(t, d, 0);
    assert(starts_nal(u, 0));
    assert(next_start(u, 0) == Some(0int));
    assert(starts_nal(c, 0));
    assert(next_start(c, 0) == Some(0int));
    assert(starts_nal(c, j));
    if j == 0 {
        assert(t.skip(0) + d =~= u);
        assert(next_start(c, 1) is None);
        assert(nth_start_from(c, 1, 0) == next_start(c, 1));
        assert(nth_start_from(c, 0, 1) == next_start(c, 1));
        assert(complete_units(c) == Seq::<Seq<u8>>::empty());
        assert(complete_units(c) + complete_units(t.skip(j) + d) =~= complete_units(u));
    } else {
        lemma_next_start_at_most(c, 1, j);
        let n = next_start(c, 1)->0;
        lemma_next_start_found(c, 1);
        assert(c + t.skip(j + 3) =~= t);
        lemma_next_start_extend(c, t.skip(j + 3), 1);
        assert(next_start(t, 1) == Some(n));
        lemma_next_start_extend(t, d, 1);
        assert(next_start(u, 1) == Some(n));
        assert(nth_start_from(u, 1, 0) == next_start(u, 1));
        assert(nth_start_from(u, 0, 1) == next_start(u, 1));
        assert(nth_start_from(c, 1, 0) == next_start(c, 1));
        assert(nth_start_from(c, 0, 1) == next_start(c, 1));
        assert(!starts_nal(t, 1));
        assert(!starts_nal(t, 2));
        assert(n >= 3);
        let r = t.skip(n);
        assert(starts_nal(r, 0));
        assert(starts_nal(r, j - n));
        lemma_units_split_at_start(r, j - n, d);
        assert(unit_of(u) =~= unit_of(c));
        assert(rest_after_unit(u) =~= r + d);
        assert(rest_after_unit(c) =~= r.take(j - n + 3));
        assert(r.skip(j - n) =~= t.skip(j));
        assert(complete_units(u) == seq![unit_of(u)] + complete_units(r + d));
        assert(complete_units(c) == seq![unit_of(c)] + complete_units(r.take(j - n + 3)));
        assert(complete_units(u) =~= complete_units(c) + complete_units(t.skip(j) + d));
    }
}

/// Equal sequences with equal tails have equal heads.
proof fn lemma_cancel_tail<A>(a: Seq<A>, b: Seq<A>, x: Seq<A>)
    requires
        a + x == b + x,
    ensures
        a == b,
{
    let ax = a + x;
    let bx = b + x;
    assert(ax.len() == a.len() + x.len());
    assert(bx.len() == b.len() + x.len());
    assert(a.len() == b.len());
    assert forall|i: int| 0 <= i < a.len() implies a[i] == b[i] by {
        assert(ax[i] == a[i]);
        assert(bx[i] == b[i]);
    }
    assert(a =~= b);
}

/// What the bytes fed so far owe, given that what is pending is all of them, or what is left of
/// them from a start code on after `handed` was handed out: appending `d` to both adds the same
/// complete units.
pub(crate) proof fn lemma_feed_keeps_history(fed: Seq<u8>, pending: Seq<u8>, handed: Seq<Seq<u8>>, d: Seq<u8>)
    requires
        handed + complete_units(from_first_start(pending)) == complete_units(from_first_start(fed)),
        pending == fed || (pending.len() <= fed.len() && fed.skip(fed.len() - pending.len())
            == pending && starts_nal(pending, 0)),
    ensures
        handed + complete_units(from_first_start(pending + d)) == complete_units(
            from_first_start(fed + d),
        ),
{
    if pending == fed {
        lemma_cancel_tail(handed, Seq::<Seq<u8>>::empty(), complete_units(from_first_start(fed)));
        assert(handed + complete_units(from_first_start(pending + d)) =~= complete_units(
            from_first_start(fed + d),
        ));
    } else {
        let j = fed.len() - pending.len();
        assert(starts_nal(fed, j)) by {
            assert(fed[j] == pending[0]);
            assert(fed[j + 1] == pending[1]);
            assert(fed[j + 2] == pending[2]);
        }
        lemma_next_start_at_most(fed, 0, j);
        let f = next_start(fed, 0)->0;
        lemma_next_start_found(fed, 0);
        lemma_next_start_extend(fed, d, 0);
        let t = fed.skip(f);
        assert(from_first_start(fed) == t);
        assert(from_first_start(fed + d) =~= t + d);
        assert(next_start(pending, 0) == Some(0int));
        assert(from_first_start(pending) =~= pending);
        lemma_starts_kept(pending, d, 0);
        assert(next_start(pending + d, 0) == Some(0int));
        assert(from_first_start(pending + d) =~= pending + d);
        assert(starts_nal(t, 0));
        assert(starts_nal(t, j - f));
        assert(t.skip(j - f) =~= pending);
        lemma_units_split_at_start(t, j - f, d);
        lemma_units_split_at_start(t, j - f, Seq::<u8>::empty());
        assert(t + Seq::<u8>::empty() =~= t);
        assert(pending + Seq::<u8>::empty() =~= pending);
        lemma_cancel_tail(handed, complete_units(t.take(j - f + 3)), complete_units(pending));
    }
}

/// Finds the first start code that begins in `buf[from..len - 2]`.
pub(crate) fn find_start_code(buf: &[u8], from: usize) -> (r: Option<usize>)
    requires
        buf@.len() >= 2,
    ensures
        r matches Some(i) ==> next_start(buf@, from as int) == Some(i as int),
        r is None ==> next_start(buf@, from as int) is None,
{
    let end = buf.len() - 2;
    let mut i = from;
    while i < end
        invariant
            from <= i,
            end == buf@.len() - 2,
            next_start(buf@, from as int) == next_start(buf@, i as int),
        decreases end - i,
    {
        if buf[i] == 0 && buf[i + 1] == 0 && buf[i + 2] == 1 {
            return Some(i);
        }
        i += 1;
    }
    None
}

/// Splits an incrementally arriving bitstream into NAL units.
///
/// This searches for `001` marks in a byte stream, and deals with cross-boundary checks when
/// a frame is partially read.
pub struct NalParser {
    leftover_buffer: Vec<u8>,
    curr_offset: usize,
    last_nal: Option<usize>,
    fed: Ghost<Seq<u8>>,
    handed: Ghost<Seq<Seq<u8>>>,
}

/// Where the search for the next start code begins: after the mark already found, else at 0.
pub open spec fn search_from(mark: Option<int>) -> int {
    match mark {
        Some(k) => k + 2,
        None => 0,
    }
}

impl NalParser {
    /// The bytes fed and not yet handed out.
    pub closed spec fn pending(&self) -> Seq<u8> {
        self.leftover_buffer@
    }

    /// The position in `pending()` of the start code that opens the next unit, once found.
    pub closed spec fn mark(&self) -> Option<int> {
        match self.last_nal {
            Some(k) => Some(k as int),
            None => None,
        }
    }

    /// The packets that draining the parser hands out: the complete units of what is pending.
    pub open spec fn owed(&self) -> Seq<Seq<u8>> {
        complete_units(from_first_start(self.pending()))
    }

    /// All bytes fed so far.
    pub closed spec fn fed(&self) -> Seq<u8> {
        self.fed@
    }

    /// The units handed out so far, in order.
    pub closed spec fn handed(&self) -> Seq<Seq<u8>> {
        self.handed@
    }

    /// The search offset follows the mark, and a mark is the first start code of what is pending;
    /// what is pending is all bytes fed, or what is left of them from a start code on once units
    /// were handed out; and the units handed out and those owed are the complete units of all
    /// bytes fed.
    pub closed spec fn wf(&self) -> bool {
        &&& match self.last_nal {
            None => self.curr_offset == 0,
            Some(k) => {
                &&& self.curr_offset == k + 2
                &&& starts_nal(self.leftover_buffer@, k as int)
                &&& no_start_in(self.leftover_buffer@, 0, k as int)
            },
        }
        &&& self.pending() == self.fed() || (self.pending().len() <= self.fed().len()
            && self.fed().skip(self.fed().len() - self.pending().len()) == self.pending()
            && starts_nal(self.pending(), 0))
        &&& self.handed() + self.owed() == complete_units(from_first_start(self.fed()))
    }

    /// Creates a new NAL parser.
    pub fn new() -> (p: Self)
        ensures
            p.wf(),
            p.pending() == Seq::<u8>::empty(),
            p.mark() is None,
            p.fed() == Seq::<u8>::empty(),
            p.handed() == Seq::<Seq<u8>>::empty(),
    {
        let p = NalParser {
            leftover_buffer: Vec::new(),
            curr_offset: 0,
            last_nal: None,
            fed: Ghost(Seq::empty()),
            handed: Ghost(Seq::empty()),
        };
        proof {
            assert(p.pending() =~= p.fed());
            assert(p.handed() + p.owed() =~= complete_units(from_first_start(p.fed())));
        }
        p
    }

    /// Tries to retrieve the next NAL unit, if present.
    ///
    /// After feeding new data you should keep calling this method until it returns `None`.
    /// The first call that finds a start code only remembers it and returns `None`; a unit is
    /// handed out once the start code after it has arrived.
    pub fn next(&mut self) -> (r: Option<Vec<u8>>)
        requires
            old(self).wf(),
        ensures
            final(self).wf(),
            match next_start(old(self).pending(), search_from(old(self).mark())) {
                None => {
                    &&& r is None
                    &&& final(self).pending() == old(self).pending()
                    &&& final(self).mark() == old(self).mark()
                },
                Some(idx) => match old(self).mark() {
                    None => {
                        &&& r is None
                        &&& final(self).pending() == old(self).pending()
                        &&& final(self).mark() == Some(idx)
                    },
                    Some(k) => {
                        &&& r matches Some(p) && p@ == old(self).pending().subrange(k, idx)
                        &&& final(self).pending() == old(self).pending().skip(idx)
                        &&& final(self).mark() == Some(0int)
                    },
                },
            },
            r matches Some(p) ==> is_nal_unit(p@),
            r matches Some(p) ==> p@ + from_first_start(final(self).pending()) == from_first_start(
                old(self).pending(),
            ),
            r matches Some(p) ==> old(self).owed() == seq![p@] + final(self).owed(),
            r is None ==> final(self).owed() == old(self).owed(),
            r is None && final(self).mark() == old(self).mark() ==> old(self).owed()
                == Seq::<Seq<u8>>::empty(),
            final(self).fed() == old(self).fed(),
            r matches Some(p) ==> final(self).handed() == old(self).handed().push(p@),
            r is None ==> final(self).handed() == old(self).handed(),
    {
        let ghost s = self.leftover_buffer@;
        if self.leftover_buffer.len() < 3 {
            proof {
                if let Some(k) = self.last_nal {
                    assert(starts_nal(s, k as int));
                }
                assert(next_start(s, 0) is None);
                assert(next_start(s, search_from(self.mark())) is None);
                assert(from_first_start(s) == Seq::<u8>::empty());
                assert(complete_units(Seq::<u8>::empty()) == Seq::<Seq<u8>>::empty());
            }
            return None;
        }
        match self.get_nal_mark() {
            Some(idx) => {
                match self.last_nal {
                    Some(last_offset) => {
                        proof {
                            lemma_next_start_found(s, last_offset + 2);
                            lemma_next_start_skip(s, 0, last_offset as int);
                            lemma_first_start_at(s, last_offset as int);
                            lemma_complete_step(s, last_offset as int, idx as int);
                        }
                        let buf = self.leftover_buffer.as_slice();
                        let packet = vstd::slice::slice_to_vec(
                            vstd::slice::slice_subrange(buf, last_offset, idx),
                        );
                        let rest = vstd::slice::slice_to_vec(
                            vstd::slice::slice_subrange(buf, idx, buf.len()),
                        );
                        let ghost before_handed = self.handed@;
                        let ghost fed = self.fed@;
                        self.leftover_buffer = rest;
                        self.last_nal = Some(0);
                        self.curr_offset = 2;
                        self.handed = Ghost(self.handed@.push(packet@));
                        proof {
                            assert(rest@ =~= s.skip(idx as int));
                            assert(self.handed() + self.owed() =~= before_handed + (seq![packet@]
                                + self.owed()));
                            assert(fed.skip(fed.len() - rest@.len()) =~= rest@) by {
                                if s != fed {
                                    assert(s =~= fed.skip(fed.len() - s.len()));
                                }
                            }
                        }
                        proof {
                            let p = packet@;
                            let t = rest@;
                            assert(starts_nal(p, 0));
                            assert forall|i: int| 1 <= i < p.len() implies !#[trigger] starts_nal(
                                p,
                                i,
                            ) by {
                                if starts_nal(p, i) {
                                    assert(starts_nal(s, last_offset + i));
                                }
                            }
                            assert(starts_nal(t, 0));
                            assert(no_start_in(t, 0, 0));
                            assert(next_start(t, 0) == Some(0int));
                            assert(t.skip(0) =~= t);
                            assert(p + t =~= s.skip(last_offset as int));
                        }
                        proof {
                            assert(rest@ =~= s.skip(idx as int));
                        }
                        Some(packet)
                    },
                    None => {
                        proof {
                            lemma_next_start_found(s, 0);
                        }
                        self.curr_offset = idx + 2;
                        self.last_nal = Some(idx);
                        None
                    },
                }
            },
            None => {
                proof {
                    match self.last_nal {
                        Some(k) => {
                            lemma_first_start_at(s, k as int);
                            lemma_complete_none(s, k as int);
                        },
                        None => {
                            assert(from_first_start(s) == Seq::<u8>::empty());
                            assert(complete_units(Seq::<u8>::empty()) == Seq::<Seq<u8>>::empty());
                        },
                    }
                }
                None
            },
        }
    }

    /// Feeds more data to the processor.
    ///
    /// After calling this method, there may be between 0 to M new NAL units present, which you can query with [`Self::next()`].
    pub fn feed(&mut self, buffer: &[u8])
        requires
            old(self).wf(),
        ensures
            final(self).wf(),
            final(self).pending() == old(self).pending() + buffer@,
            final(self).mark() == old(self).mark(),
            old(self).owed().len() <= final(self).owed().len(),
            final(self).owed().subrange(0, old(self).owed().len() as int) == old(self).owed(),
            final(self).fed() == old(self).fed() + buffer@,
            final(self).handed() == old(self).handed(),
    {
        let ghost s = self.leftover_buffer@;
        let ghost fed = self.fed@;
        extend_bytes(&mut self.leftover_buffer, buffer);
        self.fed = Ghost(self.fed@ + buffer@);
        proof {
            lemma_feed_keeps_history(fed, s, self.handed@, buffer@);
            if s != fed {
                let t = s + buffer@;
                let g = fed + buffer@;
                lemma_starts_kept(s, buffer@, 0);
                assert(g.skip(g.len() - t.len()) =~= t) by {
                    assert(fed.skip(fed.len() - s.len()) == s);
                    assert forall|i: int| 0 <= i < t.len() implies g.skip(g.len() - t.len())[i]
                        == t[i] by {
                        if i < s.len() {
                            assert(fed.skip(fed.len() - s.len())[i] == s[i]);
                        }
                    }
                }
            }
        }
        proof {
            let t = self.leftover_buffer@;
            lemma_owed_grow(s, buffer@);
            if let Some(k) = self.last_nal {
                lemma_starts_kept(s, buffer@, k as int);
                assert forall|i: int| 0 <= i < k implies !#[trigger] starts_nal(t, i) by {
                    lemma_starts_kept(s, buffer@, i);
                }
            }
        }
    }

    fn get_nal_mark(&self) -> (r: Option<usize>)
        requires
            self.wf(),
            self.leftover_buffer@.len() >= 2,
        ensures
            r matches Some(i) ==> next_start(self.pending(), search_from(self.mark())) == Some(
                i as int,
            ),
            r is None ==> next_start(self.pending(), search_from(self.mark())) is None,
    {
        find_start_code(self.leftover_buffer.as_slice(), self.curr_offset)
    }
}

impl Default for NalParser {
    fn default() -> (p: Self)
        ensures
            p.wf(),
            p.pending() == Seq::<u8>::empty(),
            p.mark() is None,
            p.fed() == Seq::<u8>::empty(),
            p.handed() == Seq::<Seq<u8>>::empty(),
    {
        NalParser::new()
    }
}


/// However the bytes were cut into pieces, and whenever the parser was drained in between, the
/// units handed out so far followed by those still owed are the complete units of all bytes fed:
/// draining after each piece hands out what draining once after feeding everything would.
pub proof fn law_pieces_give_the_units_of_the_whole(p: NalParser)
    requires
        p.wf(),
    ensures
        p.handed() + p.owed() == complete_units(from_first_start(p.fed())),
{
}

} // verus!
