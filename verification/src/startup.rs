//! Getting memory ready before anything else runs.

use vstd::prelude::*;

verus! {

/// The words with those from `start` up to `end` set to zero.
pub open spec fn zeroed(words: Seq<u32>, start: int, end: int) -> Seq<u32> {
    Seq::new(words.len(), |i: int| if start <= i < end { 0u32 } else { words[i] })
}

/// Sets the words from `start` up to `end` to zero and touches no other.
pub fn zero_words(words: &mut [u32], start: usize, end: usize)
    requires
        end <= old(words)@.len(),
    ensures
        final(words)@ == zeroed(old(words)@, start as int, end as int),
        final(words)@.len() == old(words)@.len(),
        forall|i: int| start <= i < end ==> #[trigger] final(words)@[i] == 0,
        forall|i: int|
            0 <= i < old(words)@.len() && !(start <= i < end) ==> #[trigger] final(words)@[i]
                == old(words)@[i],
{
    let mut p: usize = start;
    while p < end
        invariant
            start <= p,
            start <= end ==> p <= end,
            start > end ==> p == start,
            end <= words@.len() == old(words)@.len(),
            words@ =~= zeroed(old(words)@, start as int, p as int),
        decreases end - p,
    {
        words[p] = 0;
        p += 1;
    }
    proof {
        assert(words@ =~= zeroed(old(words)@, start as int, end as int));
    }
}

/// The words with the first `count` replaced by those of `source`.
pub open spec fn copied(words: Seq<u32>, source: Seq<u32>, count: int) -> Seq<u32> {
    Seq::new(words.len(), |i: int| if i < count { source[i] } else { words[i] })
}

/// Copies the first `count` words of `source` over those of `words` and touches no
/// other.
pub fn copy_words(source: &[u32], words: &mut [u32], count: usize)
    requires
        count <= source@.len(),
        count <= old(words)@.len(),
    ensures
        final(words)@ == copied(old(words)@, source@, count as int),
        final(words)@.len() == old(words)@.len(),
        forall|i: int| 0 <= i < count ==> #[trigger] final(words)@[i] == source@[i],
        forall|i: int|
            count <= i < old(words)@.len() ==> #[trigger] final(words)@[i] == old(words)@[i],
{
    let mut i: usize = 0;
    while i < count
        invariant
            i <= count <= words@.len() == old(words)@.len(),
            count <= source@.len(),
            words@ =~= copied(old(words)@, source@, i as int),
        decreases count - i,
    {
        words[i] = source[i];
        i += 1;
    }
}

/// Zeroing leaves every word of the span zero, however long the span is, and every
/// other word as it was; what it leaves does not depend on what the span held.
pub proof fn zeroing_clears_the_span_and_nothing_else(
    words: Seq<u32>,
    others: Seq<u32>,
    start: int,
    end: int,
)
    requires
        0 <= start <= end <= words.len() == others.len(),
    ensures
        zeroed(words, start, end).len() == words.len(),
        zeroed(words, start, end).subrange(start, end) == Seq::new(
            (end - start) as nat,
            |i: int| 0u32,
        ),
        zeroed(words, start, end).take(start) == words.take(start),
        zeroed(words, start, end).skip(end) == words.skip(end),
        words.take(start) == others.take(start) && words.skip(end) == others.skip(end) <==> zeroed(
            words,
            start,
            end,
        ) == zeroed(others, start, end),
{
    let a = zeroed(words, start, end);
    let b = zeroed(others, start, end);
    assert(a.subrange(start, end) =~= Seq::new((end - start) as nat, |i: int| 0u32));
    assert(a.take(start) =~= words.take(start));
    assert(a.skip(end) =~= words.skip(end));
    assert(b.take(start) =~= others.take(start));
    assert(b.skip(end) =~= others.skip(end));
    if words.take(start) == others.take(start) && words.skip(end) == others.skip(end) {
        assert forall|i: int| 0 <= i < a.len() implies a[i] == b[i] by {
            if i < start {
                assert(words.take(start)[i] == others.take(start)[i]);
            } else if i >= end {
                assert(words.skip(end)[i - end] == others.skip(end)[i - end]);
            }
        }
        assert(a =~= b);
    }
}

/// Copying leaves the words of the source, every one of them, in front of what was
/// behind them before.
pub proof fn copying_is_replacing_the_front(words: Seq<u32>, source: Seq<u32>, count: int)
    requires
        0 <= count <= source.len(),
        count <= words.len(),
    ensures
        copied(words, source, count) == source.take(count) + words.skip(count),
{
    assert(copied(words, source, count) =~= source.take(count) + words.skip(count));
}

} // verus!
