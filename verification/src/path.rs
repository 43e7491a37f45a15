//! Paths as sequences of segments.

use vstd::prelude::*;
use vstd::slice::slice_subrange;
use crate::ascii::SLASH;

verus! {

/// The segments of a text: the pieces between its slashes, in order.
///
/// A text without a slash is one segment, the empty text too. Every slash
/// ends one segment and begins the next, so that two slashes in a row, or
/// one at either end, give an empty segment.
pub open spec fn split(s: Seq<u8>) -> Seq<Seq<u8>>
    decreases s.len(),
{
    if s.len() == 0 {
        seq![Seq::empty()]
    } else {
        let front = split(s.drop_last());
        if s.last() == SLASH {
            front.push(Seq::empty())
        } else {
            front.update(front.len() - 1, front.last().push(s.last()))
        }
    }
}

/// The segments put together again, with a slash between each two.
pub open spec fn join(segments: Seq<Seq<u8>>) -> Seq<u8>
    decreases segments.len(),
{
    if segments.len() == 0 {
        Seq::empty()
    } else if segments.len() == 1 {
        segments[0]
    } else {
        join(segments.drop_last()) + seq![SLASH] + segments.last()
    }
}

/// Whether the text holds no slash.
pub open spec fn slash_free(s: Seq<u8>) -> bool {
    forall|i: int| 0 <= i < s.len() ==> #[trigger] s[i] != SLASH
}

/// Splitting loses nothing and cuts at every slash: there is at least one
/// segment, no segment holds a slash, and the segments joined with slashes
/// are the text again.
pub proof fn lemma_split_join(s: Seq<u8>)
    ensures
        split(s).len() >= 1,
        forall|i: int| 0 <= i < split(s).len() ==> slash_free(#[trigger] split(s)[i]),
        join(split(s)) == s,
    decreases s.len(),
{
    if s.len() == 0 {
        assert(join(split(s)) =~= s);
    } else {
        let front = split(s.drop_last());
        lemma_split_join(s.drop_last());
        let last = front.len() - 1;
        if s.last() == SLASH {
            let all = front.push(Seq::empty());
            assert(all.drop_last() =~= front);
            assert(join(all) =~= s);
        } else {
            let grown = front.last().push(s.last());
            let all = front.update(last, grown);
            assert(slash_free(front[last]));
            assert(slash_free(grown)) by {
                assert forall|i: int| 0 <= i < grown.len() implies #[trigger] grown[i]
                    != SLASH by {
                    if i < grown.len() - 1 {
                        assert(grown[i] == front[last][i]);
                    }
                }
            }
            if front.len() == 1 {
                assert(join(all) =~= s);
            } else {
                assert(all.drop_last() =~= front.drop_last());
                assert(join(all) =~= join(front) + seq![s.last()]);
                assert(join(all) =~= s);
            }
        }
    }
}

/// Text without a slash, put behind any text, only makes its last segment
/// longer.
proof fn lemma_split_append(a: Seq<u8>, b: Seq<u8>)
    requires
        slash_free(b),
    ensures
        split(a).len() >= 1,
        split(a + b) == split(a).update(split(a).len() - 1, split(a).last() + b),
    decreases b.len(),
{
    lemma_split_join(a);
    let segments = split(a);
    let last = segments.len() - 1;
    if b.len() == 0 {
        assert(a + b =~= a);
        assert(segments.update(last, segments.last() + b) =~= segments);
    } else {
        let front = b.drop_last();
        assert(slash_free(front)) by {
            assert forall|i: int| 0 <= i < front.len() implies #[trigger] front[i] != SLASH by {
                assert(front[i] == b[i]);
            }
        }
        lemma_split_append(a, front);
        assert((a + b).drop_last() =~= a + front);
        assert((a + b).last() == b.last());
        assert(b.last() == b[b.len() - 1]);
        assert((segments.last() + front).push(b.last()) =~= segments.last() + b);
        assert(split(a + b) =~= segments.update(last, segments.last() + b));
    }
}

/// Joining and splitting are inverse to each other: segments without
/// slashes, at least one of them, come back unchanged when they are joined
/// and split again. With `lemma_split_join` this makes `split(s)` the only
/// way to write `s` as slash-free segments with slashes between them.
pub proof fn lemma_join_split(segments: Seq<Seq<u8>>)
    requires
        segments.len() >= 1,
        forall|i: int| 0 <= i < segments.len() ==> slash_free(#[trigger] segments[i]),
    ensures
        split(join(segments)) == segments,
    decreases segments.len(),
{
    let empty = Seq::<u8>::empty();
    if segments.len() == 1 {
        let only = segments[0];
        lemma_split_append(empty, only);
        assert(empty + only =~= only);
        assert(split(only) =~= segments);
    } else {
        let front = segments.drop_last();
        let last = segments.last();
        assert forall|i: int| 0 <= i < front.len() implies slash_free(#[trigger] front[i]) by {
            assert(front[i] == segments[i]);
        }
        lemma_join_split(front);
        let head = join(front) + seq![SLASH];
        assert(head.drop_last() =~= join(front));
        assert(split(head) == front.push(empty));
        assert(slash_free(last));
        lemma_split_append(head, last);
        assert(empty + last =~= last);
        assert(split(head + last) =~= segments);
    }
}

/// The views of a sequence of slices.
pub open spec fn views(v: Seq<&[u8]>) -> Seq<Seq<u8>> {
    v.map_values(|s: &[u8]| s@)
}

/// Cuts a text into its segments.
pub fn split_segments<'a>(s: &'a [u8]) -> (segments: Vec<&'a [u8]>)
    ensures
        views(segments@) == split(s@),
{
    let mut done: Vec<&'a [u8]> = Vec::new();
    let mut start: usize = 0;
    let mut i: usize = 0;
    assert(s@.take(0) =~= Seq::<u8>::empty());
    assert(split(s@.take(0)) =~= views(done@).push(s@.subrange(0, 0)));
    while i < s.len()
        invariant
            start <= i <= s@.len(),
            split(s@.take(i as int)) == views(done@).push(s@.subrange(start as int, i as int)),
        decreases s@.len() - i,
    {
        let ghost seen = s@.take(i + 1);
        let ghost before = views(done@);
        let ghost current = s@.subrange(start as int, i as int);
        assert(seen.drop_last() =~= s@.take(i as int));
        assert(seen.last() == s@[i as int]);
        if s[i] == SLASH {
            done.push(slice_subrange(s, start, i));
            start = i + 1;
            proof {
                assert(views(done@) =~= before.push(current));
                assert(s@.subrange(start as int, i + 1) =~= Seq::<u8>::empty());
            }
        } else {
            proof {
                let front = before.push(current);
                assert(current.push(s@[i as int]) =~= s@.subrange(start as int, i + 1));
                assert(front.update(front.len() - 1, front.last().push(s@[i as int]))
                    =~= before.push(s@.subrange(start as int, i + 1)));
            }
        }
        i += 1;
    }
    let ghost before = views(done@);
    assert(s@.take(i as int) =~= s@);
    done.push(slice_subrange(s, start, i));
    assert(views(done@) =~= before.push(s@.subrange(start as int, i as int)));
    done
}

} // verus!
