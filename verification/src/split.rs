//! Splitting a run of bytes at a delimiter byte.
//!
//! Both the line framer (at line feeds) and the reading parser (at commas)
//! rest on the same notion: a text with `n` delimiters has `n + 1` parts, none
//! of which holds the delimiter, and joining the parts with the delimiter gives
//! the text back.

use vstd::prelude::*;

verus! {

/// The parts of `s` between its occurrences of `delimiter`, in order.
///
/// The empty text has one, empty, part. [`lemma_split_parts_clean`] and
/// [`lemma_split_join`] say what the parts are without following the
/// recursion.
pub open spec fn split(s: Seq<u8>, delimiter: u8) -> Seq<Seq<u8>>
    decreases s.len(),
{
    if s.len() == 0 {
        seq![Seq::<u8>::empty()]
    } else {
        let before = split(s.drop_last(), delimiter);
        if s.last() == delimiter {
            before.push(Seq::<u8>::empty())
        } else {
            before.update(before.len() - 1, before.last().push(s.last()))
        }
    }
}

/// How often `delimiter` occurs in `s`.
pub open spec fn count(s: Seq<u8>, delimiter: u8) -> nat
    decreases s.len(),
{
    if s.len() == 0 {
        0
    } else {
        count(s.drop_last(), delimiter) + if s.last() == delimiter {
            1nat
        } else {
            0nat
        }
    }
}

/// The parts written one after the other with `delimiter` between them.
pub open spec fn join(parts: Seq<Seq<u8>>, delimiter: u8) -> Seq<u8>
    decreases parts.len(),
{
    if parts.len() == 0 {
        Seq::<u8>::empty()
    } else if parts.len() == 1 {
        parts[0]
    } else {
        join(parts.drop_last(), delimiter).push(delimiter) + parts.last()
    }
}

/// `s` holds no `delimiter`.
pub open spec fn free_of(s: Seq<u8>, delimiter: u8) -> bool {
    forall|i: int| 0 <= i < s.len() ==> #[trigger] s[i] != delimiter
}

/// A text has one part more than it has delimiters.
pub proof fn lemma_split_len(s: Seq<u8>, delimiter: u8)
    ensures
        split(s, delimiter).len() == count(s, delimiter) + 1,
    decreases s.len(),
{
    if s.len() > 0 {
        lemma_split_len(s.drop_last(), delimiter);
    }
}

/// No part of a text holds the delimiter.
pub proof fn lemma_split_parts_clean(s: Seq<u8>, delimiter: u8)
    ensures
        forall|k: int|
            0 <= k < split(s, delimiter).len() ==> free_of(
                #[trigger] split(s, delimiter)[k],
                delimiter,
            ),
    decreases s.len(),
{
    if s.len() > 0 {
        lemma_split_parts_clean(s.drop_last(), delimiter);
        lemma_split_len(s.drop_last(), delimiter);
    }
}

/// Joining the parts of a text gives the text back.
pub proof fn lemma_split_join(s: Seq<u8>, delimiter: u8)
    ensures
        join(split(s, delimiter), delimiter) == s,
    decreases s.len(),
{
    if s.len() > 0 {
        let front = s.drop_last();
        let before = split(front, delimiter);
        lemma_split_join(front, delimiter);
        lemma_split_len(front, delimiter);
        if s.last() == delimiter {
            let parts = before.push(Seq::<u8>::empty());
            assert(parts.drop_last() =~= before);
            assert(join(parts, delimiter) =~= s);
        } else {
            let grown = before.last().push(s.last());
            let parts = before.update(before.len() - 1, grown);
            if before.len() == 1 {
                assert(join(parts, delimiter) =~= s);
            } else {
                assert(parts.drop_last() =~= before.drop_last());
                assert(join(parts, delimiter) =~= join(before, delimiter).push(s.last()));
                assert(join(parts, delimiter) =~= s);
            }
        }
    }
}

/// A text without the delimiter is its own single part.
pub proof fn lemma_split_free(s: Seq<u8>, delimiter: u8)
    requires
        free_of(s, delimiter),
    ensures
        split(s, delimiter) == seq![s],
    decreases s.len(),
{
    if s.len() == 0 {
        assert(s =~= Seq::<u8>::empty());
    } else {
        lemma_split_free(s.drop_last(), delimiter);
        assert(split(s, delimiter) =~= seq![s]) by {
            assert(s.drop_last().push(s.last()) =~= s);
        }
    }
}

/// Splitting two texts written one after the other: the last part of the first
/// and the first part of the second grow together, the other parts stay.
pub proof fn lemma_split_concat(a: Seq<u8>, b: Seq<u8>, delimiter: u8)
    ensures
        split(a + b, delimiter) == split(a, delimiter).drop_last().push(
            split(a, delimiter).last() + split(b, delimiter).first(),
        ) + split(b, delimiter).skip(1),
    decreases b.len(),
{
    let pa = split(a, delimiter);
    let pb = split(b, delimiter);
    lemma_split_len(a, delimiter);
    lemma_split_len(b, delimiter);
    if b.len() == 0 {
        assert(a + b =~= a);
        assert(pa.drop_last().push(pa.last() + pb.first()) + pb.skip(1) =~= pa);
    } else {
        let front = b.drop_last();
        let pf = split(front, delimiter);
        lemma_split_concat(a, front, delimiter);
        lemma_split_len(front, delimiter);
        assert((a + b).drop_last() =~= a + front);
        assert((a + b).last() == b.last());
        let whole_front = split(a + front, delimiter);
        let expected = pa.drop_last().push(pa.last() + pb.first()) + pb.skip(1);
        if b.last() == delimiter {
            assert(whole_front.push(Seq::<u8>::empty()) =~= expected);
        } else if pf.len() == 1 {
            assert(pa.last() + pf.first().push(b.last()) =~= (pa.last() + pf.first()).push(
                b.last(),
            ));
            assert(whole_front.update(
                whole_front.len() - 1,
                whole_front.last().push(b.last()),
            ) =~= expected);
        } else {
            assert(whole_front.update(
                whole_front.len() - 1,
                whole_front.last().push(b.last()),
            ) =~= expected);
        }
    }
}

/// The views of the vectors in `parts`, in order.
pub open spec fn views(parts: Seq<Vec<u8>>) -> Seq<Seq<u8>> {
    Seq::new(parts.len(), |i: int| parts[i]@)
}

/// Splits `s` at every `delimiter`.
pub fn split_bytes(s: &[u8], delimiter: u8) -> (parts: Vec<Vec<u8>>)
    ensures
        views(parts@) == split(s@, delimiter),
{
    let mut parts: Vec<Vec<u8>> = Vec::new();
    let mut current: Vec<u8> = Vec::new();
    let mut i: usize = 0;
    assert(s@.take(0) =~= Seq::<u8>::empty());
    assert(views(parts@).push(current@) =~= split(s@.take(0), delimiter));
    while i < s.len()
        invariant
            i <= s@.len(),
            views(parts@).push(current@) == split(s@.take(i as int), delimiter),
        decreases s@.len() - i,
    {
        let ghost before = views(parts@).push(current@);
        let ghost prefix = s@.take(i as int + 1);
        assert(prefix.drop_last() =~= s@.take(i as int));
        assert(prefix.last() == s@[i as int]);
        let b: u8 = s[i];
        if b == delimiter {
            parts.push(current);
            current = Vec::new();
            assert(views(parts@).push(current@) =~= before.push(Seq::<u8>::empty()));
        } else {
            current.push(b);
            assert(views(parts@).push(current@) =~= before.update(
                before.len() - 1,
                before.last().push(b),
            ));
        }
        i += 1;
    }
    assert(s@.take(i as int) =~= s@);
    let ghost before = views(parts@).push(current@);
    parts.push(current);
    assert(views(parts@) =~= before);
    parts
}

} // verus!
