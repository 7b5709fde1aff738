//! Text cut into segments at a separator.

use vstd::prelude::*;
use vstd::std_specs::iter::IteratorSpec;
use vstd::string::StrSliceExecFns;

verus! {

/// The segments of `text`: the stretches between one `sep` and the next, in
/// order, the empty ones too. A text with `n` separators has `n + 1`
/// segments.
pub open spec fn split(text: Seq<char>, sep: char) -> Seq<Seq<char>>
    decreases text.len(),
{
    if text.len() == 0 {
        seq![Seq::empty()]
    } else {
        let before = split(text.drop_last(), sep);
        if text.last() == sep {
            before.push(Seq::empty())
        } else {
            before.update(before.len() - 1, before.last().push(text.last()))
        }
    }
}

/// The segments put together again, with `sep` between one and the next.
pub open spec fn join(parts: Seq<Seq<char>>, sep: char) -> Seq<char>
    decreases parts.len(),
{
    if parts.len() == 0 {
        Seq::empty()
    } else if parts.len() == 1 {
        parts[0]
    } else {
        join(parts.drop_last(), sep) + seq![sep] + parts.last()
    }
}

/// A text has at least one segment, and its last segment is the stretch of
/// the text that begins where that segment does.
pub proof fn lemma_split_last(text: Seq<char>, sep: char)
    ensures
        split(text, sep).len() >= 1,
        split(text, sep).last().len() <= text.len(),
        split(text, sep).last() == text.skip(text.len() - split(text, sep).last().len()),
    decreases text.len(),
{
    if text.len() > 0 {
        let shorter = text.drop_last();
        lemma_split_last(shorter, sep);
        let before = split(shorter, sep);
        if text.last() != sep {
            let start = shorter.len() - before.last().len();
            assert(before.last().push(text.last()) =~= text.skip(start));
        } else {
            assert(Seq::<char>::empty() =~= text.skip(text.len() as int));
        }
    } else {
        assert(Seq::<char>::empty() =~= text.skip(0));
    }
}

/// To go on reading a text adds segments and lengthens the last one; the
/// segments before the last stay as they are.
pub proof fn lemma_split_prefix(text: Seq<char>, sep: char, read: int)
    requires
        0 <= read <= text.len(),
    ensures
        1 <= split(text.take(read), sep).len() <= split(text, sep).len(),
        forall|i: int|
            0 <= i < split(text.take(read), sep).len() - 1 ==> split(text, sep)[i] == split(
                text.take(read),
                sep,
            )[i],
    decreases text.len() - read,
{
    lemma_split_last(text.take(read), sep);
    if read == text.len() {
        assert(text.take(read) =~= text);
    } else {
        lemma_split_prefix(text, sep, read + 1);
        assert(text.take(read + 1).drop_last() =~= text.take(read));
    }
}

/// No segment holds the separator.
pub proof fn law_segments_hold_no_separator(text: Seq<char>, sep: char)
    ensures
        forall|i: int, j: int|
            0 <= i < split(text, sep).len() && 0 <= j < split(text, sep)[i].len() ==> split(
                text,
                sep,
            )[i][j] != sep,
    decreases text.len(),
{
    if text.len() > 0 {
        law_segments_hold_no_separator(text.drop_last(), sep);
        lemma_split_last(text.drop_last(), sep);
    }
}

/// To join the segments of a text gives the text back.
pub proof fn law_join_undoes_split(text: Seq<char>, sep: char)
    ensures
        join(split(text, sep), sep) == text,
    decreases text.len(),
{
    if text.len() == 0 {
        assert(join(split(text, sep), sep) =~= text);
    } else {
        let shorter = text.drop_last();
        let before = split(shorter, sep);
        law_join_undoes_split(shorter, sep);
        lemma_split_last(shorter, sep);
        let parts = split(text, sep);
        if text.last() == sep {
            assert(parts.drop_last() =~= before);
            assert(join(parts, sep) =~= text);
        } else if before.len() == 1 {
            assert(join(parts, sep) =~= text);
        } else {
            assert(parts.drop_last() =~= before.drop_last());
            assert(shorter == join(before.drop_last(), sep) + seq![sep] + before.last());
            assert(text =~= shorter.push(text.last()));
            assert(join(parts, sep) =~= text);
        }
    }
}

/// A text without a separator is one segment.
pub proof fn lemma_split_plain(text: Seq<char>, sep: char)
    requires
        !text.contains(sep),
    ensures
        split(text, sep) == seq![text],
    decreases text.len(),
{
    if text.len() == 0 {
        assert(text =~= Seq::<char>::empty());
    } else {
        let shorter = text.drop_last();
        assert forall|i: int| 0 <= i < shorter.len() implies shorter[i] != sep by {
            assert(text[i] == shorter[i]);
            assert(text.contains(text[i]));
        }
        assert(!shorter.contains(sep));
        lemma_split_plain(shorter, sep);
        assert(text.contains(text.last()));
        let parts = split(text, sep);
        assert(parts.len() == 1);
        assert(parts[0] =~= text);
        assert(parts =~= seq![text]);
    }
}

/// The segments of two texts with a separator between them are the
/// segments of the first and then those of the second.
pub proof fn law_split_at_separator(before: Seq<char>, after: Seq<char>, sep: char)
    ensures
        split(before + seq![sep] + after, sep) == split(before, sep) + split(after, sep),
    decreases after.len(),
{
    let whole = before + seq![sep] + after;
    lemma_split_last(before, sep);
    if after.len() == 0 {
        assert(whole.drop_last() =~= before);
        assert(split(whole, sep) =~= split(before, sep) + split(after, sep));
    } else {
        let shorter = after.drop_last();
        assert(whole.drop_last() =~= before + seq![sep] + shorter);
        law_split_at_separator(before, shorter, sep);
        lemma_split_last(shorter, sep);
        assert(whole.last() == after.last());
        assert(split(whole, sep) =~= split(before, sep) + split(after, sep));
    }
}

/// How often `sep` stands in `text`.
pub open spec fn separators(text: Seq<char>, sep: char) -> nat
    decreases text.len(),
{
    if text.len() == 0 {
        0
    } else {
        separators(text.drop_last(), sep) + if text.last() == sep {
            1nat
        } else {
            0nat
        }
    }
}

/// A text has one segment more than it has separators.
pub proof fn law_one_segment_more_than_separators(text: Seq<char>, sep: char)
    ensures
        split(text, sep).len() == separators(text, sep) + 1,
    decreases text.len(),
{
    if text.len() > 0 {
        law_one_segment_more_than_separators(text.drop_last(), sep);
    }
}

/// The characters of a text.
pub fn to_chars(text: &str) -> (chars: Vec<char>)
    ensures
        chars@ == text@,
{
    broadcast use vstd::string::group_string_axioms;

    let mut chars: Vec<char> = Vec::new();
    for c in it: text.chars()
        invariant
            it.seq() == text@,
            chars@ == text@.take(it.index() as int),
    {
        chars.push(c);
    }
    chars
}

/// Where segment `n` of `chars` begins and ends, if there is one.
pub fn segment_bounds(chars: &[char], sep: char, n: usize) -> (bounds: Option<(usize, usize)>)
    ensures
        bounds is Some <==> n < split(chars@, sep).len(),
        bounds matches Some((from, to)) ==> from <= to <= chars.len() && split(chars@, sep)[n as int]
            == chars@.subrange(from as int, to as int),
{
    let mut from: usize = 0;
    let mut seen: usize = 0;
    let mut i: usize = 0;
    proof {
        assert(chars@.take(0) =~= Seq::empty());
        assert(chars@.subrange(0, 0) =~= Seq::empty());
    }
    while i < chars.len()
        invariant
            from <= i <= chars.len(),
            seen <= n,
            split(chars@.take(i as int), sep).len() == seen + 1,
            split(chars@.take(i as int), sep).last() == chars@.subrange(from as int, i as int),
        decreases chars.len() - i,
    {
        proof {
            assert(chars@.take(i + 1).drop_last() =~= chars@.take(i as int));
        }
        if chars[i] == sep {
            if seen == n {
                proof {
                    lemma_split_prefix(chars@, sep, i + 1);
                }
                return Some((from, i));
            }
            seen = seen + 1;
            from = i + 1;
            proof {
                assert(chars@.subrange(from as int, from as int) =~= Seq::empty());
            }
        } else {
            proof {
                assert(chars@.subrange(from as int, i as int).push(chars@[i as int])
                    =~= chars@.subrange(from as int, i + 1));
            }
        }
        i = i + 1;
    }
    proof {
        assert(chars@.take(i as int) =~= chars@);
    }
    if seen == n {
        Some((from, i))
    } else {
        None
    }
}

/// Segment `n` of `text`, counted from 0, if there is one.
pub fn segment<'a>(text: &'a str, sep: char, n: usize) -> (part: Option<&'a str>)
    ensures
        part is Some <==> n < split(text@, sep).len(),
        part matches Some(found) ==> found@ == split(text@, sep)[n as int],
{
    let chars = to_chars(text);
    match segment_bounds(chars.as_slice(), sep, n) {
        Some((from, to)) => Some(text.substring_char(from, to)),
        None => None,
    }
}

} // verus!
