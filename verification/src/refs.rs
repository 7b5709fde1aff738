//! What a ref says of the application that it belongs to.
//!
//! A ref is a text of segments with `/` between them. Its second segment is
//! the id of what was built, its third the architecture that it was built
//! for: `app/org.example.App/x86_64/stable`.

use vstd::prelude::*;
use vstd::pervasive::unreached;
use vstd::string::StrSliceExecFns;
use crate::segments::{
    join, law_join_undoes_split, law_split_at_separator, lemma_split_last, lemma_split_plain,
    segment_bounds, split, to_chars,
};

verus! {

/// Whether `part` is the last part of an id that names no application of its
/// own but the sources, the debug information or the locale data of one.
pub open spec fn is_extension_part(part: Seq<char>) -> bool {
    part == "Sources"@ || part == "Debug"@ || part == "Locale"@
}

/// The id of the application that `ref_id` belongs to: `ref_id` without its
/// last part where that part marks an extension, and `ref_id` itself where
/// it does not. The parts of an id are what stands between its dots.
pub open spec fn app_id_of(ref_id: Seq<char>) -> Seq<char> {
    let parts = split(ref_id, '.');
    if is_extension_part(parts.last()) {
        join(parts.drop_last(), '.')
    } else {
        ref_id
    }
}

/// The three extension parts hold no dot.
proof fn lemma_extension_part_is_plain(part: Seq<char>)
    requires
        is_extension_part(part),
    ensures
        !part.contains('.'),
{
    reveal_strlit("Sources");
    reveal_strlit("Debug");
    reveal_strlit("Locale");
    assert forall|i: int| 0 <= i < part.len() implies part[i] != '.' by {
        if part == "Sources"@ {
            assert("Sources"@ =~= seq!['S', 'o', 'u', 'r', 'c', 'e', 's']);
        } else if part == "Debug"@ {
            assert("Debug"@ =~= seq!['D', 'e', 'b', 'u', 'g']);
        } else {
            assert("Locale"@ =~= seq!['L', 'o', 'c', 'a', 'l', 'e']);
        }
    }
}

/// An id that ends in a dot and an extension part belongs to the
/// application whose id stands before that dot.
pub proof fn law_extension_part_is_dropped(base: Seq<char>, extension: Seq<char>)
    requires
        is_extension_part(extension),
    ensures
        app_id_of(base + seq!['.'] + extension) == base,
{
    lemma_extension_part_is_plain(extension);
    lemma_split_plain(extension, '.');
    law_split_at_separator(base, extension, '.');
    law_join_undoes_split(base, '.');
    let parts = split(base + seq!['.'] + extension, '.');
    assert(parts.drop_last() =~= split(base, '.'));
}

/// An extension part alone belongs to the application with the empty id.
pub proof fn law_extension_part_alone_is_dropped(extension: Seq<char>)
    requires
        is_extension_part(extension),
    ensures
        app_id_of(extension) == Seq::<char>::empty(),
{
    lemma_extension_part_is_plain(extension);
    lemma_split_plain(extension, '.');
    assert(split(extension, '.').drop_last() =~= Seq::<Seq<char>>::empty());
}

/// In a ref that is put together from a kind, an id, an architecture and a
/// branch, the second segment is the id and the third the architecture.
pub proof fn law_ref_segments(kind: Seq<char>, id: Seq<char>, arch: Seq<char>, branch: Seq<char>)
    requires
        !kind.contains('/'),
        !id.contains('/'),
        !arch.contains('/'),
    ensures
        ({
            let parts = split(kind + seq!['/'] + id + seq!['/'] + arch + seq!['/'] + branch, '/');
            &&& parts.len() > 3
            &&& parts[0] == kind
            &&& parts[1] == id
            &&& parts[2] == arch
        }),
{
    lemma_split_plain(kind, '/');
    lemma_split_plain(id, '/');
    lemma_split_plain(arch, '/');
    lemma_split_last(branch, '/');
    law_split_at_separator(kind, id, '/');
    law_split_at_separator(kind + seq!['/'] + id, arch, '/');
    law_split_at_separator(kind + seq!['/'] + id + seq!['/'] + arch, branch, '/');
}

/// Whether the characters of `chars` from `from` up to `to` spell `word`.
fn spells(chars: &[char], from: usize, to: usize, word: &str) -> (same: bool)
    requires
        from <= to <= chars.len(),
    ensures
        same == (chars@.subrange(from as int, to as int) == word@),
{
    let letters = to_chars(word);
    if letters.len() != to - from {
        return false;
    }
    let mut i: usize = 0;
    while i < letters.len()
        invariant
            from <= to <= chars.len(),
            letters.len() == to - from,
            i <= letters.len(),
            letters@ == word@,
            forall|k: int| 0 <= k < i ==> chars@[from + k] == letters@[k],
        decreases letters.len() - i,
    {
        if chars[from + i] != letters[i] {
            proof {
                assert(chars@.subrange(from as int, to as int)[i as int] == chars@[from + i]);
            }
            return false;
        }
        i = i + 1;
    }
    proof {
        assert(chars@.subrange(from as int, to as int) =~= word@);
    }
    true
}

/// The architecture that a ref is for: its third segment.
pub fn arch_from_ref(refstring: &str) -> (arch: String)
    requires
        split(refstring@, '/').len() > 2,
    ensures
        arch@ == split(refstring@, '/')[2],
{
    let chars = to_chars(refstring);
    match segment_bounds(chars.as_slice(), '/', 2) {
        Some((from, to)) => refstring.substring_char(from, to).to_owned(),
        None => unreached(),
    }
}

/// The id of the application that a ref belongs to: its second segment,
/// without a last part `Sources`, `Debug` or `Locale`.
pub fn app_id_from_ref(refstring: &str) -> (id: String)
    requires
        split(refstring@, '/').len() > 1,
    ensures
        id@ == app_id_of(split(refstring@, '/')[1]),
{
    let chars = to_chars(refstring);
    let (from, to) = match segment_bounds(chars.as_slice(), '/', 1) {
        Some(bounds) => bounds,
        None => unreached(),
    };
    let ghost ref_id = chars@.subrange(from as int, to as int);
    let mut last_from: usize = from;
    let mut i: usize = from;
    proof {
        assert(ref_id.take(0) =~= Seq::empty());
        assert(chars@.subrange(from as int, from as int) =~= Seq::empty());
    }
    while i < to
        invariant
            from <= last_from <= i <= to <= chars.len(),
            ref_id == chars@.subrange(from as int, to as int),
            split(ref_id.take(i - from), '.').len() >= 1,
            split(ref_id.take(i - from), '.').last() == chars@.subrange(last_from as int, i as int),
            last_from == from ==> split(ref_id.take(i - from), '.').len() == 1,
            last_from > from ==> split(ref_id.take(i - from), '.').drop_last() == split(
                chars@.subrange(from as int, last_from - 1),
                '.',
            ),
        decreases to - i,
    {
        proof {
            assert(ref_id.take(i + 1 - from).drop_last() =~= ref_id.take(i - from));
            assert(ref_id.take(i + 1 - from).last() == chars@[i as int]);
        }
        if chars[i] == '.' {
            proof {
                let before = split(ref_id.take(i - from), '.');
                assert(before.push(Seq::empty()).drop_last() =~= before);
                assert(ref_id.take(i - from) =~= chars@.subrange(from as int, i as int));
                assert(chars@.subrange(i + 1, i + 1) =~= Seq::empty());
            }
            last_from = i + 1;
        } else {
            proof {
                let before = split(ref_id.take(i - from), '.');
                let after = split(ref_id.take(i + 1 - from), '.');
                assert(after.drop_last() =~= before.drop_last());
                assert(chars@.subrange(last_from as int, i as int).push(chars@[i as int])
                    =~= chars@.subrange(last_from as int, i + 1));
            }
        }
        i = i + 1;
    }
    proof {
        assert(ref_id.take(to - from) =~= ref_id);
    }
    let extension = spells(chars.as_slice(), last_from, to, "Sources") || spells(
        chars.as_slice(),
        last_from,
        to,
        "Debug",
    ) || spells(chars.as_slice(), last_from, to, "Locale");
    if extension {
        let end = if last_from == from {
            from
        } else {
            last_from - 1
        };
        proof {
            let parts = split(ref_id, '.');
            if last_from == from {
                assert(parts.drop_last() =~= Seq::empty());
                assert(chars@.subrange(from as int, from as int) =~= Seq::empty());
            } else {
                law_join_undoes_split(chars@.subrange(from as int, last_from - 1), '.');
            }
        }
        refstring.substring_char(from, end).to_owned()
    } else {
        refstring.substring_char(from, to).to_owned()
    }
}

} // verus!
