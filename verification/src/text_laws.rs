//! What holds of splitting, joining, trimming and lower-casing.
use vstd::prelude::*;

use crate::text;

verus! {

/// The texts of a list of strings are the characters of each of them, in order.
pub proof fn law_texts_are_those_of_the_strings(strings: Seq<String>, slices: Seq<&str>, i: int)
    ensures
        text::texts(strings).len() == strings.len(),
        text::slice_texts(slices).len() == slices.len(),
        0 <= i < strings.len() ==> text::texts(strings)[i] == strings[i]@,
        0 <= i < slices.len() ==> text::slice_texts(slices)[i] == slices[i]@,
{
}

/// Joining one part gives the part, and joining two lists that are not empty
/// one after the other puts a single `+` between what they give.
pub proof fn law_join_puts_one_plus_between(a: Seq<Seq<char>>, b: Seq<Seq<char>>, part: Seq<char>)
    requires
        a.len() > 0,
        b.len() > 0,
    ensures
        text::joined(Seq::empty()) == Seq::<char>::empty(),
        text::joined(seq![part]) == part,
        text::joined(a + b) == text::joined(a) + seq!['+'] + text::joined(b),
    decreases a.len(),
{
    if a.len() == 1 {
        assert((a + b).drop_first() == b);
        assert((a + b).first() == a.first());
    } else {
        law_join_puts_one_plus_between(a.drop_first(), b, part);
        assert((a + b).drop_first() == a.drop_first() + b);
        assert((a + b).first() == a.first());
        let tail = text::joined(a.drop_first());
        assert(a.first() + seq!['+'] + (tail + seq!['+'] + text::joined(b)) == a.first() + seq!['+']
            + tail + seq!['+'] + text::joined(b));
    }
}

proof fn lemma_first_plus_is_first(s: Seq<char>)
    ensures
        text::first_plus(s) <= s.len(),
        text::first_plus(s) < s.len() ==> s[text::first_plus(s) as int] == '+',
        forall|i: int| 0 <= i < text::first_plus(s) ==> s[i] != '+',
    decreases s.len(),
{
    if s.len() > 0 && s.first() != '+' {
        lemma_first_plus_is_first(s.drop_first());
        assert forall|i: int| 0 <= i < text::first_plus(s) implies s[i] != '+' by {
            if i > 0 {
                assert(s[i] == s.drop_first()[i - 1]);
            }
        }
    }
}

/// Splitting loses nothing: the parts of a text, joined again, are the text.
/// There is at least one part, and none holds a `+`.
pub proof fn law_join_undoes_split(s: Seq<char>)
    ensures
        text::joined(text::parts_of(s)) == s,
        text::parts_of(s).len() > 0,
        forall|k: int, i: int|
            0 <= k < text::parts_of(s).len() && 0 <= i < text::parts_of(s)[k].len()
                ==> #[trigger] text::parts_of(s)[k][i] != '+',
    decreases s.len(),
{
    let n = text::first_plus(s) as int;
    lemma_first_plus_is_first(s);
    if n < s.len() {
        let rest = s.skip(n + 1);
        law_join_undoes_split(rest);
        let parts = text::parts_of(s);
        assert(parts.first() == s.take(n));
        assert(parts.drop_first() == text::parts_of(rest));
        assert(s == s.take(n) + seq!['+'] + rest);
        assert forall|k: int, i: int| 0 <= k < parts.len() && 0 <= i < parts[k].len() implies
            #[trigger] parts[k][i] != '+' by {
            if k > 0 {
                assert(parts[k] == text::parts_of(rest)[k - 1]);
                assert(text::parts_of(rest)[k - 1][i] != '+');
            } else {
                assert(parts[k][i] == s[i]);
            }
        }
    } else {
        assert(s.take(s.len() as int) == s);
    }
}

/// Where the trimmed text begins and ends.
proof fn lemma_trimmed_range(s: Seq<char>) -> (r: (int, int))
    ensures
        0 <= r.0 <= r.1 <= s.len(),
        text::trimmed(s) == s.subrange(r.0, r.1),
        forall|i: int| 0 <= i < r.0 ==> text::is_white_space(#[trigger] s[i]),
        forall|i: int| r.1 <= i < s.len() ==> text::is_white_space(#[trigger] s[i]),
        text::trimmed(s).len() > 0 ==> !text::is_white_space(text::trimmed(s).first())
            && !text::is_white_space(text::trimmed(s).last()),
    decreases s.len(),
{
    if s.len() > 0 && text::is_white_space(s.first()) {
        let t = s.drop_first();
        let r = lemma_trimmed_range(t);
        assert(t.subrange(r.0, r.1) == s.subrange(r.0 + 1, r.1 + 1));
        assert forall|i: int| 0 <= i < r.0 + 1 implies text::is_white_space(#[trigger] s[i]) by {
            if i > 0 {
                assert(s[i] == t[i - 1]);
            }
        }
        assert forall|i: int| r.1 + 1 <= i < s.len() implies text::is_white_space(
            #[trigger] s[i],
        ) by {
            assert(s[i] == t[i - 1]);
        }
        (r.0 + 1, r.1 + 1)
    } else if s.len() > 0 && text::is_white_space(s.last()) {
        let t = s.drop_last();
        let r = lemma_trimmed_range(t);
        assert(t.subrange(r.0, r.1) == s.subrange(r.0, r.1));
        assert forall|i: int| 0 <= i < r.0 implies text::is_white_space(#[trigger] s[i]) by {
            assert(s[i] == t[i]);
        }
        assert forall|i: int| r.1 <= i < s.len() implies text::is_white_space(#[trigger] s[i]) by {
            if i < s.len() - 1 {
                assert(s[i] == t[i]);
            }
        }
        r
    } else {
        assert(s.subrange(0, s.len() as int) == s);
        (0, s.len() as int)
    }
}

/// Trimming takes white space off the two ends and nothing else, and leaves
/// none there.
pub proof fn law_trim_takes_white_space_off(s: Seq<char>)
    ensures
        exists|left: Seq<char>, right: Seq<char>|
            s == #[trigger] (left + text::trimmed(s) + right) && (forall|i: int|
                0 <= i < left.len() ==> text::is_white_space(#[trigger] left[i])) && (forall|i: int|
                0 <= i < right.len() ==> text::is_white_space(#[trigger] right[i])),
        text::trimmed(s).len() > 0 ==> !text::is_white_space(text::trimmed(s).first())
            && !text::is_white_space(text::trimmed(s).last()),
{
    let (from, to) = lemma_trimmed_range(s);
    let left = s.take(from);
    let right = s.skip(to);
    assert(s == left + text::trimmed(s) + right);
    assert forall|i: int| 0 <= i < left.len() implies text::is_white_space(#[trigger] left[i]) by {
        assert(left[i] == s[i]);
    }
    assert forall|i: int| 0 <= i < right.len() implies text::is_white_space(#[trigger] right[i]) by {
        assert(right[i] == s[to + i]);
    }
}

/// Of the ASCII characters the blank and the five control characters from
/// tabulator to carriage return are white space, and no other.
pub proof fn law_ascii_white_space(c: char)
    requires
        (c as u32) < 128,
    ensures
        text::is_white_space(c) <==> c == ' ' || '\t' <= c <= '\r',
{
}

/// Lower-casing an ASCII text turns each capital letter into the small letter
/// at the same place of the alphabet, and keeps every other character.
pub proof fn law_ascii_lowercase_letter_by_letter(s: Seq<char>, i: int)
    requires
        text::is_ascii_text(s),
        0 <= i < s.len(),
    ensures
        text::lowercase(s).len() == s.len(),
        'A' <= s[i] <= 'Z' ==> 'a' <= text::lowercase(s)[i] <= 'z' && text::lowercase(s)[i] as int
            - 'a' as int == s[i] as int - 'A' as int,
        !('A' <= s[i] <= 'Z') ==> text::lowercase(s)[i] == s[i],
{
}

} // verus!
