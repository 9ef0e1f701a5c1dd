//! Text operations on binding strings: splitting at `+`, joining with `+`,
//! trimming, lower-casing and comparing.
//!
//! Strings are modelled by their characters (`Seq<char>`).
use vstd::prelude::*;

verus! {

/// The characters of each string of a list.
pub open spec fn texts(list: Seq<String>) -> Seq<Seq<char>> {
    list.map_values(|s: String| s@)
}

/// The characters of each string slice of a list.
pub open spec fn slice_texts(list: Seq<&str>) -> Seq<Seq<char>> {
    list.map_values(|s: &str| s@)
}

/// The characters with the Unicode property `White_Space`.
pub open spec fn is_white_space(c: char) -> bool {
    let n = c as u32;
    ||| 0x9 <= n <= 0xd
    ||| n == 0x20
    ||| n == 0x85
    ||| n == 0xa0
    ||| n == 0x1680
    ||| 0x2000 <= n <= 0x200a
    ||| n == 0x2028
    ||| n == 0x2029
    ||| n == 0x202f
    ||| n == 0x205f
    ||| n == 0x3000
}

/// `s` without the white space at its two ends.
pub open spec fn trimmed(s: Seq<char>) -> Seq<char>
    decreases s.len(),
{
    if s.len() > 0 && is_white_space(s.first()) {
        trimmed(s.drop_first())
    } else if s.len() > 0 && is_white_space(s.last()) {
        trimmed(s.drop_last())
    } else {
        s
    }
}

/// Whether every character of `s` is an ASCII character.
pub open spec fn is_ascii_text(s: Seq<char>) -> bool {
    forall|i: int| 0 <= i < s.len() ==> (#[trigger] s[i] as u32) < 128
}

/// `A` to `Z` become `a` to `z`; every other character stays.
pub open spec fn ascii_lower(c: char) -> char {
    if 'A' <= c <= 'Z' {
        (c as u32 + 32) as char
    } else {
        c
    }
}

/// What `str::to_lowercase` returns for a text that is not plain ASCII: the
/// lower-case text by the Unicode rules.
pub uninterp spec fn unicode_lowercase(s: Seq<char>) -> Seq<char>;

/// The lower-case form of a text.
pub open spec fn lowercase(s: Seq<char>) -> Seq<char> {
    if is_ascii_text(s) {
        s.map_values(|c: char| ascii_lower(c))
    } else {
        unicode_lowercase(s)
    }
}

/// `str::trim`: returns the slice without leading and trailing white space,
/// where white space is what has the Unicode property `White_Space`.
pub assume_specification[ str::trim ](s: &str) -> (r: &str)
    ensures
        r@ == trimmed(s@),
;

/// `str::to_lowercase`: returns the lower-case equivalent of the slice. On a
/// plain ASCII text that is letter by letter the ASCII lower case; on any other
/// text it is a function of the text alone, which is only named here: nothing is
/// said of lower-casing such a text twice, or with its letters in another case.
pub assume_specification[ str::to_lowercase ](s: &str) -> (r: String)
    ensures
        r@ == (if is_ascii_text(s@) {
            s@.map_values(|c: char| ascii_lower(c))
        } else {
            unicode_lowercase(s@)
        }),
;

/// `==` on `str`: two slices are equal when they hold the same characters.
pub assume_specification[ <str as PartialEq<str>>::eq ](a: &str, b: &str) -> (r: bool)
    ensures
        r == (a@ == b@),
;

/// Where the first `+` of `s` stands, or the length of `s` where there is none.
pub open spec fn first_plus(s: Seq<char>) -> nat
    decreases s.len(),
{
    if s.len() == 0 || s.first() == '+' {
        0
    } else {
        1 + first_plus(s.drop_first())
    }
}

/// The parts of `s` between its `+` signs, in order. There is one part more
/// than there are signs, and a part can be empty.
pub open spec fn parts_of(s: Seq<char>) -> Seq<Seq<char>>
    decreases s.len(),
{
    let i = first_plus(s) as int;
    if i >= s.len() {
        seq![s]
    } else {
        seq![s.take(i)] + parts_of(s.skip(i + 1))
    }
}

/// The parts in order with a `+` between each two.
pub open spec fn joined(parts: Seq<Seq<char>>) -> Seq<char>
    decreases parts.len(),
{
    if parts.len() == 0 {
        Seq::empty()
    } else if parts.len() == 1 {
        parts.first()
    } else {
        parts.first() + seq!['+'] + joined(parts.drop_first())
    }
}

/// `first_plus` is the place `n` when the characters before `n` are other
/// characters and `n` is either the end or a `+`.
proof fn lemma_first_plus(s: Seq<char>, n: int)
    requires
        0 <= n <= s.len(),
        forall|i: int| 0 <= i < n ==> s[i] != '+',
        n < s.len() ==> s[n] == '+',
    ensures
        first_plus(s) == n,
    decreases s.len(),
{
    if n > 0 {
        assert forall|i: int| 0 <= i < n - 1 implies s.drop_first()[i] != '+' by {
            assert(s.drop_first()[i] == s[i + 1]);
        }
        lemma_first_plus(s.drop_first(), n - 1);
    }
}

/// Splits at every `+`.
pub fn split_plus<'a>(s: &'a str) -> (r: Vec<&'a str>)
    ensures
        slice_texts(r@) == parts_of(s@),
{
    let len: usize = s.unicode_len();
    let mut parts: Vec<&'a str> = Vec::new();
    let mut start: usize = 0;
    let mut here: usize = 0;
    assert(s@.skip(0) == s@);
    for c in it: s.chars()
        invariant
            len == s@.len(),
            it.seq() == s@,
            here == it.index(),
            start <= here <= len,
            parts_of(s@) == slice_texts(parts@) + parts_of(s@.skip(start as int)),
            forall|i: int| start <= i < here ==> s@[i] != '+',
    {
        if c == '+' {
            let ghost rest = s@.skip(start as int);
            let ghost piece = rest.take(here - start);
            proof {
                assert(s@[here as int] == c);
                lemma_first_plus(rest, here - start);
                assert(piece == s@.subrange(start as int, here as int));
                assert(rest.skip(here - start + 1) == s@.skip(here + 1));
            }
            let ghost before = slice_texts(parts@);
            parts.push(s.substring_char(start, here));
            start = here + 1;
            assert(slice_texts(parts@) == before.push(piece));
            assert(before.push(piece) + parts_of(s@.skip(start as int)) == before + parts_of(rest));
        }
        here = here + 1;
    }
    let ghost rest = s@.skip(start as int);
    proof {
        lemma_first_plus(rest, rest.len() as int);
        assert(rest == s@.subrange(start as int, len as int));
    }
    let ghost before = slice_texts(parts@);
    parts.push(s.substring_char(start, len));
    assert(slice_texts(parts@) == before + seq![rest]);
    parts
}

/// Joins the strings with a `+` between each two.
pub fn join_plus(parts: &Vec<String>) -> (r: String)
    ensures
        r@ == joined(texts(parts@)),
{
    let ghost all = texts(parts@);
    let mut r = String::new();
    let mut i: usize = 0;
    assert(all.skip(0) == all);
    while i < parts.len()
        invariant
            all == texts(parts@),
            i <= parts@.len(),
            i == 0 ==> r@ == Seq::<char>::empty(),
            0 < i < parts@.len() ==> joined(all) == r@ + seq!['+'] + joined(all.skip(i as int)),
            0 < i == parts@.len() ==> joined(all) == r@,
        decreases parts@.len() - i,
    {
        let ghost rest = all.skip(i as int);
        assert(rest.first() == parts@[i as int]@);
        assert(rest.drop_first() == all.skip(i + 1));
        if i > 0 {
            r.append("+");
            proof {
                reveal_strlit("+");
                assert("+"@ == seq!['+']);
            }
        }
        r.append(parts[i].as_str());
        i = i + 1;
        assert(0 < i < parts@.len() ==> joined(all) == r@ + seq!['+'] + joined(all.skip(i as int)));
        assert(0 < i == parts@.len() ==> joined(all) == r@);
    }
    r
}

/// Splitting what was joined gives the parts back, where there is at least one
/// part and none holds a `+`.
pub proof fn law_split_undoes_join(parts: Seq<Seq<char>>)
    requires
        parts.len() > 0,
        forall|k: int, i: int|
            0 <= k < parts.len() && 0 <= i < parts[k].len() ==> #[trigger] parts[k][i] != '+',
    ensures
        parts_of(joined(parts)) == parts,
    decreases parts.len(),
{
    let s = joined(parts);
    let head = parts.first();
    if parts.len() == 1 {
        lemma_first_plus(s, s.len() as int);
        assert(parts == seq![s]);
    } else {
        let tail = parts.drop_first();
        assert forall|k: int, i: int| 0 <= k < tail.len() && 0 <= i < tail[k].len() implies
            #[trigger] tail[k][i] != '+' by {
            assert(tail[k] == parts[k + 1]);
            assert(parts[k + 1][i] != '+');
        }
        law_split_undoes_join(tail);
        assert forall|i: int| 0 <= i < head.len() implies s[i] != '+' by {
            assert(s[i] == parts[0][i]);
        }
        lemma_first_plus(s, head.len() as int);
        assert(s.take(head.len() as int) == head);
        assert(s.skip(head.len() as int + 1) == joined(tail));
        assert(seq![head] + tail == parts);
    }
}

} // verus!
