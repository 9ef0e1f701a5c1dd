//! What holds of parsing and formatting together.
use vstd::prelude::*;

use crate::binding;
use crate::binding::{KeyKind, KeyView};
use crate::button;
use crate::button::MouseButton;
use crate::modifiers;
use crate::platform::Platform;
use crate::text;

verus! {

/// Where a key is out of place, there is a first such key.
proof fn lemma_first_fault_exists(keys: Seq<KeyView>, i: int)
    requires
        binding::is_fault_at(keys, i),
    ensures
        exists|j: int| binding::is_first_fault(keys, j),
    decreases i,
{
    if exists|j: int| j < i && #[trigger] binding::is_fault_at(keys, j) {
        let j = choose|j: int| j < i && #[trigger] binding::is_fault_at(keys, j);
        lemma_first_fault_exists(keys, j);
    } else {
        assert(binding::is_first_fault(keys, i));
    }
}

/// Whether the keys make up a binding: every key is known and exactly one is a
/// mouse button.
pub open spec fn is_complete(keys: Seq<KeyView>) -> bool {
    &&& forall|i: int|
        0 <= i < keys.len() ==> !(binding::kind_of(#[trigger] keys[i]) is Unknown)
    &&& exists|i: int| #[trigger]
        binding::is_button_at(keys, i) && forall|j: int| #[trigger]
            binding::is_button_at(keys, j) ==> j == i
}

proof fn lemma_assembled_ok_iff(keys: Seq<KeyView>, hotkey: Seq<char>)
    ensures
        binding::assembled(keys, hotkey) is Ok <==> is_complete(keys),
        forall|i: int|
            binding::assembled(keys, hotkey) is Ok && #[trigger] binding::is_button_at(keys, i)
                ==> binding::assembled(keys, hotkey) == Ok::<(MouseButton, u8), Seq<char>>(
                (binding::kind_of(keys[i])->Button_0, binding::modifiers_of(keys)),
            ),
{
    if binding::assembled(keys, hotkey) is Ok {
        assert forall|i: int| !#[trigger] binding::is_fault_at(keys, i) by {
            if binding::is_fault_at(keys, i) {
                lemma_first_fault_exists(keys, i);
            }
        }
        assert forall|i: int| 0 <= i < keys.len() implies !(binding::kind_of(
            #[trigger] keys[i],
        ) is Unknown) by {
            assert(!binding::is_fault_at(keys, i));
        }
        let i = choose|i: int| binding::is_button_at(keys, i);
        assert(binding::is_button_at(keys, i));
        assert forall|j: int| #[trigger] binding::is_button_at(keys, j) implies j == i by {
            assert(!binding::is_fault_at(keys, i));
            assert(!binding::is_fault_at(keys, j));
        }
        assert forall|i: int| #[trigger] binding::is_button_at(keys, i) implies binding::assembled(
            keys,
            hotkey,
        ) == Ok::<(MouseButton, u8), Seq<char>>(
            (binding::kind_of(keys[i])->Button_0, binding::modifiers_of(keys)),
        ) by {
            binding::lemma_assembled_ok(keys, hotkey, i);
        }
    }
    if is_complete(keys) {
        let i = choose|i: int| #[trigger]
            binding::is_button_at(keys, i) && forall|j: int| #[trigger]
                binding::is_button_at(keys, j) ==> j == i;
        assert forall|k: int| !#[trigger] binding::is_fault_at(keys, k) by {
            if 0 <= k < keys.len() {
                assert(!(binding::kind_of(keys[k]) is Unknown));
            }
        }
        binding::lemma_assembled_ok(keys, hotkey, i);
    }
}

/// A string is a mouse binding exactly when each of its keys that is not blank
/// is a modifier or a mouse button, and exactly one is a mouse button.
pub proof fn law_binding_has_one_button(hotkey: Seq<char>)
    ensures
        binding::parsed(hotkey) is Ok <==> is_complete(binding::keys_of(hotkey)),
{
    lemma_assembled_ok_iff(binding::keys_of(hotkey), hotkey);
}

/// A parsed binding has no flags but those of the four modifiers.
pub proof fn law_parsed_modifiers_are_known(hotkey: Seq<char>)
    requires
        binding::parsed(hotkey) is Ok,
    ensures
        binding::parsed(hotkey)->Ok_0.1 < 16,
{
    let keys = binding::keys_of(hotkey);
    lemma_assembled_ok_iff(keys, hotkey);
    let c = binding::has_modifier(keys, modifiers::CTRL);
    let s = binding::has_modifier(keys, modifiers::SHIFT);
    let a = binding::has_modifier(keys, modifiers::ALT);
    let m = binding::has_modifier(keys, modifiers::META);
    assert((binding::flag_if(c, 1) | binding::flag_if(s, 2) | binding::flag_if(a, 4)
        | binding::flag_if(m, 8)) < 16u8) by (bit_vector);
}

/// Two sequences with the same elements: what stands in the one stands in the
/// other.
proof fn lemma_a_place<T>(a: Seq<T>, b: Seq<T>, i: int) -> (p: int)
    requires
        a.to_multiset() == b.to_multiset(),
        0 <= i < a.len(),
    ensures
        0 <= p < b.len(),
        b[p] == a[i],
{
    vstd::seq_lib::to_multiset_contains(a, a[i]);
    vstd::seq_lib::to_multiset_contains(b, a[i]);
    assert(a.contains(a[i]));
    choose|p: int| 0 <= p < b.len() && b[p] == a[i]
}

/// Two sequences with the same elements: what stands at two places of the one
/// stands at two places of the other.
proof fn lemma_two_places<T>(a: Seq<T>, b: Seq<T>, i: int, j: int) -> (r: (int, int))
    requires
        a.to_multiset() == b.to_multiset(),
        0 <= i < a.len(),
        0 <= j < a.len(),
        i != j,
    ensures
        0 <= r.0 < b.len(),
        0 <= r.1 < b.len(),
        r.0 != r.1,
        b[r.0] == a[i],
        b[r.1] == a[j],
{
    let p = lemma_a_place(a, b, i);
    vstd::seq_lib::to_multiset_remove(a, i);
    vstd::seq_lib::to_multiset_remove(b, p);
    let j1 = if j < i {
        j
    } else {
        j - 1
    };
    let q = lemma_a_place(a.remove(i), b.remove(p), j1);
    if q < p {
        (p, q)
    } else {
        (p, q + 1)
    }
}

/// A modifier that stands among the keys stands among the same keys in another
/// order.
proof fn lemma_reordered_modifier(a: Seq<KeyView>, b: Seq<KeyView>, flag: u8)
    requires
        a.to_multiset() == b.to_multiset(),
        binding::has_modifier(a, flag),
    ensures
        binding::has_modifier(b, flag),
{
    let k = choose|k: int|
        0 <= k < a.len() && binding::kind_of(#[trigger] a[k]) == KeyKind::Modifier(flag);
    let l = lemma_a_place(a, b, k);
    assert(b[l] == a[k]);
}

/// One direction of the law below.
proof fn lemma_reordered(s: Seq<char>, t: Seq<char>)
    requires
        binding::keys_of(s).to_multiset() == binding::keys_of(t).to_multiset(),
        binding::parsed(s) is Ok,
    ensures
        binding::parsed(t) == binding::parsed(s),
{
    let a = binding::keys_of(s);
    let b = binding::keys_of(t);
    lemma_assembled_ok_iff(a, s);
    lemma_assembled_ok_iff(b, t);
    let i = choose|i: int| #[trigger]
        binding::is_button_at(a, i) && forall|j: int| #[trigger]
            binding::is_button_at(a, j) ==> j == i;
    let p = lemma_a_place(a, b, i);
    assert(binding::is_button_at(b, p));
    assert forall|k: int| 0 <= k < b.len() implies !(binding::kind_of(#[trigger] b[k]) is Unknown) by {
        let l = lemma_a_place(b, a, k);
        assert(a[l] == b[k]);
    }
    assert forall|q: int| #[trigger] binding::is_button_at(b, q) implies q == p by {
        if q != p {
            let (x, y) = lemma_two_places(b, a, p, q);
            assert(binding::is_button_at(a, x));
            assert(binding::is_button_at(a, y));
        }
    }
    assert forall|flag: u8| binding::has_modifier(a, flag) == binding::has_modifier(b, flag) by {
        if binding::has_modifier(a, flag) {
            lemma_reordered_modifier(a, b, flag);
        }
        if binding::has_modifier(b, flag) {
            lemma_reordered_modifier(b, a, flag);
        }
    }
}

/// Whether two strings stand for the same binding, or neither is one.
pub open spec fn same_binding(s: Seq<char>, t: Seq<char>) -> bool {
    &&& binding::parsed(s) is Ok <==> binding::parsed(t) is Ok
    &&& binding::parsed(s) is Ok ==> binding::parsed(s) == binding::parsed(t)
}

/// The order of the keys does not matter: two strings with the same keys, in
/// whatever order, stand for the same binding, or neither is one.
pub proof fn law_key_order_is_free(s: Seq<char>, t: Seq<char>)
    requires
        binding::keys_of(s).to_multiset() == binding::keys_of(t).to_multiset(),
    ensures
        same_binding(s, t),
{
    if binding::parsed(s) is Ok {
        lemma_reordered(s, t);
    }
    if binding::parsed(t) is Ok {
        lemma_reordered(t, s);
    }
}

/// The same elements in another order give the same keys in another order.
proof fn lemma_keys_of_same_parts(a: Seq<Seq<char>>, b: Seq<Seq<char>>)
    requires
        a.to_multiset() == b.to_multiset(),
    ensures
        a.map_values(|part: Seq<char>| binding::key_of(part)).to_multiset() == b.map_values(
            |part: Seq<char>| binding::key_of(part),
        ).to_multiset(),
    decreases a.len(),
{
    let f = |part: Seq<char>| binding::key_of(part);
    vstd::seq_lib::to_multiset_len(a);
    vstd::seq_lib::to_multiset_len(b);
    if a.len() == 0 {
        assert(a.map_values(f) == b.map_values(f));
    } else {
        let last = a.len() - 1;
        let p = lemma_a_place(a, b, last);
        vstd::seq_lib::to_multiset_remove(a, last);
        vstd::seq_lib::to_multiset_remove(b, p);
        lemma_keys_of_same_parts(a.remove(last), b.remove(p));
        assert(a.remove(last).map_values(f) == a.map_values(f).remove(last));
        assert(b.remove(p).map_values(f) == b.map_values(f).remove(p));
        let key = f(a[last]);
        assert(a.map_values(f)[last] == key);
        assert(b.map_values(f)[p] == key);
        vstd::seq_lib::to_multiset_insert(a.map_values(f).remove(last), last, key);
        vstd::seq_lib::to_multiset_insert(b.map_values(f).remove(p), p, key);
        assert(a.map_values(f).remove(last).insert(last, key) == a.map_values(f));
        assert(b.map_values(f).remove(p).insert(p, key) == b.map_values(f));
    }
}

/// The order of the parts between the `+` signs does not matter.
pub proof fn law_part_order_is_free(s: Seq<char>, t: Seq<char>)
    requires
        text::parts_of(s).to_multiset() == text::parts_of(t).to_multiset(),
    ensures
        same_binding(s, t),
        binding::names_button(s) == binding::names_button(t),
{
    law_spelling_does_not_matter(s, t, text::parts_of(s));
}

/// Whether every character of `s` is white space.
pub open spec fn is_blank(s: Seq<char>) -> bool {
    forall|i: int| 0 <= i < s.len() ==> text::is_white_space(#[trigger] s[i])
}

/// Whether `padded` is `s` with white space before and after it.
pub open spec fn is_padding_of(padded: Seq<char>, s: Seq<char>) -> bool {
    exists|left: Seq<char>, right: Seq<char>| #[trigger]
        is_blank(left) && #[trigger] is_blank(right) && padded == left + s + right
}

proof fn lemma_trimmed_push(s: Seq<char>, c: char)
    requires
        text::is_white_space(c),
    ensures
        text::trimmed(s.push(c)) == text::trimmed(s),
    decreases s.len(),
{
    if s.len() == 0 {
        assert(s.push(c).drop_first() == s);
    } else if text::is_white_space(s.first()) {
        lemma_trimmed_push(s.drop_first(), c);
        assert(s.push(c).drop_first() == s.drop_first().push(c));
    } else {
        assert(s.push(c).drop_last() == s);
    }
}

proof fn lemma_trimmed_padding(left: Seq<char>, s: Seq<char>, right: Seq<char>)
    requires
        is_blank(left),
        is_blank(right),
    ensures
        text::trimmed(left + s + right) == text::trimmed(s),
    decreases left.len() + right.len(),
{
    let padded = left + s + right;
    if left.len() > 0 {
        let less = left.drop_first();
        assert forall|i: int| 0 <= i < less.len() implies text::is_white_space(#[trigger] less[i]) by {
            assert(less[i] == left[i + 1]);
        }
        lemma_trimmed_padding(less, s, right);
        assert(text::is_white_space(left[0]));
        assert(padded.first() == left[0]);
        assert(padded.drop_first() == less + s + right);
    } else if right.len() > 0 {
        let less = right.drop_last();
        assert forall|i: int| 0 <= i < less.len() implies text::is_white_space(#[trigger] less[i]) by {
            assert(less[i] == right[i]);
        }
        lemma_trimmed_padding(left, s, less);
        let c = right[right.len() - 1];
        assert(text::is_white_space(c));
        lemma_trimmed_push(left + s + less, c);
        assert(padded == (left + s + less).push(c));
    } else {
        assert(padded == s);
    }
}

/// Whether two texts are equal up to the case of ASCII letters.
pub open spec fn same_letters(s: Seq<char>, t: Seq<char>) -> bool {
    &&& s.len() == t.len()
    &&& forall|i: int|
        0 <= i < s.len() ==> text::ascii_lower(#[trigger] s[i]) == text::ascii_lower(t[i])
}

proof fn lemma_same_letters_sub(s: Seq<char>, t: Seq<char>, from: int, to: int)
    requires
        same_letters(s, t),
        0 <= from <= to <= s.len(),
    ensures
        same_letters(s.subrange(from, to), t.subrange(from, to)),
{
    let a = s.subrange(from, to);
    let b = t.subrange(from, to);
    assert forall|i: int| 0 <= i < a.len() implies text::ascii_lower(#[trigger] a[i])
        == text::ascii_lower(b[i]) by {
        assert(a[i] == s[from + i]);
        assert(b[i] == t[from + i]);
    }
}

proof fn lemma_same_letters_trimmed(s: Seq<char>, t: Seq<char>)
    requires
        same_letters(s, t),
    ensures
        same_letters(text::trimmed(s), text::trimmed(t)),
    decreases s.len(),
{
    if s.len() > 0 {
        let n = s.len() as int;
        assert(text::ascii_lower(s[0]) == text::ascii_lower(t[0]));
        assert(text::ascii_lower(s[n - 1]) == text::ascii_lower(t[n - 1]));
        lemma_same_letters_sub(s, t, 1, n);
        lemma_same_letters_sub(s, t, 0, n - 1);
        lemma_same_letters_trimmed(s.drop_first(), t.drop_first());
        lemma_same_letters_trimmed(s.drop_last(), t.drop_last());
    }
}

proof fn lemma_same_letters_first_plus(s: Seq<char>, t: Seq<char>)
    requires
        same_letters(s, t),
    ensures
        text::first_plus(s) == text::first_plus(t),
    decreases s.len(),
{
    if s.len() > 0 {
        assert(text::ascii_lower(s[0]) == text::ascii_lower(t[0]));
        lemma_same_letters_sub(s, t, 1, s.len() as int);
        lemma_same_letters_first_plus(s.drop_first(), t.drop_first());
    }
}

proof fn lemma_same_letters_parts(s: Seq<char>, t: Seq<char>)
    requires
        same_letters(s, t),
    ensures
        text::parts_of(s).len() == text::parts_of(t).len(),
        forall|k: int|
            0 <= k < text::parts_of(s).len() ==> same_letters(
                #[trigger] text::parts_of(s)[k],
                text::parts_of(t)[k],
            ),
    decreases s.len(),
{
    let i = text::first_plus(s) as int;
    lemma_same_letters_first_plus(s, t);
    if i < s.len() {
        let n = s.len() as int;
        lemma_same_letters_sub(s, t, 0, i);
        lemma_same_letters_sub(s, t, i + 1, n);
        lemma_same_letters_parts(s.skip(i + 1), t.skip(i + 1));
        assert forall|k: int| 0 <= k < text::parts_of(s).len() implies same_letters(
            #[trigger] text::parts_of(s)[k],
            text::parts_of(t)[k],
        ) by {
            if k > 0 {
                assert(text::parts_of(s)[k] == text::parts_of(s.skip(i + 1))[k - 1]);
                assert(text::parts_of(t)[k] == text::parts_of(t.skip(i + 1))[k - 1]);
            }
        }
    }
}

/// Whether two parts are the same key: without the white space round them they
/// have the same lower-case form.
pub open spec fn reads_alike(p: Seq<char>, q: Seq<char>) -> bool {
    text::lowercase(text::trimmed(p)) == text::lowercase(text::trimmed(q))
}

proof fn lemma_detected_alike(s: Seq<char>, t: Seq<char>, parts: Seq<Seq<char>>)
    requires
        text::parts_of(s).len() == parts.len(),
        forall|k: int|
            0 <= k < parts.len() ==> reads_alike(text::parts_of(s)[k], #[trigger] parts[k]),
        parts.to_multiset() == text::parts_of(t).to_multiset(),
        binding::names_button(s),
    ensures
        binding::names_button(t),
{
    let k = choose|k: int|
        0 <= k < text::parts_of(s).len() && button::button_named(
            text::lowercase(text::trimmed(#[trigger] text::parts_of(s)[k])),
        ) is Some;
    assert(reads_alike(text::parts_of(s)[k], parts[k]));
    let l = lemma_a_place(parts, text::parts_of(t), k);
    assert(text::parts_of(t)[l] == parts[k]);
}

/// How a binding is written does not matter: where the parts of `t` are, in
/// whatever order, the parts of `s`, each written so that it reads alike, the
/// two strings stand for the same binding, or neither is one, and both are
/// detected or neither is.
pub proof fn law_spelling_does_not_matter(s: Seq<char>, t: Seq<char>, parts: Seq<Seq<char>>)
    requires
        text::parts_of(s).len() == parts.len(),
        forall|k: int|
            0 <= k < parts.len() ==> reads_alike(text::parts_of(s)[k], #[trigger] parts[k]),
        parts.to_multiset() == text::parts_of(t).to_multiset(),
    ensures
        same_binding(s, t),
        binding::names_button(s) == binding::names_button(t),
{
    let f = |part: Seq<char>| binding::key_of(part);
    assert forall|k: int| 0 <= k < parts.len() implies #[trigger] parts.map_values(f)[k]
        == binding::keys_of(s)[k] by {
        assert(reads_alike(text::parts_of(s)[k], parts[k]));
    }
    assert(parts.map_values(f) == binding::keys_of(s));
    lemma_keys_of_same_parts(parts, text::parts_of(t));
    law_key_order_is_free(s, t);
    if binding::names_button(s) {
        lemma_detected_alike(s, t, parts);
    }
    if binding::names_button(t) {
        let back = lemma_reordered_alike(text::parts_of(s), parts, text::parts_of(t));
        lemma_detected_alike(t, s, back);
    }
}

/// Parts that read like those of `a`, in another order, are read alike by the
/// parts of `a` in that order.
proof fn lemma_reordered_alike(a: Seq<Seq<char>>, b: Seq<Seq<char>>, c: Seq<Seq<char>>) -> (d: Seq<
    Seq<char>,
>)
    requires
        a.len() == b.len(),
        forall|k: int| 0 <= k < b.len() ==> reads_alike(a[k], #[trigger] b[k]),
        b.to_multiset() == c.to_multiset(),
    ensures
        d.to_multiset() == a.to_multiset(),
        d.len() == c.len(),
        forall|k: int| 0 <= k < c.len() ==> reads_alike(c[k], #[trigger] d[k]),
    decreases b.len(),
{
    vstd::seq_lib::to_multiset_len(b);
    vstd::seq_lib::to_multiset_len(c);
    if b.len() == 0 {
        assert(a == c);
        a
    } else {
        let last = b.len() - 1;
        let p = lemma_a_place(b, c, last);
        vstd::seq_lib::to_multiset_remove(b, last);
        vstd::seq_lib::to_multiset_remove(c, p);
        assert forall|k: int| 0 <= k < last implies reads_alike(
            a.remove(last)[k],
            #[trigger] b.remove(last)[k],
        ) by {
            assert(reads_alike(a[k], b[k]));
        }
        let d = lemma_reordered_alike(a.remove(last), b.remove(last), c.remove(p));
        vstd::seq_lib::to_multiset_insert(a.remove(last), last, a[last]);
        assert(a.remove(last).insert(last, a[last]) == a);
        vstd::seq_lib::to_multiset_insert(d, p, a[last]);
        let r = d.insert(p, a[last]);
        assert forall|k: int| 0 <= k < c.len() implies reads_alike(c[k], #[trigger] r[k]) by {
            if k < p {
                assert(reads_alike(c.remove(p)[k], d[k]));
            } else if k == p {
                assert(reads_alike(a[last], b[last]));
            } else {
                assert(reads_alike(c.remove(p)[k - 1], d[k - 1]));
            }
        }
        r
    }
}

/// Whether two texts are equal, or both ASCII and equal up to the case of the
/// letters.
pub open spec fn is_case_variant(p: Seq<char>, q: Seq<char>) -> bool {
    p == q || (text::is_ascii_text(p) && text::is_ascii_text(q) && same_letters(p, q))
}

/// Whether `q` is `p` with letters in another case and white space before and
/// after it.
pub open spec fn is_respelling_of(q: Seq<char>, p: Seq<char>) -> bool {
    exists|cased: Seq<char>| #[trigger] is_case_variant(p, cased) && is_padding_of(q, cased)
}

proof fn lemma_not_padded(s: Seq<char>)
    ensures
        is_padding_of(s, s),
{
    let nothing = Seq::<char>::empty();
    assert(is_blank(nothing));
    assert(s == nothing + s + nothing);
}

proof fn lemma_respelling_reads_alike(p: Seq<char>, q: Seq<char>)
    requires
        is_respelling_of(q, p),
    ensures
        reads_alike(p, q),
{
    let cased = choose|cased: Seq<char>| #[trigger]
        is_case_variant(p, cased) && is_padding_of(q, cased);
    let (left, right) = choose|left: Seq<char>, right: Seq<char>| #[trigger]
        is_blank(left) && #[trigger] is_blank(right) && q == left + cased + right;
    lemma_trimmed_padding(left, cased, right);
    if p != cased {
        lemma_same_letters_trimmed(p, cased);
        lemma_ascii_trimmed(p);
        lemma_ascii_trimmed(cased);
        assert(text::lowercase(text::trimmed(p)) == text::lowercase(text::trimmed(cased)));
    }
}

/// Order, case and padding together: where the parts of `t` are, in whatever
/// order, the parts of `s`, each with the letters of an ASCII part in any case
/// and with any white space before and after it, the two strings stand for the
/// same binding, or neither is one, and both are detected or neither is.
pub proof fn law_respelling_does_not_matter(s: Seq<char>, t: Seq<char>, parts: Seq<Seq<char>>)
    requires
        text::parts_of(s).len() == parts.len(),
        forall|k: int|
            0 <= k < parts.len() ==> is_respelling_of(#[trigger] parts[k], text::parts_of(s)[k]),
        parts.to_multiset() == text::parts_of(t).to_multiset(),
    ensures
        same_binding(s, t),
        binding::names_button(s) == binding::names_button(t),
{
    assert forall|k: int| 0 <= k < parts.len() implies reads_alike(
        text::parts_of(s)[k],
        #[trigger] parts[k],
    ) by {
        lemma_respelling_reads_alike(text::parts_of(s)[k], parts[k]);
    }
    law_spelling_does_not_matter(s, t, parts);
}

/// White space round a key does not matter: a string whose parts are those of
/// another, each with any white space before and after it, stands for the same
/// binding, or neither is one, and both are detected or neither is.
pub proof fn law_padding_does_not_matter(s: Seq<char>, padded: Seq<char>)
    requires
        text::parts_of(padded).len() == text::parts_of(s).len(),
        forall|i: int|
            0 <= i < text::parts_of(s).len() ==> is_padding_of(
                #[trigger] text::parts_of(padded)[i],
                text::parts_of(s)[i],
            ),
    ensures
        same_binding(s, padded),
        binding::names_button(s) == binding::names_button(padded),
{
    let a = text::parts_of(s);
    let b = text::parts_of(padded);
    assert forall|k: int| 0 <= k < b.len() implies is_respelling_of(#[trigger] b[k], a[k]) by {
        assert(is_case_variant(a[k], a[k]));
        assert(is_padding_of(b[k], a[k]));
    }
    law_respelling_does_not_matter(s, padded, b);
}

/// The case of the letters of a key does not matter: where two strings have the
/// same parts but for the case of the letters of ASCII parts, they stand for
/// the same binding, or neither is one, and both are detected or neither is.
pub proof fn law_ascii_case_does_not_matter(s: Seq<char>, t: Seq<char>)
    requires
        text::parts_of(s).len() == text::parts_of(t).len(),
        forall|k: int|
            0 <= k < text::parts_of(s).len() ==> is_case_variant(
                #[trigger] text::parts_of(s)[k],
                text::parts_of(t)[k],
            ),
    ensures
        same_binding(s, t),
        binding::names_button(s) == binding::names_button(t),
{
    let a = text::parts_of(s);
    let b = text::parts_of(t);
    assert forall|k: int| 0 <= k < b.len() implies is_respelling_of(#[trigger] b[k], a[k]) by {
        assert(is_case_variant(a[k], b[k]));
        lemma_not_padded(b[k]);
    }
    law_respelling_does_not_matter(s, t, b);
}

/// The case of the letters of an ASCII string does not matter.
pub proof fn law_case_of_ascii_string_does_not_matter(s: Seq<char>, t: Seq<char>)
    requires
        text::is_ascii_text(s),
        text::is_ascii_text(t),
        same_letters(s, t),
    ensures
        same_binding(s, t),
        binding::names_button(s) == binding::names_button(t),
{
    lemma_same_letters_parts(s, t);
    lemma_ascii_parts(s);
    lemma_ascii_parts(t);
    law_ascii_case_does_not_matter(s, t);
}

/// Whether `s` is a name of lower-case ASCII letters and digits.
spec fn is_plain_name(s: Seq<char>) -> bool {
    &&& s.len() > 0
    &&& forall|i: int|
        0 <= i < s.len() ==> {
            let c = #[trigger] s[i];
            'a' <= c <= 'z' || '0' <= c <= '9'
        }
}

/// A plain name is a key as it stands.
proof fn lemma_plain_name(s: Seq<char>)
    requires
        is_plain_name(s),
    ensures
        binding::key_of(s) == (KeyView { text: s, button: button::button_named(s) }),
        forall|i: int| 0 <= i < s.len() ==> s[i] != '+',
{
    button::lemma_lowercase_keeps(s);
    assert(s[0] == s.first());
    assert(s[s.len() - 1] == s.last());
    assert(text::trimmed(s) == s);
}

/// The modifier names are plain and stand for their modifiers.
proof fn lemma_modifier_names(platform: Platform)
    ensures
        is_plain_name("ctrl"@),
        is_plain_name("shift"@),
        is_plain_name(platform.alt_name()),
        is_plain_name(platform.meta_name()),
        binding::modifier_named("ctrl"@) == Some(modifiers::CTRL),
        binding::modifier_named("shift"@) == Some(modifiers::SHIFT),
        binding::modifier_named(platform.alt_name()) == Some(modifiers::ALT),
        binding::modifier_named(platform.meta_name()) == Some(modifiers::META),
{
    reveal_strlit("ctrl");
    reveal_strlit("control");
    reveal_strlit("shift");
    reveal_strlit("alt");
    reveal_strlit("option");
    reveal_strlit("command");
    reveal_strlit("super");
    assert("command"@[2] == 'm' && "control"@[2] == 'n');
    assert("super"@[1] == 'u' && "shift"@[1] == 'h');
}

/// The canonical button names are plain and no modifiers.
proof fn lemma_button_name(button: MouseButton)
    ensures
        is_plain_name(button.key_name()),
        binding::modifier_named(button.key_name()) is None,
        button::button_named(button.key_name()) == Some(button),
{
    button::lemma_key_name(button);
    reveal_strlit("mouse4");
    reveal_strlit("mouse5");
    reveal_strlit("mousemiddle");
    reveal_strlit("ctrl");
    reveal_strlit("control");
    reveal_strlit("shift");
    reveal_strlit("alt");
    reveal_strlit("option");
    reveal_strlit("cmd");
    reveal_strlit("command");
    reveal_strlit("super");
    reveal_strlit("meta");
    reveal_strlit("win");
    reveal_strlit("windows");
    assert("option"@[0] == 'o');
    assert("mouse4"@[0] == 'm');
    assert("mouse5"@[0] == 'm');
}

/// The parts of a canonical hotkey string: the modifier names, then the button.
spec fn canonical_names(button: MouseButton, mods: u8, platform: Platform) -> Seq<Seq<char>> {
    binding::modifier_names(mods, platform).push(button.key_name())
}

/// Where each modifier stands among the parts of a canonical hotkey string.
proof fn lemma_name_places(button: MouseButton, mods: u8, platform: Platform)
    ensures
        ({
            let names = canonical_names(button, mods, platform);
            let last = names.len() - 1;
            let c = mods & modifiers::CTRL != 0;
            let s = mods & modifiers::SHIFT != 0;
            let a = mods & modifiers::ALT != 0;
            let m = mods & modifiers::META != 0;
            &&& names[last] == button.key_name()
            &&& c ==> exists|k: int| 0 <= k < last && #[trigger] names[k] == "ctrl"@
            &&& s ==> exists|k: int| 0 <= k < last && #[trigger] names[k] == "shift"@
            &&& a ==> exists|k: int| 0 <= k < last && #[trigger] names[k] == platform.alt_name()
            &&& m ==> exists|k: int| 0 <= k < last && #[trigger] names[k] == platform.meta_name()
            &&& forall|k: int|
                0 <= k < last ==> {
                    ||| c && #[trigger] names[k] == "ctrl"@
                    ||| s && names[k] == "shift"@
                    ||| a && names[k] == platform.alt_name()
                    ||| m && names[k] == platform.meta_name()
                }
        }),
{
    let names = canonical_names(button, mods, platform);
    let last = names.len() - 1;
    let n1 = binding::name_if(mods & modifiers::CTRL != 0, "ctrl"@);
    let n2 = binding::name_if(mods & modifiers::SHIFT != 0, "shift"@);
    let n3 = binding::name_if(mods & modifiers::ALT != 0, platform.alt_name());
    let n4 = binding::name_if(mods & modifiers::META != 0, platform.meta_name());
    assert(names == n1 + n2 + n3 + n4 + seq![button.key_name()]);
    if mods & modifiers::CTRL != 0 {
        assert(names[0] == "ctrl"@);
    }
    if mods & modifiers::SHIFT != 0 {
        assert(names[n1.len() as int] == "shift"@);
    }
    if mods & modifiers::ALT != 0 {
        assert(names[(n1.len() + n2.len()) as int] == platform.alt_name());
    }
    if mods & modifiers::META != 0 {
        assert(names[(n1.len() + n2.len() + n3.len()) as int] == platform.meta_name());
    }
}

/// The keys of a canonical hotkey string are its names as they stand.
proof fn lemma_canonical_keys(button: MouseButton, mods: u8, platform: Platform)
    ensures
        ({
            let names = canonical_names(button, mods, platform);
            let keys = binding::keys_of(binding::hotkey_text(button, mods, platform));
            &&& keys.len() == names.len()
            &&& forall|k: int|
                0 <= k < keys.len() ==> #[trigger] keys[k] == (KeyView {
                    text: names[k],
                    button: button::button_named(names[k]),
                })
            &&& forall|k: int| 0 <= k < names.len() ==> (#[trigger] names[k]).len() > 0
        }),
{
    let hotkey = binding::hotkey_text(button, mods, platform);
    let names = canonical_names(button, mods, platform);
    lemma_name_places(button, mods, platform);
    lemma_modifier_names(platform);
    lemma_button_name(button);
    assert forall|k: int| 0 <= k < names.len() implies is_plain_name(#[trigger] names[k]) by {}
    law_canonical_parts(button, mods, platform);
    let keys = binding::keys_of(hotkey);
    assert(text::parts_of(hotkey) == names);
    assert forall|k: int| 0 <= k < keys.len() implies #[trigger] keys[k] == (KeyView {
        text: names[k],
        button: button::button_named(names[k]),
    }) by {
        assert(is_plain_name(names[k]));
        lemma_plain_name(names[k]);
    }
}

/// The parts of a canonical hotkey string are the names of its modifiers, in
/// order, and then the name of its button.
pub proof fn law_canonical_parts(button: MouseButton, mods: u8, platform: Platform)
    ensures
        text::parts_of(binding::hotkey_text(button, mods, platform)) == binding::modifier_names(
            mods,
            platform,
        ).push(button.key_name()),
{
    let names = canonical_names(button, mods, platform);
    lemma_name_places(button, mods, platform);
    lemma_modifier_names(platform);
    lemma_button_name(button);
    assert forall|k: int| 0 <= k < names.len() implies is_plain_name(#[trigger] names[k]) by {}
    assert forall|k: int, i: int| 0 <= k < names.len() && 0 <= i < names[k].len() implies
        #[trigger] names[k][i] != '+' by {
        assert(is_plain_name(names[k]));
    }
    text::law_split_undoes_join(names);
}

/// The modifiers found in a canonical hotkey string are those it was made from.
proof fn lemma_canonical_modifiers(button: MouseButton, mods: u8, platform: Platform)
    ensures
        ({
            let keys = binding::keys_of(binding::hotkey_text(button, mods, platform));
            let last = keys.len() - 1;
            &&& binding::kind_of(keys[last]) == KeyKind::Button(button)
            &&& forall|k: int|
                0 <= k < last ==> binding::kind_of(#[trigger] keys[k]) is Modifier
            &&& binding::has_modifier(keys, modifiers::CTRL) == (mods & modifiers::CTRL != 0)
            &&& binding::has_modifier(keys, modifiers::SHIFT) == (mods & modifiers::SHIFT != 0)
            &&& binding::has_modifier(keys, modifiers::ALT) == (mods & modifiers::ALT != 0)
            &&& binding::has_modifier(keys, modifiers::META) == (mods & modifiers::META != 0)
        }),
{
    let names = canonical_names(button, mods, platform);
    let keys = binding::keys_of(binding::hotkey_text(button, mods, platform));
    let last = keys.len() - 1;
    lemma_canonical_keys(button, mods, platform);
    lemma_name_places(button, mods, platform);
    lemma_modifier_names(platform);
    lemma_button_name(button);
    assert(binding::kind_of(keys[last]) == KeyKind::Button(button));
    assert forall|k: int| 0 <= k < last implies {
        let kind = binding::kind_of(#[trigger] keys[k]);
        ||| mods & modifiers::CTRL != 0 && kind == KeyKind::Modifier(modifiers::CTRL)
        ||| mods & modifiers::SHIFT != 0 && kind == KeyKind::Modifier(modifiers::SHIFT)
        ||| mods & modifiers::ALT != 0 && kind == KeyKind::Modifier(modifiers::ALT)
        ||| mods & modifiers::META != 0 && kind == KeyKind::Modifier(modifiers::META)
    } by {
        assert(keys[k].text == names[k]);
    }
    if mods & modifiers::CTRL != 0 {
        let k = choose|k: int| 0 <= k < last && #[trigger] names[k] == "ctrl"@;
        assert(binding::kind_of(keys[k]) == KeyKind::Modifier(modifiers::CTRL));
    }
    if mods & modifiers::SHIFT != 0 {
        let k = choose|k: int| 0 <= k < last && #[trigger] names[k] == "shift"@;
        assert(binding::kind_of(keys[k]) == KeyKind::Modifier(modifiers::SHIFT));
    }
    if mods & modifiers::ALT != 0 {
        let k = choose|k: int| 0 <= k < last && #[trigger] names[k] == platform.alt_name();
        assert(binding::kind_of(keys[k]) == KeyKind::Modifier(modifiers::ALT));
    }
    if mods & modifiers::META != 0 {
        let k = choose|k: int| 0 <= k < last && #[trigger] names[k] == platform.meta_name();
        assert(binding::kind_of(keys[k]) == KeyKind::Modifier(modifiers::META));
    }
}

/// Formatting and parsing back gives the button and the modifiers, on every
/// platform. Flags other than the four modifiers have no name and are left out.
pub proof fn law_format_parses_back(button: MouseButton, mods: u8, platform: Platform)
    ensures
        binding::parsed(binding::hotkey_text(button, mods, platform)) == Ok::<
            (MouseButton, u8),
            Seq<char>,
        >((button, mods & 15)),
        mods < 16 ==> binding::parsed(binding::hotkey_text(button, mods, platform)) == Ok::<
            (MouseButton, u8),
            Seq<char>,
        >((button, mods)),
{
    let hotkey = binding::hotkey_text(button, mods, platform);
    let keys = binding::keys_of(hotkey);
    let last = keys.len() - 1;
    lemma_canonical_keys(button, mods, platform);
    lemma_canonical_modifiers(button, mods, platform);
    assert((binding::flag_if(mods & 1 != 0, 1) | binding::flag_if(mods & 2 != 0, 2)
        | binding::flag_if(mods & 4 != 0, 4) | binding::flag_if(mods & 8 != 0, 8)) == mods & 15)
        by (bit_vector);
    assert(mods < 16 ==> mods & 15 == mods) by (bit_vector);
    assert(binding::is_button_at(keys, last));
    assert forall|j: int| #[trigger] binding::is_button_at(keys, j) implies j == last by {
        if j < last {
            assert(binding::kind_of(keys[j]) is Modifier);
        }
    }
    assert forall|i: int| 0 <= i < keys.len() implies !(binding::kind_of(
        #[trigger] keys[i],
    ) is Unknown) by {
        if i < last {
            assert(binding::kind_of(keys[i]) is Modifier);
        }
    }
    assert(is_complete(keys));
    lemma_assembled_ok_iff(keys, hotkey);
}

/// Writing a parsed binding in its canonical form does not change its meaning.
pub proof fn law_canonical_form_keeps_binding(hotkey: Seq<char>, platform: Platform)
    requires
        binding::parsed(hotkey) is Ok,
    ensures
        ({
            let (button, mods) = binding::parsed(hotkey)->Ok_0;
            binding::parsed(binding::hotkey_text(button, mods, platform)) == binding::parsed(hotkey)
        }),
{
    let (button, mods) = binding::parsed(hotkey)->Ok_0;
    law_parsed_modifiers_are_known(hotkey);
    law_format_parses_back(button, mods, platform);
}

/// Every string that parses as a mouse binding is detected as one, where the
/// lower-case form of the key that names the button is its own lower-case form.
pub proof fn law_valid_binding_is_detected(hotkey: Seq<char>)
    requires
        binding::parsed(hotkey) is Ok,
        forall|i: int| #[trigger]
            binding::is_button_at(binding::keys_of(hotkey), i) ==> {
                let key = binding::keys_of(hotkey)[i].text;
                text::lowercase(key) == key
            },
    ensures
        binding::names_button(hotkey),
{
    let keys = binding::keys_of(hotkey);
    lemma_assembled_ok_iff(keys, hotkey);
    let i = choose|i: int| binding::is_button_at(keys, i);
    assert(binding::is_button_at(keys, i));
    let part = text::parts_of(hotkey)[i];
    assert(keys[i] == binding::key_of(part));
}

/// Lower-casing an ASCII text twice is lower-casing it once.
pub proof fn law_ascii_lowercase_is_stable(s: Seq<char>)
    requires
        text::is_ascii_text(s),
    ensures
        text::lowercase(text::lowercase(s)) == text::lowercase(s),
{
    let low = text::lowercase(s);
    assert forall|i: int| 0 <= i < low.len() implies (#[trigger] low[i] as u32) < 128 by {
        assert(low[i] == text::ascii_lower(s[i]));
    }
    assert(text::lowercase(low) == low);
}

proof fn lemma_ascii_parts(s: Seq<char>)
    requires
        text::is_ascii_text(s),
    ensures
        forall|k: int|
            0 <= k < text::parts_of(s).len() ==> text::is_ascii_text(
                #[trigger] text::parts_of(s)[k],
            ),
    decreases s.len(),
{
    let i = text::first_plus(s) as int;
    if i < s.len() {
        let rest = s.skip(i + 1);
        assert(text::is_ascii_text(rest)) by {
            assert forall|j: int| 0 <= j < rest.len() implies (#[trigger] rest[j] as u32) < 128 by {
                assert(rest[j] == s[i + 1 + j]);
            }
        }
        lemma_ascii_parts(rest);
        assert forall|k: int| 0 <= k < text::parts_of(s).len() implies text::is_ascii_text(
            #[trigger] text::parts_of(s)[k],
        ) by {
            if k == 0 {
                let part = s.take(i);
                assert forall|j: int| 0 <= j < part.len() implies (#[trigger] part[j] as u32)
                    < 128 by {
                    assert(part[j] == s[j]);
                }
            } else {
                assert(text::parts_of(s)[k] == text::parts_of(rest)[k - 1]);
            }
        }
    }
}

proof fn lemma_ascii_trimmed(s: Seq<char>)
    requires
        text::is_ascii_text(s),
    ensures
        text::is_ascii_text(text::trimmed(s)),
    decreases s.len(),
{
    if s.len() > 0 {
        assert forall|j: int| 0 <= j < s.drop_first().len() implies (
        #[trigger] s.drop_first()[j] as u32) < 128 by {
            assert(s.drop_first()[j] == s[j + 1]);
        }
        assert forall|j: int| 0 <= j < s.drop_last().len() implies (
        #[trigger] s.drop_last()[j] as u32) < 128 by {
            assert(s.drop_last()[j] == s[j]);
        }
        lemma_ascii_trimmed(s.drop_first());
        lemma_ascii_trimmed(s.drop_last());
    }
}

/// Every string that parses as a mouse binding is detected as one, where the
/// part that names the button is an ASCII text. The other parts may be any.
pub proof fn law_ascii_binding_is_detected(hotkey: Seq<char>)
    requires
        binding::parsed(hotkey) is Ok,
        forall|i: int| #[trigger]
            binding::is_button_at(binding::keys_of(hotkey), i) ==> text::is_ascii_text(
                text::parts_of(hotkey)[i],
            ),
    ensures
        binding::names_button(hotkey),
{
    assert forall|i: int| #[trigger]
        binding::is_button_at(binding::keys_of(hotkey), i) implies ({
        let key = binding::keys_of(hotkey)[i].text;
        text::lowercase(key) == key
    }) by {
        let part = text::parts_of(hotkey)[i];
        assert(binding::keys_of(hotkey)[i] == binding::key_of(part));
        lemma_ascii_trimmed(part);
        law_ascii_lowercase_is_stable(text::trimmed(part));
    }
    law_valid_binding_is_detected(hotkey);
}

/// Every ASCII string that parses as a mouse binding is detected as one.
pub proof fn law_binding_in_ascii_string_is_detected(hotkey: Seq<char>)
    requires
        binding::parsed(hotkey) is Ok,
        text::is_ascii_text(hotkey),
    ensures
        binding::names_button(hotkey),
{
    lemma_ascii_parts(hotkey);
    law_ascii_binding_is_detected(hotkey);
}

} // verus!
