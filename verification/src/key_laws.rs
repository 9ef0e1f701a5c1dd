//! Which words are keys, and what a binding string says word by word.
//!
//! The word of a part of a binding string is its text without the white space
//! round it, in lower case.
use vstd::prelude::*;

use crate::binding;
use crate::binding::{BindingKey, KeyKind, KeyView};
use crate::button;
use crate::button::MouseButton;
use crate::text;

verus! {

/// A result is taken as it is: a success with its value, an error with the
/// characters of its message.
pub proof fn law_outcome_is_the_result<T>(value: T, message: String)
    ensures
        binding::outcome(Ok::<T, String>(value)) == Ok::<T, Seq<char>>(value),
        binding::outcome(Err::<T, String>(message)) == Err::<T, Seq<char>>(message@),
{
}

/// The model of a list of keys has each key's text and button, in order.
pub proof fn law_key_views_are_the_keys(keys: Seq<BindingKey>, i: int)
    requires
        0 <= i < keys.len(),
    ensures
        binding::key_views(keys).len() == keys.len(),
        binding::key_views(keys)[i].text == keys[i].text@,
        binding::key_views(keys)[i].button == keys[i].button,
{
}

/// The list of all buttons names each button once, in canonical order.
pub proof fn law_all_buttons_are_listed(button: MouseButton)
    ensures
        MouseButton::ALL@ == seq![MouseButton::X1, MouseButton::X2, MouseButton::Middle],
        MouseButton::ALL@.contains(button),
{
    let all = MouseButton::ALL@;
    assert(all[0] == MouseButton::X1 && all[1] == MouseButton::X2 && all[2] == MouseButton::Middle);
}

/// Each button goes by its own names and by no other, and no other word names a
/// button.
pub proof fn law_button_names(name: Seq<char>)
    ensures
        button::button_named(name) == Some(MouseButton::X1) <==> {
            ||| name == "mouse4"@
            ||| name == "mousex1"@
            ||| name == "xbutton1"@
            ||| name == "back"@
        },
        button::button_named(name) == Some(MouseButton::X2) <==> {
            ||| name == "mouse5"@
            ||| name == "mousex2"@
            ||| name == "xbutton2"@
            ||| name == "forward"@
        },
        button::button_named(name) == Some(MouseButton::Middle) <==> {
            ||| name == "mousemiddle"@
            ||| name == "middleclick"@
            ||| name == "middle"@
        },
{
    reveal_strlit("mouse4");
    reveal_strlit("mousex1");
    reveal_strlit("xbutton1");
    reveal_strlit("back");
    reveal_strlit("mouse5");
    reveal_strlit("mousex2");
    reveal_strlit("xbutton2");
    reveal_strlit("forward");
    reveal_strlit("mousemiddle");
    reveal_strlit("middleclick");
    reveal_strlit("middle");
    assert("mouse5"@[5] == '5' && "mouse4"@[5] == '4' && "middle"@[5] == 'e');
    assert("mousex1"@[6] == '1' && "mousex2"@[6] == '2' && "forward"@[6] == 'd');
    assert("xbutton1"@[7] == '1' && "xbutton2"@[7] == '2');
    assert("mouse5"@ != "mouse4"@ && "middle"@ != "mouse4"@ && "middle"@ != "mouse5"@);
    assert("mousex2"@ != "mousex1"@ && "forward"@ != "mousex1"@);
    assert("xbutton2"@ != "xbutton1"@);
    assert("mouse4"@.len() == 6 && "mouse5"@.len() == 6 && "middle"@.len() == 6);
    assert("mousex1"@.len() == 7 && "mousex2"@.len() == 7 && "forward"@.len() == 7);
    assert("xbutton1"@.len() == 8 && "xbutton2"@.len() == 8 && "back"@.len() == 4);
    assert("mousemiddle"@.len() == 11 && "middleclick"@.len() == 11);
}

/// Each modifier goes by its own names and by no other, and no other word names
/// a modifier. The flags are 1 for Ctrl, 2 for Shift, 4 for Alt and 8 for Super.
pub proof fn law_modifier_names(word: Seq<char>)
    ensures
        binding::modifier_named(word) == Some(1u8) <==> word == "ctrl"@ || word == "control"@,
        binding::modifier_named(word) == Some(2u8) <==> word == "shift"@,
        binding::modifier_named(word) == Some(4u8) <==> word == "alt"@ || word == "option"@,
        binding::modifier_named(word) == Some(8u8) <==> {
            ||| word == "cmd"@
            ||| word == "command"@
            ||| word == "super"@
            ||| word == "meta"@
            ||| word == "win"@
            ||| word == "windows"@
        },
        binding::modifier_named(word) matches Some(flag) ==> flag == 1 || flag == 2 || flag == 4
            || flag == 8,
{
    reveal_strlit("ctrl");
    reveal_strlit("control");
    reveal_strlit("shift");
    reveal_strlit("alt");
    reveal_strlit("option");
    reveal_strlit("cmd");
    reveal_strlit("command");
    reveal_strlit("super");
    reveal_strlit("meta");
    reveal_strlit("win");
    reveal_strlit("windows");
    assert("ctrl"@[0] == 'c' && "meta"@[0] == 'm');
    assert("control"@[2] == 'n' && "command"@[2] == 'm' && "windows"@[0] == 'w' && "control"@[0]
        == 'c');
    assert("shift"@[1] == 'h' && "super"@[1] == 'u');
    assert("alt"@[0] == 'a' && "cmd"@[0] == 'c' && "win"@[0] == 'w');
    assert("cmd"@ != "alt"@ && "win"@ != "alt"@ && "meta"@ != "ctrl"@ && "super"@ != "shift"@);
    assert("command"@ != "control"@ && "windows"@ != "control"@);
    assert("cmd"@.len() == 3 && "win"@.len() == 3 && "alt"@.len() == 3 && "option"@.len() == 6);
    assert("meta"@.len() == 4 && "ctrl"@.len() == 4 && "super"@.len() == 5 && "shift"@.len() == 5);
    assert("command"@.len() == 7 && "windows"@.len() == 7 && "control"@.len() == 7);
}

/// Whether a word names the button.
pub open spec fn is_word_for(word: Seq<char>, button: MouseButton) -> bool {
    match button {
        MouseButton::X1 => word == "mouse4"@ || word == "mousex1"@ || word == "xbutton1"@ || word
            == "back"@,
        MouseButton::X2 => word == "mouse5"@ || word == "mousex2"@ || word == "xbutton2"@ || word
            == "forward"@,
        MouseButton::Middle => word == "mousemiddle"@ || word == "middleclick"@ || word
            == "middle"@,
    }
}

/// Whether a word names a button at all.
pub open spec fn is_button_word(word: Seq<char>) -> bool {
    exists|button: MouseButton| #[trigger] is_word_for(word, button)
}

/// Whether a word names a modifier.
pub open spec fn is_modifier_word(word: Seq<char>) -> bool {
    ||| word == "ctrl"@
    ||| word == "control"@
    ||| word == "shift"@
    ||| word == "alt"@
    ||| word == "option"@
    ||| word == "cmd"@
    ||| word == "command"@
    ||| word == "super"@
    ||| word == "meta"@
    ||| word == "win"@
    ||| word == "windows"@
}

/// The word of part `i` of a binding string.
pub open spec fn word_at(hotkey: Seq<char>, i: int) -> Seq<char> {
    text::lowercase(text::trimmed(text::parts_of(hotkey)[i]))
}

/// Whether part `i` of a binding string names a button. A word is put in lower
/// case once more where it is looked up as a button.
pub open spec fn button_at(hotkey: Seq<char>, i: int) -> bool {
    0 <= i < text::parts_of(hotkey).len() && is_button_word(text::lowercase(word_at(hotkey, i)))
}

/// Whether part `i` of a binding string is no key: it is not blank and names
/// neither a modifier nor a button.
pub open spec fn unknown_at(hotkey: Seq<char>, i: int) -> bool {
    &&& 0 <= i < text::parts_of(hotkey).len()
    &&& word_at(hotkey, i).len() > 0
    &&& !is_modifier_word(word_at(hotkey, i))
    &&& !is_button_word(text::lowercase(word_at(hotkey, i)))
}

proof fn lemma_button_word(word: Seq<char>)
    ensures
        is_button_word(word) <==> button::button_named(word) is Some,
        forall|button: MouseButton| #[trigger]
            is_word_for(word, button) <==> button::button_named(word) == Some(button),
{
    law_button_names(word);
    assert forall|button: MouseButton| #[trigger]
        is_word_for(word, button) <==> button::button_named(word) == Some(button) by {
        match button {
            MouseButton::X1 => {},
            MouseButton::X2 => {},
            MouseButton::Middle => {},
        }
    }
    if button::button_named(word) is Some {
        assert(is_word_for(word, button::button_named(word)->0));
    }
}

/// A modifier name is its own lower-case form, is not empty, and names no
/// button.
proof fn lemma_modifier_word(word: Seq<char>)
    requires
        is_modifier_word(word),
    ensures
        word.len() > 0,
        text::lowercase(word) == word,
        !is_button_word(word),
{
    reveal_strlit("ctrl");
    reveal_strlit("control");
    reveal_strlit("shift");
    reveal_strlit("alt");
    reveal_strlit("option");
    reveal_strlit("cmd");
    reveal_strlit("command");
    reveal_strlit("super");
    reveal_strlit("meta");
    reveal_strlit("win");
    reveal_strlit("windows");
    button::lemma_lowercase_keeps(word);
    if is_button_word(word) {
        let button = choose|button: MouseButton| #[trigger] is_word_for(word, button);
        reveal_strlit("mouse4");
        reveal_strlit("mousex1");
        reveal_strlit("xbutton1");
        reveal_strlit("back");
        reveal_strlit("mouse5");
        reveal_strlit("mousex2");
        reveal_strlit("xbutton2");
        reveal_strlit("forward");
        reveal_strlit("mousemiddle");
        reveal_strlit("middleclick");
        reveal_strlit("middle");
        assert("ctrl"@[0] == 'c' && "meta"@[0] == 'm' && "back"@[0] == 'b');
        assert("option"@[0] == 'o' && "mouse4"@[0] == 'm' && "mouse5"@[0] == 'm' && "middle"@[0]
            == 'm');
        assert("control"@[0] == 'c' && "command"@[0] == 'c' && "windows"@[0] == 'w');
        assert("mousex1"@[0] == 'm' && "mousex2"@[0] == 'm' && "forward"@[0] == 'f');
    }
}

/// What kind of key each part is, by its word.
proof fn lemma_part_kind(hotkey: Seq<char>, i: int)
    requires
        0 <= i < text::parts_of(hotkey).len(),
    ensures
        binding::keys_of(hotkey).len() == text::parts_of(hotkey).len(),
        binding::keys_of(hotkey)[i].text == word_at(hotkey, i),
        ({
            let word = word_at(hotkey, i);
            let kind = binding::kind_of(binding::keys_of(hotkey)[i]);
            &&& kind is Unknown <==> unknown_at(hotkey, i)
            &&& kind is Button <==> button_at(hotkey, i)
            &&& forall|button: MouseButton| #[trigger]
                is_word_for(text::lowercase(word), button) <==> kind == KeyKind::Button(button)
            &&& kind is Modifier ==> kind->Modifier_0 == 1 || kind->Modifier_0 == 2
                || kind->Modifier_0 == 4 || kind->Modifier_0 == 8
            &&& kind == KeyKind::Modifier(1) <==> word == "ctrl"@ || word == "control"@
            &&& kind == KeyKind::Modifier(2) <==> word == "shift"@
            &&& kind == KeyKind::Modifier(4) <==> word == "alt"@ || word == "option"@
            &&& kind == KeyKind::Modifier(8) <==> word == "cmd"@ || word == "command"@ || word
                == "super"@ || word == "meta"@ || word == "win"@ || word == "windows"@
        }),
{
    let key = binding::keys_of(hotkey)[i];
    let word = word_at(hotkey, i);
    assert(key == binding::key_of(text::parts_of(hotkey)[i]));
    law_modifier_names(word);
    lemma_button_word(text::lowercase(word));
    assert(binding::modifier_named(word) is Some ==> is_modifier_word(word));
    if is_modifier_word(word) {
        lemma_modifier_word(word);
    }
    if word.len() == 0 {
        assert(text::lowercase(word) == word);
        reveal_strlit("mouse4");
        reveal_strlit("mousex1");
        reveal_strlit("xbutton1");
        reveal_strlit("back");
        reveal_strlit("mouse5");
        reveal_strlit("mousex2");
        reveal_strlit("xbutton2");
        reveal_strlit("forward");
        reveal_strlit("mousemiddle");
        reveal_strlit("middleclick");
        reveal_strlit("middle");
    }
}

proof fn lemma_kinds(hotkey: Seq<char>)
    ensures
        binding::keys_of(hotkey).len() == text::parts_of(hotkey).len(),
        forall|i: int| #[trigger]
            binding::is_button_at(binding::keys_of(hotkey), i) <==> button_at(hotkey, i),
        forall|i: int|
            0 <= i < text::parts_of(hotkey).len() ==> (binding::kind_of(
                #[trigger] binding::keys_of(hotkey)[i],
            ) is Unknown <==> unknown_at(hotkey, i)),
{
    let keys = binding::keys_of(hotkey);
    assert forall|i: int| #[trigger]
        binding::is_button_at(keys, i) <==> button_at(hotkey, i) by {
        if 0 <= i < keys.len() {
            lemma_part_kind(hotkey, i);
        }
    }
    assert forall|i: int| 0 <= i < text::parts_of(hotkey).len() implies (binding::kind_of(
        #[trigger] keys[i],
    ) is Unknown <==> unknown_at(hotkey, i)) by {
        lemma_part_kind(hotkey, i);
    }
}

/// The first key that cannot stand where it stands is the one that decides.
proof fn lemma_first_fault_decides(keys: Seq<KeyView>, hotkey: Seq<char>, i: int)
    requires
        binding::is_fault_at(keys, i),
        forall|j: int| j < i ==> !#[trigger] binding::is_fault_at(keys, j),
    ensures
        binding::assembled(keys, hotkey) == Err::<(MouseButton, u8), Seq<char>>(
            if binding::kind_of(keys[i]) is Unknown {
                binding::unknown_key_message(keys[i].text, hotkey)
            } else {
                binding::multiple_buttons_message(hotkey)
            },
        ),
{
    assert(binding::is_first_fault(keys, i));
    let k = choose|k: int| binding::is_first_fault(keys, k);
    assert(binding::is_first_fault(keys, k));
    if k < i {
        assert(!binding::is_fault_at(keys, k));
    }
    if i < k {
        assert(!binding::is_fault_at(keys, i));
    }
}

/// A string is a binding exactly when none of its parts is an unknown word and
/// exactly one of them names a button.
pub proof fn law_binding_is_known_words_and_one_button(hotkey: Seq<char>)
    ensures
        binding::parsed(hotkey) is Ok <==> {
            &&& forall|i: int| !#[trigger] unknown_at(hotkey, i)
            &&& exists|i: int| #[trigger]
                button_at(hotkey, i) && forall|j: int| #[trigger] button_at(hotkey, j) ==> j == i
        },
{
    let keys = binding::keys_of(hotkey);
    lemma_kinds(hotkey);
    if binding::parsed(hotkey) is Ok {
        assert forall|i: int| !#[trigger] binding::is_fault_at(keys, i) by {
            if binding::is_fault_at(keys, i) {
                lemma_some_first_fault(keys, i);
            }
        }
        assert forall|i: int| !#[trigger] unknown_at(hotkey, i) by {
            assert(!binding::is_fault_at(keys, i));
            if unknown_at(hotkey, i) {
                assert(binding::kind_of(keys[i]) is Unknown);
            }
        }
        let i = choose|i: int| binding::is_button_at(keys, i);
        assert(binding::is_button_at(keys, i));
        assert(button_at(hotkey, i));
        assert forall|j: int| #[trigger] button_at(hotkey, j) implies j == i by {
            assert(binding::is_button_at(keys, j));
            assert(!binding::is_fault_at(keys, i));
            assert(!binding::is_fault_at(keys, j));
        }
    }
    if (forall|i: int| !#[trigger] unknown_at(hotkey, i)) && exists|i: int| #[trigger]
        button_at(hotkey, i) && forall|j: int| #[trigger] button_at(hotkey, j) ==> j == i {
        let i = choose|i: int| #[trigger]
            button_at(hotkey, i) && forall|j: int| #[trigger] button_at(hotkey, j) ==> j == i;
        assert(binding::is_button_at(keys, i));
        assert forall|k: int| !#[trigger] binding::is_fault_at(keys, k) by {
            if binding::is_fault_at(keys, k) {
                assert(!unknown_at(hotkey, k));
                assert(button_at(hotkey, k));
                let l = choose|l: int| l < k && #[trigger] binding::is_button_at(keys, l);
                assert(button_at(hotkey, l));
            }
        }
        binding::lemma_assembled_ok(keys, hotkey, i);
    }
}

proof fn lemma_some_first_fault(keys: Seq<KeyView>, i: int)
    requires
        binding::is_fault_at(keys, i),
    ensures
        exists|j: int| binding::is_first_fault(keys, j),
    decreases i,
{
    if exists|j: int| j < i && #[trigger] binding::is_fault_at(keys, j) {
        let j = choose|j: int| j < i && #[trigger] binding::is_fault_at(keys, j);
        lemma_some_first_fault(keys, j);
    } else {
        assert(binding::is_first_fault(keys, i));
    }
}

/// No key is passed over: in a string that parses, the word of every part is
/// empty, one of the eleven modifier names or one of the eleven button names.
/// What is in none of the tables makes the string no binding.
pub proof fn law_accepted_words_are_keys(hotkey: Seq<char>, i: int)
    requires
        0 <= i < text::parts_of(hotkey).len(),
        binding::parsed(hotkey) is Ok,
    ensures
        ({
            let word = text::lowercase(text::trimmed(text::parts_of(hotkey)[i]));
            // The name under which a button is looked up. It is the word itself
            // where the part is an ASCII text.
            let name = text::lowercase(word);
            &&& {
                ||| word.len() == 0
                ||| word == "ctrl"@
                ||| word == "control"@
                ||| word == "shift"@
                ||| word == "alt"@
                ||| word == "option"@
                ||| word == "cmd"@
                ||| word == "command"@
                ||| word == "super"@
                ||| word == "meta"@
                ||| word == "win"@
                ||| word == "windows"@
                ||| name == "mouse4"@
                ||| name == "mousex1"@
                ||| name == "xbutton1"@
                ||| name == "back"@
                ||| name == "mouse5"@
                ||| name == "mousex2"@
                ||| name == "xbutton2"@
                ||| name == "forward"@
                ||| name == "mousemiddle"@
                ||| name == "middleclick"@
                ||| name == "middle"@
            }
            &&& text::is_ascii_text(text::trimmed(text::parts_of(hotkey)[i])) ==> name == word
        }),
{
    law_binding_is_known_words_and_one_button(hotkey);
    assert(!unknown_at(hotkey, i));
    let trimmed = text::trimmed(text::parts_of(hotkey)[i]);
    if text::is_ascii_text(trimmed) {
        crate::binding_laws::law_ascii_lowercase_is_stable(trimmed);
    }
    if is_button_word(text::lowercase(word_at(hotkey, i))) {
        let button = choose|button: MouseButton| #[trigger]
            is_word_for(text::lowercase(word_at(hotkey, i)), button);
        assert(is_word_for(text::lowercase(word_at(hotkey, i)), button));
    }
}

/// The button of a parsed binding is the one that a part names, and each
/// modifier flag is set exactly when a part names that modifier. There are no
/// other flags.
pub proof fn law_parsed_binding_is_what_the_words_say(hotkey: Seq<char>)
    requires
        binding::parsed(hotkey) is Ok,
    ensures
        ({
            let (button, mods) = binding::parsed(hotkey)->Ok_0;
            let n = text::parts_of(hotkey).len();
            &&& forall|i: int, other: MouseButton|
                0 <= i < n && #[trigger] is_word_for(text::lowercase(word_at(hotkey, i)), other)
                    ==> other == button
            &&& exists|i: int|
                0 <= i < n && is_word_for(text::lowercase(#[trigger] word_at(hotkey, i)), button)
            &&& mods < 16
            &&& mods & 1 != 0 <==> exists|i: int|
                0 <= i < n && (#[trigger] word_at(hotkey, i) == "ctrl"@ || word_at(hotkey, i)
                    == "control"@)
            &&& mods & 2 != 0 <==> exists|i: int|
                0 <= i < n && #[trigger] word_at(hotkey, i) == "shift"@
            &&& mods & 4 != 0 <==> exists|i: int|
                0 <= i < n && (#[trigger] word_at(hotkey, i) == "alt"@ || word_at(hotkey, i)
                    == "option"@)
            &&& mods & 8 != 0 <==> exists|i: int|
                0 <= i < n && (#[trigger] word_at(hotkey, i) == "cmd"@ || word_at(hotkey, i)
                    == "command"@ || word_at(hotkey, i) == "super"@ || word_at(hotkey, i)
                    == "meta"@ || word_at(hotkey, i) == "win"@ || word_at(hotkey, i) == "windows"@)
        }),
{
    let keys = binding::keys_of(hotkey);
    let (button, mods) = binding::parsed(hotkey)->Ok_0;
    let n = text::parts_of(hotkey).len();
    lemma_kinds(hotkey);
    law_binding_is_known_words_and_one_button(hotkey);
    let b = choose|i: int| binding::is_button_at(keys, i);
    assert(binding::is_button_at(keys, b));
    assert(button_at(hotkey, b));
    lemma_part_kind(hotkey, b);
    assert(is_word_for(text::lowercase(word_at(hotkey, b)), button));
    assert forall|i: int, other: MouseButton|
        0 <= i < n && #[trigger] is_word_for(
            text::lowercase(word_at(hotkey, i)),
            other,
        ) implies other == button by {
        lemma_part_kind(hotkey, i);
        assert(button_at(hotkey, i));
        assert(i == b);
    }
    let c = binding::has_modifier(keys, 1);
    let s = binding::has_modifier(keys, 2);
    let a = binding::has_modifier(keys, 4);
    let m = binding::has_modifier(keys, 8);
    assert(({
        let all = binding::flag_if(c, 1) | binding::flag_if(s, 2) | binding::flag_if(a, 4)
            | binding::flag_if(m, 8);
        &&& all < 16u8
        &&& (all & 1 != 0 <==> c)
        &&& (all & 2 != 0 <==> s)
        &&& (all & 4 != 0 <==> a)
        &&& (all & 8 != 0 <==> m)
    })) by (bit_vector);
    assert forall|flag: u8| #[trigger] binding::has_modifier(keys, flag) implies exists|i: int|
        0 <= i < n && binding::kind_of(keys[i]) == KeyKind::Modifier(flag) && #[trigger] word_at(
            hotkey,
            i,
        ) == keys[i].text by {
        let i = choose|i: int|
            0 <= i < keys.len() && binding::kind_of(#[trigger] keys[i]) == KeyKind::Modifier(flag);
        lemma_part_kind(hotkey, i);
        assert(word_at(hotkey, i) == keys[i].text);
    }
    assert forall|i: int| 0 <= i < n implies {
        let word = #[trigger] word_at(hotkey, i);
        let kind = binding::kind_of(keys[i]);
        &&& kind == KeyKind::Modifier(1) <==> word == "ctrl"@ || word == "control"@
        &&& kind == KeyKind::Modifier(2) <==> word == "shift"@
        &&& kind == KeyKind::Modifier(4) <==> word == "alt"@ || word == "option"@
        &&& kind == KeyKind::Modifier(8) <==> word == "cmd"@ || word == "command"@ || word
            == "super"@ || word == "meta"@ || word == "win"@ || word == "windows"@
    } by {
        lemma_part_kind(hotkey, i);
    }
}

/// Known words are enough: a string with one part that names a button, and with
/// nothing but blanks and modifier names beside it, is the binding of that
/// button with these modifiers.
pub proof fn law_button_with_modifiers_is_accepted(hotkey: Seq<char>, b: int)
    requires
        0 <= b < text::parts_of(hotkey).len(),
        button::button_named(
            text::lowercase(text::lowercase(text::trimmed(text::parts_of(hotkey)[b]))),
        ) is Some,
        forall|i: int|
            0 <= i < text::parts_of(hotkey).len() && i != b ==> {
                let word = text::lowercase(text::trimmed(#[trigger] text::parts_of(hotkey)[i]));
                word.len() == 0 || binding::modifier_named(word) is Some
            },
    ensures
        binding::parsed(hotkey) is Ok,
        Some(binding::parsed(hotkey)->Ok_0.0) == button::button_named(
            text::lowercase(text::lowercase(text::trimmed(text::parts_of(hotkey)[b]))),
        ),
        binding::parsed(hotkey)->Ok_0.1 < 16,
        forall|flag: u8|
            flag == 1 || flag == 2 || flag == 4 || flag == 8 ==> (#[trigger] (binding::parsed(
                hotkey,
            )->Ok_0.1 & flag) != 0 <==> exists|i: int|
                0 <= i < text::parts_of(hotkey).len() && binding::modifier_named(
                    text::lowercase(text::trimmed(#[trigger] text::parts_of(hotkey)[i])),
                ) == Some(flag)),
{
    let n = text::parts_of(hotkey).len();
    lemma_button_word(text::lowercase(word_at(hotkey, b)));
    assert(button_at(hotkey, b));
    assert forall|i: int| 0 <= i < n && i != b implies !unknown_at(hotkey, i) && !button_at(
        hotkey,
        i,
    ) by {
        assert(text::parts_of(hotkey)[i] == text::parts_of(hotkey)[i]);
        lemma_part_kind(hotkey, i);
        law_modifier_names(word_at(hotkey, i));
    }
    assert forall|i: int| !#[trigger] unknown_at(hotkey, i) by {
        if i == b {
            lemma_part_kind(hotkey, b);
        }
    }
    assert forall|j: int| #[trigger] button_at(hotkey, j) implies j == b by {}
    law_binding_is_known_words_and_one_button(hotkey);
    law_parsed_binding_is_what_the_words_say(hotkey);
    let name = text::lowercase(word_at(hotkey, b));
    assert(is_word_for(name, button::button_named(name)->0));
    let mods = binding::parsed(hotkey)->Ok_0.1;
    assert forall|i: int| 0 <= i < n implies ({
        let word = #[trigger] word_at(hotkey, i);
        let flag = binding::modifier_named(word);
        &&& flag == Some(1u8) <==> word == "ctrl"@ || word == "control"@
        &&& flag == Some(2u8) <==> word == "shift"@
        &&& flag == Some(4u8) <==> word == "alt"@ || word == "option"@
        &&& flag == Some(8u8) <==> word == "cmd"@ || word == "command"@ || word == "super"@ || word
            == "meta"@ || word == "win"@ || word == "windows"@
    }) by {
        law_modifier_names(word_at(hotkey, i));
    }
    assert forall|flag: u8| flag == 1 || flag == 2 || flag == 4 || flag == 8 implies (#[trigger] (
    mods & flag) != 0 <==> exists|i: int|
        0 <= i < n && binding::modifier_named(
            text::lowercase(text::trimmed(#[trigger] text::parts_of(hotkey)[i])),
        ) == Some(flag)) by {
        if mods & flag != 0 {
            let i = choose|i: int|
                0 <= i < n && binding::modifier_named(#[trigger] word_at(hotkey, i)) == Some(flag);
            assert(binding::modifier_named(
                text::lowercase(text::trimmed(text::parts_of(hotkey)[i])),
            ) == Some(flag));
        }
        if exists|i: int|
            0 <= i < n && binding::modifier_named(
                text::lowercase(text::trimmed(#[trigger] text::parts_of(hotkey)[i])),
            ) == Some(flag) {
            let i = choose|i: int|
                0 <= i < n && binding::modifier_named(
                    text::lowercase(text::trimmed(#[trigger] text::parts_of(hotkey)[i])),
                ) == Some(flag);
            assert(binding::modifier_named(word_at(hotkey, i)) == Some(flag));
        }
    }
}

/// A string with two parts that name buttons is no binding, and neither is a
/// string without any.
pub proof fn law_one_button_and_no_more(hotkey: Seq<char>)
    requires
        binding::parsed(hotkey) is Ok,
    ensures
        exists|i: int|
            0 <= i < text::parts_of(hotkey).len() && button::button_named(
                text::lowercase(
                    text::lowercase(text::trimmed(#[trigger] text::parts_of(hotkey)[i])),
                ),
            ) is Some,
        forall|i: int, j: int|
            0 <= i < j < text::parts_of(hotkey).len() ==> button::button_named(
                text::lowercase(
                    text::lowercase(text::trimmed(#[trigger] text::parts_of(hotkey)[i])),
                ),
            ) is None || button::button_named(
                text::lowercase(
                    text::lowercase(text::trimmed(#[trigger] text::parts_of(hotkey)[j])),
                ),
            ) is None,
{
    law_binding_is_known_words_and_one_button(hotkey);
    let k = choose|k: int| #[trigger]
        button_at(hotkey, k) && forall|l: int| #[trigger] button_at(hotkey, l) ==> l == k;
    lemma_button_word(text::lowercase(word_at(hotkey, k)));
    assert(text::parts_of(hotkey)[k] == text::parts_of(hotkey)[k]);
    assert forall|i: int, j: int| 0 <= i < j < text::parts_of(hotkey).len() implies
        button::button_named(
        text::lowercase(text::lowercase(text::trimmed(#[trigger] text::parts_of(hotkey)[i]))),
    ) is None || button::button_named(
        text::lowercase(text::lowercase(text::trimmed(#[trigger] text::parts_of(hotkey)[j]))),
    ) is None by {
        lemma_button_word(text::lowercase(word_at(hotkey, i)));
        lemma_button_word(text::lowercase(word_at(hotkey, j)));
        assert(!(button_at(hotkey, i) && button_at(hotkey, j)));
    }
}

/// The first part that cannot stand where it stands gives the error: an unknown
/// word is named in it, a second button is called one too many.
pub proof fn law_first_bad_part_gives_the_error(hotkey: Seq<char>, i: int)
    requires
        forall|j: int| j < i ==> !#[trigger] unknown_at(hotkey, j),
        forall|j: int, k: int|
            #[trigger] button_at(hotkey, j) && #[trigger] button_at(hotkey, k) && j < i && k < i
                ==> j == k,
    ensures
        unknown_at(hotkey, i) ==> binding::parsed(hotkey) == Err::<(MouseButton, u8), Seq<char>>(
            "Unknown key in mouse binding: '"@ + word_at(hotkey, i) + "' (full: '"@ + hotkey
                + "')"@,
        ),
        button_at(hotkey, i) && (exists|j: int| j < i && #[trigger] button_at(hotkey, j))
            ==> binding::parsed(hotkey) == Err::<(MouseButton, u8), Seq<char>>(
            "Multiple mouse buttons in binding: '"@ + hotkey + "'"@,
        ),
{
    let keys = binding::keys_of(hotkey);
    lemma_kinds(hotkey);
    assert forall|j: int| j < i implies !#[trigger] binding::is_fault_at(keys, j) by {
        if binding::is_fault_at(keys, j) {
            assert(!unknown_at(hotkey, j));
            assert(button_at(hotkey, j));
            let k = choose|k: int| k < j && #[trigger] binding::is_button_at(keys, k);
            assert(button_at(hotkey, k));
        }
    }
    if unknown_at(hotkey, i) {
        lemma_part_kind(hotkey, i);
        assert(binding::is_fault_at(keys, i));
        lemma_first_fault_decides(keys, hotkey, i);
    }
    if button_at(hotkey, i) && exists|j: int| j < i && #[trigger] button_at(hotkey, j) {
        let j = choose|j: int| j < i && #[trigger] button_at(hotkey, j);
        lemma_part_kind(hotkey, i);
        assert(binding::is_button_at(keys, i));
        assert(binding::is_button_at(keys, j));
        assert(binding::is_fault_at(keys, i));
        lemma_first_fault_decides(keys, hotkey, i);
    }
}

/// A string of known words without a button is told apart from one with an
/// unknown word.
pub proof fn law_missing_button_gives_the_error(hotkey: Seq<char>)
    requires
        forall|j: int| !#[trigger] unknown_at(hotkey, j),
        forall|j: int| !#[trigger] button_at(hotkey, j),
    ensures
        binding::parsed(hotkey) == Err::<(MouseButton, u8), Seq<char>>(
            "No mouse button found in: '"@ + hotkey + "'"@,
        ),
{
    let keys = binding::keys_of(hotkey);
    lemma_kinds(hotkey);
    assert forall|j: int| !#[trigger] binding::is_fault_at(keys, j) by {
        assert(!unknown_at(hotkey, j));
        assert(!button_at(hotkey, j));
    }
    assert forall|j: int| !#[trigger] binding::is_button_at(keys, j) by {
        assert(!button_at(hotkey, j));
    }
}

/// Whether key `i` of a list counts as a button: its text is not blank and no
/// modifier name, and it comes with a button.
pub open spec fn button_key_at(keys: Seq<KeyView>, i: int) -> bool {
    &&& 0 <= i < keys.len()
    &&& keys[i].text.len() > 0
    &&& !is_modifier_word(keys[i].text)
    &&& keys[i].button is Some
}

/// Whether key `i` of a list is no key.
pub open spec fn unknown_key_at(keys: Seq<KeyView>, i: int) -> bool {
    &&& 0 <= i < keys.len()
    &&& keys[i].text.len() > 0
    &&& !is_modifier_word(keys[i].text)
    &&& keys[i].button is None
}

proof fn lemma_key_kinds(keys: Seq<KeyView>)
    ensures
        forall|i: int| #[trigger] binding::is_button_at(keys, i) <==> button_key_at(keys, i),
        forall|i: int|
            0 <= i < keys.len() ==> (binding::kind_of(#[trigger] keys[i]) is Unknown
                <==> unknown_key_at(keys, i)),
        forall|i: int|
            button_key_at(keys, i) ==> binding::kind_of(#[trigger] keys[i]) == KeyKind::Button(
                keys[i].button->0,
            ),
{
    assert forall|i: int| 0 <= i < keys.len() implies (is_modifier_word(#[trigger] keys[i].text)
        <==> binding::modifier_named(keys[i].text) is Some) by {
        law_modifier_names(keys[i].text);
    }
    assert forall|i: int| #[trigger]
        binding::is_button_at(keys, i) <==> button_key_at(keys, i) by {
        if 0 <= i < keys.len() {
            assert(is_modifier_word(keys[i].text) <==> binding::modifier_named(keys[i].text) is Some);
        }
    }
    assert forall|i: int| 0 <= i < keys.len() implies (binding::kind_of(
        #[trigger] keys[i],
    ) is Unknown <==> unknown_key_at(keys, i)) by {
        assert(is_modifier_word(keys[i].text) <==> binding::modifier_named(keys[i].text) is Some);
    }
    assert forall|i: int| button_key_at(keys, i) implies binding::kind_of(#[trigger] keys[i])
        == KeyKind::Button(keys[i].button->0) by {
        assert(is_modifier_word(keys[i].text) <==> binding::modifier_named(keys[i].text) is Some);
    }
}

/// Whatever keys are put together, they make up a binding exactly when none of
/// them is unknown and exactly one is a button, and then it is the binding of
/// that button.
pub proof fn law_keys_make_up_one_binding(keys: Seq<KeyView>, hotkey: Seq<char>)
    ensures
        binding::assembled(keys, hotkey) is Ok <==> {
            &&& forall|i: int| !#[trigger] unknown_key_at(keys, i)
            &&& exists|i: int| #[trigger]
                button_key_at(keys, i) && forall|j: int| #[trigger]
                    button_key_at(keys, j) ==> j == i
        },
        forall|i: int|
            binding::assembled(keys, hotkey) is Ok && #[trigger] button_key_at(keys, i)
                ==> Some(binding::assembled(keys, hotkey)->Ok_0.0) == keys[i].button,
{
    lemma_key_kinds(keys);
    if binding::assembled(keys, hotkey) is Ok {
        assert forall|i: int| !#[trigger] binding::is_fault_at(keys, i) by {
            if binding::is_fault_at(keys, i) {
                lemma_some_first_fault(keys, i);
            }
        }
        assert forall|i: int| !#[trigger] unknown_key_at(keys, i) by {
            assert(!binding::is_fault_at(keys, i));
            if unknown_key_at(keys, i) {
                assert(binding::kind_of(keys[i]) is Unknown);
            }
        }
        let i = choose|i: int| binding::is_button_at(keys, i);
        assert(binding::is_button_at(keys, i));
        assert(button_key_at(keys, i));
        assert forall|j: int| #[trigger] button_key_at(keys, j) implies j == i by {
            assert(binding::is_button_at(keys, j));
            assert(!binding::is_fault_at(keys, i));
            assert(!binding::is_fault_at(keys, j));
        }
        assert(binding::kind_of(keys[i]) == KeyKind::Button(keys[i].button->0));
    }
    if (forall|i: int| !#[trigger] unknown_key_at(keys, i)) && exists|i: int| #[trigger]
        button_key_at(keys, i) && forall|j: int| #[trigger] button_key_at(keys, j) ==> j == i {
        let i = choose|i: int| #[trigger]
            button_key_at(keys, i) && forall|j: int| #[trigger] button_key_at(keys, j) ==> j == i;
        assert(binding::is_button_at(keys, i));
        assert forall|k: int| !#[trigger] binding::is_fault_at(keys, k) by {
            if binding::is_fault_at(keys, k) {
                assert(!unknown_key_at(keys, k));
                assert(binding::is_button_at(keys, k));
                assert(button_key_at(keys, k));
                let l = choose|l: int| l < k && #[trigger] binding::is_button_at(keys, l);
                assert(button_key_at(keys, l));
            }
        }
        binding::lemma_assembled_ok(keys, hotkey, i);
    }
}

/// A string is detected as a mouse binding exactly when the word of some part
/// is one of the eleven button names.
pub proof fn law_detected_means_a_button_name(hotkey: Seq<char>)
    ensures
        binding::names_button(hotkey) <==> exists|i: int|
            0 <= i < text::parts_of(hotkey).len() && {
                let word = text::lowercase(text::trimmed(#[trigger] text::parts_of(hotkey)[i]));
                ||| word == "mouse4"@
                ||| word == "mousex1"@
                ||| word == "xbutton1"@
                ||| word == "back"@
                ||| word == "mouse5"@
                ||| word == "mousex2"@
                ||| word == "xbutton2"@
                ||| word == "forward"@
                ||| word == "mousemiddle"@
                ||| word == "middleclick"@
                ||| word == "middle"@
            },
{
    assert forall|i: int| 0 <= i < text::parts_of(hotkey).len() implies ({
        let word = text::lowercase(text::trimmed(#[trigger] text::parts_of(hotkey)[i]));
        button::button_named(word) is Some <==> {
            ||| word == "mouse4"@
            ||| word == "mousex1"@
            ||| word == "xbutton1"@
            ||| word == "back"@
            ||| word == "mouse5"@
            ||| word == "mousex2"@
            ||| word == "xbutton2"@
            ||| word == "forward"@
            ||| word == "mousemiddle"@
            ||| word == "middleclick"@
            ||| word == "middle"@
        }
    }) by {
        law_button_names(text::lowercase(text::trimmed(text::parts_of(hotkey)[i])));
    }
}

} // verus!
