//! Binding strings such as `ctrl+mouse4`: parsing, formatting and validation.
use vstd::prelude::*;

use crate::button::{MouseButton, MouseEvent};
use crate::button;
use crate::modifiers;
use crate::platform::{Platform, MOUSE_UNSUPPORTED_MESSAGE};
use crate::text;

verus! {

/// The modifier flag that a lower-case key name stands for.
pub open spec fn modifier_named(key: Seq<char>) -> Option<u8> {
    if key == "ctrl"@ || key == "control"@ {
        Some(modifiers::CTRL)
    } else if key == "shift"@ {
        Some(modifiers::SHIFT)
    } else if key == "alt"@ || key == "option"@ {
        Some(modifiers::ALT)
    } else if key == "cmd"@ || key == "command"@ || key == "super"@ || key == "meta"@ || key
        == "win"@ || key == "windows"@ {
        Some(modifiers::META)
    } else {
        None
    }
}

/// One key of a binding string: its text in lower case, without the white
/// space around it, and the mouse button that goes by this name.
#[derive(Debug)]
pub struct BindingKey {
    pub text: String,
    pub button: Option<MouseButton>,
}

/// The model of a [`BindingKey`].
pub struct KeyView {
    pub text: Seq<char>,
    pub button: Option<MouseButton>,
}

impl View for BindingKey {
    type V = KeyView;

    open spec fn view(&self) -> KeyView {
        KeyView { text: self.text@, button: self.button }
    }
}

/// What a key contributes to a binding.
pub enum KeyKind {
    Blank,
    Modifier(u8),
    Button(MouseButton),
    Unknown,
}

/// What `key` contributes to a binding. A modifier name is a modifier whatever
/// button it might name.
pub open spec fn kind_of(key: KeyView) -> KeyKind {
    if key.text.len() == 0 {
        KeyKind::Blank
    } else if modifier_named(key.text) is Some {
        KeyKind::Modifier(modifier_named(key.text)->0)
    } else if key.button is Some {
        KeyKind::Button(key.button->0)
    } else {
        KeyKind::Unknown
    }
}

/// The key that a part of a binding string holds.
pub open spec fn key_of(part: Seq<char>) -> KeyView {
    let key = text::lowercase(text::trimmed(part));
    KeyView { text: key, button: button::button_named(text::lowercase(key)) }
}

/// The keys of a binding string, one for each part between `+` signs.
pub open spec fn keys_of(hotkey: Seq<char>) -> Seq<KeyView> {
    text::parts_of(hotkey).map_values(|part: Seq<char>| key_of(part))
}

/// Whether key `i` is a mouse button.
pub open spec fn is_button_at(keys: Seq<KeyView>, i: int) -> bool {
    0 <= i < keys.len() && kind_of(keys[i]) is Button
}

/// Whether key `i` cannot stand where it stands: it is unknown, or it is a
/// mouse button and an earlier key is one already.
pub open spec fn is_fault_at(keys: Seq<KeyView>, i: int) -> bool {
    &&& 0 <= i < keys.len()
    &&& kind_of(keys[i]) is Unknown || (is_button_at(keys, i) && exists|j: int|
        j < i && #[trigger] is_button_at(keys, j))
}

/// Whether key `i` is the first that cannot stand where it stands.
pub open spec fn is_first_fault(keys: Seq<KeyView>, i: int) -> bool {
    is_fault_at(keys, i) && forall|j: int| j < i ==> !#[trigger] is_fault_at(keys, j)
}

/// Whether some key is the modifier `flag`.
pub open spec fn has_modifier(keys: Seq<KeyView>, flag: u8) -> bool {
    exists|i: int|
        0 <= i < keys.len() && kind_of(#[trigger] keys[i]) == KeyKind::Modifier(flag)
}

/// `flag` where `on` holds, no flag otherwise.
pub open spec fn flag_if(on: bool, flag: u8) -> u8 {
    if on {
        flag
    } else {
        modifiers::NONE
    }
}

/// The flags of all modifiers among the keys.
pub open spec fn modifiers_of(keys: Seq<KeyView>) -> u8 {
    flag_if(has_modifier(keys, modifiers::CTRL), modifiers::CTRL) | flag_if(
        has_modifier(keys, modifiers::SHIFT),
        modifiers::SHIFT,
    ) | flag_if(has_modifier(keys, modifiers::ALT), modifiers::ALT) | flag_if(
        has_modifier(keys, modifiers::META),
        modifiers::META,
    )
}

/// The error for a key that is neither a modifier nor a mouse button.
pub open spec fn unknown_key_message(key: Seq<char>, hotkey: Seq<char>) -> Seq<char> {
    "Unknown key in mouse binding: '"@ + key + "' (full: '"@ + hotkey + "')"@
}

/// The error for a second mouse button.
pub open spec fn multiple_buttons_message(hotkey: Seq<char>) -> Seq<char> {
    "Multiple mouse buttons in binding: '"@ + hotkey + "'"@
}

/// The error for a binding without a mouse button.
pub open spec fn no_button_message(hotkey: Seq<char>) -> Seq<char> {
    "No mouse button found in: '"@ + hotkey + "'"@
}

/// The binding that the keys of the string `hotkey` make up, or the error
/// message: the first fault decides, then whether there is a button at all.
pub open spec fn assembled(keys: Seq<KeyView>, hotkey: Seq<char>) -> Result<
    (MouseButton, u8),
    Seq<char>,
> {
    if exists|i: int| is_first_fault(keys, i) {
        let i = choose|i: int| is_first_fault(keys, i);
        if kind_of(keys[i]) is Unknown {
            Err(unknown_key_message(keys[i].text, hotkey))
        } else {
            Err(multiple_buttons_message(hotkey))
        }
    } else if exists|i: int| is_button_at(keys, i) {
        let i = choose|i: int| is_button_at(keys, i);
        Ok((kind_of(keys[i])->Button_0, modifiers_of(keys)))
    } else {
        Err(no_button_message(hotkey))
    }
}

/// The binding that a string stands for, or the error message.
pub open spec fn parsed(hotkey: Seq<char>) -> Result<(MouseButton, u8), Seq<char>> {
    assembled(keys_of(hotkey), hotkey)
}

/// A result with its error message taken by its characters.
pub open spec fn outcome<T>(r: Result<T, String>) -> Result<T, Seq<char>> {
    match r {
        Ok(v) => Ok(v),
        Err(e) => Err(e@),
    }
}

/// The keys of a list, each by its model.
pub open spec fn key_views(keys: Seq<BindingKey>) -> Seq<KeyView> {
    keys.map_values(|k: BindingKey| k@)
}

/// The modifier flag for a lower-case key name.
pub fn modifier_from_lowercase_name(key: &str) -> (r: Option<u8>)
    ensures
        r == modifier_named(key@),
{
    if *key == *"ctrl" || *key == *"control" {
        Some(modifiers::CTRL)
    } else if *key == *"shift" {
        Some(modifiers::SHIFT)
    } else if *key == *"alt" || *key == *"option" {
        Some(modifiers::ALT)
    } else if *key == *"cmd" || *key == *"command" || *key == *"super" || *key == *"meta" || *key
        == *"win" || *key == *"windows" {
        Some(modifiers::META)
    } else {
        None
    }
}

/// Adding a key to a list adds the flag that it stands for to those found.
proof fn lemma_push_has_modifier(keys: Seq<KeyView>, key: KeyView, flag: u8)
    ensures
        has_modifier(keys.push(key), flag) <==> has_modifier(keys, flag) || kind_of(key)
            == KeyKind::Modifier(flag),
{
    let more = keys.push(key);
    assert(more[keys.len() as int] == key);
    if has_modifier(keys, flag) {
        let i = choose|i: int|
            0 <= i < keys.len() && kind_of(#[trigger] keys[i]) == KeyKind::Modifier(flag);
        assert(more[i] == keys[i]);
    }
}

/// Adding a key adds its flag, where it is a modifier, and nothing else.
proof fn lemma_push_modifier(keys: Seq<KeyView>, key: KeyView)
    ensures
        modifiers_of(keys.push(key)) == (if kind_of(key) is Modifier {
            modifiers_of(keys) | kind_of(key)->Modifier_0
        } else {
            modifiers_of(keys)
        }),
{
    lemma_push_has_modifier(keys, key, modifiers::CTRL);
    lemma_push_has_modifier(keys, key, modifiers::SHIFT);
    lemma_push_has_modifier(keys, key, modifiers::ALT);
    lemma_push_has_modifier(keys, key, modifiers::META);
    let c = has_modifier(keys, modifiers::CTRL);
    let s = has_modifier(keys, modifiers::SHIFT);
    let a = has_modifier(keys, modifiers::ALT);
    let m = has_modifier(keys, modifiers::META);
    if kind_of(key) is Modifier {
        let f = kind_of(key)->Modifier_0;
        assert(f == 1 || f == 2 || f == 4 || f == 8);
        assert((flag_if(c || f == 1, 1) | flag_if(s || f == 2, 2) | flag_if(a || f == 4, 4)
            | flag_if(m || f == 8, 8)) == (flag_if(c, 1) | flag_if(s, 2) | flag_if(a, 4) | flag_if(
            m,
            8,
        )) | f) by (bit_vector)
            requires
                f == 1u8 || f == 2u8 || f == 4u8 || f == 8u8,
        ;
    }
}

/// Where no key is out of place, any key that is a button gives the binding.
pub(crate) proof fn lemma_assembled_ok(keys: Seq<KeyView>, hotkey: Seq<char>, i: int)
    requires
        forall|j: int| !#[trigger] is_fault_at(keys, j),
        is_button_at(keys, i),
    ensures
        assembled(keys, hotkey) == Ok::<(MouseButton, u8), Seq<char>>(
            (kind_of(keys[i])->Button_0, modifiers_of(keys)),
        ),
{
    let k = choose|k: int| is_button_at(keys, k);
    assert(is_button_at(keys, k));
    assert(!is_fault_at(keys, i));
    assert(!is_fault_at(keys, k));
}

/// Put the keys of the binding string `hotkey_str` together.
pub fn assemble_binding(keys: &Vec<BindingKey>, hotkey_str: &str) -> (r: Result<
    (MouseButton, u8),
    String,
>)
    ensures
        outcome(r) == assembled(key_views(keys@), hotkey_str@),
{
    let ghost all = key_views(keys@);
    let mut mods: u8 = modifiers::NONE;
    let mut button: Option<MouseButton> = None;
    let mut i: usize = 0;
    proof {
        assert(modifiers_of(all.take(0)) == 0) by {
            assert(0u8 | 0u8 | 0u8 | 0u8 == 0u8) by (bit_vector);
        }
    }
    while i < keys.len()
        invariant
            all == key_views(keys@),
            i <= keys@.len(),
            mods == modifiers_of(all.take(i as int)),
            forall|j: int| j < i ==> !#[trigger] is_fault_at(all, j),
            match button {
                Some(b) => exists|j: int|
                    j < i && #[trigger] is_button_at(all, j) && kind_of(all[j])
                        == KeyKind::Button(b),
                None => forall|j: int| j < i ==> !#[trigger] is_button_at(all, j),
            },
        decreases keys@.len() - i,
    {
        let key = &keys[i];
        proof {
            assert(all[i as int] == key@);
            assert(all.take(i + 1) == all.take(i as int).push(key@));
            lemma_push_modifier(all.take(i as int), key@);
        }
        if !key.text.as_str().is_empty() {
            match modifier_from_lowercase_name(key.text.as_str()) {
                Some(flag) => {
                    mods = mods | flag;
                },
                None => match key.button {
                    None => {
                        assert(is_first_fault(all, i as int));
                        return Err(unknown_key_error(key.text.as_str(), hotkey_str));
                    },
                    Some(parsed) => {
                        assert(is_button_at(all, i as int));
                        if button.is_some() {
                            assert(is_first_fault(all, i as int));
                            return Err(multiple_buttons_error(hotkey_str));
                        }
                        button = Some(parsed);
                    },
                },
            }
        }
        i = i + 1;
    }
    assert(all.take(i as int) == all);
    assert(forall|j: int| !#[trigger] is_fault_at(all, j));
    match button {
        Some(btn) => {
            proof {
                let j = choose|j: int| #[trigger]
                    is_button_at(all, j) && kind_of(all[j]) == KeyKind::Button(btn);
                lemma_assembled_ok(all, hotkey_str@, j);
            }
            Ok((btn, mods))
        },
        None => Err(no_button_error(hotkey_str)),
    }
}

fn unknown_key_error(key: &str, hotkey_str: &str) -> (r: String)
    ensures
        r@ == unknown_key_message(key@, hotkey_str@),
{
    let mut r = "Unknown key in mouse binding: '".to_string();
    r.append(key);
    r.append("' (full: '");
    r.append(hotkey_str);
    r.append("')");
    r
}

fn multiple_buttons_error(hotkey_str: &str) -> (r: String)
    ensures
        r@ == multiple_buttons_message(hotkey_str@),
{
    let mut r = "Multiple mouse buttons in binding: '".to_string();
    r.append(hotkey_str);
    r.append("'");
    r
}

fn no_button_error(hotkey_str: &str) -> (r: String)
    ensures
        r@ == no_button_message(hotkey_str@),
{
    let mut r = "No mouse button found in: '".to_string();
    r.append(hotkey_str);
    r.append("'");
    r
}

/// Parse a mouse binding string like "ctrl+mouse4" into (button, modifiers).
pub fn parse_mouse_binding(hotkey_str: &str) -> (r: Result<(MouseButton, u8), String>)
    ensures
        outcome(r) == parsed(hotkey_str@),
{
    let parts = text::split_plus(hotkey_str);
    let mut keys: Vec<BindingKey> = Vec::new();
    let mut i: usize = 0;
    while i < parts.len()
        invariant
            i <= parts@.len(),
            text::slice_texts(parts@) == text::parts_of(hotkey_str@),
            key_views(keys@) == keys_of(hotkey_str@).take(i as int),
        decreases parts@.len() - i,
    {
        let key = parts[i].trim().to_lowercase();
        let button = MouseButton::from_key_name(key.as_str());
        let ghost before = key_views(keys@);
        keys.push(BindingKey { text: key, button });
        assert(parts@[i as int]@ == text::slice_texts(parts@)[i as int]);
        assert(key_views(keys@) == before.push(keys_of(hotkey_str@)[i as int]));
        i = i + 1;
    }
    assert(keys_of(hotkey_str@).take(i as int) == keys_of(hotkey_str@));
    assemble_binding(&keys, hotkey_str)
}

/// Whether some part of the binding string names a mouse button.
pub open spec fn names_button(hotkey: Seq<char>) -> bool {
    exists|i: int|
        0 <= i < text::parts_of(hotkey).len() && button::button_named(
            text::lowercase(text::trimmed(#[trigger] text::parts_of(hotkey)[i])),
        ) is Some
}

/// Check whether a hotkey string refers to a mouse button binding.
pub fn is_mouse_binding(hotkey_str: &str) -> (r: bool)
    ensures
        r == names_button(hotkey_str@),
{
    let parts = text::split_plus(hotkey_str);
    let mut i: usize = 0;
    while i < parts.len()
        invariant
            i <= parts@.len(),
            text::slice_texts(parts@) == text::parts_of(hotkey_str@),
            forall|j: int|
                0 <= j < i ==> button::button_named(
                    text::lowercase(text::trimmed(#[trigger] text::parts_of(hotkey_str@)[j])),
                ) is None,
        decreases parts@.len() - i,
    {
        assert(text::parts_of(hotkey_str@)[i as int] == parts@[i as int]@);
        if MouseButton::from_key_name(parts[i].trim()).is_some() {
            return true;
        }
        i = i + 1;
    }
    false
}

/// The one name, where `on` holds, or no name.
pub open spec fn name_if(on: bool, name: Seq<char>) -> Seq<Seq<char>> {
    if on {
        seq![name]
    } else {
        Seq::empty()
    }
}

/// The names of the modifiers in `mods`, in canonical order.
pub open spec fn modifier_names(mods: u8, platform: Platform) -> Seq<Seq<char>> {
    name_if(mods & modifiers::CTRL != 0, "ctrl"@) + name_if(
        mods & modifiers::SHIFT != 0,
        "shift"@,
    ) + name_if(mods & modifiers::ALT != 0, platform.alt_name()) + name_if(
        mods & modifiers::META != 0,
        platform.meta_name(),
    )
}

/// The canonical hotkey string of a button with modifiers.
pub open spec fn hotkey_text(button: MouseButton, mods: u8, platform: Platform) -> Seq<char> {
    text::joined(modifier_names(mods, platform).push(button.key_name()))
}

/// Build modifier name list for the frontend.
pub fn modifiers_to_strings(mods: u8, platform: Platform) -> (r: Vec<String>)
    ensures
        text::texts(r@) == modifier_names(mods, platform),
{
    let mut result: Vec<String> = Vec::new();
    if mods & modifiers::CTRL != 0 {
        result.push("ctrl".to_string());
    }
    assert(text::texts(result@) == name_if(mods & modifiers::CTRL != 0, "ctrl"@));
    let ghost so_far = text::texts(result@);
    if mods & modifiers::SHIFT != 0 {
        result.push("shift".to_string());
    }
    assert(text::texts(result@) == so_far + name_if(mods & modifiers::SHIFT != 0, "shift"@));
    let ghost so_far = text::texts(result@);
    if mods & modifiers::ALT != 0 {
        match platform {
            Platform::MacOs => result.push("option".to_string()),
            Platform::Windows => result.push("alt".to_string()),
            Platform::Linux => result.push("alt".to_string()),
        }
    }
    assert(text::texts(result@) == so_far + name_if(
        mods & modifiers::ALT != 0,
        platform.alt_name(),
    ));
    let ghost so_far = text::texts(result@);
    if mods & modifiers::META != 0 {
        match platform {
            Platform::MacOs => result.push("command".to_string()),
            Platform::Windows => result.push("super".to_string()),
            Platform::Linux => result.push("super".to_string()),
        }
    }
    assert(text::texts(result@) == so_far + name_if(
        mods & modifiers::META != 0,
        platform.meta_name(),
    ));
    result
}

/// Format a mouse binding back to a canonical hotkey string (e.g. "ctrl+mouse4").
pub fn format_mouse_hotkey(button: MouseButton, mods: u8, platform: Platform) -> (r: String)
    ensures
        r@ == hotkey_text(button, mods, platform),
{
    let mut parts = modifiers_to_strings(mods, platform);
    let ghost names = text::texts(parts@);
    parts.push(button.to_key_name().to_string());
    assert(text::texts(parts@) == names.push(button.key_name()));
    text::join_plus(&parts)
}

/// A parse result without the binding.
pub open spec fn validated(hotkey: Seq<char>) -> Result<(), Seq<char>> {
    match parsed(hotkey) {
        Ok(_) => Ok(()),
        Err(e) => Err(e),
    }
}

/// Validate a mouse binding string.
pub fn validate_mouse_binding(raw: &str) -> (r: Result<(), String>)
    ensures
        outcome(r) == validated(raw@),
{
    match parse_mouse_binding(raw) {
        Ok(_) => Ok(()),
        Err(e) => Err(e),
    }
}

/// What validation for a platform says: a refusal of every string where mouse
/// buttons cannot be captured.
pub open spec fn validated_for(hotkey: Seq<char>, platform: Platform) -> Result<(), Seq<char>> {
    if platform.captures_mouse() {
        validated(hotkey)
    } else {
        Err(MOUSE_UNSUPPORTED_MESSAGE@)
    }
}

/// Validate a mouse binding for a platform.
///
/// On platforms without a capture backend this always fails, which keeps
/// unsupported shortcuts out of persisted settings instead of saving a binding
/// that silently never fires.
pub fn validate_for_platform(raw: &str, platform: Platform) -> (r: Result<(), String>)
    ensures
        outcome(r) == (if platform.captures_mouse() {
            validated(raw@)
        } else {
            Err(MOUSE_UNSUPPORTED_MESSAGE@)
        }),
        outcome(r) == validated_for(raw@, platform),
{
    if !platform.mouse_capture_supported() {
        return Err(MOUSE_UNSUPPORTED_MESSAGE.to_string());
    }
    validate_mouse_binding(raw)
}

/// Mouse event payload for the frontend while recording.
#[derive(Debug, Clone)]
pub struct FrontendMouseEvent {
    pub modifiers: Vec<String>,
    pub key: String,
    pub is_key_down: bool,
    pub hotkey_string: String,
}

/// The model of a [`FrontendMouseEvent`].
pub struct PayloadView {
    pub modifiers: Seq<Seq<char>>,
    pub key: Seq<char>,
    pub is_key_down: bool,
    pub hotkey: Seq<char>,
}

impl View for FrontendMouseEvent {
    type V = PayloadView;

    open spec fn view(&self) -> PayloadView {
        PayloadView {
            modifiers: text::texts(self.modifiers@),
            key: self.key@,
            is_key_down: self.is_key_down,
            hotkey: self.hotkey_string@,
        }
    }
}

/// What the frontend is told of an event.
pub open spec fn payload(event: MouseEvent, platform: Platform) -> PayloadView {
    PayloadView {
        modifiers: modifier_names(event.mods, platform),
        key: event.button.key_name(),
        is_key_down: event.is_down,
        hotkey: hotkey_text(event.button, event.mods, platform),
    }
}

impl FrontendMouseEvent {
    /// Build the frontend payload for a raw backend event.
    pub fn from_event(event: &MouseEvent, platform: Platform) -> (r: Self)
        ensures
            text::texts(r.modifiers@) == modifier_names(event.mods, platform),
            r.key@ == event.button.key_name(),
            r.is_key_down == event.is_down,
            r.hotkey_string@ == hotkey_text(event.button, event.mods, platform),
            r@ == payload(*event, platform),
    {
        FrontendMouseEvent {
            modifiers: modifiers_to_strings(event.mods, platform),
            key: event.button.to_key_name().to_string(),
            is_key_down: event.is_down,
            hotkey_string: format_mouse_hotkey(event.button, event.mods, platform),
        }
    }
}

} // verus!
