//! What holds of formatting and validating bindings.
use vstd::prelude::*;

use crate::binding;
use crate::binding_laws;
use crate::button::{MouseButton, MouseEvent};
use crate::model;
use crate::platform::Platform;
use crate::text;
use crate::text_laws;

verus! {

/// The names of a set of modifiers are built up flag by flag: none for none,
/// and each flag adds its one name behind those of the lower flags. On macOS
/// two of them are called otherwise. Bits that are no flags add nothing.
pub proof fn law_modifier_names_add_up(mods: u8, platform: Platform)
    ensures
        binding::modifier_names(0, platform) == Seq::<Seq<char>>::empty(),
        mods & 1 != 0 ==> binding::modifier_names(mods & 1, platform) == seq!["ctrl"@],
        binding::modifier_names(mods & 3, platform) == (if mods & 2 != 0 {
            binding::modifier_names(mods & 1, platform).push("shift"@)
        } else {
            binding::modifier_names(mods & 1, platform)
        }),
        binding::modifier_names(mods & 7, platform) == (if mods & 4 != 0 {
            binding::modifier_names(mods & 3, platform).push(
                if platform == Platform::MacOs {
                    "option"@
                } else {
                    "alt"@
                },
            )
        } else {
            binding::modifier_names(mods & 3, platform)
        }),
        binding::modifier_names(mods, platform) == (if mods & 8 != 0 {
            binding::modifier_names(mods & 7, platform).push(
                if platform == Platform::MacOs {
                    "command"@
                } else {
                    "super"@
                },
            )
        } else {
            binding::modifier_names(mods & 7, platform)
        }),
{
    assert(0u8 & 1 == 0 && 0u8 & 2 == 0 && 0u8 & 4 == 0 && 0u8 & 8 == 0) by (bit_vector);
    assert((mods & 1) & 1 == mods & 1 && (mods & 1) & 2 == 0 && (mods & 1) & 4 == 0 && (mods & 1)
        & 8 == 0) by (bit_vector);
    assert((mods & 3) & 1 == mods & 1 && (mods & 3) & 2 == mods & 2 && (mods & 3) & 4 == 0 && (mods
        & 3) & 8 == 0) by (bit_vector);
    assert((mods & 7) & 1 == mods & 1 && (mods & 7) & 2 == mods & 2 && (mods & 7) & 4 == mods & 4
        && (mods & 7) & 8 == 0) by (bit_vector);
    if mods & 1 != 0 {
        assert(binding::modifier_names(mods & 1, platform) == seq!["ctrl"@]);
    }
}

/// A hotkey string is the canonical name of its button, behind the names of its
/// modifiers and a `+` where there are modifiers.
pub proof fn law_hotkey_ends_in_its_button(button: MouseButton, mods: u8, platform: Platform)
    ensures
        ({
            let names = binding::modifier_names(mods, platform);
            let name = match button {
                MouseButton::X1 => "mouse4"@,
                MouseButton::X2 => "mouse5"@,
                MouseButton::Middle => "mousemiddle"@,
            };
            binding::hotkey_text(button, mods, platform) == (if names.len() == 0 {
                name
            } else {
                text::joined(names) + seq!['+'] + name
            })
        }),
        button.key_name() == binding::hotkey_text(button, 0, platform),
{
    let names = binding::modifier_names(mods, platform);
    let name = button.key_name();
    law_modifier_names_add_up(mods, platform);
    let one = seq![name];
    assert(names.push(name) == names + one);
    assert(Seq::<Seq<char>>::empty().push(name) == one);
    text_laws::law_join_puts_one_plus_between(one, one, name);
    if names.len() > 0 {
        text_laws::law_join_puts_one_plus_between(names, one, name);
    } else {
        assert(names + one == one);
    }
}

/// Validation accepts what parses and nothing else, and a refusal is the parse
/// error.
pub proof fn law_valid_means_parses(hotkey: Seq<char>)
    ensures
        binding::validated(hotkey) is Ok <==> binding::parsed(hotkey) is Ok,
        binding::validated(hotkey) is Err ==> binding::validated(hotkey)->Err_0 == binding::parsed(
            hotkey,
        )->Err_0,
{
}

/// What formatting gives is valid: every button can be saved with any
/// modifiers, under the key names of any platform.
pub proof fn law_formatted_is_valid(button: MouseButton, mods: u8, platform: Platform)
    ensures
        binding::validated(binding::hotkey_text(button, mods, platform)) is Ok,
{
    binding_laws::law_format_parses_back(button, mods, platform);
}

/// Mouse buttons can be captured on Windows and nowhere else. There a string is
/// accepted for the platform where it parses; elsewhere every string is refused
/// with one message, whatever it holds.
pub proof fn law_validation_depends_on_platform(hotkey: Seq<char>, platform: Platform)
    ensures
        platform.captures_mouse() <==> platform == Platform::Windows,
        platform == Platform::Windows ==> {
            &&& binding::validated_for(hotkey, platform) is Ok <==> binding::parsed(hotkey) is Ok
            &&& binding::validated_for(hotkey, platform) is Err ==> binding::validated_for(
                hotkey,
                platform,
            )->Err_0 == binding::parsed(hotkey)->Err_0
        },
        platform != Platform::Windows ==> binding::validated_for(hotkey, platform) == Err::<
            (),
            Seq<char>,
        >("Mouse button shortcuts are not supported on this platform yet"@),
{
}

/// What the frontend is told of an event says what happened: the direction of
/// the event, a hotkey string that parses to its button and modifiers, a key
/// that parses to its button alone, and the modifiers and the key that the
/// hotkey string is made of.
pub proof fn law_payload_tells_the_event(event: MouseEvent, platform: Platform)
    ensures
        ({
            let told = binding::payload(event, platform);
            &&& told.is_key_down == event.is_down
            &&& binding::parsed(told.hotkey) == Ok::<(MouseButton, u8), Seq<char>>(
                (event.button, event.mods & 15),
            )
            &&& binding::parsed(told.key) == Ok::<(MouseButton, u8), Seq<char>>((event.button, 0))
            &&& text::parts_of(told.hotkey) == told.modifiers.push(told.key)
        }),
{
    let told = binding::payload(event, platform);
    binding_laws::law_format_parses_back(event.button, event.mods, platform);
    binding_laws::law_format_parses_back(event.button, 0, platform);
    law_hotkey_ends_in_its_button(event.button, event.mods, platform);
    binding_laws::law_canonical_parts(event.button, event.mods, platform);
}

/// A conflict is reported with the hotkey string of the combination and the
/// shortcut that has it.
pub proof fn law_conflict_names_combination_and_shortcut(
    button: MouseButton,
    mods: u8,
    platform: Platform,
    id: Seq<char>,
)
    ensures
        model::conflict_message(button, mods, platform, id) == "'"@ + binding::hotkey_text(
            button,
            mods,
            platform,
        ) + "' is already used by the '"@ + id + "' shortcut"@,
{
}

} // verus!
