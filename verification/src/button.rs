//! The mouse buttons that can be bound, their names and their events.
use vstd::prelude::*;

use crate::text;

verus! {

/// Supported mouse buttons for shortcut bindings.
#[derive(Debug, Clone, Copy, PartialEq, Eq, Hash, Structural)]
pub enum MouseButton {
    /// mouse4 / back
    X1,
    /// mouse5 / forward
    X2,
    /// middle click (scroll wheel press)
    Middle,
}

/// A mouse button transition reported by a platform backend.
#[derive(Debug, Clone, Copy, PartialEq, Eq, Structural)]
pub struct MouseEvent {
    pub button: MouseButton,
    pub mods: u8,
    pub is_down: bool,
}

/// The button that a lower-case name stands for.
pub open spec fn button_named(name: Seq<char>) -> Option<MouseButton> {
    if name == "mouse4"@ || name == "mousex1"@ || name == "xbutton1"@ || name == "back"@ {
        Some(MouseButton::X1)
    } else if name == "mouse5"@ || name == "mousex2"@ || name == "xbutton2"@ || name
        == "forward"@ {
        Some(MouseButton::X2)
    } else if name == "mousemiddle"@ || name == "middleclick"@ || name == "middle"@ {
        Some(MouseButton::Middle)
    } else {
        None
    }
}

impl MouseButton {
    /// All bindable buttons, in canonical order.
    pub const ALL: [MouseButton; 3] = [MouseButton::X1, MouseButton::X2, MouseButton::Middle];

    /// The canonical name of a button.
    pub open spec fn key_name(self) -> Seq<char> {
        match self {
            MouseButton::X1 => "mouse4"@,
            MouseButton::X2 => "mouse5"@,
            MouseButton::Middle => "mousemiddle"@,
        }
    }

    /// Parse a mouse button from a key name string, in any mix of cases.
    pub fn from_key_name(name: &str) -> (r: Option<Self>)
        ensures
            r == button_named(text::lowercase(name@)),
    {
        let lower = name.to_lowercase();
        Self::from_lowercase_name(lower.as_str())
    }

    /// Parse a mouse button from a key name string that is in lower case.
    pub fn from_lowercase_name(name: &str) -> (r: Option<Self>)
        ensures
            r == button_named(name@),
    {
        if *name == *"mouse4" || *name == *"mousex1" || *name == *"xbutton1" || *name == *"back" {
            Some(MouseButton::X1)
        } else if *name == *"mouse5" || *name == *"mousex2" || *name == *"xbutton2" || *name
            == *"forward" {
            Some(MouseButton::X2)
        } else if *name == *"mousemiddle" || *name == *"middleclick" || *name == *"middle" {
            Some(MouseButton::Middle)
        } else {
            None
        }
    }

    /// Canonical string representation used in binding strings.
    pub fn to_key_name(self) -> (r: &'static str)
        ensures
            r@ == self.key_name(),
    {
        match self {
            MouseButton::X1 => "mouse4",
            MouseButton::X2 => "mouse5",
            MouseButton::Middle => "mousemiddle",
        }
    }
}

/// The canonical names are in lower case, hold neither `+` nor white space, and
/// stand for the button that they name.
pub(crate) proof fn lemma_key_name(button: MouseButton)
    ensures
        button.key_name().len() > 0,
        forall|i: int|
            0 <= i < button.key_name().len() ==> {
                let c = #[trigger] button.key_name()[i];
                'a' <= c <= 'z' || '0' <= c <= '9'
            },
        button_named(button.key_name()) == Some(button),
{
    reveal_strlit("mouse4");
    reveal_strlit("mousex1");
    reveal_strlit("xbutton1");
    reveal_strlit("back");
    reveal_strlit("mouse5");
    reveal_strlit("mousex2");
    reveal_strlit("xbutton2");
    reveal_strlit("forward");
    reveal_strlit("mousemiddle");
    reveal_strlit("middleclick");
    reveal_strlit("middle");
    match button {
        MouseButton::X1 => {},
        MouseButton::X2 => {
            assert("mouse5"@[5] == '5');
            assert("mouse4"@[5] == '4');
            assert("mouse5"@ != "mouse4"@);
            assert("mouse5"@.len() == 6);
        },
        MouseButton::Middle => {
            assert("mousemiddle"@.len() == 11);
        },
    }
}

/// A text of lower-case ASCII letters and digits is its own lower-case form.
pub(crate) proof fn lemma_lowercase_keeps(s: Seq<char>)
    requires
        forall|i: int|
            0 <= i < s.len() ==> {
                let c = #[trigger] s[i];
                'a' <= c <= 'z' || '0' <= c <= '9'
            },
    ensures
        text::is_ascii_text(s),
        text::lowercase(s) == s,
{
    assert forall|i: int| 0 <= i < s.len() implies (#[trigger] s[i] as u32) < 128 by {}
    assert(s.map_values(|c: char| text::ascii_lower(c)) == s);
}

/// Every button is found again under its canonical name.
pub proof fn law_canonical_name_names_button(button: MouseButton)
    ensures
        button_named(text::lowercase(button.key_name())) == Some(button),
{
    lemma_key_name(button);
    lemma_lowercase_keeps(button.key_name());
}

} // verus!
