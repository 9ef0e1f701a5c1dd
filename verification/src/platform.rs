//! The operating systems that a binding can be meant for.
use vstd::prelude::*;

verus! {

/// Reason shown when mouse bindings are unavailable on a platform.
pub const MOUSE_UNSUPPORTED_MESSAGE: &'static str =
    "Mouse button shortcuts are not supported on this platform yet";

/// The operating system that the shortcuts are registered on. It decides how
/// two of the modifiers are called and whether mouse buttons can be captured.
#[derive(Debug, Clone, Copy, PartialEq, Eq, Hash, Structural)]
pub enum Platform {
    Windows,
    MacOs,
    Linux,
}

impl Platform {
    /// Whether a backend exists that can capture mouse buttons.
    pub open spec fn captures_mouse(self) -> bool {
        self == Platform::Windows
    }

    /// What the alternate key is called.
    pub open spec fn alt_name(self) -> Seq<char> {
        if self == Platform::MacOs {
            "option"@
        } else {
            "alt"@
        }
    }

    /// What the command or super key is called.
    pub open spec fn meta_name(self) -> Seq<char> {
        if self == Platform::MacOs {
            "command"@
        } else {
            "super"@
        }
    }

    /// Whether a backend exists that can capture mouse buttons here.
    ///
    /// Where this is `false`, mouse bindings are rejected at validation time so
    /// an unusable shortcut can never be persisted to settings.
    pub fn mouse_capture_supported(self) -> (r: bool)
        ensures
            r == self.captures_mouse(),
    {
        match self {
            Platform::Windows => true,
            Platform::MacOs => false,
            Platform::Linux => false,
        }
    }
}

} // verus!
