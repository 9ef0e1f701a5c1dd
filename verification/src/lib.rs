//! Platform-independent mouse button shortcut support.
//!
//! This crate owns everything that does not depend on an OS-specific event
//! source: the button vocabulary, binding-string parsing and formatting,
//! validation, the registry of active bindings plus the event queue that the
//! capture backend feeds, and the decisions of the Windows hook backend.
//!
//! | Module          | What it holds                                          |
//! |-----------------|--------------------------------------------------------|
//! | `text`          | splitting, joining, trimming and lower-casing          |
//! | `text_laws`     | what holds of these operations                         |
//! | `modifiers`     | the modifier flags                                     |
//! | `platform`      | the platforms, their key names and what they support   |
//! | `button`        | the buttons, their names and their events              |
//! | `binding`       | parsing, formatting and validating binding strings     |
//! | `binding_laws`  | what holds of parsing and formatting together          |
//! | `key_laws`      | what a binding string says, word by word               |
//! | `format_laws`   | what holds of formatting and validating                |
//! | `listener`      | who is told when a backend should start or stop        |
//! | `listener_laws` | what holds of the listeners and their calls            |
//! | `model`         | the state of a registry and what operations do to it   |
//! | `registry`      | the registry                                           |
//! | `registry_laws` | what holds of the registry over several operations     |
//! | `delivery_laws` | what is found, delivered, remembered and queued        |
//! | `hook`          | the decisions of the Windows hook backend              |
//! | `hook_laws`     | what holds of the backend and the registry together    |
//!
//! A capture backend only has to (1) forward captured transitions with
//! `MouseRegistry::send_event` after asking `MouseRegistry::should_deliver`, and
//! (2) attach itself with `MouseRegistry::on_active_change` so it is started and
//! stopped on demand.

pub mod text;
pub mod text_laws;
pub mod modifiers;
pub mod platform;
pub mod button;
pub mod binding;
pub mod binding_laws;
pub mod key_laws;
pub mod format_laws;
pub mod listener;
pub mod listener_laws;
pub mod model;
pub mod registry;
pub mod registry_laws;
pub mod delivery_laws;
pub mod hook;
pub mod hook_laws;

pub use crate::binding::{
    format_mouse_hotkey, is_mouse_binding, modifiers_to_strings, parse_mouse_binding,
    validate_for_platform, validate_mouse_binding, FrontendMouseEvent,
};
pub use crate::button::{MouseButton, MouseEvent};
pub use crate::listener::{ActiveListener, ActivityLog, CallCounter};
pub use crate::platform::{Platform, MOUSE_UNSUPPORTED_MESSAGE};
pub use crate::registry::MouseRegistry;
