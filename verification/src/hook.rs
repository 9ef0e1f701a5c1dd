//! The decisions of the Windows low-level mouse hook backend: what a hook
//! message means, which modifiers are down, what is blocked, and when the hook
//! thread starts and stops.
//!
//! Every Win32 call is made outside; it hands its plain results in here.
use vstd::prelude::*;

use crate::binding;
use crate::button::{MouseButton, MouseEvent};
use crate::listener::ActiveListener;
use crate::model::RegistryView;
use crate::modifiers;
use crate::registry::MouseRegistry;

verus! {

/// `WM_MBUTTONDOWN`: the middle button was pressed.
pub const WM_MBUTTONDOWN: u32 = 0x0207;

/// `WM_MBUTTONUP`: the middle button was released.
pub const WM_MBUTTONUP: u32 = 0x0208;

/// `WM_XBUTTONDOWN`: one of the X buttons was pressed.
pub const WM_XBUTTONDOWN: u32 = 0x020b;

/// `WM_XBUTTONUP`: one of the X buttons was released.
pub const WM_XBUTTONUP: u32 = 0x020c;

pub const XBUTTON1: u32 = 0x0001;

pub const XBUTTON2: u32 = 0x0002;

/// The button that the high word of `mouseData` tells.
pub open spec fn xbutton(mouse_data: u32) -> Option<MouseButton> {
    let high = mouse_data as int / 0x10000;
    if high == XBUTTON1 {
        Some(MouseButton::X1)
    } else if high == XBUTTON2 {
        Some(MouseButton::X2)
    } else {
        None
    }
}

/// Extract XBUTTON number from mouseData field (HIWORD).
pub fn xbutton_from_mousedata(mouse_data: u32) -> (r: Option<MouseButton>)
    ensures
        r == xbutton(mouse_data),
{
    assert(mouse_data >> 16 == mouse_data / 0x10000) by (bit_vector);
    let high: u32 = mouse_data >> 16;
    if high == XBUTTON1 {
        Some(MouseButton::X1)
    } else if high == XBUTTON2 {
        Some(MouseButton::X2)
    } else {
        None
    }
}

/// The button and the direction that a hook message reports.
pub open spec fn transition(message: u32, mouse_data: u32) -> Option<(MouseButton, bool)> {
    if message == WM_MBUTTONDOWN {
        Some((MouseButton::Middle, true))
    } else if message == WM_MBUTTONUP {
        Some((MouseButton::Middle, false))
    } else if (message == WM_XBUTTONDOWN || message == WM_XBUTTONUP) && xbutton(mouse_data) is Some {
        Some((xbutton(mouse_data)->0, message == WM_XBUTTONDOWN))
    } else {
        None
    }
}

/// The button that a hook message is about and whether it went down. Messages
/// about anything but the bindable buttons give `None`.
pub fn decode_mouse_message(message: u32, mouse_data: u32) -> (r: Option<(MouseButton, bool)>)
    ensures
        r == transition(message, mouse_data),
{
    if message == WM_XBUTTONDOWN || message == WM_XBUTTONUP {
        match xbutton_from_mousedata(mouse_data) {
            Some(button) => Some((button, message == WM_XBUTTONDOWN)),
            None => None,
        }
    } else if message == WM_MBUTTONDOWN {
        Some((MouseButton::Middle, true))
    } else if message == WM_MBUTTONUP {
        Some((MouseButton::Middle, false))
    } else {
        None
    }
}

/// The state of the modifier keys as `GetAsyncKeyState` reports it: a key is
/// down when its state is negative.
#[derive(Debug, Clone, Copy, PartialEq, Eq, Structural)]
pub struct KeyStates {
    pub control: i16,
    pub shift: i16,
    pub menu: i16,
    pub left_win: i16,
    pub right_win: i16,
}

/// The flags of the modifiers that are down.
pub open spec fn modifiers_down(keys: KeyStates) -> u8 {
    binding::flag_if(keys.control < 0, modifiers::CTRL) | binding::flag_if(
        keys.shift < 0,
        modifiers::SHIFT,
    ) | binding::flag_if(keys.menu < 0, modifiers::ALT) | binding::flag_if(
        keys.left_win < 0 || keys.right_win < 0,
        modifiers::META,
    )
}

/// The modifiers that are down, from the current state of the modifier keys.
pub fn get_current_modifiers(keys: KeyStates) -> (r: u8)
    ensures
        r == modifiers_down(keys),
        r & modifiers::CTRL != 0 <==> keys.control < 0,
        r & modifiers::SHIFT != 0 <==> keys.shift < 0,
        r & modifiers::ALT != 0 <==> keys.menu < 0,
        r & modifiers::META != 0 <==> keys.left_win < 0 || keys.right_win < 0,
{
    let mut mods: u8 = modifiers::NONE;
    if keys.control < 0 {
        mods = mods | modifiers::CTRL;
    }
    if keys.shift < 0 {
        mods = mods | modifiers::SHIFT;
    }
    if keys.menu < 0 {
        mods = mods | modifiers::ALT;
    }
    if keys.left_win < 0 || keys.right_win < 0 {
        mods = mods | modifiers::META;
    }
    proof {
        let c = keys.control < 0;
        let s = keys.shift < 0;
        let a = keys.menu < 0;
        let m = keys.left_win < 0 || keys.right_win < 0;
        assert(({
            let m1 = binding::flag_if(c, 1) | binding::flag_if(s, 2) | binding::flag_if(a, 4)
                | binding::flag_if(m, 8);
            let k0: u8 = 0;
            let k1 = if c {
                k0 | 1
            } else {
                k0
            };
            let k2 = if s {
                k1 | 2
            } else {
                k1
            };
            let k3 = if a {
                k2 | 4
            } else {
                k2
            };
            let k4 = if m {
                k3 | 8
            } else {
                k3
            };
            &&& k4 == m1
            &&& (k4 & 1 != 0 <==> c)
            &&& (k4 & 2 != 0 <==> s)
            &&& (k4 & 4 != 0 <==> a)
            &&& (k4 & 8 != 0 <==> m)
        })) by (bit_vector);
    }
    mods
}

/// Deliver an event to the app if the registry wants it. Returns true only if
/// the event was actually queued: the hook blocks the OS event only then, so
/// an app without a registry never silently swallows mouse buttons.
pub fn send_hook_event<L: ActiveListener>(
    registry: Option<&mut MouseRegistry<L>>,
    event: &MouseEvent,
) -> (r: bool)
    requires
        registry is Some ==> registry->0.wf(),
    ensures
        match registry {
            Some(here) => {
                &&& final(here).wf()
                &&& final(here).listeners() == here.listeners()
                &&& r == here@.delivers(*event)
                &&& final(here)@ == here@.capture(*event)
            },
            None => !r,
        },
{
    match registry {
        Some(registry) => {
            if registry.should_deliver(event) {
                registry.send_event(*event)
            } else {
                false
            }
        },
        None => false,
    }
}

/// The event that a call of the hook procedure reports. A call with a negative
/// code is none of the hook's business.
pub open spec fn hook_event(code: i32, message: u32, mouse_data: u32, keys: KeyStates) -> Option<
    MouseEvent,
> {
    match transition(message, mouse_data) {
        Some((button, is_down)) => if code >= 0 {
            Some(MouseEvent { button, mods: modifiers_down(keys), is_down })
        } else {
            None
        },
        None => None,
    }
}

/// Whether a call of the hook procedure blocks its OS event: it reports an
/// event that the registry in the state `s` delivers.
pub open spec fn blocks(
    s: RegistryView,
    code: i32,
    message: u32,
    mouse_data: u32,
    keys: KeyStates,
) -> bool {
    match hook_event(code, message, mouse_data, keys) {
        Some(event) => s.delivers(event),
        None => false,
    }
}

/// What a call of the hook procedure makes of the registry.
pub open spec fn hooked(
    s: RegistryView,
    code: i32,
    message: u32,
    mouse_data: u32,
    keys: KeyStates,
) -> RegistryView {
    match hook_event(code, message, mouse_data, keys) {
        Some(event) => s.capture(event),
        None => s,
    }
}

/// Decide on a call of the low-level mouse hook procedure: its code, the
/// message, the `mouseData` that came with it and the state of the modifier
/// keys. Returns true where the OS event is to be blocked, that is where the
/// registry queued the event; otherwise it goes on to other applications.
/// Without a registry nothing is blocked.
pub fn on_hook_message<L: ActiveListener>(
    registry: Option<&mut MouseRegistry<L>>,
    code: i32,
    message: u32,
    mouse_data: u32,
    keys: KeyStates,
) -> (blocked: bool)
    requires
        registry is Some ==> registry->0.wf(),
    ensures
        match registry {
            Some(here) => {
                &&& final(here).wf()
                &&& final(here).listeners() == here.listeners()
                &&& blocked == blocks(here@, code, message, mouse_data, keys)
                &&& final(here)@ == hooked(here@, code, message, mouse_data, keys)
                &&& hook_event(code, message, mouse_data, keys) is None ==> *final(here) == *here
            },
            None => !blocked,
        },
{
    if code < 0 {
        return false;
    }
    match decode_mouse_message(message, mouse_data) {
        Some((button, is_down)) => {
            let event = MouseEvent { button, mods: get_current_modifiers(keys), is_down };
            send_hook_event(registry, &event)
        },
        None => false,
    }
}

/// What happened to the hook thread or to the registry that it serves.
#[derive(Debug, Clone, Copy, PartialEq, Eq, Structural)]
pub enum HookSignal {
    /// The registry needs a capture backend (`true`) or does not (`false`).
    Active(bool),
    /// The thread that was asked for could not be spawned.
    SpawnFailed,
    /// The thread that was to end has been joined, or there was none.
    Joined,
    /// The hook thread runs under this thread id.
    ThreadStarted(u32),
    /// The hook is installed.
    Installed,
    /// The hook could not be installed.
    InstallFailed,
    /// `GetMessageW` returned this value.
    Message(i32),
    /// The hook is removed again.
    Unhooked,
}

/// What is to be done next.
#[derive(Debug, Clone, Copy, PartialEq, Eq, Structural)]
pub enum HookAction {
    /// Nothing.
    Wait,
    /// Spawn the hook thread.
    Spawn,
    /// Post `WM_QUIT` to this thread, if any, then join the hook thread.
    QuitAndJoin(Option<u32>),
    /// Install the hook.
    Install,
    /// Wait for the next message.
    GetMessage,
    /// Remove the hook.
    Unhook,
    /// Leave the hook thread.
    Exit,
}

/// The life of the hook thread. The thread starts lazily, when the registry
/// first needs a backend, and stops when it needs none.
#[derive(Debug, Clone, Copy, PartialEq, Eq, Structural)]
pub struct HookThread {
    /// Set while the hook thread is starting or installed.
    pub running: bool,
    /// The id of the hook thread, 0 while there is none or it has not told it.
    pub thread_id: u32,
    /// Set while the hook thread is to end and has not ended yet.
    pub stopping: bool,
}

impl HookThread {
    /// The state without a hook thread.
    pub open spec fn none() -> HookThread {
        HookThread { running: false, thread_id: 0, stopping: false }
    }

    /// No hook thread.
    pub fn new() -> (r: Self)
        ensures
            r == HookThread::none(),
    {
        HookThread { running: false, thread_id: 0, stopping: false }
    }

    /// What a signal makes of the state.
    pub open spec fn after(self, signal: HookSignal) -> HookThread {
        match signal {
            HookSignal::Active(true) => if self.running {
                self
            } else {
                HookThread { running: true, stopping: false, ..self }
            },
            // A thread that is starting or installed is to end.
            HookSignal::Active(false) => HookThread { stopping: self.running, ..self },
            HookSignal::SpawnFailed => HookThread { running: false, stopping: false, ..self },
            // A thread that was spawned since the joined one ended stays.
            HookSignal::Joined => if self.stopping {
                HookThread::none()
            } else {
                self
            },
            HookSignal::ThreadStarted(id) => if self.stopping {
                HookThread::none()
            } else {
                HookThread { thread_id: id, ..self }
            },
            HookSignal::Installed | HookSignal::Message(_) => self,
            HookSignal::InstallFailed | HookSignal::Unhooked => HookThread::none(),
        }
    }

    /// What is to be done on a signal.
    pub open spec fn action(self, signal: HookSignal) -> HookAction {
        match signal {
            HookSignal::Active(true) => if self.running {
                HookAction::Wait
            } else {
                HookAction::Spawn
            },
            HookSignal::Active(false) => HookAction::QuitAndJoin(
                if self.thread_id != 0 {
                    Some(self.thread_id)
                } else {
                    None
                },
            ),
            HookSignal::SpawnFailed | HookSignal::Joined => HookAction::Wait,
            HookSignal::ThreadStarted(_) => if self.stopping {
                HookAction::Exit
            } else {
                HookAction::Install
            },
            HookSignal::Installed => if self.stopping {
                HookAction::Unhook
            } else {
                HookAction::GetMessage
            },
            // 0 is `WM_QUIT`, a negative value is an error.
            HookSignal::Message(ret) => if ret > 0 && !self.stopping {
                HookAction::GetMessage
            } else {
                HookAction::Unhook
            },
            HookSignal::InstallFailed | HookSignal::Unhooked => HookAction::Exit,
        }
    }

    /// Take a signal in and say what is to be done next.
    pub fn step(&mut self, signal: HookSignal) -> (r: HookAction)
        ensures
            *final(self) == old(self).after(signal),
            r == old(self).action(signal),
    {
        match signal {
            HookSignal::Active(active) => {
                if active {
                    if self.running {
                        // Already running or starting.
                        return HookAction::Wait;
                    }
                    self.running = true;
                    self.stopping = false;
                    HookAction::Spawn
                } else {
                    self.stopping = self.running;
                    if self.thread_id != 0 {
                        HookAction::QuitAndJoin(Some(self.thread_id))
                    } else {
                        HookAction::QuitAndJoin(None)
                    }
                }
            },
            HookSignal::SpawnFailed => {
                self.running = false;
                self.stopping = false;
                HookAction::Wait
            },
            HookSignal::Joined => {
                if self.stopping {
                    *self = HookThread::new();
                }
                HookAction::Wait
            },
            HookSignal::ThreadStarted(id) => {
                if self.stopping {
                    // The stop came before the thread ran: there is nobody
                    // left to post `WM_QUIT`.
                    *self = HookThread::new();
                    HookAction::Exit
                } else {
                    self.thread_id = id;
                    HookAction::Install
                }
            },
            HookSignal::Installed => {
                if self.stopping {
                    HookAction::Unhook
                } else {
                    HookAction::GetMessage
                }
            },
            HookSignal::Message(ret) => {
                if ret > 0 && !self.stopping {
                    HookAction::GetMessage
                } else {
                    HookAction::Unhook
                }
            },
            HookSignal::InstallFailed => {
                *self = HookThread::new();
                HookAction::Exit
            },
            HookSignal::Unhooked => {
                *self = HookThread::new();
                HookAction::Exit
            },
        }
    }
}

} // verus!
