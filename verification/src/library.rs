//! One plugin handle: the record of which ABI callbacks its shared object
//! resolved, its priority, its artifact path, and the dispatch decision
//! that maps one event to at most one callback.

use vstd::prelude::*;
use crate::event::{Event, KeyDown};

verus! {

/// Opening a shared object failed; the loader's diagnostic is kept.
#[derive(Clone, Debug, PartialEq, Eq)]
pub enum LibraryError {
    /// The OS loader refused the artifact, with its message.
    BadDyLib(String),
}

impl LibraryError {
    /// The diagnostic the OS loader gave.
    pub fn description(&self) -> (r: String)
        ensures
            r@ == (match *self {
                LibraryError::BadDyLib(m) => m@,
            }),
    {
        match self {
            LibraryError::BadDyLib(m) => m.clone(),
        }
    }
}

/// The ABI callbacks a plugin may export, every one optional.
#[derive(Clone, Copy, Debug, PartialEq, Eq, Structural)]
pub enum Callback {
    Install,
    Uninstall,
    Start,
    End,
    Idle,
    Process,
    Command,
    KeyUnicodeDown,
    KeyStringDown,
    KeyRepeatDown,
    KeyIntervalDown,
    MouseDown,
    MouseUp,
    Input,
    Output,
    Signal,
    Resized,
}

/// Which of the ABI symbols a shared object resolved.
#[derive(Clone, Copy, Debug, PartialEq, Eq, Structural)]
pub struct Callbacks {
    pub install: bool,
    pub uninstall: bool,
    pub start: bool,
    pub end: bool,
    pub idle: bool,
    pub process: bool,
    pub command: bool,
    pub key_unicode_down: bool,
    pub key_string_down: bool,
    pub key_repeat_down: bool,
    pub key_interval_down: bool,
    pub mouse_down: bool,
    pub mouse_up: bool,
    pub input: bool,
    pub output: bool,
    pub signal: bool,
    pub resized: bool,
}

impl Callbacks {
    /// No symbol resolved.
    pub fn none() -> (r: Callbacks)
        ensures
            forall|c: Callback| !r.spec_has(c),
    {
        Callbacks {
            install: false,
            uninstall: false,
            start: false,
            end: false,
            idle: false,
            process: false,
            command: false,
            key_unicode_down: false,
            key_string_down: false,
            key_repeat_down: false,
            key_interval_down: false,
            mouse_down: false,
            mouse_up: false,
            input: false,
            output: false,
            signal: false,
            resized: false,
        }
    }

    /// Whether the symbol of `c` resolved.
    pub open spec fn spec_has(&self, c: Callback) -> bool {
        match c {
            Callback::Install => self.install,
            Callback::Uninstall => self.uninstall,
            Callback::Start => self.start,
            Callback::End => self.end,
            Callback::Idle => self.idle,
            Callback::Process => self.process,
            Callback::Command => self.command,
            Callback::KeyUnicodeDown => self.key_unicode_down,
            Callback::KeyStringDown => self.key_string_down,
            Callback::KeyRepeatDown => self.key_repeat_down,
            Callback::KeyIntervalDown => self.key_interval_down,
            Callback::MouseDown => self.mouse_down,
            Callback::MouseUp => self.mouse_up,
            Callback::Input => self.input,
            Callback::Output => self.output,
            Callback::Signal => self.signal,
            Callback::Resized => self.resized,
        }
    }

    /// Whether the symbol of `c` resolved.
    pub fn has(&self, c: Callback) -> (r: bool)
        ensures
            r == self.spec_has(c),
    {
        match c {
            Callback::Install => self.install,
            Callback::Uninstall => self.uninstall,
            Callback::Start => self.start,
            Callback::End => self.end,
            Callback::Idle => self.idle,
            Callback::Process => self.process,
            Callback::Command => self.command,
            Callback::KeyUnicodeDown => self.key_unicode_down,
            Callback::KeyStringDown => self.key_string_down,
            Callback::KeyRepeatDown => self.key_repeat_down,
            Callback::KeyIntervalDown => self.key_interval_down,
            Callback::MouseDown => self.mouse_down,
            Callback::MouseUp => self.mouse_up,
            Callback::Input => self.input,
            Callback::Output => self.output,
            Callback::Signal => self.signal,
            Callback::Resized => self.resized,
        }
    }
}

/// The callback an event selects, by the fixed precedence: signal, then
/// the four key payloads, then mouse, then raw input, then raw output,
/// then a task change; an event carrying none of them is an idle tick.
pub open spec fn event_callback(e: Event) -> Callback {
    if e.signal is Some {
        Callback::Signal
    } else if e.keydown is Some {
        match e.keydown->Some_0 {
            KeyDown::Char(_) => Callback::KeyUnicodeDown,
            KeyDown::Str(_) => Callback::KeyStringDown,
        }
    } else if e.keyrepeat is Some {
        Callback::KeyRepeatDown
    } else if e.keyinterval is Some {
        Callback::KeyIntervalDown
    } else if e.mouse is Some {
        if e.mouse->Some_0.1 {
            Callback::MouseDown
        } else {
            Callback::MouseUp
        }
    } else if e.input is Some {
        Callback::Input
    } else if e.output is Some {
        Callback::Output
    } else if e.task is Some {
        Callback::Process
    } else {
        Callback::Idle
    }
}

/// What one handle dispatches for one event: the selected callback when
/// its symbol resolved, else nothing.
pub open spec fn dispatch_of(cbs: Callbacks, e: Event) -> Option<Callback> {
    if cbs.spec_has(event_callback(e)) {
        Some(event_callback(e))
    } else {
        None
    }
}

/// One loaded plugin. The `handle` is the host's token for the loaded
/// shared object; the host releases it when the handle is dropped.
#[derive(Clone, Debug)]
pub struct Library {
    /// The host's token for the loaded shared object.
    pub handle: u64,
    /// Which ABI symbols resolved.
    pub callbacks: Callbacks,
    /// The priority: the sole sort key of the registry.
    pub index: i64,
    /// The path of the compiled artifact this handle was loaded from.
    pub path: String,
    /// Set when a dispatch pass observed this plugin's unmount request.
    pub unmounted: bool,
}

impl Library {
    /// The name this handle answers to: the file stem of its artifact.
    pub open spec fn spec_stem(&self) -> Seq<char> {
        crate::identifier::stem_of(self.path@)
    }

    /// A fresh handle for a loaded shared object.
    pub fn new(path: String, index: i64, callbacks: Callbacks, handle: u64) -> (r: Library)
        ensures
            r.path == path,
            r.index == index,
            r.callbacks == callbacks,
            r.handle == handle,
            !r.unmounted,
    {
        Library { handle, callbacks, index, path, unmounted: false }
    }

    /// The artifact path.
    pub fn as_path_buf(&self) -> (r: &String)
        ensures
            r == &self.path,
    {
        &self.path
    }

    /// The priority.
    pub fn get_priority(&self) -> (r: i64)
        ensures
            r == self.index,
    {
        self.index
    }

    /// Whether a dispatch pass observed this plugin's unmount request.
    pub fn is_unmounted(&self) -> (r: bool)
        ensures
            r == self.unmounted,
    {
        self.unmounted
    }

    /// The callback this handle would run for `event`: at most one, per
    /// the fixed precedence, and only if its symbol resolved.
    pub fn call(&self, event: &Event) -> (r: Option<Callback>)
        ensures
            r == dispatch_of(self.callbacks, *event),
    {
        let selected: Callback = if event.signal.is_some() {
            Callback::Signal
        } else if event.keydown.is_some() {
            match event.keydown.as_ref().unwrap() {
                KeyDown::Char(_) => Callback::KeyUnicodeDown,
                KeyDown::Str(_) => Callback::KeyStringDown,
            }
        } else if event.keyrepeat.is_some() {
            Callback::KeyRepeatDown
        } else if event.keyinterval.is_some() {
            Callback::KeyIntervalDown
        } else if event.mouse.is_some() {
            if event.mouse.as_ref().unwrap().1 {
                Callback::MouseDown
            } else {
                Callback::MouseUp
            }
        } else if event.input.is_some() {
            Callback::Input
        } else if event.output.is_some() {
            Callback::Output
        } else if event.task.is_some() {
            Callback::Process
        } else {
            Callback::Idle
        };
        if self.callbacks.has(selected) {
            Some(selected)
        } else {
            None
        }
    }
}

impl PartialEq for Library {
    /// Two handles compare solely by priority.
    fn eq(&self, other: &Library) -> (r: bool) {
        self.index == other.index
    }
}

impl vstd::std_specs::cmp::PartialEqSpecImpl for Library {
    open spec fn obeys_eq_spec() -> bool {
        true
    }

    open spec fn eq_spec(&self, other: &Library) -> bool {
        self.index == other.index
    }
}

impl PartialOrd for Library {
    /// Two handles order solely by priority.
    fn partial_cmp(&self, other: &Library) -> (r: Option<core::cmp::Ordering>) {
        if self.index < other.index {
            Some(core::cmp::Ordering::Less)
        } else if self.index == other.index {
            Some(core::cmp::Ordering::Equal)
        } else {
            Some(core::cmp::Ordering::Greater)
        }
    }
}

impl vstd::std_specs::cmp::PartialOrdSpecImpl for Library {
    open spec fn obeys_partial_cmp_spec() -> bool {
        true
    }

    open spec fn partial_cmp_spec(&self, other: &Library) -> Option<core::cmp::Ordering> {
        if self.index < other.index {
            Some(core::cmp::Ordering::Less)
        } else if self.index == other.index {
            Some(core::cmp::Ordering::Equal)
        } else {
            Some(core::cmp::Ordering::Greater)
        }
    }
}

} // verus!
