//! The system panel: its float, the quick actions, which apps it may close,
//! and keeping the machine awake. The operating-system calls stay outside;
//! here are the rules around them, and what this library does on a platform
//! that offers none of them.

use vstd::prelude::*;

use crate::snapshot::{can_control_stem, controllable_stem, identify, identity};
use crate::text::{chars_of, concat, same_chars, string_of};

verus! {

/// The message of a system call this platform does not offer yet.
pub open spec fn unsupported_here() -> Seq<char> {
    "no soportado en esta plataforma todavía"@
}

/// The shorter message some calls give for the same.
pub open spec fn unsupported() -> Seq<char> {
    "no soportado"@
}

/// Whether the system float is open and whether it stays on top.
pub struct SystemPanel {
    pub open: bool,
    pub always_on_top: bool,
}

impl SystemPanel {
    /// Closed, not on top.
    pub fn new() -> (r: SystemPanel)
        ensures
            !r.open && !r.always_on_top,
    {
        SystemPanel { open: false, always_on_top: false }
    }

    /// Is the float open?
    pub fn float_open(&self) -> (r: bool)
        ensures
            r == self.open,
    {
        self.open
    }

    /// Does the float stay on top?
    pub fn float_always_on_top(&self) -> (r: bool)
        ensures
            r == self.always_on_top,
    {
        self.always_on_top
    }

    /// Sets, at start-up, whether the float stays on top.
    pub fn init_always_on_top(&mut self, on: bool)
        ensures
            final(self).always_on_top == on,
            final(self).open == old(self).open,
    {
        self.always_on_top = on;
    }
}

/// A quick action of the panel.
#[derive(Debug, Clone, Copy, PartialEq, Eq, Structural)]
pub enum SystemAction {
    Lock,
    Sleep,
    Mute,
    Trash,
}

/// The quick action an id names, if any.
pub open spec fn system_action_named(id: Seq<char>) -> Option<SystemAction> {
    if id == "lock"@ {
        Some(SystemAction::Lock)
    } else if id == "sleep"@ {
        Some(SystemAction::Sleep)
    } else if id == "mute"@ {
        Some(SystemAction::Mute)
    } else if id == "trash"@ {
        Some(SystemAction::Trash)
    } else {
        None
    }
}

/// The quick action an id names, or the message for an unknown one.
pub fn system_action_route(id: &str) -> (r: Result<SystemAction, String>)
    ensures
        match system_action_named(id@) {
            Some(a) => r == Ok::<SystemAction, String>(a),
            None => r matches Err(m) && m@ == "acción desconocida: "@ + id@,
        },
{
    let c = chars_of(id);
    if same_chars(&c, &chars_of("lock")) {
        Ok(SystemAction::Lock)
    } else if same_chars(&c, &chars_of("sleep")) {
        Ok(SystemAction::Sleep)
    } else if same_chars(&c, &chars_of("mute")) {
        Ok(SystemAction::Mute)
    } else if same_chars(&c, &chars_of("trash")) {
        Ok(SystemAction::Trash)
    } else {
        let m = concat(&chars_of("acción desconocida: "), &c);
        Err(string_of(&m))
    }
}

/// Locking the session, where this platform offers no way to.
pub fn lock_screen() -> (r: Result<(), String>)
    ensures
        r matches Err(m) && m@ == unsupported_here(),
{
    Err(String::from_str("no soportado en esta plataforma todavía"))
}

/// Suspending the machine, where this platform offers no way to.
pub fn sleep() -> (r: Result<(), String>)
    ensures
        r matches Err(m) && m@ == unsupported_here(),
{
    Err(String::from_str("no soportado en esta plataforma todavía"))
}

/// Toggling the mute, where this platform offers no way to.
pub fn toggle_mute() -> (r: Result<(), String>)
    ensures
        r matches Err(m) && m@ == unsupported_here(),
{
    Err(String::from_str("no soportado en esta plataforma todavía"))
}

/// Emptying the trash, where this platform offers no way to.
pub fn empty_trash() -> (r: Result<(), String>)
    ensures
        r matches Err(m) && m@ == unsupported_here(),
{
    Err(String::from_str("no soportado en esta plataforma todavía"))
}

/// Muting the output, where this platform offers no way to.
pub fn set_muted(muted: bool) -> (r: Result<(), String>)
    ensures
        r matches Err(m) && m@ == unsupported(),
{
    Err(String::from_str("no soportado"))
}

/// The outcome of a locking, suspending or trash call by its status: a
/// failure gives the message of that action.
pub fn call_outcome(ok: bool, failure: &str) -> (r: Result<(), String>)
    ensures
        ok ==> r is Ok,
        !ok ==> (r matches Err(m) && m@ == failure@),
{
    if ok {
        Ok(())
    } else {
        Err(String::from_str(failure))
    }
}

// ---------------------------------------------------------------------------
// Closing, forcing and focusing apps
// ---------------------------------------------------------------------------

/// May the panel close this app? The message when not.
pub fn close_gate(id: &str) -> (r: Result<(), String>)
    ensures
        controllable_stem(id@) ==> r is Ok,
        !controllable_stem(id@) ==> (r matches Err(m) && m@ == "esa app no se puede cerrar desde acá"@),
{
    if can_control_stem(id) {
        Ok(())
    } else {
        Err(String::from_str("esa app no se puede cerrar desde acá"))
    }
}

/// May the panel force this app? The message when not.
pub fn force_gate(id: &str) -> (r: Result<(), String>)
    ensures
        controllable_stem(id@) ==> r is Ok,
        !controllable_stem(id@) ==> (r matches Err(m) && m@ == "esa app no se puede forzar desde acá"@),
{
    if can_control_stem(id) {
        Ok(())
    } else {
        Err(String::from_str("esa app no se puede forzar desde acá"))
    }
}

/// Closes an app: refused for the apps the panel may not touch; where this
/// platform offers no way to close, no window is asked to.
pub fn close(id: &str) -> (r: Result<u32, String>)
    ensures
        controllable_stem(id@) ==> r == Ok::<u32, String>(0),
        !controllable_stem(id@) ==> (r matches Err(m) && m@ == "esa app no se puede cerrar desde acá"@),
{
    match close_gate(id) {
        Ok(()) => Ok(0),
        Err(m) => Err(m),
    }
}

/// Forces an app to quit: refused for the apps the panel may not touch, and
/// where this platform offers no way to.
pub fn force(id: &str) -> (r: Result<(), String>)
    ensures
        controllable_stem(id@) ==> (r matches Err(m) && m@ == unsupported()),
        !controllable_stem(id@) ==> (r matches Err(m) && m@ == "esa app no se puede forzar desde acá"@),
{
    match force_gate(id) {
        Ok(()) => Err(String::from_str("no soportado")),
        Err(m) => Err(m),
    }
}

/// Brings an app to the front, where this platform offers no way to.
pub fn focus(id: &str) -> (r: Result<(), String>)
    ensures
        r matches Err(m) && m@ == unsupported(),
{
    Err(String::from_str("no soportado"))
}

/// The outcome of forcing by process: gone when no process had that name;
/// failed when none could be ended.
pub fn force_outcome(processes_found: bool, killed: usize) -> (r: Result<(), String>)
    ensures
        !processes_found ==> (r matches Err(m) && m@ == "esa app ya no está abierta"@),
        processes_found && killed == 0 ==> (r matches Err(m) && m@ == "no se pudo forzar el cierre"@),
        processes_found && killed > 0 ==> r is Ok,
{
    if !processes_found {
        return Err(String::from_str("esa app ya no está abierta"));
    }
    if killed == 0 {
        return Err(String::from_str("no se pudo forzar el cierre"));
    }
    Ok(())
}

/// The outcome of focusing by process: gone when no process had that name;
/// nothing to bring when none of them has a visible window.
pub fn focus_outcome(processes_found: bool, window_found: bool) -> (r: Result<(), String>)
    ensures
        !processes_found ==> (r matches Err(m) && m@ == "esa app ya no está abierta"@),
        processes_found && !window_found ==> (r matches Err(m) && m@ == "esa app no tiene ventanas"@),
        processes_found && window_found ==> r is Ok,
{
    if !processes_found {
        return Err(String::from_str("esa app ya no está abierta"));
    }
    if !window_found {
        return Err(String::from_str("esa app no tiene ventanas"));
    }
    Ok(())
}

/// The grouping key of a live process, from the path the system gives for
/// it now (none when it gave none).
pub fn key_of_pid(path: Option<&str>) -> (r: Option<String>)
    ensures
        match path {
            Some(p) => r matches Some(k) && k@ == identity(p@).0,
            None => r is None,
        },
{
    match path {
        Some(p) => Some(identify(p).key),
        None => None,
    }
}

// ---------------------------------------------------------------------------
// Keeping the machine awake
// ---------------------------------------------------------------------------

/// Whether the machine is held awake (for this session only).
pub struct Awake {
    pub on: bool,
}

impl Awake {
    /// Not held.
    pub fn new() -> (r: Awake)
        ensures
            !r.on,
    {
        Awake { on: false }
    }

    /// Is the machine held awake?
    pub fn is_on(&self) -> (r: bool)
        ensures
            r == self.on,
    {
        self.on
    }

    /// Does asking for `on` need a call to the system? Not when it is already
    /// so.
    pub fn needs_change(&self, on: bool) -> (r: bool)
        ensures
            r == (self.on != on),
    {
        self.on != on
    }

    /// Takes the system's answer to a change: the state follows it only when
    /// the call succeeded.
    pub fn apply(&mut self, on: bool, outcome: Result<(), String>) -> (r: Result<(), String>)
        ensures
            r == outcome,
            final(self).on == (if outcome is Ok {
                on
            } else {
                old(self).on
            }),
    {
        if outcome.is_ok() {
            self.on = on;
        }
        outcome
    }

    /// Holds the machine awake or lets it sleep, where this platform offers
    /// no way to: asking for the current state succeeds, any change fails.
    pub fn set(&mut self, on: bool) -> (r: Result<(), String>)
        ensures
            old(self).on == on ==> r is Ok && final(self).on == on,
            old(self).on != on ==> (r matches Err(m) && m@ == unsupported_here()) && final(self).on
                == old(self).on,
    {
        if !self.needs_change(on) {
            return Ok(());
        }
        self.apply(on, Err(String::from_str("no soportado en esta plataforma todavía")))
    }

    /// When the application closes: the hold is let go whatever the system
    /// answers.
    pub fn release(&mut self)
        ensures
            !final(self).on,
    {
        self.on = false;
    }
}

/// When the application closes: let the machine sleep again.
pub fn shutdown(awake: &mut Awake)
    ensures
        !final(awake).on,
{
    awake.release();
}

} // verus!
