use vstd::prelude::*;

verus! {

/// A presentation sink as the backend reports it.
#[derive(Clone, Debug)]
pub struct OutputInfo {
    pub name: String,
    /// Physical size, in millimetres.
    pub physical_width: u32,
    pub physical_height: u32,
    /// Logical geometry, in compositor coordinates.
    pub x: i32,
    pub y: i32,
    pub width: i32,
    pub height: i32,
    /// Refresh rate, in millihertz.
    pub refresh: u32,
    pub scale: u32,
}

/// Which presentation path drives the outputs.
#[derive(Clone, Copy, Debug, PartialEq, Eq, Structural)]
pub enum BackendKind {
    /// One window inside a running host session.
    Nested,
    /// A real display device driven through kernel mode-setting.
    HardwareDirect,
}

/// The capabilities that every presentation backend exposes.
pub trait Backend {
    /// Identity string used to scope input devices.
    fn seat_name(&self) -> String;

    /// The outputs, in order; may be empty before the first device is ready.
    fn get_monitor_layout(&self) -> Vec<OutputInfo>;
}

/// The backend that a given host-session indicator selects.
pub open spec fn selected_backend(host_session_present: bool) -> BackendKind {
    if host_session_present {
        BackendKind::Nested
    } else {
        BackendKind::HardwareDirect
    }
}

/// Picks the backend once at startup: nested inside a host session when one is
/// present, hardware-direct otherwise.
pub fn select_backend(host_session_present: bool) -> (r: BackendKind)
    ensures
        r == selected_backend(host_session_present),
{
    if host_session_present {
        BackendKind::Nested
    } else {
        BackendKind::HardwareDirect
    }
}

/// Selection is a function of the indicator alone: with a host session the
/// hardware-direct backend is never chosen, and without one the nested backend
/// is never chosen.
pub proof fn lemma_selection_is_exclusive(host_session_present: bool)
    ensures
        host_session_present ==> selected_backend(host_session_present) != BackendKind::HardwareDirect,
        !host_session_present ==> selected_backend(host_session_present) != BackendKind::Nested,
{
}

} // verus!
