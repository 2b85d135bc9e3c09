//! Watching which window is in the foreground.
use vstd::prelude::*;

verus! {

/// A top-level window, by its handle.
#[derive(Clone, Copy, Debug, PartialEq, Eq, Structural)]
pub struct Window {
    pub hwnd: isize,
}

impl Window {
    pub fn new(hwnd: isize) -> (r: Window)
        ensures
            r.hwnd == hwnd,
    {
        Window { hwnd }
    }

    /// The window of a foreground handle; the null handle means no window
    /// is in the foreground.
    pub fn from_foreground_handle(hwnd: isize) -> (r: Option<Window>)
        ensures
            r == (if hwnd == 0 { None } else { Some(Window { hwnd }) }),
    {
        if hwnd == 0 {
            None
        } else {
            Some(Window::new(hwnd))
        }
    }
}

/// Remembers the foreground window to report switches.
#[derive(Clone, Copy, Debug, PartialEq, Eq, Structural)]
pub struct ForegroundWatcher {
    pub window: Window,
}

impl ForegroundWatcher {
    pub fn new(foreground: Window) -> (r: ForegroundWatcher)
        ensures
            r.window == foreground,
    {
        ForegroundWatcher { window: foreground }
    }

    /// Given the current foreground window, the window to report a switch
    /// to: a foreground window other than the remembered one. The watcher
    /// keeps remembering its window until [`ForegroundWatcher::switched`]
    /// records that the switch was reported.
    pub fn trigger(&self, foreground: Option<Window>) -> (r: Option<Window>)
        ensures
            r == switch_target(self.window, foreground),
    {
        match foreground {
            Some(f) => {
                if f != self.window {
                    Some(f)
                } else {
                    None
                }
            },
            None => None,
        }
    }

    /// The switch to `window` was reported: it is remembered from now on.
    pub fn switched(&mut self, window: Window)
        ensures
            final(self).window == window,
    {
        self.window = window;
    }
}

/// The window to report a switch to, if any: a foreground window other than
/// the remembered one.
pub open spec fn switch_target(remembered: Window, foreground: Option<Window>) -> Option<Window> {
    match foreground {
        Some(f) => if f != remembered {
            Some(f)
        } else {
            None
        },
        None => None,
    }
}

} // verus!
