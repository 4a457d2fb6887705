use vstd::prelude::*;
use vstd::string::StringExecFns;

verus! {

/// Which fullscreen mode a window asks for, optionally pinned to a monitor
/// index.
#[derive(Copy, Clone, Debug, PartialEq, Eq, Structural)]
pub enum FullscreenType {
    /// Borderless fullscreen over a monitor.
    Windowed(Option<usize>),
    /// Exclusive fullscreen, taking over a monitor's display mode.
    Exclusive(Option<usize>),
}

/// A window icon as raw RGBA pixels, four bytes per pixel, row by row.
pub struct WindowIcon {
    pub rgba: Vec<u8>,
    pub width: u32,
    pub height: u32,
}

/// The attributes a window is built with.
pub struct WindowConfig {
    pub size: (u32, u32),
    pub resizable: bool,
    pub fullscreen: Option<FullscreenType>,
    pub title: String,
    pub maximized: bool,
    pub visible: bool,
    pub transparent: bool,
    pub decorated: bool,
    pub floating: bool,
    pub icon: Option<WindowIcon>,
}

impl Default for WindowConfig {
    /// An 800x800 resizable, decorated, visible window titled "Window":
    /// not fullscreen, not maximized, not transparent, not floating, no icon.
    fn default() -> (r: WindowConfig)
        ensures
            r.size == (800u32, 800u32),
            r.resizable,
            r.fullscreen is None,
            r.title@ == "Window"@,
            !r.maximized,
            r.visible,
            !r.transparent,
            r.decorated,
            !r.floating,
            r.icon is None,
    {
        WindowConfig {
            size: (800, 800),
            resizable: true,
            fullscreen: None,
            title: String::from_str("Window"),
            maximized: false,
            visible: true,
            transparent: false,
            decorated: true,
            floating: false,
            icon: None,
        }
    }
}

} // verus!
