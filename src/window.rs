use vstd::prelude::*;

use crate::config::{FullscreenType, WindowConfig, WindowIcon};

verus! {

/// The fullscreen mode a window is built with, by monitor index.
#[derive(Copy, Clone, Debug, PartialEq, Eq, Structural)]
pub enum FullscreenRequest {
    /// Borderless fullscreen on the given monitor, or on the system's
    /// default monitor when `None`.
    Borderless(Option<usize>),
    /// Exclusive fullscreen on `monitor`, in its video mode number `mode`.
    Exclusive { monitor: usize, mode: usize },
}

/// Why a window could not be set up.
#[derive(Copy, Clone, Debug, PartialEq, Eq, Structural)]
pub enum SetupError {
    /// Exclusive fullscreen was asked for but no monitor is attached.
    NoMonitor,
    /// The monitor chosen for exclusive fullscreen reports no video mode.
    NoVideoMode,
}

/// The fullscreen request for `req`, given the number of video modes that
/// each enumerated monitor reports (`modes.len()` monitors). A missing index
/// means monitor 0. Windowed: the monitor when the index is valid, else the
/// system default. Exclusive: the first video mode of the monitor when the
/// index is valid, else of monitor 0.
pub open spec fn resolved_fullscreen(req: Option<FullscreenType>, modes: Seq<usize>) -> Result<Option<FullscreenRequest>, SetupError> {
    match req {
        None => Ok(None),
        Some(FullscreenType::Windowed(i)) => {
            let m = match i { Some(k) => k, None => 0 };
            if m < modes.len() {
                Ok(Some(FullscreenRequest::Borderless(Some(m))))
            } else {
                Ok(Some(FullscreenRequest::Borderless(None)))
            }
        },
        Some(FullscreenType::Exclusive(i)) => {
            let m = match i { Some(k) => k, None => 0 };
            let chosen: usize = if m < modes.len() { m } else { 0 };
            if modes.len() == 0 {
                Err(SetupError::NoMonitor)
            } else if modes[chosen as int] == 0 {
                Err(SetupError::NoVideoMode)
            } else {
                Ok(Some(FullscreenRequest::Exclusive { monitor: chosen, mode: 0 }))
            }
        },
    }
}

/// Resolves a fullscreen request against the enumerated monitors;
/// `video_modes[i]` is the number of video modes monitor `i` reports.
pub fn resolve_fullscreen(req: Option<FullscreenType>, video_modes: &Vec<usize>) -> (r: Result<Option<FullscreenRequest>, SetupError>)
    ensures
        r == resolved_fullscreen(req, video_modes@),
        req matches Some(FullscreenType::Windowed(Some(i))) && i >= video_modes@.len()
            ==> r == Ok::<Option<FullscreenRequest>, SetupError>(Some(FullscreenRequest::Borderless(None))),
        req matches Some(FullscreenType::Exclusive(Some(i))) && i >= video_modes@.len()
            && video_modes@.len() > 0 && video_modes@[0] > 0
            ==> r == Ok::<Option<FullscreenRequest>, SetupError>(Some(FullscreenRequest::Exclusive { monitor: 0, mode: 0 })),
{
    match req {
        None => Ok(None),
        Some(FullscreenType::Windowed(i)) => {
            let m: usize = match i { Some(k) => k, None => 0 };
            if m < video_modes.len() {
                Ok(Some(FullscreenRequest::Borderless(Some(m))))
            } else {
                Ok(Some(FullscreenRequest::Borderless(None)))
            }
        },
        Some(FullscreenType::Exclusive(i)) => {
            let m: usize = match i { Some(k) => k, None => 0 };
            let chosen: usize = if m < video_modes.len() { m } else { 0 };
            if video_modes.len() == 0 {
                Err(SetupError::NoMonitor)
            } else if video_modes[chosen] == 0 {
                Err(SetupError::NoVideoMode)
            } else {
                Ok(Some(FullscreenRequest::Exclusive { monitor: chosen, mode: 0 }))
            }
        },
    }
}

/// Every attribute a window is built with, fullscreen resolved to monitor
/// and video-mode indices.
pub struct WindowPlan {
    pub width: u32,
    pub height: u32,
    pub resizable: bool,
    pub fullscreen: Option<FullscreenRequest>,
    pub title: String,
    pub maximized: bool,
    pub visible: bool,
    pub transparent: bool,
    pub decorated: bool,
    pub floating: bool,
    pub icon: Option<WindowIcon>,
}

impl WindowPlan {
    /// The plan for `cfg` on a host whose monitors report `video_modes`
    /// video modes each: every attribute as configured, fullscreen resolved.
    /// Fails exactly when the fullscreen request cannot be resolved.
    pub fn new(cfg: WindowConfig, video_modes: &Vec<usize>) -> (r: Result<WindowPlan, SetupError>)
        ensures
            r is Err <==> resolved_fullscreen(cfg.fullscreen, video_modes@) is Err,
            r is Err ==> resolved_fullscreen(cfg.fullscreen, video_modes@) == Err::<Option<FullscreenRequest>, SetupError>(r->Err_0),
            r is Ok ==> ({
                let p = r->Ok_0;
                &&& p.width == cfg.size.0
                &&& p.height == cfg.size.1
                &&& p.title@ == cfg.title@
                &&& p.decorated == cfg.decorated
                &&& p.resizable == cfg.resizable
                &&& p.maximized == cfg.maximized
                &&& p.visible == cfg.visible
                &&& p.transparent == cfg.transparent
                &&& p.floating == cfg.floating
                &&& p.icon == cfg.icon
                &&& resolved_fullscreen(cfg.fullscreen, video_modes@) == Ok::<Option<FullscreenRequest>, SetupError>(p.fullscreen)
            }),
    {
        let fullscreen = match resolve_fullscreen(cfg.fullscreen, video_modes) {
            Ok(f) => f,
            Err(e) => return Err(e),
        };
        Ok(WindowPlan {
            width: cfg.size.0,
            height: cfg.size.1,
            resizable: cfg.resizable,
            fullscreen,
            title: cfg.title,
            maximized: cfg.maximized,
            visible: cfg.visible,
            transparent: cfg.transparent,
            decorated: cfg.decorated,
            floating: cfg.floating,
            icon: cfg.icon,
        })
    }
}

/// A drawable: whatever the loop calls once per iteration. Nothing throttles
/// the loop, so `draw` may be called at the highest rate the host sustains.
pub trait App {
    /// How many times this drawable has drawn (a counter that may stop or
    /// wrap once it reaches `u64::MAX`).
    spec fn drawn(&self) -> u64;

    fn draw(&mut self)
        ensures
            old(self).drawn() < u64::MAX ==> final(self).drawn() == old(self).drawn() + 1,
    ;
}

/// A window event, as far as dispatch tells events apart.
#[derive(Copy, Clone, Debug, PartialEq, Eq, Structural)]
pub enum LoopEvent {
    /// The user asked to close the window.
    CloseRequested,
    /// All events of this loop iteration have been handled.
    IterationCleared,
    /// Any other event; it is ignored.
    Other,
}

/// What the event loop does after an event: keep polling, or stop.
#[derive(Copy, Clone, Debug, PartialEq, Eq, Structural)]
pub enum LoopControl {
    Poll,
    Exit,
}

/// How many iteration-cleared markers `events` holds.
pub open spec fn cleared_count(events: Seq<LoopEvent>) -> nat
    decreases events.len(),
{
    if events.len() == 0 {
        0
    } else {
        cleared_count(events.drop_last()) + if events.last() == LoopEvent::IterationCleared {
            1nat
        } else {
            0nat
        }
    }
}

/// The window with the drawable that its loop drives. `W` is the window
/// handle; the context owns it and lends it out only by reference.
pub struct AppContext<W, T> {
    window: W,
    app: T,
}

impl<W, T: App> AppContext<W, T> {
    pub closed spec fn window_spec(&self) -> W {
        self.window
    }

    /// The drawable this context calls.
    pub closed spec fn app_spec(&self) -> T {
        self.app
    }

    /// Binds a built window to the drawable; nothing is drawn yet.
    pub fn new(window: W, app_: T) -> (r: Self)
        ensures
            r.window_spec() == window,
            r.app_spec() == app_,
    {
        AppContext { window, app: app_ }
    }

    /// Handles one event: a close request sets `control_flow` to `Exit`
    /// without drawing; the iteration-cleared marker draws exactly once and
    /// leaves `control_flow` as it was; any other event does nothing.
    pub fn on_event(&mut self, event: &LoopEvent, control_flow: &mut LoopControl)
        ensures
            *event == LoopEvent::CloseRequested ==> *final(control_flow) == LoopControl::Exit,
            *event != LoopEvent::CloseRequested ==> *final(control_flow) == *old(control_flow),
            *event == LoopEvent::IterationCleared && old(self).app_spec().drawn() < u64::MAX
                ==> final(self).app_spec().drawn() == old(self).app_spec().drawn() + 1,
            *event != LoopEvent::IterationCleared ==> final(self).app_spec() == old(self).app_spec(),
            final(self).window_spec() == old(self).window_spec(),
    {
        match event {
            LoopEvent::CloseRequested => {
                *control_flow = LoopControl::Exit;
            },
            LoopEvent::IterationCleared => {
                self.app.draw();
            },
            LoopEvent::Other => {},
        }
    }

    /// Runs one loop iteration over its pending `events`, starting in poll
    /// mode: the drawable draws once per iteration-cleared marker and is left
    /// untouched when there is none, and the loop is told to stop exactly
    /// when a close request is among the events.
    pub fn run_iteration(&mut self, events: &Vec<LoopEvent>) -> (r: LoopControl)
        ensures
            old(self).app_spec().drawn() + cleared_count(events@) <= u64::MAX
                ==> final(self).app_spec().drawn() == old(self).app_spec().drawn() + cleared_count(events@),
            cleared_count(events@) == 0 ==> final(self).app_spec() == old(self).app_spec(),
            r == LoopControl::Exit <==> events@.contains(LoopEvent::CloseRequested),
            final(self).window_spec() == old(self).window_spec(),
    {
        let mut control_flow = LoopControl::Poll;
        let mut i: usize = 0;
        while i < events.len()
            invariant
                i <= events@.len(),
                old(self).app_spec().drawn() + cleared_count(events@.take(i as int)) <= u64::MAX
                    ==> self.app_spec().drawn() == old(self).app_spec().drawn() + cleared_count(events@.take(i as int)),
                cleared_count(events@.take(i as int)) == 0 ==> self.app_spec() == old(self).app_spec(),
                self.window_spec() == old(self).window_spec(),
                control_flow == LoopControl::Exit <==> events@.take(i as int).contains(LoopEvent::CloseRequested),
            decreases events.len() - i,
        {
            let ghost prefix = events@.take(i as int + 1);
            assert(prefix.drop_last() == events@.take(i as int));
            assert(prefix.last() == events@[i as int]);
            self.on_event(&events[i], &mut control_flow);
            proof {
                if events@[i as int] == LoopEvent::CloseRequested {
                    assert(prefix[i as int] == LoopEvent::CloseRequested);
                }
                if events@.take(i as int).contains(LoopEvent::CloseRequested) {
                    let k = choose|k: int| 0 <= k < i && events@.take(i as int)[k] == LoopEvent::CloseRequested;
                    assert(prefix[k] == LoopEvent::CloseRequested);
                }
                if prefix.contains(LoopEvent::CloseRequested) && events@[i as int] != LoopEvent::CloseRequested {
                    let k = choose|k: int| 0 <= k <= i && prefix[k] == LoopEvent::CloseRequested;
                    assert(events@.take(i as int)[k] == LoopEvent::CloseRequested);
                }
            }
            i += 1;
        }
        assert(events@.take(events@.len() as int) == events@);
        control_flow
    }

    /// The window, lent out mutably; the context keeps owning it.
    pub fn get_window(&mut self) -> (r: &mut W)
        ensures
            *r == old(self).window_spec(),
            final(self).window_spec() == *final(r),
            final(self).app_spec() == old(self).app_spec(),
    {
        &mut self.window
    }
}

} // verus!
