//! Window, event-loop and graphics-context bootstrap logic: fullscreen
//! resolution, event dispatch, instance-extension merging, device selection
//! and teardown ordering, each stated and proved over plain values.
pub mod config;
pub mod context;
pub mod platform;
pub mod window;

pub use config::{FullscreenType, WindowConfig, WindowIcon};
pub use context::{read_c_string_fixed, InstanceRequest, SelectError, TeardownStep, VKContext, Version};
pub use window::{
    resolve_fullscreen, App, AppContext, FullscreenRequest, LoopControl, LoopEvent, SetupError,
    WindowPlan,
};
pub use platform::{platform_required_instance_extensions, GLContext};
