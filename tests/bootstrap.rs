use vk_window::context::{
    merge_extensions, read_c_string_fixed, InstanceRequest, SelectError, TeardownStep, VKContext,
    Version,
};
use vk_window::platform::platform_required_instance_extensions;
use vk_window::window::{
    resolve_fullscreen, App, AppContext, FullscreenRequest, LoopControl, LoopEvent, SetupError,
    WindowPlan,
};
use vk_window::{FullscreenType, WindowConfig, WindowIcon};

fn strings(v: &[&str]) -> Vec<String> {
    v.iter().map(|s| s.to_string()).collect()
}

struct Counter {
    draws: u32,
}

impl App for Counter {
    fn drawn(&self) -> u64 {
        self.draws as u64
    }

    fn draw(&mut self) {
        self.draws += 1;
    }
}

type FakeContext = VKContext<u32, u64, u64, &'static str>;

#[test]
fn version_packs_like_the_driver() {
    assert_eq!(Version::new(0, 1, 0).to_vk(), 4096);
    assert_eq!(Version::new(1, 2, 0).to_vk(), 4202496);
    assert_eq!(Version::new(1, 0, 0).to_vk(), 1 << 22);
    assert_eq!(Version::new(1, 3, 251).to_vk(), (1 << 22) | (3 << 12) | 251);
    let v = Version::new(4, 5, 6);
    assert_eq!((v.major, v.minor, v.patch), (4, 5, 6));
}

#[test]
fn platform_extensions_are_surface_and_win32_surface() {
    assert_eq!(
        platform_required_instance_extensions(),
        strings(&["VK_KHR_surface", "VK_KHR_win32_surface"])
    );
}

#[test]
fn merge_appends_only_missing_names() {
    let required = platform_required_instance_extensions();
    let r = merge_extensions(strings(&["VK_KHR_surface", "VK_EXT_debug_utils"]), &required);
    assert_eq!(r, strings(&["VK_KHR_surface", "VK_EXT_debug_utils", "VK_KHR_win32_surface"]));
    let r = merge_extensions(vec![], &required);
    assert_eq!(r, strings(&["VK_KHR_surface", "VK_KHR_win32_surface"]));
}

#[test]
fn merge_is_idempotent() {
    let required = platform_required_instance_extensions();
    let once = merge_extensions(strings(&["A", "VK_KHR_win32_surface"]), &required);
    let twice = merge_extensions(once.clone(), &required);
    assert_eq!(once, twice);
    assert_eq!(once.iter().filter(|s| s.as_str() == "VK_KHR_win32_surface").count(), 1);
}

#[test]
fn merge_membership_ignores_input_order() {
    let required = platform_required_instance_extensions();
    let mut a = merge_extensions(strings(&["A", "B", "VK_KHR_surface"]), &required);
    let mut b = merge_extensions(strings(&["VK_KHR_surface", "B", "A"]), &required);
    a.sort();
    b.sort();
    assert_eq!(a, b);
}

#[test]
fn instance_request_fixes_engine_and_api() {
    let r = InstanceRequest::new(
        "TestApp".to_string(),
        Version::new(0, 1, 0),
        strings(&["VK_EXT_debug_utils"]),
        strings(&["VK_LAYER_KHRONOS_validation"]),
    );
    assert_eq!(r.app_name, "TestApp");
    assert_eq!(r.app_version, 4096);
    assert_eq!(r.engine_name, "");
    assert_eq!(r.engine_version, 1 << 22);
    assert_eq!(r.api_version, (1 << 22) | (2 << 12));
    assert_eq!(r.extensions, strings(&["VK_EXT_debug_utils", "VK_KHR_surface", "VK_KHR_win32_surface"]));
    assert_eq!(r.layers, strings(&["VK_LAYER_KHRONOS_validation"]));
}

#[test]
fn select_gpu_out_of_range_picks_device_zero() {
    let gpus: Vec<u64> = vec![10, 11, 12];
    let mut ctx: FakeContext = VKContext::new(1);
    assert_eq!(ctx.select_gpu(100, &gpus), Ok(0));
    assert_eq!(ctx.get_gpu(), Some(10));
    let mut other: FakeContext = VKContext::new(1);
    assert_eq!(other.select_default_gpu(&gpus), Ok(0));
    assert_eq!(other.get_gpu(), ctx.get_gpu());
    assert_eq!(ctx.select_gpu(3, &gpus), Ok(0));
    assert_eq!(ctx.get_gpu(), Some(10));
}

#[test]
fn select_gpu_in_range_picks_that_device() {
    let gpus: Vec<u64> = vec![10, 11, 12];
    let mut ctx: FakeContext = VKContext::new(1);
    assert_eq!(ctx.select_gpu(2, &gpus), Ok(2));
    assert_eq!(ctx.get_gpu(), Some(12));
    assert_eq!(*ctx.get_instance(), 1);
}

#[test]
fn select_on_empty_device_list_fails() {
    let mut ctx: FakeContext = VKContext::new(1);
    assert_eq!(ctx.select_default_gpu(&vec![]), Err(SelectError::NoDevice));
    assert_eq!(ctx.select_gpu(0, &vec![]), Err(SelectError::NoDevice));
    assert_eq!(ctx.get_gpu(), None);
}

#[test]
fn teardown_destroys_surface_before_instance() {
    let mut ctx: FakeContext = VKContext::new(7);
    assert_eq!(ctx.teardown_steps(), vec![TeardownStep::DestroyInstance]);
    ctx.attach_surface(99, "surface-fn");
    assert_eq!(ctx.get_surface(), Some(99));
    assert_eq!(ctx.get_surface_api(), Some(&"surface-fn"));
    assert_eq!(
        ctx.teardown_steps(),
        vec![TeardownStep::DestroySurface, TeardownStep::DestroyInstance]
    );
}

#[test]
fn teardown_order_seen_by_a_recording_driver() {
    let mut ctx: FakeContext = VKContext::new(7);
    ctx.attach_surface(42, "surface-fn");
    let mut calls: Vec<String> = Vec::new();
    for step in ctx.teardown_steps() {
        match step {
            TeardownStep::DestroySurface => {
                let api = ctx.get_surface_api().unwrap();
                calls.push(format!("{} destroy_surface({})", api, ctx.get_surface().unwrap()));
            }
            TeardownStep::DestroyInstance => {
                calls.push(format!("destroy_instance({})", ctx.get_instance()));
            }
        }
    }
    assert_eq!(calls, vec!["surface-fn destroy_surface(42)".to_string(), "destroy_instance(7)".to_string()]);
}

#[test]
fn device_name_stops_at_first_zero() {
    let mut buf = [0u8; 256];
    buf[..9].copy_from_slice(b"Fake GPU\0");
    buf[10] = b'x';
    assert_eq!(read_c_string_fixed(&buf), Some("Fake GPU".to_string()));
    assert_eq!(read_c_string_fixed(b"abc"), Some("abc".to_string()));
    assert_eq!(read_c_string_fixed(b"\0abc"), Some(String::new()));
    assert_eq!(read_c_string_fixed("Gerät\0".as_bytes()), Some("Gerät".to_string()));
}

#[test]
fn device_name_with_invalid_utf8_is_rejected() {
    assert_eq!(read_c_string_fixed(&[0x66, 0xff, 0x66, 0]), None);
}

#[test]
fn windowed_fullscreen_out_of_range_uses_default_monitor() {
    let cfg = WindowConfig {
        size: (640, 480),
        fullscreen: Some(FullscreenType::Windowed(Some(5))),
        ..Default::default()
    };
    let plan = WindowPlan::new(cfg, &vec![3, 3]).ok().unwrap();
    assert_eq!(plan.fullscreen, Some(FullscreenRequest::Borderless(None)));
    assert_eq!((plan.width, plan.height), (640, 480));
}

#[test]
fn windowed_fullscreen_in_range_pins_monitor() {
    assert_eq!(
        resolve_fullscreen(Some(FullscreenType::Windowed(Some(1))), &vec![1, 1]),
        Ok(Some(FullscreenRequest::Borderless(Some(1))))
    );
    assert_eq!(
        resolve_fullscreen(Some(FullscreenType::Windowed(None)), &vec![1]),
        Ok(Some(FullscreenRequest::Borderless(Some(0))))
    );
    assert_eq!(
        resolve_fullscreen(Some(FullscreenType::Windowed(None)), &vec![]),
        Ok(Some(FullscreenRequest::Borderless(None)))
    );
    assert_eq!(resolve_fullscreen(None, &vec![]), Ok(None));
}

#[test]
fn exclusive_fullscreen_resolution() {
    assert_eq!(
        resolve_fullscreen(Some(FullscreenType::Exclusive(Some(7))), &vec![3, 2]),
        Ok(Some(FullscreenRequest::Exclusive { monitor: 0, mode: 0 }))
    );
    assert_eq!(
        resolve_fullscreen(Some(FullscreenType::Exclusive(Some(1))), &vec![3, 2]),
        Ok(Some(FullscreenRequest::Exclusive { monitor: 1, mode: 0 }))
    );
    assert_eq!(
        resolve_fullscreen(Some(FullscreenType::Exclusive(None)), &vec![]),
        Err(SetupError::NoMonitor)
    );
    assert_eq!(
        resolve_fullscreen(Some(FullscreenType::Exclusive(Some(1))), &vec![2, 0]),
        Err(SetupError::NoVideoMode)
    );
}

#[test]
fn default_config_values() {
    let c = WindowConfig::default();
    assert_eq!(c.size, (800, 800));
    assert!(c.resizable && c.visible && c.decorated);
    assert!(!c.maximized && !c.transparent && !c.floating);
    assert_eq!(c.fullscreen, None);
    assert_eq!(c.title, "Window");
    assert!(c.icon.is_none());
}

#[test]
fn window_plan_keeps_every_attribute() {
    let cfg = WindowConfig {
        size: (1024, 600),
        resizable: false,
        fullscreen: None,
        title: "Demo".to_string(),
        maximized: true,
        visible: false,
        transparent: true,
        decorated: false,
        floating: true,
        icon: Some(WindowIcon { rgba: vec![1, 2, 3, 4], width: 1, height: 1 }),
    };
    let p = WindowPlan::new(cfg, &vec![]).ok().unwrap();
    assert_eq!((p.width, p.height), (1024, 600));
    assert_eq!(p.title, "Demo");
    assert!(!p.resizable && p.maximized && !p.visible && p.transparent && !p.decorated && p.floating);
    assert_eq!(p.fullscreen, None);
    assert_eq!(p.icon.unwrap().rgba, vec![1, 2, 3, 4]);
}

#[test]
fn window_plan_reports_fullscreen_failure() {
    let cfg = WindowConfig { fullscreen: Some(FullscreenType::Exclusive(None)), ..Default::default() };
    assert_eq!(WindowPlan::new(cfg, &vec![]).err(), Some(SetupError::NoMonitor));
}

#[test]
fn close_request_exits_without_drawing() {
    let mut ctx = AppContext::new((), Counter { draws: 0 });
    let mut flow = LoopControl::Poll;
    ctx.on_event(&LoopEvent::CloseRequested, &mut flow);
    assert_eq!(flow, LoopControl::Exit);
    let mut ctx2 = AppContext::new((), Counter { draws: 0 });
    assert_eq!(ctx2.run_iteration(&vec![LoopEvent::CloseRequested]), LoopControl::Exit);
}

#[test]
fn iteration_cleared_draws_once() {
    let mut ctx = AppContext::new(0u32, Counter { draws: 0 });
    let mut flow = LoopControl::Poll;
    ctx.on_event(&LoopEvent::IterationCleared, &mut flow);
    ctx.on_event(&LoopEvent::Other, &mut flow);
    assert_eq!(flow, LoopControl::Poll);
    let r = ctx.run_iteration(&vec![LoopEvent::Other, LoopEvent::Other, LoopEvent::IterationCleared]);
    assert_eq!(r, LoopControl::Poll);
    *ctx.get_window() = 5;
    assert_eq!(*ctx.get_window(), 5);
}

struct Shared<'a> {
    draws: &'a std::cell::Cell<u32>,
}

impl<'a> App for Shared<'a> {
    fn drawn(&self) -> u64 {
        self.draws.get() as u64
    }

    fn draw(&mut self) {
        self.draws.set(self.draws.get() + 1);
    }
}

#[test]
fn drawable_called_once_per_iteration() {
    let draws = std::cell::Cell::new(0);
    let mut ctx = AppContext::new((), Shared { draws: &draws });
    let mut flow = LoopControl::Poll;
    ctx.on_event(&LoopEvent::CloseRequested, &mut flow);
    assert_eq!(draws.get(), 0);
    ctx.on_event(&LoopEvent::IterationCleared, &mut flow);
    assert_eq!(draws.get(), 1);
    ctx.on_event(&LoopEvent::Other, &mut flow);
    assert_eq!(draws.get(), 1);
    ctx.run_iteration(&vec![LoopEvent::Other, LoopEvent::IterationCleared]);
    assert_eq!(draws.get(), 2);
    ctx.run_iteration(&vec![LoopEvent::IterationCleared, LoopEvent::Other, LoopEvent::IterationCleared]);
    assert_eq!(draws.get(), 4);
}
