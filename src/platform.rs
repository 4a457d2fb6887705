use vstd::prelude::*;
use vstd::string::StringExecFns;

verus! {

/// The instance extensions that the window-system presentation path needs:
/// the generic surface extension and the Win32 surface extension.
pub open spec fn platform_extension_names() -> Seq<Seq<char>> {
    seq!["VK_KHR_surface"@, "VK_KHR_win32_surface"@]
}

/// Marker for the platform's surface presenter; it holds no state.
pub struct GLContext {}

/// The fixed list of extension names this platform's presentation mechanism
/// requires; it is merged into every instance request.
pub fn platform_required_instance_extensions() -> (r: Vec<String>)
    ensures
        r@.map_values(|s: String| s@) == platform_extension_names(),
{
    let v = vec![String::from_str("VK_KHR_surface"), String::from_str("VK_KHR_win32_surface")];
    assert(v@.map_values(|s: String| s@) =~= platform_extension_names());
    v
}

} // verus!
