use vstd::prelude::*;

verus! {

/// Virtual resolution for pixel-perfect rendering.
/// All game logic operates in these pixel coordinates.
#[derive(Debug, Clone, Copy, PartialEq, Eq, Structural)]
pub struct VirtualResolution {
    pub width: u32,
    pub height: u32,
}

impl Default for VirtualResolution {
    /// The default virtual resolution is 320x180.
    fn default() -> (r: Self)
        ensures
            r.width == 320,
            r.height == 180,
    {
        VirtualResolution { width: 320, height: 180 }
    }
}

/// Engine configuration.
#[derive(Debug, Clone)]
pub struct EngineConfig {
    /// Virtual resolution for game logic and rendering
    pub virtual_resolution: VirtualResolution,
    /// Target window width (if not fullscreen)
    pub window_width: u32,
    /// Target window height (if not fullscreen)
    pub window_height: u32,
    /// Window title
    pub window_title: String,
    /// Enable vsync
    pub vsync: bool,
    /// Target FPS (0 = uncapped)
    pub target_fps: u32,
    /// Assets root directory
    pub assets_dir: String,
}

impl Default for EngineConfig {
    /// The default window is six times the default virtual resolution.
    fn default() -> (c: Self)
        ensures
            c.virtual_resolution.width == 320,
            c.virtual_resolution.height == 180,
            c.window_width == 320 * 6,
            c.window_height == 180 * 6,
            c.window_title@ == "Pixgine"@,
            c.vsync,
            c.target_fps == 60,
            c.assets_dir@ == "assets"@,
    {
        let vr = VirtualResolution::default();
        EngineConfig {
            window_width: vr.width * 6,
            window_height: vr.height * 6,
            window_title: String::from_str("Pixgine"),
            vsync: true,
            target_fps: 60,
            assets_dir: String::from_str("assets"),
            virtual_resolution: vr,
        }
    }
}

} // verus!
