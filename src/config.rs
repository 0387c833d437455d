//! Settings that the world logic reads.
use vstd::prelude::*;

verus! {

/// How the game window is shown.
#[derive(Clone, Copy, Debug, PartialEq, Eq, Structural)]
pub enum WindowMode {
    Windowed,
    Borderless,
    Fullscreen,
}

/// Diagnostic switches.
#[derive(Clone, Copy, Debug, PartialEq, Eq, Structural)]
pub struct DebugConfig {
    pub print_default_config: bool,
    pub show_colliders: bool,
    pub show_fps: bool,
    pub show_selection: bool,
    pub show_selection_normal: bool,
    pub log_diagnostics: bool,
}

/// Display settings.
#[derive(Clone, Copy, Debug, PartialEq, Eq, Structural)]
pub struct VideoConfig {
    pub msaa_samples: u32,
    pub show_interface: bool,
    pub vsync: bool,
    pub window_mode: WindowMode,
}

/// Game rules: creative mode gates picking blocks and flying;
/// `breakable_bedrock` lets the bottom layer be replaced.
#[derive(Clone, Copy, Debug, PartialEq, Eq, Structural)]
pub struct GameConfig {
    pub creative: bool,
    pub breakable_bedrock: bool,
}

impl Default for VideoConfig {
    fn default() -> (r: VideoConfig)
        ensures
            r.msaa_samples == 4,
            r.show_interface,
            r.vsync,
            r.window_mode == WindowMode::Windowed,
    {
        VideoConfig {
            msaa_samples: 4,
            show_interface: true,
            vsync: true,
            window_mode: WindowMode::Windowed,
        }
    }
}

impl Default for DebugConfig {
    fn default() -> (r: DebugConfig)
        ensures
            !r.print_default_config,
            !r.show_colliders,
            r.show_fps,
            r.show_selection,
            !r.show_selection_normal,
            !r.log_diagnostics,
    {
        DebugConfig {
            print_default_config: false,
            show_colliders: false,
            show_fps: true,
            show_selection: true,
            show_selection_normal: false,
            log_diagnostics: false,
        }
    }
}

impl Default for GameConfig {
    fn default() -> (r: GameConfig)
        ensures
            r.creative,
            !r.breakable_bedrock,
    {
        GameConfig { creative: true, breakable_bedrock: false }
    }
}

} // verus!
