//! Window and rendering options chosen by the application.
use vstd::prelude::*;
use vstd::string::StringExecFns;

verus! {

/// Whether to favour speed or battery life.
#[derive(Debug, Clone, Copy, PartialEq, Eq, Structural)]
pub enum RenderMode {
    HighPerformance,
    LowPower,
}

impl Default for RenderMode {
    fn default() -> (r: Self)
        ensures
            r == RenderMode::LowPower,
    {
        RenderMode::LowPower
    }
}

/// The options a window is opened with.
pub struct WindowOptions {
    pub title: String,
    pub default_width: u32,
    pub default_height: u32,
    pub render_mode: RenderMode,
    pub clear_color: (u8, u8, u8),
}

impl Clone for WindowOptions {
    fn clone(&self) -> (r: Self)
        ensures
            r.title@ == self.title@,
            r.default_width == self.default_width,
            r.default_height == self.default_height,
            r.render_mode == self.render_mode,
            r.clear_color == self.clear_color,
    {
        WindowOptions {
            title: self.title.clone(),
            default_width: self.default_width,
            default_height: self.default_height,
            render_mode: self.render_mode,
            clear_color: self.clear_color,
        }
    }
}

impl Default for WindowOptions {
    /// An 800 × 600 low-power window titled "Render Window", cleared to a
    /// pale green.
    fn default() -> (r: Self)
        ensures
            r.title@ == "Render Window"@,
            r.default_width == 800,
            r.default_height == 600,
            r.render_mode == RenderMode::LowPower,
            r.clear_color == (200u8, 255u8, 200u8),
    {
        WindowOptions {
            title: String::from_str("Render Window"),
            default_width: 800,
            default_height: 600,
            render_mode: RenderMode::LowPower,
            clear_color: (200, 255, 200),
        }
    }
}

/// How the event loop waits for events.
#[derive(Debug, Clone, Copy, PartialEq, Eq, Structural)]
pub enum ControlFlow {
    /// Run continuously.
    Poll,
    /// Sleep until the next event.
    Wait,
}

/// The event loop polls in high-performance mode and waits otherwise.
pub fn control_flow_for(mode: RenderMode) -> (r: ControlFlow)
    ensures
        r == (if mode == RenderMode::HighPerformance {
            ControlFlow::Poll
        } else {
            ControlFlow::Wait
        }),
{
    match mode {
        RenderMode::HighPerformance => ControlFlow::Poll,
        RenderMode::LowPower => ControlFlow::Wait,
    }
}

/// Which GPU adapter to ask for.
#[derive(Debug, Clone, Copy, PartialEq, Eq, Structural)]
pub enum PowerPreference {
    HighPerformance,
    LowPower,
}

/// The adapter preference for a render mode.
pub fn power_preference_for(mode: RenderMode) -> (r: PowerPreference)
    ensures
        r == (if mode == RenderMode::HighPerformance {
            PowerPreference::HighPerformance
        } else {
            PowerPreference::LowPower
        }),
{
    if mode == RenderMode::HighPerformance {
        PowerPreference::HighPerformance
    } else {
        PowerPreference::LowPower
    }
}

} // verus!
