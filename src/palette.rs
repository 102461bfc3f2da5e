use vstd::prelude::*;

verus! {

/// The named colors that the composer and the shell widgets paint with.
/// The backend maps each to its RGBA value.
#[derive(Clone, Copy, Debug, PartialEq, Eq, Structural)]
pub enum Paint {
    /// The full-screen clear color.
    Background,
    /// Placeholder body of a focused window without content.
    WindowFocused,
    /// Placeholder body of an unfocused window without content.
    WindowUnfocused,
    /// Title bar strip painted over a focused window.
    TitleStripFocused,
    /// Title bar strip painted over an unfocused window.
    TitleStripUnfocused,
    /// A decoration's own title bar color when focused.
    TitleBarFocused,
    /// A decoration's own title bar color when unfocused.
    TitleBarUnfocused,
    /// Neutral decoration button.
    Button,
    CloseButton,
    MinimizeButton,
    MaximizeButton,
    /// Liveness indicator shown while no window exists.
    Indicator,
    DockBackground,
    DockIconRunning,
    DockIconIdle,
    LaunchpadBackground,
    LaunchpadIcon,
    SearchBar,
    Cursor,
}

} // verus!
