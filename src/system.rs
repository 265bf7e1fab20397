use vstd::prelude::*;

verus! {

/// The standard system state variants of a service manager.
#[derive(Debug, Clone, Copy, PartialEq, Eq, Structural)]
pub enum StateVariant {
    /// The system is initializing.
    Initializing,
    /// The system is starting.
    Starting,
    /// The system is running.
    Running,
    /// The system is degraded.
    Degraded,
    /// The system is in maintenance mode.
    Maintenance,
    /// The system is stopping.
    Stopping,
    /// Any other state.
    Other,
}

impl StateVariant {
    /// The name of the state, as the service manager reports it.
    pub fn as_str(&self) -> (r: &'static str)
        ensures
            *self == StateVariant::Initializing ==> r@ == "initializing"@,
            *self == StateVariant::Starting ==> r@ == "starting"@,
            *self == StateVariant::Running ==> r@ == "running"@,
            *self == StateVariant::Degraded ==> r@ == "degraded"@,
            *self == StateVariant::Maintenance ==> r@ == "maintenance"@,
            *self == StateVariant::Stopping ==> r@ == "stopping"@,
            *self == StateVariant::Other ==> r@ == "other"@,
    {
        match self {
            StateVariant::Initializing => "initializing",
            StateVariant::Starting => "starting",
            StateVariant::Running => "running",
            StateVariant::Degraded => "degraded",
            StateVariant::Maintenance => "maintenance",
            StateVariant::Stopping => "stopping",
            StateVariant::Other => "other",
        }
    }
}

/// The display server an HMI application runs under.
#[derive(Debug, Clone, Copy, PartialEq, Eq, Structural)]
pub enum ServerKind {
    /// Weston.
    Weston,
    /// Weston started on the first terminal (`--tty=1`).
    WestonLegacy,
    /// Xorg.
    Xorg,
}

impl ServerKind {
    /// The command that starts the server.
    pub fn command(&self) -> (r: &'static str)
        ensures
            *self == ServerKind::Weston ==> r@ == "weston"@,
            *self == ServerKind::WestonLegacy ==> r@ == "weston --tty=1"@,
            *self == ServerKind::Xorg ==> r@ == "Xorg :0"@,
    {
        match self {
            ServerKind::Weston => "weston",
            ServerKind::WestonLegacy => "weston --tty=1",
            ServerKind::Xorg => "Xorg :0",
        }
    }

    /// The environment variable that tells clients where the server is,
    /// and its value.
    pub fn display_env(&self) -> (r: (&'static str, &'static str))
        ensures
            *self != ServerKind::Xorg ==> r.0@ == "WAYLAND_DISPLAY"@ && r.1@ == "wayland-1"@,
            *self == ServerKind::Xorg ==> r.0@ == "DISPLAY"@ && r.1@ == ":0"@,
    {
        match self {
            ServerKind::Xorg => ("DISPLAY", ":0"),
            _ => ("WAYLAND_DISPLAY", "wayland-1"),
        }
    }

    /// The socket whose appearance shows that the server is up.
    pub fn wait_for(&self) -> (r: &'static str)
        ensures
            *self != ServerKind::Xorg ==> r@ == "/run/user/0/wayland-1"@,
            *self == ServerKind::Xorg ==> r@ == "/tmp/.X11-unix/X0"@,
    {
        match self {
            ServerKind::Xorg => "/tmp/.X11-unix/X0",
            _ => "/run/user/0/wayland-1",
        }
    }

    /// The command that terminates a previous instance of the server.
    pub fn terminate_previous_command(&self) -> (r: &'static str)
        ensures
            *self != ServerKind::Xorg ==> r@ == "pkill -KILL weston"@,
            *self == ServerKind::Xorg ==> r@ == "pkill -KILL Xorg"@,
    {
        match self {
            ServerKind::Xorg => "pkill -KILL Xorg",
            _ => "pkill -KILL weston",
        }
    }
}

} // verus!
