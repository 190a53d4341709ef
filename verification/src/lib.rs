//! Core logic of a solar wallpaper rotator: it assigns each image of a
//! wallpaper folder a time-of-day slot between sunrise and sunset, renders the
//! slots as local `HH:MM` strings, and picks the slot that covers the current
//! time. The numerical sunrise/sunset equations run on IEEE-754 doubles and
//! live outside this library; this crate holds everything that can be stated
//! and proved over integers, characters and sequences.

pub mod clock;
pub mod desktop;
pub mod schedule;
pub mod slot;
pub mod solar_events;
pub mod text;

pub use clock::{time_to_minutes, unix_to_local};
pub use desktop::{is_gnome_compliant, Desktop, DesktopEnvt};
pub use schedule::{
    filter_walls, get_config_path, solar_schedule, uniform_schedule, Config, FlowyError,
};
pub use slot::get_current_wallpaper_idx;
pub use solar_events::SolarTime;
