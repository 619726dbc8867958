//! The ripping engine: its errors, the descriptions that the tool prints, and
//! the lifecycle of a rip.
pub mod disc_report;
pub mod drive_report;
pub mod drives;
pub mod errors;
pub mod layout;
pub mod lifecycle;
pub mod makemkv_core;
pub mod makemkv_helpers;

pub use disc_report::{get_title_info, parse_disc_info, DiscInfo, Title};
pub use drive_report::{get_drives, Drive};
pub use makemkv_core::{MakeMkv, Rip, RipType};
pub use makemkv_helpers::get_last_episode_in_dir;
