pub mod action;
pub mod battery;
pub mod capture;
pub mod error;
pub mod info;
pub mod percent;
pub mod persist;
pub mod template;
pub mod text;
pub mod unit;

pub use action::{Action, Plan};
pub use battery::Battery;
pub use error::BatteryError;
pub use percent::Percent;
