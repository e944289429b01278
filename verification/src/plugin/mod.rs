pub mod manager;
pub mod traits;

pub use manager::{PluginManager, SimpleLoggerPlugin, TickCounterPlugin};
pub use traits::PluginCategory;
