pub mod catalog;
pub mod local;
pub mod mock;
pub mod registry;
pub mod youtube;

pub use mock::MockProvider;
