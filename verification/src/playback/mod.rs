pub mod engine;
pub mod queue;

pub use engine::MockPlaybackEngine;
pub use queue::PlaybackQueue;
