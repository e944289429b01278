pub mod manager;

pub use manager::CacheManager;
