//! Storage: the user repository and the response cache.

pub mod cache;
pub mod db;

pub use cache::Cache;
pub use cache::CacheError;
pub use cache::CachedResponse;
pub use db::UserRepoError;
pub use db::UserRepository;
