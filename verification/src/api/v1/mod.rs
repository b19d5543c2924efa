pub mod metrics_api;
pub mod ping;
pub mod users;
