pub mod cache;
pub mod catalog;
pub mod collections;
pub mod config;
pub mod dispatch;
pub mod exchange;
pub mod ext;
pub mod flow_config;
pub mod handler;
pub mod handler_config;
pub mod logger;
pub mod router;
pub mod status;
