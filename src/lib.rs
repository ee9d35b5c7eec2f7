pub mod config;
pub mod jobs;
pub mod pool;
pub mod request;
pub mod scan;
pub mod sink;
pub mod status;
