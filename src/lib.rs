pub mod fetch;
pub mod latest;
pub mod mapper;
pub mod metrics;
pub mod query;
pub mod slony;
pub mod surface;
