pub mod certificates;
pub mod error;
pub mod proxy;
