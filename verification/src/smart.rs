//! The registry and the two capabilities it is built on.

pub mod device;
pub mod error;
pub mod location;
pub mod model;
pub mod report;
pub mod text;

pub use device::Pluggable;
pub use error::SmartError;
pub use report::Reportable;
