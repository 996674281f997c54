pub mod codec;
pub mod diffing;
pub mod paths;
pub mod report;
pub mod session;
