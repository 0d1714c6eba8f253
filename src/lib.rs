//! A library to drive web browsers through the WebDriver protocol.

pub mod chrome;
pub mod error;
pub mod firefox;
pub mod json;
pub mod messages;
pub mod session;
pub mod transport;

pub use error::Error;
pub use json::JsonValue;
pub use messages::LocationStrategy;
pub use session::{DriverSession, Element, FrameContext, HttpDriver, HttpDriverBuilder, Screenshot};
