pub mod response;
pub mod retry;
pub mod selection;

pub use response::ServiceNowResponse;
pub use selection::{TransportMode, TransportSelection};
