//! What the two parties say to each other before anything is locked.

pub mod request_response;
