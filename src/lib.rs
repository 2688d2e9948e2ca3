//! Session tokens: issuing access/refresh pairs, reading bearer headers and
//! verifying tokens back into typed claims; with the record types, pagination
//! arithmetic and account helpers of the collection service around them.

mod chars;
pub mod claims;
pub mod codec;
pub mod auth;
pub mod paging;
pub mod records;
pub mod forms;
pub mod users;
