//! The store, the use-cases that write to it, the listings that read it, and
//! the protocol that brackets every write with a pull and a push.

pub mod cloud;
pub mod insert;
pub mod laws;
pub mod modify;
pub mod query;
pub mod schema;
pub mod store;
pub mod table;
pub mod validate;
