//! Paste storage and expiry: identifiers and deletion keys, the content and
//! metadata stores, the create / retrieve / delete service and the sweeper
//! that purges expired and orphaned pastes.

pub mod paste_id;
pub mod text;
pub mod clock;
pub mod error;
pub mod lang;
pub mod models;
pub mod paste_data;
pub mod store;
pub mod service;
pub mod sweeper;
