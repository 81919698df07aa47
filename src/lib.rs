//! A document model for extended JSON (plain JSON plus custom tags, naive
//! datetimes and epoch timestamps) and a verified, total marshaller that turns
//! a document tree into the native value tree of an embedding host.
pub mod calendar;
pub mod host;
pub mod laws;
pub mod marshal;
pub mod value;
