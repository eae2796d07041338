//! dbelte's SQL core: the per-engine dialects, the builders that turn the
//! data grid's filters, sort and page into statements with bound values,
//! the statements that edit one row by its key or add a column, the readers
//! of catalog rows, and the rules the app's own metadata keeps.
//!
//! Every function here is verified against its contract; `laws` holds what
//! holds of them together.

pub mod text;
pub mod numparse;
pub mod json;
pub mod db;
pub mod valuemap;
pub mod commands;
pub mod meta;
pub mod introspect;
pub mod mssql;
pub mod laws;
