//! A task-list backend: the data model, the plan of the one SQL statement each
//! request runs, the responses made of its outcome, the route table, and an
//! in-memory model of the table on which searches match `LIKE` patterns.

pub mod models;
pub mod text;
pub mod handlers;
pub mod store;
pub mod laws;
pub mod routers;
