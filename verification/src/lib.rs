//! A MySQL tool server's core: connection registry, SQL text, reports and
//! tool dispatch, each stated and proved with Verus.

pub mod text;
pub mod config;
pub mod pool;
pub mod manager;
pub mod sql;
pub mod json;
pub mod report;
pub mod relationships;
pub mod schema_diff;
pub mod tools;
pub mod statement;
pub mod transport;
