//! Spreadsheet-like formula evaluation for plain-text markdown tables,
//! together with the surrounding text utilities: table alignment, table of
//! contents generation, checklist completion marking and code block
//! bookkeeping.

pub mod code;
pub mod common;
pub mod decimal;
pub mod done;
pub mod strutil;
pub mod table;
pub mod toc;

pub use decimal::Dec;
