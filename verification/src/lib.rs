//! Citoer: turns chat messages into quote records (quote, who said it,
//! who it was directed at, who recorded it) ready for a spreadsheet.

pub mod adapters;
pub mod media_adapters;
pub mod message;
pub mod storage_adapters;
pub mod table;
pub mod text;
pub mod time;
