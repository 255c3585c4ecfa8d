//! Foxhole save file parser: extracts stockpile data from `.sav` files.
//!
//! The library reads the Unreal Engine save through `uesave`, walks the
//! pinned map tooltips and turns each one into stockpiles (the public one and
//! its reserves), decodes garrison tech, filters stockpiles (as the command
//! line and the Python interface do) and decides what a watcher reports when
//! the save changes.

pub mod error;
pub mod filter;
pub mod models;
pub mod parser;
pub mod python;
pub mod save;
pub mod text;
pub mod watch;

pub use error::FsSavError;
pub use filter::{apply_filters, parse_faction, FilterArgs};
pub use models::{
    info, parse_tech, Faction, ParserInfo, Stockpile, StockpileCoords, StockpileItem, Tech,
};
pub use parser::{extract_stockpiles, parse_save_result, parse_ue_timestamp};
pub use save::FloatBits;
pub use watch::{changed_stockpiles, should_emit, watch_report, DiffMode, TrackedStockpile};
