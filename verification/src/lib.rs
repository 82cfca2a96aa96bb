//! A pure-Rust H.263 (and Sorenson Spark) video decoder library, with
//! machine-checked contracts on its parsing and reconstruction logic.

pub mod block;
pub mod deblock;
pub mod decoded;
pub mod error;
pub mod gather;
pub mod gob;
pub mod idct;
pub mod macroblock;
pub mod mvd_pred;
pub mod picture;
pub mod reader;
pub mod rle;
pub mod state;
pub mod types;
pub mod vlc;
pub mod yuv;
