//! The state behind a small terminal program that records, edits and plots
//! named series of two-dimensional points.
//!
//! The crate holds no terminal code. A front end decodes key presses into
//! [`Intent`] values, hands them to [`App::handle_intent`], and draws what the
//! accessors of [`App`] report. At start it hands the bytes of the data file
//! to [`App::startup`], and at the end it writes out what [`App::save`]
//! returns.
//!
//! Coordinates are fixed-point decimals ([`Decimal`]), not binary floating
//! point: the entry fields take five characters, so four fractional digits
//! hold every number that can be typed, exactly.
//!
//! Every function is verified with Verus against the contract written on it,
//! except the few in [`csv_io`], which state what is taken on trust from the
//! `csv` crate.

pub mod app;
pub mod csv_io;
pub mod decimal;
pub mod input;
pub mod persist;
pub mod selection;
pub mod series;
pub mod status;
pub mod store;

pub use app::{App, ConfirmChoice, ConfirmState, Intent, ViewMode};
pub use decimal::Decimal;
pub use input::{InputBuffer, InputField, InputMode};
pub use persist::{Column, LoadError, RowFault};
pub use series::{DataSeries, Point, StoreError};
pub use status::Status;
pub use store::Store;
