//! Snow depth data from the SNODAS archive: the calendar of days with data,
//! the paths and file names the archive uses, the decoding of a day's grid,
//! and its drawing as a grey-scale buffer.
pub mod date;
pub mod date_ranges;
pub mod snodas;
pub mod errors;
pub mod connection;
pub mod graphing;
pub mod download;

pub use date::Date;
pub use date_ranges::{ShippableDateRange, days_with_data};
pub use connection::filename_for_date;
pub use errors::MissingDataError;
