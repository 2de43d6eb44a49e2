//! Metrics from the readings of an `rtl_433` decoder.
//!
//! The decoder writes one JSON object per line. [`parser`] makes a reading of
//! a line, [`store`] keeps the latest reading of each device, and
//! [`exposition`] writes what the store holds as gauges in the text
//! exposition format. [`ingest`] joins the first two, [`units`] resolves a
//! reading's temperature to degrees Celsius and Fahrenheit.
//!
//! Values are exact: a reported value is the decimal in the line
//! ([`measure::Decimal`]), a converted one the fraction that the conversion
//! gives ([`measure::Ratio`]), and rounding happens once, when a value is
//! written with one decimal place.

pub mod exposition;
pub mod ingest;
pub mod json;
pub mod measure;
pub mod numeral;
pub mod parser;
pub mod reading;
pub mod store;
pub mod units;
