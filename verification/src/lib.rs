//! Indicators over the price history of financial instruments.
//!
//! Prices are whole numbers of hundredths of the currency unit, so every
//! result is exact: differences are integers, and quotients are kept as
//! [`signals::Ratio`] until they are written.

pub mod actors;
pub mod decimal;
pub mod messages;
pub mod signals;
