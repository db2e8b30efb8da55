//! Day counting between calendar dates.
//!
//! Dates are read in the Gregorian calendar from 1582 onwards and in the
//! proleptic Julian calendar before that. There is no year zero: year -1
//! (1 BC) is followed directly by year 1.
pub mod calendar;
pub mod date;
pub mod laws;
pub mod text;
