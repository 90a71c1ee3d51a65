//! Decoder for NMEA 0183 sentences arriving as a byte stream.
//!
//! A [`Parser`] takes the bytes of a receiver one at a time, or a slice at a
//! time, and gives for each frame `$...*hh<CR><LF>` the record of its
//! sentence, or the reason for which the frame was discarded. It keeps one
//! buffer of fixed size and allocates nothing while it reads a frame.
//!
//! Numbers with a fractional part are kept as exact decimals, the way the
//! receiver printed them; nothing in this crate rounds to a binary float.

pub mod common;
pub mod coords;
pub mod datetime;
pub mod decimal;
pub mod dispatch;
pub mod error;
pub mod fields;
pub mod filter;
pub mod gga;
pub mod gll;
pub mod gsa;
pub mod gsv;
pub mod laws;
pub mod modes;
pub mod mtk;
pub mod parser;
pub mod rmc;
pub mod satellite;
pub mod vtg;

pub use decimal::Decimal;
pub use dispatch::ParseResult;
pub use error::ErrorKind;
pub use filter::{Sentence, SentenceMask, Source, SourceMask};
pub use gga::{GPSQuality, GGA};
pub use gll::GLL;
pub use gsa::{FixType, GSA};
pub use gsv::GSV;
pub use modes::Mode;
pub use mtk::{JammingStatus, MTKPacketType, PMTKSPF};
pub use parser::{Parser, ParserIterator, MAX_SENTENCE_LENGTH};
pub use rmc::RMC;
pub use vtg::VTG;
