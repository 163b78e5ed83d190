//! A reservation-to-calendar bridge: vendor booking records are mapped into a
//! stable local record shape, kept in a store keyed by the reservation
//! identifier, and rendered as a calendar document.
//!
//! The modules, leaves first:
//! - `text`: decimal rendering of integers;
//! - `datetime`: plain calendar date and UTC timestamp values and their
//!   rendered forms;
//! - `codec`: the serialized form of an option-string list, with a proved
//!   round trip;
//! - `vendor`: the upstream response shapes, the credential, and the fetch
//!   options;
//! - `request`: the cookie header and the outbound query payload;
//! - `record`: the stable reservation record and the mapper onto it;
//! - `store`: the upsert-by-identifier store over encoded rows;
//! - `calendar`: the calendar document renderer;
//! - `front`: the two routes' decision logic.

pub mod text;

pub mod datetime;

pub mod codec;

pub mod vendor;

pub mod request;

pub mod record;

pub mod store;

pub mod calendar;

pub mod front;
