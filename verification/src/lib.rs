//! Turns a list of work shifts into an iCalendar (`.ics`) document.
//!
//! `shift` holds the data model: a validated point in time and the shift
//! record. `codec` renders field values (escaping) and timestamps
//! (`YYYYMMDDTHHMMSS` tokens). `lines` counts the lines of a document.
//! `ics` assembles the whole calendar and proves its shape: one `VEVENT`
//! block per shift, in input order, inside the `VCALENDAR` envelope.

pub mod codec;
pub mod ics;
pub mod lines;
pub mod shift;
