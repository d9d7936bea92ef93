//! Resolves a place, given by name or by coordinates, to its coordinates
//! and to the offset from UTC that was in force there at a given instant.
//!
//! The reference tables (cities, zones, the zones' transitions, the user's
//! overrides and aliases) are loaded once into a [`store::ReferenceData`]:
//! [`delimited`] reads their text into rows, and [`schema`] says what each
//! row must hold. On the loaded tables, [`gazetteer`] finds a name's
//! coordinates, [`offsets`] finds the offset of a zone at an instant, and
//! [`resolver`] settles which of the caller's coordinates, name and offset
//! decides.
//!
//! Latitudes and longitudes are whole numbers of billionths of a degree,
//! read and written as decimal numbers by [`decimal`].

pub mod decimal;
pub mod delimited;
pub mod gazetteer;
pub mod offsets;
pub mod records;
pub mod resolver;
pub mod scan;
pub mod schema;
pub mod store;
pub mod text;
