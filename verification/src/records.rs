//! The rows of the reference tables, and what each is to a specification.
//!
//! Latitudes and longitudes are whole numbers of billionths of a degree:
//! `DEGREE` of them make one degree.

use vstd::prelude::*;

verus! {

/// The number of decimal places that a latitude or longitude keeps.
pub const DEGREE_PLACES: u32 = 9;

/// One degree, in the unit of latitudes and longitudes.
pub const DEGREE: i64 = 1_000_000_000;

/// A city of the gazetteer.
#[derive(Clone, Debug, PartialEq, Eq)]
pub struct CityRecord {
    pub city_name: String,
    pub ascii_name: String,
    pub latitude: i64,
    pub longitude: i64,
    pub country_iso2: String,
    pub country_iso3: String,
    pub population: Option<u64>,
}

/// A city, as specifications see it.
pub struct CityView {
    pub city_name: Seq<char>,
    pub ascii_name: Seq<char>,
    pub latitude: i64,
    pub longitude: i64,
    pub country_iso2: Seq<char>,
    pub country_iso3: Seq<char>,
    pub population: Option<u64>,
}

impl DeepView for CityRecord {
    type V = CityView;

    open spec fn deep_view(&self) -> CityView {
        CityView {
            city_name: self.city_name@,
            ascii_name: self.ascii_name@,
            latitude: self.latitude,
            longitude: self.longitude,
            country_iso2: self.country_iso2@,
            country_iso3: self.country_iso3@,
            population: self.population,
        }
    }
}

impl View for CityRecord {
    type V = CityView;

    open spec fn view(&self) -> CityView {
        self.deep_view()
    }
}

/// A place that the user has entered, which goes before any city of the
/// same name.
#[derive(Clone, Debug, PartialEq, Eq)]
pub struct PlaceOverride {
    pub name: String,
    pub latitude: i64,
    pub longitude: i64,
    /// Matched against the canonical names of the zones.
    pub zone_reference: String,
}

/// An override, as specifications see it.
pub struct OverrideView {
    pub name: Seq<char>,
    pub latitude: i64,
    pub longitude: i64,
    pub zone_reference: Seq<char>,
}

impl DeepView for PlaceOverride {
    type V = OverrideView;

    open spec fn deep_view(&self) -> OverrideView {
        OverrideView {
            name: self.name@,
            latitude: self.latitude,
            longitude: self.longitude,
            zone_reference: self.zone_reference@,
        }
    }
}

impl View for PlaceOverride {
    type V = OverrideView;

    open spec fn view(&self) -> OverrideView {
        self.deep_view()
    }
}

/// An informal name for a zone.
#[derive(Clone, Debug, PartialEq, Eq)]
pub struct TimezoneAlias {
    pub alias_name: String,
    pub canonical_zone_suffix: String,
}

/// An alias, as specifications see it.
pub struct AliasView {
    pub alias_name: Seq<char>,
    pub canonical_zone_suffix: Seq<char>,
}

impl DeepView for TimezoneAlias {
    type V = AliasView;

    open spec fn deep_view(&self) -> AliasView {
        AliasView {
            alias_name: self.alias_name@,
            canonical_zone_suffix: self.canonical_zone_suffix@,
        }
    }
}

impl View for TimezoneAlias {
    type V = AliasView;

    open spec fn view(&self) -> AliasView {
        self.deep_view()
    }
}

/// A zone, under its canonical name of the form "Region/City".
#[derive(Clone, Debug, PartialEq, Eq)]
pub struct ZoneRecord {
    pub zone_id: u32,
    pub country_code: String,
    pub canonical_name: String,
}

/// A zone, as specifications see it.
pub struct ZoneView {
    pub zone_id: u32,
    pub country_code: Seq<char>,
    pub canonical_name: Seq<char>,
}

impl DeepView for ZoneRecord {
    type V = ZoneView;

    open spec fn deep_view(&self) -> ZoneView {
        ZoneView {
            zone_id: self.zone_id,
            country_code: self.country_code@,
            canonical_name: self.canonical_name@,
        }
    }
}

impl View for ZoneRecord {
    type V = ZoneView;

    open spec fn view(&self) -> ZoneView {
        self.deep_view()
    }
}

/// A change of a zone's offset from UTC, in force from `effective_from`
/// (seconds since the epoch) until the zone's next transition.
#[derive(Clone, Debug, PartialEq, Eq)]
pub struct TransitionRecord {
    pub zone_id: u32,
    pub abbreviation: String,
    pub effective_from: i64,
    pub utc_offset_seconds: i32,
    pub is_dst: bool,
}

/// A transition, as specifications see it.
pub struct TransitionView {
    pub zone_id: u32,
    pub abbreviation: Seq<char>,
    pub effective_from: i64,
    pub utc_offset_seconds: i32,
    pub is_dst: bool,
}

impl DeepView for TransitionRecord {
    type V = TransitionView;

    open spec fn deep_view(&self) -> TransitionView {
        TransitionView {
            zone_id: self.zone_id,
            abbreviation: self.abbreviation@,
            effective_from: self.effective_from,
            utc_offset_seconds: self.utc_offset_seconds,
            is_dst: self.is_dst,
        }
    }
}

impl View for TransitionRecord {
    type V = TransitionView;

    open spec fn view(&self) -> TransitionView {
        self.deep_view()
    }
}

} // verus!
