//! From what the caller supplies (coordinates, a name, an offset) to one
//! resolved location.

use crate::decimal::{decimal_digits, push_decimal};
use crate::gazetteer::{override_named, place_of, PlaceSource};
use crate::offsets::offset_at;
use crate::records::DEGREE_PLACES;
use crate::scan::lemma_first_index_absent;
use crate::store::{ReferenceData, ReferenceView};
use crate::text::trimmed;
use vstd::prelude::*;
use vstd::string::StringExecFns;

verus! {

/// A location with its coordinates settled.
#[derive(Clone, Debug, PartialEq, Eq)]
pub struct ResolvedLocation {
    pub latitude: i64,
    pub longitude: i64,
    /// The name as it was given, then the coordinates in square brackets.
    pub display_label: String,
    /// The offset from UTC in seconds; `None` where it is unknown.
    pub offset_seconds: Option<i32>,
}

/// A resolved location, as specifications see it.
pub struct ResolvedView {
    pub latitude: i64,
    pub longitude: i64,
    pub display_label: Seq<char>,
    pub offset_seconds: Option<i32>,
}

impl DeepView for ResolvedLocation {
    type V = ResolvedView;

    open spec fn deep_view(&self) -> ResolvedView {
        ResolvedView {
            latitude: self.latitude,
            longitude: self.longitude,
            display_label: self.display_label@,
            offset_seconds: self.offset_seconds,
        }
    }
}

impl View for ResolvedLocation {
    type V = ResolvedView;

    open spec fn view(&self) -> ResolvedView {
        self.deep_view()
    }
}

/// No coordinates could be settled for the location with this label.
#[derive(Clone, Debug, PartialEq, Eq)]
pub struct UnresolvedLocation {
    pub label: String,
}

/// What is said of a location that could not be resolved.
pub open spec fn unresolved_message(label: Seq<char>) -> Seq<char> {
    "Location '"@ + label + "' is not recognized, and both latitude and longitude are zero."@
}

impl UnresolvedLocation {
    /// The error as a sentence, with the label in it.
    pub fn message(&self) -> (text: String)
        ensures
            text@ == unresolved_message(self.label@),
    {
        let mut text: String = "Location '".to_owned();
        text.append(self.label.as_str());
        text.append("' is not recognized, and both latitude and longitude are zero.");
        text
    }
}

/// Latitude zero with longitude zero stands for "no coordinates".
pub open spec fn is_sentinel(latitude: i64, longitude: i64) -> bool {
    latitude == 0 && longitude == 0
}

/// The label of a location: its name, a space, and in square brackets its
/// latitude and longitude in degrees with a comma between them.
pub open spec fn label_of(name: Seq<char>, latitude: i64, longitude: i64) -> Seq<char> {
    name + seq![' ', '['] + decimal_digits(latitude as int, DEGREE_PLACES as nat) + seq![',']
        + decimal_digits(longitude as int, DEGREE_PLACES as nat) + seq![']']
}

/// The offset in seconds that the caller states in hours.
pub open spec fn stated_offset(hours: Option<i32>) -> Option<i32> {
    match hours {
        Some(h) => Some((h * 3600) as i32),
        None => None,
    }
}

/// The coordinates and the offset that are settled for a request, in this
/// order of precedence: an override of the name, with the offset of its
/// zone or else the stated one; the explicit coordinates, unless both are
/// zero, with the stated offset; a city of the name, with the stated offset
/// or, where none is stated, that of the zones which the name matches.
/// Where none applies the coordinates stay zero.
pub open spec fn settled(
    data: ReferenceView,
    latitude: i64,
    longitude: i64,
    name: Seq<char>,
    hours: Option<i32>,
    at: i64,
) -> (i64, i64, Option<i32>) {
    let place = place_of(data, name);
    if place is Some && place->0.source == PlaceSource::Override {
        let offset = match offset_at(data, place->0.zone_hint, at) {
            Some(seconds) => Some(seconds),
            None => stated_offset(hours),
        };
        (place->0.latitude, place->0.longitude, offset)
    } else if !is_sentinel(latitude, longitude) {
        (latitude, longitude, stated_offset(hours))
    } else if place is Some {
        let offset = if hours is Some {
            stated_offset(hours)
        } else {
            offset_at(data, name, at)
        };
        (place->0.latitude, place->0.longitude, offset)
    } else {
        (latitude, longitude, stated_offset(hours))
    }
}

/// What a request resolves to: the settled location under its label, or,
/// where the settled coordinates are both zero, the label alone.
pub open spec fn resolution(
    data: ReferenceView,
    latitude: i64,
    longitude: i64,
    name: Seq<char>,
    hours: Option<i32>,
    at: i64,
) -> Result<ResolvedView, Seq<char>> {
    let (lat, lon, offset) = settled(data, latitude, longitude, name, hours, at);
    if is_sentinel(lat, lon) {
        Err(label_of(name, lat, lon))
    } else {
        Ok(
            ResolvedView {
                latitude: lat,
                longitude: lon,
                display_label: label_of(name, lat, lon),
                offset_seconds: offset,
            },
        )
    }
}

/// Explicit coordinates go before the city table: unless an override bears
/// the name, they are returned as given with the stated offset, whatever
/// the other tables hold.
pub proof fn lemma_explicit_coordinates_bypass_cities(
    data: ReferenceView,
    latitude: i64,
    longitude: i64,
    name: Seq<char>,
    hours: Option<i32>,
    at: i64,
)
    requires
        !is_sentinel(latitude, longitude),
        forall|i: int|
            0 <= i < data.overrides.len() ==> (#[trigger] data.overrides[i]).name != trimmed(name),
    ensures
        resolution(data, latitude, longitude, name, hours, at) == Ok::<ResolvedView, Seq<char>>(
            ResolvedView {
                latitude,
                longitude,
                display_label: label_of(name, latitude, longitude),
                offset_seconds: stated_offset(hours),
            },
        ),
{
    let p = override_named(trimmed(name));
    lemma_first_index_absent(data.overrides, p);
}

/// A name that the gazetteer does not know, given without coordinates, is
/// unresolved.
pub proof fn lemma_unknown_name_without_coordinates_is_unresolved(
    data: ReferenceView,
    name: Seq<char>,
    hours: Option<i32>,
    at: i64,
)
    requires
        place_of(data, name) is None,
    ensures
        resolution(data, 0, 0, name, hours, at) == Err::<ResolvedView, Seq<char>>(
            label_of(name, 0, 0),
        ),
{
}

/// No resolved location lies at latitude zero and longitude zero.
pub proof fn lemma_resolved_is_never_sentinel(
    data: ReferenceView,
    latitude: i64,
    longitude: i64,
    name: Seq<char>,
    hours: Option<i32>,
    at: i64,
)
    ensures
        resolution(data, latitude, longitude, name, hours, at) matches Ok(location)
            ==> !is_sentinel(location.latitude, location.longitude),
{
}

/// The label of a location.
pub fn display_label(name: &str, latitude: i64, longitude: i64) -> (label: String)
    ensures
        label@ == label_of(name@, latitude, longitude),
{
    proof {
        reveal_strlit(" [");
        reveal_strlit(",");
        reveal_strlit("]");
    }
    let mut label: String = name.to_owned();
    label.append(" [");
    assert(label@ =~= name@ + seq![' ', '[']);
    push_decimal(&mut label, latitude, DEGREE_PLACES);
    label.append(",");
    push_decimal(&mut label, longitude, DEGREE_PLACES);
    label.append("]");
    assert(label@ =~= label_of(name@, latitude, longitude));
    label
}

impl ReferenceData {
    /// Resolves a request to one location.
    ///
    /// `explicit_latitude` and `explicit_longitude` count as given unless
    /// both are zero. The result is an error exactly where the coordinates
    /// that are settled are both zero; an offset that cannot be found is no
    /// error, and is returned as `None`.
    pub fn resolve(
        &self,
        explicit_latitude: i64,
        explicit_longitude: i64,
        name: &str,
        explicit_utc_offset_hours: Option<i32>,
        target_instant: i64,
    ) -> (r: Result<ResolvedLocation, UnresolvedLocation>)
        requires
            explicit_utc_offset_hours matches Some(h) ==> i32::MIN <= h * 3600 <= i32::MAX,
        ensures
            match r {
                Ok(location) => resolution(
                    self@,
                    explicit_latitude,
                    explicit_longitude,
                    name@,
                    explicit_utc_offset_hours,
                    target_instant,
                ) == Ok::<ResolvedView, Seq<char>>(location@),
                Err(e) => resolution(
                    self@,
                    explicit_latitude,
                    explicit_longitude,
                    name@,
                    explicit_utc_offset_hours,
                    target_instant,
                ) == Err::<ResolvedView, Seq<char>>(e.label@),
            },
    {
        let stated: Option<i32> = match explicit_utc_offset_hours {
            Some(h) => Some(h * 3600),
            None => None,
        };
        let given = !(explicit_latitude == 0 && explicit_longitude == 0);
        let (latitude, longitude, offset_seconds) = match self.resolve_place(name) {
            Some(place) => {
                if place.source == PlaceSource::Override {
                    let offset = match self.resolve_offset(place.zone_hint.as_str(), target_instant) {
                        Some(seconds) => Some(seconds),
                        None => stated,
                    };
                    (place.latitude, place.longitude, offset)
                } else if given {
                    (explicit_latitude, explicit_longitude, stated)
                } else {
                    let offset = if stated.is_some() {
                        stated
                    } else {
                        self.resolve_offset(name, target_instant)
                    };
                    (place.latitude, place.longitude, offset)
                }
            },
            None => (explicit_latitude, explicit_longitude, stated),
        };
        let label = display_label(name, latitude, longitude);
        if latitude == 0 && longitude == 0 {
            Err(UnresolvedLocation { label })
        } else {
            Ok(ResolvedLocation { latitude, longitude, display_label: label, offset_seconds })
        }
    }
}

} // verus!
