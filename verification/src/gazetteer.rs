//! From a place's name to its coordinates.

use crate::records::{AliasView, CityView, OverrideView};
use crate::scan::{
    first_index, is_first, lemma_first_index, lemma_first_index_absent, lemma_first_index_found,
};
use crate::store::{ReferenceData, ReferenceView};
use crate::text::{trim, trimmed};
use vstd::prelude::*;

verus! {

/// Which table a place was found in.
#[derive(Clone, Copy, Debug, PartialEq, Eq, Structural)]
pub enum PlaceSource {
    Override,
    City,
}

/// What the gazetteer knows of a name.
#[derive(Clone, Debug, PartialEq, Eq)]
pub struct Place {
    pub latitude: i64,
    pub longitude: i64,
    /// A text to find the place's zone by.
    pub zone_hint: String,
    pub source: PlaceSource,
}

/// A place, as specifications see it.
pub struct PlaceView {
    pub latitude: i64,
    pub longitude: i64,
    pub zone_hint: Seq<char>,
    pub source: PlaceSource,
}

impl DeepView for Place {
    type V = PlaceView;

    open spec fn deep_view(&self) -> PlaceView {
        PlaceView {
            latitude: self.latitude,
            longitude: self.longitude,
            zone_hint: self.zone_hint@,
            source: self.source,
        }
    }
}

impl View for Place {
    type V = PlaceView;

    open spec fn view(&self) -> PlaceView {
        self.deep_view()
    }
}

/// The overrides whose name is `name`.
pub open spec fn override_named(name: Seq<char>) -> spec_fn(OverrideView) -> bool {
    |o: OverrideView| o.name == name
}

/// The aliases whose name is `name`.
pub open spec fn alias_named(name: Seq<char>) -> spec_fn(AliasView) -> bool {
    |a: AliasView| a.alias_name == name
}

/// The cities that go by `name`, in either spelling.
pub open spec fn city_named(name: Seq<char>) -> spec_fn(CityView) -> bool {
    |c: CityView| c.city_name == name || c.ascii_name == name
}

/// The zone hint of a city found under `key`: the suffix of the first alias
/// of that name, or else the name itself.
pub open spec fn city_zone_hint(aliases: Seq<AliasView>, key: Seq<char>) -> Seq<char> {
    match first_index(aliases, alias_named(key)) {
        Some(a) => aliases[a].canonical_zone_suffix,
        None => key,
    }
}

/// The place that `name` stands for. The name counts without the white
/// space around it and is compared exactly. The first override of that name
/// decides; where there is none, the first city of that name.
pub open spec fn place_of(data: ReferenceView, name: Seq<char>) -> Option<PlaceView> {
    let key = trimmed(name);
    match first_index(data.overrides, override_named(key)) {
        Some(i) => Some(
            PlaceView {
                latitude: data.overrides[i].latitude,
                longitude: data.overrides[i].longitude,
                zone_hint: data.overrides[i].zone_reference,
                source: PlaceSource::Override,
            },
        ),
        None => match first_index(data.cities, city_named(key)) {
            Some(i) => Some(
                PlaceView {
                    latitude: data.cities[i].latitude,
                    longitude: data.cities[i].longitude,
                    zone_hint: city_zone_hint(data.aliases, key),
                    source: PlaceSource::City,
                },
            ),
            None => None,
        },
    }
}

/// An override goes before every city: where an override bears the name, the
/// place is that of the first such override, whatever the city table holds.
pub proof fn lemma_override_wins(data: ReferenceView, name: Seq<char>, i: int)
    requires
        0 <= i < data.overrides.len(),
        data.overrides[i].name == trimmed(name),
    ensures
        first_index(data.overrides, override_named(trimmed(name))) matches Some(k) && k <= i
            && place_of(data, name) == Some(
            PlaceView {
                latitude: data.overrides[k].latitude,
                longitude: data.overrides[k].longitude,
                zone_hint: data.overrides[k].zone_reference,
                source: PlaceSource::Override,
            },
        ),
        forall|cities: Seq<CityView>|
            place_of(ReferenceView { cities, ..data }, name) == place_of(data, name),
{
    let p = override_named(trimmed(name));
    lemma_first_index(data.overrides, p);
    assert(p(data.overrides[i]));
}

impl ReferenceData {
    /// The first override named `key`.
    pub(crate) fn find_override(&self, key: &String) -> (r: Option<usize>)
        ensures
            match r {
                Some(i) => first_index(self@.overrides, override_named(key@)) == Some(i as int),
                None => first_index(self@.overrides, override_named(key@)) is None,
            },
    {
        let ghost p = override_named(key@);
        let mut i: usize = 0;
        while i < self.overrides.len()
            invariant
                i <= self.overrides.len(),
                p == override_named(key@),
                forall|j: int| 0 <= j < i ==> !p(#[trigger] self@.overrides[j]),
            decreases self.overrides.len() - i,
        {
            if self.overrides[i].name == *key {
                proof {
                    assert(is_first(self@.overrides, p, i as int));
                    lemma_first_index_found(self@.overrides, p, i as int);
                }
                return Some(i);
            }
            i += 1;
        }
        proof {
            lemma_first_index_absent(self@.overrides, p);
        }
        None
    }

    /// The first alias named `key`.
    pub(crate) fn find_alias(&self, key: &String) -> (r: Option<usize>)
        ensures
            match r {
                Some(i) => first_index(self@.aliases, alias_named(key@)) == Some(i as int),
                None => first_index(self@.aliases, alias_named(key@)) is None,
            },
    {
        let ghost p = alias_named(key@);
        let mut i: usize = 0;
        while i < self.aliases.len()
            invariant
                i <= self.aliases.len(),
                p == alias_named(key@),
                forall|j: int| 0 <= j < i ==> !p(#[trigger] self@.aliases[j]),
            decreases self.aliases.len() - i,
        {
            if self.aliases[i].alias_name == *key {
                proof {
                    assert(is_first(self@.aliases, p, i as int));
                    lemma_first_index_found(self@.aliases, p, i as int);
                }
                return Some(i);
            }
            i += 1;
        }
        proof {
            lemma_first_index_absent(self@.aliases, p);
        }
        None
    }

    /// The first city that goes by `key`, in either spelling.
    pub(crate) fn find_city(&self, key: &String) -> (r: Option<usize>)
        ensures
            match r {
                Some(i) => first_index(self@.cities, city_named(key@)) == Some(i as int),
                None => first_index(self@.cities, city_named(key@)) is None,
            },
    {
        let ghost p = city_named(key@);
        let mut i: usize = 0;
        while i < self.cities.len()
            invariant
                i <= self.cities.len(),
                p == city_named(key@),
                forall|j: int| 0 <= j < i ==> !p(#[trigger] self@.cities[j]),
            decreases self.cities.len() - i,
        {
            if self.cities[i].city_name == *key || self.cities[i].ascii_name == *key {
                proof {
                    assert(is_first(self@.cities, p, i as int));
                    lemma_first_index_found(self@.cities, p, i as int);
                }
                return Some(i);
            }
            i += 1;
        }
        proof {
            lemma_first_index_absent(self@.cities, p);
        }
        None
    }

    /// Looks `name` up: first among the overrides, then among the cities.
    /// A name that neither table holds gives nothing, which is no error.
    pub fn resolve_place(&self, name: &str) -> (r: Option<Place>)
        ensures
            r.deep_view() == place_of(self@, name@),
    {
        let key: String = trim(name).to_owned();
        match self.find_override(&key) {
            Some(i) => Some(
                Place {
                    latitude: self.overrides[i].latitude,
                    longitude: self.overrides[i].longitude,
                    zone_hint: self.overrides[i].zone_reference.clone(),
                    source: PlaceSource::Override,
                },
            ),
            None => match self.find_city(&key) {
                Some(i) => {
                    let zone_hint = match self.find_alias(&key) {
                        Some(a) => self.aliases[a].canonical_zone_suffix.clone(),
                        None => key,
                    };
                    Some(
                        Place {
                            latitude: self.cities[i].latitude,
                            longitude: self.cities[i].longitude,
                            zone_hint,
                            source: PlaceSource::City,
                        },
                    )
                },
                None => None,
            },
        }
    }
}

} // verus!
