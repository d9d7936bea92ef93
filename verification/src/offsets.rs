//! From a zone's name and an instant to the offset from UTC that was in
//! force in the zone at that instant.

use crate::gazetteer::alias_named;
use crate::records::{AliasView, ZoneView};
use crate::scan::first_index;
use crate::store::{ReferenceData, ReferenceView};
use crate::text::{chars_of, ends_with, has_suffix, underscore, underscored};
use vstd::prelude::*;

verus! {

/// The text that zone names are held against for `query`: the suffix of the
/// first alias named `query`, or else `query` with underscores for spaces.
pub open spec fn zone_suffix(aliases: Seq<AliasView>, query: Seq<char>) -> Seq<char> {
    match first_index(aliases, alias_named(query)) {
        Some(a) => aliases[a].canonical_zone_suffix,
        None => underscored(query),
    }
}

/// Whether `zone_id` is the identifier of a zone whose canonical name ends
/// with `suffix`.
pub open spec fn is_candidate(zones: Seq<ZoneView>, suffix: Seq<char>, zone_id: u32) -> bool {
    exists|k: int|
        0 <= k < zones.len() && (#[trigger] zones[k]).zone_id == zone_id && ends_with(
            zones[k].canonical_name,
            suffix,
        )
}

/// Whether transition `i` belongs to a candidate zone and took effect at
/// `at` or before.
pub open spec fn qualifies(data: ReferenceView, suffix: Seq<char>, at: i64, i: int) -> bool {
    &&& 0 <= i < data.transitions.len()
    &&& is_candidate(data.zones, suffix, data.transitions[i].zone_id)
    &&& data.transitions[i].effective_from <= at
}

/// Whether transition `i` leads the first `n` transitions: it qualifies,
/// none of them that qualifies took effect later, and of those that took
/// effect at the same instant it stands first in the table.
pub open spec fn leads(data: ReferenceView, suffix: Seq<char>, at: i64, n: int, i: int) -> bool {
    &&& i < n
    &&& qualifies(data, suffix, at, i)
    &&& forall|j: int|
        j < n && #[trigger] qualifies(data, suffix, at, j) ==> {
            ||| data.transitions[j].effective_from < data.transitions[i].effective_from
            ||| data.transitions[j].effective_from == data.transitions[i].effective_from && i
                <= j
        }
}

/// Whether transition `i` is the one in force at `at`.
pub open spec fn is_selected(data: ReferenceView, suffix: Seq<char>, at: i64, i: int) -> bool {
    leads(data, suffix, at, data.transitions.len() as int, i)
}

/// The transition in force at `at` in the zones that `suffix` matches, if
/// any of their transitions took effect by then.
pub open spec fn selected(data: ReferenceView, suffix: Seq<char>, at: i64) -> Option<int> {
    if exists|i: int| is_selected(data, suffix, at, i) {
        Some(choose|i: int| is_selected(data, suffix, at, i))
    } else {
        None
    }
}

/// The offset from UTC, in seconds, in force at `at` in the zones that
/// `query` names.
pub open spec fn offset_at(data: ReferenceView, query: Seq<char>, at: i64) -> Option<i32> {
    match selected(data, zone_suffix(data.aliases, query), at) {
        Some(i) => Some(data.transitions[i].utc_offset_seconds),
        None => None,
    }
}

/// Only one transition can be the one in force.
pub proof fn lemma_selected_found(data: ReferenceView, suffix: Seq<char>, at: i64, i: int)
    requires
        is_selected(data, suffix, at, i),
    ensures
        selected(data, suffix, at) == Some(i),
{
    let c = choose|c: int| is_selected(data, suffix, at, c);
    assert(is_selected(data, suffix, at, c));
    assert(qualifies(data, suffix, at, c));
    assert(qualifies(data, suffix, at, i));
}

/// Among the first `n` transitions, one leads as soon as one qualifies.
proof fn lemma_leader_exists(data: ReferenceView, suffix: Seq<char>, at: i64, n: int) -> (b: int)
    requires
        0 <= n <= data.transitions.len(),
        exists|j: int| j < n && qualifies(data, suffix, at, j),
    ensures
        leads(data, suffix, at, n, b),
    decreases n,
{
    let last = n - 1;
    if exists|j: int| j < last && qualifies(data, suffix, at, j) {
        let before = lemma_leader_exists(data, suffix, at, last);
        if qualifies(data, suffix, at, last) && data.transitions[last].effective_from
            > data.transitions[before].effective_from {
            last
        } else {
            before
        }
    } else {
        let j = choose|j: int| j < n && qualifies(data, suffix, at, j);
        assert(j == last);
        last
    }
}

/// A transition is in force exactly when some transition qualifies.
pub proof fn lemma_selected_exists(data: ReferenceView, suffix: Seq<char>, at: i64)
    ensures
        selected(data, suffix, at) is Some <==> exists|j: int| qualifies(data, suffix, at, j),
        selected(data, suffix, at) matches Some(i) ==> is_selected(data, suffix, at, i),
{
    if exists|j: int| qualifies(data, suffix, at, j) {
        let j = choose|j: int| qualifies(data, suffix, at, j);
        assert(j < data.transitions.len() && qualifies(data, suffix, at, j));
        let b = lemma_leader_exists(data, suffix, at, data.transitions.len() as int);
        lemma_selected_found(data, suffix, at, b);
    }
    if selected(data, suffix, at) is Some {
        let i = selected(data, suffix, at)->0;
        assert(is_selected(data, suffix, at, i));
        assert(qualifies(data, suffix, at, i));
    }
}

/// The offset returned is that of the qualifying transition that took
/// effect last, in whole seconds as the table has it.
pub proof fn lemma_offset_is_latest(data: ReferenceView, query: Seq<char>, at: i64)
    ensures
        match offset_at(data, query, at) {
            Some(offset) => exists|i: int|
                {
                    &&& #[trigger] qualifies(data, zone_suffix(data.aliases, query), at, i)
                    &&& offset == data.transitions[i].utc_offset_seconds
                    &&& forall|j: int| #[trigger]
                        qualifies(data, zone_suffix(data.aliases, query), at, j)
                            ==> data.transitions[j].effective_from
                            <= data.transitions[i].effective_from
                },
            None => forall|j: int| !qualifies(data, zone_suffix(data.aliases, query), at, j),
        },
{
    let suffix = zone_suffix(data.aliases, query);
    lemma_selected_exists(data, suffix, at);
    if selected(data, suffix, at) is Some {
        let i = selected(data, suffix, at)->0;
        assert(qualifies(data, suffix, at, i));
    }
}

/// Selection follows time: where a transition is in force at `earlier`, one
/// is in force at every later instant, and it did not take effect before
/// the first.
pub proof fn lemma_selection_is_monotonic(
    data: ReferenceView,
    query: Seq<char>,
    earlier: i64,
    later: i64,
)
    requires
        earlier < later,
        offset_at(data, query, earlier) is Some,
    ensures
        offset_at(data, query, later) is Some,
        data.transitions[selected(
            data,
            zone_suffix(data.aliases, query),
            earlier,
        )->0].effective_from <= data.transitions[selected(
            data,
            zone_suffix(data.aliases, query),
            later,
        )->0].effective_from,
{
    let suffix = zone_suffix(data.aliases, query);
    lemma_selected_exists(data, suffix, earlier);
    let a = selected(data, suffix, earlier)->0;
    assert(qualifies(data, suffix, earlier, a));
    assert(qualifies(data, suffix, later, a));
    lemma_selected_exists(data, suffix, later);
}

/// Before the first transition of the zones that `query` names, the offset
/// is unknown.
pub proof fn lemma_unknown_before_first_transition(data: ReferenceView, query: Seq<char>, at: i64)
    requires
        forall|i: int|
            0 <= i < data.transitions.len() && is_candidate(
                data.zones,
                zone_suffix(data.aliases, query),
                (#[trigger] data.transitions[i]).zone_id,
            ) ==> at < data.transitions[i].effective_from,
    ensures
        offset_at(data, query, at) is None,
{
    let suffix = zone_suffix(data.aliases, query);
    lemma_selected_exists(data, suffix, at);
    if selected(data, suffix, at) is Some {
        let i = selected(data, suffix, at)->0;
        assert(qualifies(data, suffix, at, i));
        assert(at < data.transitions[i].effective_from);
    }
}

/// Whether `id` is among `ids`.
fn is_among(ids: &Vec<u32>, id: u32) -> (b: bool)
    ensures
        b == ids@.contains(id),
{
    let mut k: usize = 0;
    while k < ids.len()
        invariant
            k <= ids.len(),
            forall|j: int| 0 <= j < k ==> ids@[j] != id,
        decreases ids.len() - k,
    {
        if ids[k] == id {
            return true;
        }
        k += 1;
    }
    false
}

impl ReferenceData {
    /// The text that zone names are held against for `query`.
    fn suffix_for(&self, query: &str) -> (suffix: Vec<char>)
        ensures
            suffix@ == zone_suffix(self@.aliases, query@),
    {
        let key: String = query.to_owned();
        match self.find_alias(&key) {
            Some(a) => chars_of(self.aliases[a].canonical_zone_suffix.as_str()),
            None => {
                let chars = chars_of(query);
                underscore(chars.as_slice())
            },
        }
    }

    /// The identifiers of the zones whose canonical name ends with `suffix`.
    fn candidates(&self, suffix: &Vec<char>) -> (ids: Vec<u32>)
        ensures
            forall|id: u32| ids@.contains(id) <==> is_candidate(self@.zones, suffix@, id),
    {
        let mut ids: Vec<u32> = Vec::new();
        let mut k: usize = 0;
        while k < self.zones.len()
            invariant
                k <= self.zones.len(),
                forall|id: u32|
                    ids@.contains(id) <==> is_candidate(self@.zones.take(k as int), suffix@, id),
            decreases self.zones.len() - k,
        {
            let name = chars_of(self.zones[k].canonical_name.as_str());
            let matches = has_suffix(name.as_slice(), suffix.as_slice());
            let ghost before = ids@;
            if matches {
                ids.push(self.zones[k].zone_id);
            }
            proof {
                let shorter = self@.zones.take(k as int);
                let longer = self@.zones.take(k + 1);
                assert forall|id: u32|
                    ids@.contains(id) <==> is_candidate(longer, suffix@, id) by {
                    if ids@.contains(id) {
                        if before.contains(id) {
                            let w = choose|w: int|
                                0 <= w < shorter.len() && (#[trigger] shorter[w]).zone_id == id
                                    && ends_with(shorter[w].canonical_name, suffix@);
                            assert(longer[w] == shorter[w]);
                        } else {
                            assert(matches && id == self@.zones[k as int].zone_id);
                            assert(longer[k as int] == self@.zones[k as int]);
                        }
                    }
                    if is_candidate(longer, suffix@, id) {
                        let w = choose|w: int|
                            0 <= w < longer.len() && (#[trigger] longer[w]).zone_id == id
                                && ends_with(longer[w].canonical_name, suffix@);
                        if w < k {
                            assert(shorter[w] == longer[w]);
                            assert(before.contains(id));
                            assert(ids@[before.index_of(id)] == id);
                        } else {
                            assert(matches);
                            assert(ids@[ids@.len() - 1] == id);
                        }
                    }
                }
            }
            k += 1;
        }
        assert(self@.zones.take(k as int) =~= self@.zones);
        ids
    }

    /// The offset from UTC, in whole seconds, that was in force at
    /// `target_instant` in the zones that `zone_query` names.
    ///
    /// Where an alias bears the query's name, its suffix stands for the
    /// query; otherwise the query with underscores for spaces does. Every
    /// zone whose canonical name ends with that text is a candidate. Of the
    /// candidates' transitions that took effect at `target_instant` or
    /// before, the one that took effect last decides, and among several of
    /// the same instant the first in the table. Where there is none, the
    /// offset is unknown, which is not an offset of zero.
    pub fn resolve_offset(&self, zone_query: &str, target_instant: i64) -> (r: Option<i32>)
        ensures
            r == offset_at(self@, zone_query@, target_instant),
    {
        let suffix = self.suffix_for(zone_query);
        let ids = self.candidates(&suffix);
        let mut best: Option<usize> = None;
        let mut i: usize = 0;
        while i < self.transitions.len()
            invariant
                i <= self.transitions.len(),
                forall|id: u32| ids@.contains(id) <==> is_candidate(self@.zones, suffix@, id),
                match best {
                    Some(b) => leads(self@, suffix@, target_instant, i as int, b as int),
                    None => forall|j: int| j < i ==> !qualifies(self@, suffix@, target_instant, j),
                },
            decreases self.transitions.len() - i,
        {
            let t = &self.transitions[i];
            assert(self@.transitions[i as int] == t.deep_view());
            if t.effective_from <= target_instant && is_among(&ids, t.zone_id) {
                assert(qualifies(self@, suffix@, target_instant, i as int));
                match best {
                    Some(b) => {
                        assert(self@.transitions[b as int] == self.transitions[b as int].deep_view());
                        if t.effective_from > self.transitions[b].effective_from {
                            best = Some(i);
                        }
                    },
                    None => {
                        best = Some(i);
                    },
                }
            }
            i += 1;
        }
        match best {
            Some(b) => {
                proof {
                    lemma_selected_found(self@, suffix@, target_instant, b as int);
                }
                Some(self.transitions[b].utc_offset_seconds)
            },
            None => {
                proof {
                    lemma_selected_exists(self@, suffix@, target_instant);
                }
                None
            },
        }
    }
}

} // verus!
