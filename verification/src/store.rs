//! The reference tables, loaded once and never changed.

use crate::delimited::{csv_records, read_rows, rows_of};
use crate::records::{
    AliasView, CityRecord, CityView, OverrideView, PlaceOverride, TimezoneAlias, TransitionRecord,
    TransitionView, ZoneRecord, ZoneView,
};
use crate::scan::{
    first_index, is_first, lemma_first_index, lemma_first_index_absent, lemma_first_index_found,
};
use crate::schema::{DataCorrupt, RowFault, Table, TableRow};
use vstd::prelude::*;

verus! {

/// What the five tables hold.
pub struct ReferenceView {
    pub cities: Seq<CityView>,
    pub zones: Seq<ZoneView>,
    pub transitions: Seq<TransitionView>,
    pub overrides: Seq<OverrideView>,
    pub aliases: Seq<AliasView>,
}

/// Whether one of `zones` has the identifier `zone_id`.
pub open spec fn knows_zone(zones: Seq<ZoneView>, zone_id: u32) -> bool {
    exists|k: int| 0 <= k < zones.len() && (#[trigger] zones[k]).zone_id == zone_id
}

impl ReferenceView {
    /// Every transition belongs to a zone of the zone table.
    pub open spec fn intact(self) -> bool {
        forall|i: int|
            0 <= i < self.transitions.len() ==> knows_zone(
                self.zones,
                (#[trigger] self.transitions[i]).zone_id,
            )
    }
}

/// The reference tables as one snapshot, in which every transition belongs
/// to a zone of the zone table.
pub struct ReferenceData {
    pub(crate) cities: Vec<CityRecord>,
    pub(crate) zones: Vec<ZoneRecord>,
    pub(crate) transitions: Vec<TransitionRecord>,
    pub(crate) overrides: Vec<PlaceOverride>,
    pub(crate) aliases: Vec<TimezoneAlias>,
}

impl View for ReferenceData {
    type V = ReferenceView;

    open(crate) spec fn view(&self) -> ReferenceView {
        ReferenceView {
            cities: self.cities.deep_view(),
            zones: self.zones.deep_view(),
            transitions: self.transitions.deep_view(),
            overrides: self.overrides.deep_view(),
            aliases: self.aliases.deep_view(),
        }
    }
}

/// The transitions that name a zone which is not among `zones`.
pub open spec fn lacks_zone(zones: Seq<ZoneView>) -> spec_fn(TransitionView) -> bool {
    |t: TransitionView| !knows_zone(zones, t.zone_id)
}

/// The snapshot that the five tables make, or the first transition that
/// names a zone which is not there.
pub open spec fn snapshot_of(
    cities: Seq<CityView>,
    zones: Seq<ZoneView>,
    transitions: Seq<TransitionView>,
    overrides: Seq<OverrideView>,
    aliases: Seq<AliasView>,
) -> Result<ReferenceView, DataCorrupt> {
    match first_index(transitions, lacks_zone(zones)) {
        Some(row) => Err(DataCorrupt::UnknownZone { row: row as usize }),
        None => Ok(ReferenceView { cities, zones, transitions, overrides, aliases }),
    }
}

/// Five tables make a snapshot exactly where every transition belongs to a
/// zone of the zone table.
pub proof fn lemma_snapshot_is_intact(
    cities: Seq<CityView>,
    zones: Seq<ZoneView>,
    transitions: Seq<TransitionView>,
    overrides: Seq<OverrideView>,
    aliases: Seq<AliasView>,
)
    ensures
        snapshot_of(cities, zones, transitions, overrides, aliases) is Ok <==> (ReferenceView {
            cities,
            zones,
            transitions,
            overrides,
            aliases,
        }).intact(),
{
    let unknown = lacks_zone(zones);
    let view = ReferenceView { cities, zones, transitions, overrides, aliases };
    lemma_first_index(transitions, unknown);
    if first_index(transitions, unknown) is Some {
        let row = first_index(transitions, unknown)->0;
        assert(unknown(transitions[row]));
        assert(!knows_zone(view.zones, view.transitions[row].zone_id));
    } else {
        assert forall|i: int| 0 <= i < view.transitions.len() implies knows_zone(
            view.zones,
            (#[trigger] view.transitions[i]).zone_id,
        ) by {
            assert(!unknown(transitions[i]));
        }
    }
}

/// The error for a row of `table` that is no record.
pub open spec fn corruption(table: Table, row: int, fault: RowFault) -> DataCorrupt {
    match fault {
        RowFault::ColumnCount => DataCorrupt::ColumnCount { table, row: row as usize },
        RowFault::Field { column } => DataCorrupt::FieldType { table, row: row as usize, column },
    }
}

/// The rows that are no records of `R`.
pub open spec fn is_faulty<R: TableRow>() -> spec_fn(Seq<Seq<char>>) -> bool {
    |row: Seq<Seq<char>>| R::of_row(row) is Err
}

/// The records that `rows` hold, or the fault of the first row that is no
/// record.
pub open spec fn records_of<R: TableRow>(rows: Seq<Seq<Seq<char>>>) -> Result<
    Seq<<R as DeepView>::V>,
    DataCorrupt,
> {
    match first_index(rows, is_faulty::<R>()) {
        Some(i) => Err(corruption(R::table(), i, R::of_row(rows[i])->Err_0)),
        None => Ok(Seq::new(rows.len(), |i: int| R::of_row(rows[i])->Ok_0)),
    }
}

/// The records of a table as it was read, where `None` stands for a table
/// whose text could not be read.
pub open spec fn table_of<R: TableRow>(read: Option<Seq<Seq<Seq<char>>>>) -> Result<
    Seq<<R as DeepView>::V>,
    DataCorrupt,
> {
    match read {
        Some(rows) => records_of::<R>(rows),
        None => Err(DataCorrupt::Unreadable { table: R::table() }),
    }
}

/// The snapshot that five tables make as they were read. The first table
/// that is at fault decides the error, in the order cities, zones,
/// transitions, overrides, aliases; a transition without a zone comes last.
pub open spec fn loaded(
    cities: Option<Seq<Seq<Seq<char>>>>,
    zones: Option<Seq<Seq<Seq<char>>>>,
    transitions: Option<Seq<Seq<Seq<char>>>>,
    overrides: Option<Seq<Seq<Seq<char>>>>,
    aliases: Option<Seq<Seq<Seq<char>>>>,
) -> Result<ReferenceView, DataCorrupt> {
    match table_of::<CityRecord>(cities) {
        Err(e) => Err(e),
        Ok(c) => match table_of::<ZoneRecord>(zones) {
            Err(e) => Err(e),
            Ok(z) => match table_of::<TransitionRecord>(transitions) {
                Err(e) => Err(e),
                Ok(t) => match table_of::<PlaceOverride>(overrides) {
                    Err(e) => Err(e),
                    Ok(o) => match table_of::<TimezoneAlias>(aliases) {
                        Err(e) => Err(e),
                        Ok(a) => snapshot_of(c, z, t, o, a),
                    },
                },
            },
        },
    }
}

/// The error for a row of `table` that is no record.
fn corrupt(table: Table, row: usize, fault: RowFault) -> (e: DataCorrupt)
    ensures
        e == corruption(table, row as int, fault),
{
    match fault {
        RowFault::ColumnCount => DataCorrupt::ColumnCount { table, row },
        RowFault::Field { column } => DataCorrupt::FieldType { table, row, column },
    }
}

/// Reads the records of a table from its rows. The first row that is no
/// record ends the reading with its fault.
pub fn parse_table<R: TableRow>(rows: &Vec<Vec<String>>) -> (r: Result<Vec<R>, DataCorrupt>)
    ensures
        match r {
            Ok(records) => records_of::<R>(rows.deep_view()) == Ok::<
                Seq<<R as DeepView>::V>,
                DataCorrupt,
            >(records.deep_view()),
            Err(e) => records_of::<R>(rows.deep_view()) == Err::<
                Seq<<R as DeepView>::V>,
                DataCorrupt,
            >(e),
        },
{
    let ghost faulty = is_faulty::<R>();
    let mut records: Vec<R> = Vec::new();
    let mut i: usize = 0;
    while i < rows.len()
        invariant
            i <= rows.len(),
            records.len() == i,
            faulty == is_faulty::<R>(),
            forall|j: int|
                0 <= j < i ==> R::of_row(#[trigger] rows.deep_view()[j]) == Ok::<
                    <R as DeepView>::V,
                    RowFault,
                >(records@[j].deep_view()),
        decreases rows.len() - i,
    {
        assert(rows.deep_view()[i as int] == rows@[i as int].deep_view());
        match R::from_row(&rows[i]) {
            Ok(record) => {
                records.push(record);
            },
            Err(fault) => {
                proof {
                    assert(is_first(rows.deep_view(), faulty, i as int));
                    lemma_first_index_found(rows.deep_view(), faulty, i as int);
                }
                return Err(corrupt(R::table_of(), i, fault));
            },
        }
        i += 1;
    }
    proof {
        lemma_first_index_absent(rows.deep_view(), faulty);
        assert(records.deep_view() =~= Seq::new(
            rows.deep_view().len(),
            |i: int| R::of_row(rows.deep_view()[i])->Ok_0,
        ));
    }
    Ok(records)
}

/// Reads the records of a table as it was read.
fn read_table<R: TableRow>(read: &Option<Vec<Vec<String>>>) -> (r: Result<Vec<R>, DataCorrupt>)
    ensures
        match r {
            Ok(records) => table_of::<R>(read.deep_view()) == Ok::<
                Seq<<R as DeepView>::V>,
                DataCorrupt,
            >(records.deep_view()),
            Err(e) => table_of::<R>(read.deep_view()) == Err::<
                Seq<<R as DeepView>::V>,
                DataCorrupt,
            >(e),
        },
{
    match read {
        Some(rows) => parse_table::<R>(rows),
        None => Err(DataCorrupt::Unreadable { table: R::table_of() }),
    }
}

/// Whether one of `zones` has the identifier `zone_id`.
fn has_zone(zones: &Vec<ZoneRecord>, zone_id: u32) -> (b: bool)
    ensures
        b == knows_zone(zones.deep_view(), zone_id),
{
    let mut k: usize = 0;
    while k < zones.len()
        invariant
            k <= zones.len(),
            forall|j: int| 0 <= j < k ==> (#[trigger] zones.deep_view()[j]).zone_id != zone_id,
        decreases zones.len() - k,
    {
        if zones[k].zone_id == zone_id {
            assert(zones.deep_view()[k as int].zone_id == zone_id);
            return true;
        }
        k += 1;
    }
    false
}

impl ReferenceData {
    #[verifier::type_invariant]
    spec fn holds_together(self) -> bool {
        self@.intact()
    }

    /// Makes a snapshot of the five tables. It is refused where a transition
    /// names a zone that the zone table lacks; the error names the first
    /// such transition.
    pub fn new(
        cities: Vec<CityRecord>,
        zones: Vec<ZoneRecord>,
        transitions: Vec<TransitionRecord>,
        overrides: Vec<PlaceOverride>,
        aliases: Vec<TimezoneAlias>,
    ) -> (r: Result<ReferenceData, DataCorrupt>)
        ensures
            match r {
                Ok(data) => snapshot_of(
                    cities.deep_view(),
                    zones.deep_view(),
                    transitions.deep_view(),
                    overrides.deep_view(),
                    aliases.deep_view(),
                ) == Ok::<ReferenceView, DataCorrupt>(data@) && data@.intact(),
                Err(e) => snapshot_of(
                    cities.deep_view(),
                    zones.deep_view(),
                    transitions.deep_view(),
                    overrides.deep_view(),
                    aliases.deep_view(),
                ) == Err::<ReferenceView, DataCorrupt>(e),
            },
    {
        let ghost unknown = lacks_zone(zones.deep_view());
        let mut i: usize = 0;
        while i < transitions.len()
            invariant
                i <= transitions.len(),
                unknown == lacks_zone(zones.deep_view()),
                forall|j: int| 0 <= j < i ==> !unknown(#[trigger] transitions.deep_view()[j]),
            decreases transitions.len() - i,
        {
            if !has_zone(&zones, transitions[i].zone_id) {
                proof {
                    assert(is_first(transitions.deep_view(), unknown, i as int));
                    lemma_first_index_found(transitions.deep_view(), unknown, i as int);
                }
                return Err(DataCorrupt::UnknownZone { row: i });
            }
            i += 1;
        }
        proof {
            lemma_first_index_absent(transitions.deep_view(), unknown);
        }
        Ok(ReferenceData { cities, zones, transitions, overrides, aliases })
    }

    /// Makes a snapshot of the five tables as they were read, each a list of
    /// rows of fields; `None` stands for a table whose text could not be
    /// read. The city table comes without its header.
    pub fn from_tables(
        cities: Option<Vec<Vec<String>>>,
        zones: Option<Vec<Vec<String>>>,
        transitions: Option<Vec<Vec<String>>>,
        overrides: Option<Vec<Vec<String>>>,
        aliases: Option<Vec<Vec<String>>>,
    ) -> (r: Result<ReferenceData, DataCorrupt>)
        ensures
            match r {
                Ok(data) => loaded(
                    cities.deep_view(),
                    zones.deep_view(),
                    transitions.deep_view(),
                    overrides.deep_view(),
                    aliases.deep_view(),
                ) == Ok::<ReferenceView, DataCorrupt>(data@) && data@.intact(),
                Err(e) => loaded(
                    cities.deep_view(),
                    zones.deep_view(),
                    transitions.deep_view(),
                    overrides.deep_view(),
                    aliases.deep_view(),
                ) == Err::<ReferenceView, DataCorrupt>(e),
            },
    {
        let c = match read_table::<CityRecord>(&cities) {
            Ok(records) => records,
            Err(e) => {
                return Err(e);
            },
        };
        let z = match read_table::<ZoneRecord>(&zones) {
            Ok(records) => records,
            Err(e) => {
                return Err(e);
            },
        };
        let t = match read_table::<TransitionRecord>(&transitions) {
            Ok(records) => records,
            Err(e) => {
                return Err(e);
            },
        };
        let o = match read_table::<PlaceOverride>(&overrides) {
            Ok(records) => records,
            Err(e) => {
                return Err(e);
            },
        };
        let a = match read_table::<TimezoneAlias>(&aliases) {
            Ok(records) => records,
            Err(e) => {
                return Err(e);
            },
        };
        ReferenceData::new(c, z, t, o, a)
    }

    /// Loads the five tables from delimited text. The city table begins
    /// with a header line; the others do not. Any fault refuses the whole
    /// load. What records the text holds is for the csv crate to say; what
    /// becomes of them is stated here.
    pub fn load(
        cities: &[u8],
        zones: &[u8],
        transitions: &[u8],
        overrides: &[u8],
        aliases: &[u8],
    ) -> (r: Result<ReferenceData, DataCorrupt>)
        ensures
            match r {
                Ok(data) => loaded(
                    rows_of(csv_records(cities@, true)),
                    rows_of(csv_records(zones@, false)),
                    rows_of(csv_records(transitions@, false)),
                    rows_of(csv_records(overrides@, false)),
                    rows_of(csv_records(aliases@, false)),
                ) == Ok::<ReferenceView, DataCorrupt>(data@) && data@.intact(),
                Err(e) => loaded(
                    rows_of(csv_records(cities@, true)),
                    rows_of(csv_records(zones@, false)),
                    rows_of(csv_records(transitions@, false)),
                    rows_of(csv_records(overrides@, false)),
                    rows_of(csv_records(aliases@, false)),
                ) == Err::<ReferenceView, DataCorrupt>(e),
            },
    {
        ReferenceData::from_tables(
            read_rows(cities, true),
            read_rows(zones, false),
            read_rows(transitions, false),
            read_rows(overrides, false),
            read_rows(aliases, false),
        )
    }

    /// The city table.
    pub fn cities(&self) -> (table: &Vec<CityRecord>)
        ensures
            table.deep_view() == self@.cities,
    {
        &self.cities
    }

    /// The zone table.
    pub fn zones(&self) -> (table: &Vec<ZoneRecord>)
        ensures
            table.deep_view() == self@.zones,
    {
        &self.zones
    }

    /// The transition table, each row of which belongs to a zone of the
    /// zone table.
    pub fn transitions(&self) -> (table: &Vec<TransitionRecord>)
        ensures
            table.deep_view() == self@.transitions,
            self@.intact(),
    {
        proof {
            use_type_invariant(self);
        }
        &self.transitions
    }

    /// The override table.
    pub fn overrides(&self) -> (table: &Vec<PlaceOverride>)
        ensures
            table.deep_view() == self@.overrides,
    {
        &self.overrides
    }

    /// The alias table.
    pub fn aliases(&self) -> (table: &Vec<TimezoneAlias>)
        ensures
            table.deep_view() == self@.aliases,
    {
        &self.aliases
    }
}

} // verus!
