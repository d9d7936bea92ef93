//! The schema of each reference table: how a row of text becomes a record.

use crate::decimal::{
    decimal_text, integer_text, natural_digits, parse_decimal, parse_integer, push_natural,
};
use crate::records::{
    AliasView, CityRecord, CityView, OverrideView, PlaceOverride, TimezoneAlias, TransitionRecord,
    TransitionView, ZoneRecord, ZoneView, DEGREE_PLACES,
};
use crate::text::chars_of;
use vstd::prelude::*;
use vstd::string::StringExecFns;

verus! {

/// One of the five reference tables.
#[derive(Clone, Copy, Debug, PartialEq, Eq, Structural)]
pub enum Table {
    Cities,
    Zones,
    Transitions,
    Overrides,
    Aliases,
}

/// Why reference data was refused. Rows and columns count from zero; a
/// table's header line is no row.
#[derive(Clone, Copy, Debug, PartialEq, Eq, Structural)]
pub enum DataCorrupt {
    /// The table's text is not well-formed delimited text.
    Unreadable { table: Table },
    /// The row has another number of columns than the table's schema.
    ColumnCount { table: Table, row: usize },
    /// The column does not hold a value of its type.
    FieldType { table: Table, row: usize, column: usize },
    /// The transition in this row names a zone that the zone table lacks.
    UnknownZone { row: usize },
}

/// The name of a table in a sentence.
pub open spec fn table_word(table: Table) -> Seq<char> {
    match table {
        Table::Cities => "city"@,
        Table::Zones => "zone"@,
        Table::Transitions => "transition"@,
        Table::Overrides => "override"@,
        Table::Aliases => "alias"@,
    }
}

/// What is said of reference data that was refused. Rows and columns are
/// numbered as the error has them.
pub open spec fn corrupt_message(e: DataCorrupt) -> Seq<char> {
    match e {
        DataCorrupt::Unreadable { table } => "the "@ + table_word(table)
            + " table is not well-formed delimited text"@,
        DataCorrupt::ColumnCount { table, row } => "the "@ + table_word(table) + " table, row "@
            + natural_digits(row as nat) + ": wrong number of columns"@,
        DataCorrupt::FieldType { table, row, column } => "the "@ + table_word(table)
            + " table, row "@ + natural_digits(row as nat) + ", column "@ + natural_digits(
            column as nat,
        ) + ": not a value of the column's type"@,
        DataCorrupt::UnknownZone { row } => "the transition table, row "@ + natural_digits(
            row as nat,
        ) + ": no zone of this identifier"@,
    }
}

impl Table {
    /// The name of the table in a sentence.
    pub fn word(self) -> (text: &'static str)
        ensures
            text@ == table_word(self),
    {
        match self {
            Table::Cities => "city",
            Table::Zones => "zone",
            Table::Transitions => "transition",
            Table::Overrides => "override",
            Table::Aliases => "alias",
        }
    }
}

impl DataCorrupt {
    /// The error as a sentence.
    pub fn message(&self) -> (text: String)
        ensures
            text@ == corrupt_message(*self),
    {
        match *self {
            DataCorrupt::Unreadable { table } => {
                let mut text: String = "the ".to_owned();
                text.append(table.word());
                text.append(" table is not well-formed delimited text");
                text
            },
            DataCorrupt::ColumnCount { table, row } => {
                let mut text: String = "the ".to_owned();
                text.append(table.word());
                text.append(" table, row ");
                push_natural(&mut text, row as u64);
                text.append(": wrong number of columns");
                text
            },
            DataCorrupt::FieldType { table, row, column } => {
                let mut text: String = "the ".to_owned();
                text.append(table.word());
                text.append(" table, row ");
                push_natural(&mut text, row as u64);
                text.append(", column ");
                push_natural(&mut text, column as u64);
                text.append(": not a value of the column's type");
                text
            },
            DataCorrupt::UnknownZone { row } => {
                let mut text: String = "the transition table, row ".to_owned();
                push_natural(&mut text, row as u64);
                text.append(": no zone of this identifier");
                text
            },
        }
    }
}

/// Why a row is not a record of its table.
#[derive(Clone, Copy, Debug, PartialEq, Eq, Structural)]
pub enum RowFault {
    /// The row has another number of columns than the schema.
    ColumnCount,
    /// The column, counted from zero, does not hold a value of its type.
    Field { column: usize },
}

/// The whole number that `s` denotes, where it lies from `low` to `high`.
pub open spec fn integer_in(s: Seq<char>, low: int, high: int) -> Option<int> {
    match integer_text(s) {
        Some(v) => if low <= v <= high {
            Some(v)
        } else {
            None
        },
        None => None,
    }
}

/// The latitude or longitude that `s` denotes in degrees, where an `i64`
/// can hold it.
pub open spec fn degrees_text(s: Seq<char>) -> Option<i64> {
    match decimal_text(s, DEGREE_PLACES as nat) {
        Some(v) => if i64::MIN <= v <= i64::MAX {
            Some(v as i64)
        } else {
            None
        },
        None => None,
    }
}

/// The flag that `s` denotes: `0` for no, `1` for yes.
pub open spec fn flag_text(s: Seq<char>) -> Option<bool> {
    if s == seq!['0'] {
        Some(false)
    } else if s == seq!['1'] {
        Some(true)
    } else {
        None
    }
}

/// The population that `s` denotes: none where `s` is empty, else a number
/// that is not negative, of which the whole part counts.
pub open spec fn population_text(s: Seq<char>) -> Option<Option<u64>> {
    if s.len() == 0 {
        Some(None)
    } else {
        match decimal_text(s, 0) {
            Some(v) => if 0 <= v <= i64::MAX {
                Some(Some(v as u64))
            } else {
                None
            },
            None => None,
        }
    }
}

/// Reads a whole number that lies from `low` to `high`.
fn read_integer(cell: &String, low: i64, high: i64) -> (r: Option<i64>)
    ensures
        match r {
            Some(v) => integer_in(cell@, low as int, high as int) == Some(v as int),
            None => integer_in(cell@, low as int, high as int) is None,
        },
{
    let chars = chars_of(cell.as_str());
    match parse_integer(chars.as_slice()) {
        Some(v) => if low <= v && v <= high {
            Some(v)
        } else {
            None
        },
        None => None,
    }
}

/// Reads a latitude or longitude given in degrees.
pub fn parse_degrees(text: &str) -> (r: Option<i64>)
    ensures
        r == degrees_text(text@),
{
    let chars = chars_of(text);
    parse_decimal(chars.as_slice(), DEGREE_PLACES)
}

/// Reads a flag.
fn read_flag(cell: &String) -> (r: Option<bool>)
    ensures
        r == flag_text(cell@),
{
    let chars = chars_of(cell.as_str());
    if chars.len() != 1 {
        None
    } else if chars[0] == '0' {
        assert(chars@ =~= seq!['0']);
        Some(false)
    } else if chars[0] == '1' {
        assert(chars@ =~= seq!['1']);
        Some(true)
    } else {
        None
    }
}

/// Reads a population, which may be left empty.
fn read_population(cell: &String) -> (r: Option<Option<u64>>)
    ensures
        r == population_text(cell@),
{
    let chars = chars_of(cell.as_str());
    if chars.len() == 0 {
        Some(None)
    } else {
        match parse_decimal(chars.as_slice(), 0) {
            Some(v) => if v >= 0 {
                Some(Some(v as u64))
            } else {
                None
            },
            None => None,
        }
    }
}

/// A record that can be read from a row of a table.
pub trait TableRow: Sized + DeepView {
    /// The table that holds such records.
    spec fn table() -> Table;

    /// The table that holds such records.
    fn table_of() -> (table: Table)
        ensures
            table == Self::table(),
    ;

    /// The record that `row` holds, or what is wrong with the row.
    spec fn of_row(row: Seq<Seq<char>>) -> Result<<Self as DeepView>::V, RowFault>;

    /// Reads the record that `row` holds.
    fn from_row(row: &Vec<String>) -> (r: Result<Self, RowFault>)
        ensures
            match r {
                Ok(record) => Self::of_row(row.deep_view()) == Ok::<
                    <Self as DeepView>::V,
                    RowFault,
                >(record.deep_view()),
                Err(fault) => Self::of_row(row.deep_view()) == Err::<
                    <Self as DeepView>::V,
                    RowFault,
                >(fault),
            },
    ;
}

/// A city: both spellings of its name, latitude and longitude in degrees,
/// the country's two codes, and the population, which may be left empty.
impl TableRow for CityRecord {
    open spec fn table() -> Table {
        Table::Cities
    }

    fn table_of() -> (table: Table) {
        Table::Cities
    }

    open spec fn of_row(row: Seq<Seq<char>>) -> Result<CityView, RowFault> {
        if row.len() != 7 {
            Err(RowFault::ColumnCount)
        } else if degrees_text(row[2]) is None {
            Err(RowFault::Field { column: 2 })
        } else if degrees_text(row[3]) is None {
            Err(RowFault::Field { column: 3 })
        } else if population_text(row[6]) is None {
            Err(RowFault::Field { column: 6 })
        } else {
            Ok(
                CityView {
                    city_name: row[0],
                    ascii_name: row[1],
                    latitude: degrees_text(row[2])->0,
                    longitude: degrees_text(row[3])->0,
                    country_iso2: row[4],
                    country_iso3: row[5],
                    population: population_text(row[6])->0,
                },
            )
        }
    }

    fn from_row(row: &Vec<String>) -> (r: Result<CityRecord, RowFault>) {
        if row.len() != 7 {
            return Err(RowFault::ColumnCount);
        }
        assert forall|k: int| 0 <= k < 7 implies #[trigger] row.deep_view()[k] == row@[k]@ by {}
        let latitude = match parse_degrees(row[2].as_str()) {
            Some(v) => v,
            None => {
                return Err(RowFault::Field { column: 2 });
            },
        };
        let longitude = match parse_degrees(row[3].as_str()) {
            Some(v) => v,
            None => {
                return Err(RowFault::Field { column: 3 });
            },
        };
        let population = match read_population(&row[6]) {
            Some(v) => v,
            None => {
                return Err(RowFault::Field { column: 6 });
            },
        };
        Ok(
            CityRecord {
                city_name: row[0].clone(),
                ascii_name: row[1].clone(),
                latitude,
                longitude,
                country_iso2: row[4].clone(),
                country_iso3: row[5].clone(),
                population,
            },
        )
    }
}

/// A zone: its identifier, the country's code, and the canonical name.
impl TableRow for ZoneRecord {
    open spec fn table() -> Table {
        Table::Zones
    }

    fn table_of() -> (table: Table) {
        Table::Zones
    }

    open spec fn of_row(row: Seq<Seq<char>>) -> Result<ZoneView, RowFault> {
        if row.len() != 3 {
            Err(RowFault::ColumnCount)
        } else if integer_in(row[0], 0, u32::MAX as int) is None {
            Err(RowFault::Field { column: 0 })
        } else {
            Ok(
                ZoneView {
                    zone_id: integer_in(row[0], 0, u32::MAX as int)->0 as u32,
                    country_code: row[1],
                    canonical_name: row[2],
                },
            )
        }
    }

    fn from_row(row: &Vec<String>) -> (r: Result<ZoneRecord, RowFault>) {
        if row.len() != 3 {
            return Err(RowFault::ColumnCount);
        }
        assert forall|k: int| 0 <= k < 3 implies #[trigger] row.deep_view()[k] == row@[k]@ by {}
        let zone_id = match read_integer(&row[0], 0, 0xffff_ffff) {
            Some(v) => v as u32,
            None => {
                return Err(RowFault::Field { column: 0 });
            },
        };
        Ok(ZoneRecord { zone_id, country_code: row[1].clone(), canonical_name: row[2].clone() })
    }
}

/// A transition: the zone's identifier, the offset's abbreviation, the
/// instant from which it holds, the offset in seconds, and the flag for
/// daylight saving time.
impl TableRow for TransitionRecord {
    open spec fn table() -> Table {
        Table::Transitions
    }

    fn table_of() -> (table: Table) {
        Table::Transitions
    }

    open spec fn of_row(row: Seq<Seq<char>>) -> Result<TransitionView, RowFault> {
        if row.len() != 5 {
            Err(RowFault::ColumnCount)
        } else if integer_in(row[0], 0, u32::MAX as int) is None {
            Err(RowFault::Field { column: 0 })
        } else if integer_in(row[2], i64::MIN as int, i64::MAX as int) is None {
            Err(RowFault::Field { column: 2 })
        } else if integer_in(row[3], i32::MIN as int, i32::MAX as int) is None {
            Err(RowFault::Field { column: 3 })
        } else if flag_text(row[4]) is None {
            Err(RowFault::Field { column: 4 })
        } else {
            Ok(
                TransitionView {
                    zone_id: integer_in(row[0], 0, u32::MAX as int)->0 as u32,
                    abbreviation: row[1],
                    effective_from: integer_in(row[2], i64::MIN as int, i64::MAX as int)->0 as i64,
                    utc_offset_seconds: integer_in(
                        row[3],
                        i32::MIN as int,
                        i32::MAX as int,
                    )->0 as i32,
                    is_dst: flag_text(row[4])->0,
                },
            )
        }
    }

    fn from_row(row: &Vec<String>) -> (r: Result<TransitionRecord, RowFault>) {
        if row.len() != 5 {
            return Err(RowFault::ColumnCount);
        }
        assert forall|k: int| 0 <= k < 5 implies #[trigger] row.deep_view()[k] == row@[k]@ by {}
        let zone_id = match read_integer(&row[0], 0, 0xffff_ffff) {
            Some(v) => v as u32,
            None => {
                return Err(RowFault::Field { column: 0 });
            },
        };
        let effective_from = match read_integer(&row[2], i64::MIN, i64::MAX) {
            Some(v) => v,
            None => {
                return Err(RowFault::Field { column: 2 });
            },
        };
        let utc_offset_seconds = match read_integer(&row[3], -0x8000_0000, 0x7fff_ffff) {
            Some(v) => v as i32,
            None => {
                return Err(RowFault::Field { column: 3 });
            },
        };
        let is_dst = match read_flag(&row[4]) {
            Some(v) => v,
            None => {
                return Err(RowFault::Field { column: 4 });
            },
        };
        Ok(
            TransitionRecord {
                zone_id,
                abbreviation: row[1].clone(),
                effective_from,
                utc_offset_seconds,
                is_dst,
            },
        )
    }
}

/// An override: the place's name, latitude and longitude in degrees, and
/// the reference to its zone.
impl TableRow for PlaceOverride {
    open spec fn table() -> Table {
        Table::Overrides
    }

    fn table_of() -> (table: Table) {
        Table::Overrides
    }

    open spec fn of_row(row: Seq<Seq<char>>) -> Result<OverrideView, RowFault> {
        if row.len() != 4 {
            Err(RowFault::ColumnCount)
        } else if degrees_text(row[1]) is None {
            Err(RowFault::Field { column: 1 })
        } else if degrees_text(row[2]) is None {
            Err(RowFault::Field { column: 2 })
        } else {
            Ok(
                OverrideView {
                    name: row[0],
                    latitude: degrees_text(row[1])->0,
                    longitude: degrees_text(row[2])->0,
                    zone_reference: row[3],
                },
            )
        }
    }

    fn from_row(row: &Vec<String>) -> (r: Result<PlaceOverride, RowFault>) {
        if row.len() != 4 {
            return Err(RowFault::ColumnCount);
        }
        assert forall|k: int| 0 <= k < 4 implies #[trigger] row.deep_view()[k] == row@[k]@ by {}
        let latitude = match parse_degrees(row[1].as_str()) {
            Some(v) => v,
            None => {
                return Err(RowFault::Field { column: 1 });
            },
        };
        let longitude = match parse_degrees(row[2].as_str()) {
            Some(v) => v,
            None => {
                return Err(RowFault::Field { column: 2 });
            },
        };
        Ok(
            PlaceOverride {
                name: row[0].clone(),
                latitude,
                longitude,
                zone_reference: row[3].clone(),
            },
        )
    }
}

/// An alias: the informal name, and the suffix that stands for it.
impl TableRow for TimezoneAlias {
    open spec fn table() -> Table {
        Table::Aliases
    }

    fn table_of() -> (table: Table) {
        Table::Aliases
    }

    open spec fn of_row(row: Seq<Seq<char>>) -> Result<AliasView, RowFault> {
        if row.len() != 2 {
            Err(RowFault::ColumnCount)
        } else {
            Ok(AliasView { alias_name: row[0], canonical_zone_suffix: row[1] })
        }
    }

    fn from_row(row: &Vec<String>) -> (r: Result<TimezoneAlias, RowFault>) {
        if row.len() != 2 {
            return Err(RowFault::ColumnCount);
        }
        assert forall|k: int| 0 <= k < 2 implies #[trigger] row.deep_view()[k] == row@[k]@ by {}
        Ok(TimezoneAlias { alias_name: row[0].clone(), canonical_zone_suffix: row[1].clone() })
    }
}

} // verus!
