use place_resolver::records::{
    CityRecord, PlaceOverride, TimezoneAlias, TransitionRecord, ZoneRecord, DEGREE,
};
use place_resolver::schema::{DataCorrupt, RowFault, Table, TableRow};
use place_resolver::delimited::read_rows;
use place_resolver::store::{parse_table, ReferenceData};

fn row(cells: &[&str]) -> Vec<String> {
    cells.iter().map(|c| c.to_string()).collect()
}

fn rows(table: &[&[&str]]) -> Vec<Vec<String>> {
    table.iter().map(|r| row(r)).collect()
}

fn zone(zone_id: u32, canonical_name: &str) -> ZoneRecord {
    ZoneRecord { zone_id, country_code: "ZZ".to_string(), canonical_name: canonical_name.to_string() }
}

fn transition(zone_id: u32, effective_from: i64, utc_offset_seconds: i32) -> TransitionRecord {
    TransitionRecord {
        zone_id,
        abbreviation: "LMT".to_string(),
        effective_from,
        utc_offset_seconds,
        is_dst: false,
    }
}

const CITIES: &str = "\
city,city_ascii,lat,lng,iso2,iso3,population
Tokyo,Tokyo,35.6897,139.6922,JP,JPN,37977000
São Paulo,Sao Paulo,-23.5504,-46.6339,BR,BRA,22046000.5
\"Washington, D.C.\",Washington,38.9047,-77.0163,US,USA,
";

const ZONES: &str = "1,JP,Asia/Tokyo\n2,BR,America/Sao_Paulo\n";

const TRANSITIONS: &str = "\
1,LMT,-2587712400,33539,0
1,JST,-2335248000,32400,0
2,-03,-1767212800,-10800,0
2,-02,-1206957600,-7200,1
";

const OVERRIDES: &str = "Austin,30.267222,-97.743056,Chicago\n";

const ALIASES: &str = "Edo,Asia/Tokyo\n";

fn load() -> Result<ReferenceData, DataCorrupt> {
    ReferenceData::load(
        CITIES.as_bytes(),
        ZONES.as_bytes(),
        TRANSITIONS.as_bytes(),
        OVERRIDES.as_bytes(),
        ALIASES.as_bytes(),
    )
}

#[test]
fn city_row_becomes_a_record() {
    let r = CityRecord::from_row(&row(&["Tokyo", "Tokyo", "35.6897", "139.6922", "JP", "JPN", "37977000"]));
    assert_eq!(
        r,
        Ok(CityRecord {
            city_name: "Tokyo".to_string(),
            ascii_name: "Tokyo".to_string(),
            latitude: 35_689_700_000,
            longitude: 139_692_200_000,
            country_iso2: "JP".to_string(),
            country_iso3: "JPN".to_string(),
            population: Some(37977000),
        })
    );
}

#[test]
fn city_population_may_be_empty_or_fractional() {
    let empty = CityRecord::from_row(&row(&["A", "A", "1", "2", "AA", "AAA", ""])).unwrap();
    assert_eq!(empty.population, None);
    let half = CityRecord::from_row(&row(&["A", "A", "1", "2", "AA", "AAA", "22006299.5"])).unwrap();
    assert_eq!(half.population, Some(22006299));
    let zero = CityRecord::from_row(&row(&["A", "A", "1", "2", "AA", "AAA", "0"])).unwrap();
    assert_eq!(zero.population, Some(0));
}

#[test]
fn city_row_faults_name_the_first_bad_column() {
    let short = row(&["A", "A", "1", "2", "AA", "AAA"]);
    assert_eq!(CityRecord::from_row(&short), Err(RowFault::ColumnCount));
    let long = row(&["A", "A", "1", "2", "AA", "AAA", "5", "extra"]);
    assert_eq!(CityRecord::from_row(&long), Err(RowFault::ColumnCount));
    let lat = row(&["A", "A", "north", "east", "AA", "AAA", "many"]);
    assert_eq!(CityRecord::from_row(&lat), Err(RowFault::Field { column: 2 }));
    let lon = row(&["A", "A", "1", "east", "AA", "AAA", "many"]);
    assert_eq!(CityRecord::from_row(&lon), Err(RowFault::Field { column: 3 }));
    let population = row(&["A", "A", "1", "2", "AA", "AAA", "many"]);
    assert_eq!(CityRecord::from_row(&population), Err(RowFault::Field { column: 6 }));
    let negative = row(&["A", "A", "1", "2", "AA", "AAA", "-5"]);
    assert_eq!(CityRecord::from_row(&negative), Err(RowFault::Field { column: 6 }));
}

#[test]
fn zone_row_becomes_a_record() {
    assert_eq!(
        ZoneRecord::from_row(&row(&["296", "GB", "Europe/London"])),
        Ok(ZoneRecord {
            zone_id: 296,
            country_code: "GB".to_string(),
            canonical_name: "Europe/London".to_string(),
        })
    );
    assert_eq!(ZoneRecord::from_row(&row(&["4294967295", "", ""])).unwrap().zone_id, u32::MAX);
}

#[test]
fn zone_row_faults() {
    assert_eq!(ZoneRecord::from_row(&row(&["296", "GB"])), Err(RowFault::ColumnCount));
    assert_eq!(ZoneRecord::from_row(&row(&[])), Err(RowFault::ColumnCount));
    assert_eq!(ZoneRecord::from_row(&row(&["-1", "GB", "X"])), Err(RowFault::Field { column: 0 }));
    assert_eq!(
        ZoneRecord::from_row(&row(&["4294967296", "GB", "X"])),
        Err(RowFault::Field { column: 0 })
    );
    assert_eq!(ZoneRecord::from_row(&row(&["", "GB", "X"])), Err(RowFault::Field { column: 0 }));
}

#[test]
fn transition_row_becomes_a_record() {
    assert_eq!(
        TransitionRecord::from_row(&row(&["250", "IST", "-764145000", "19800", "0"])),
        Ok(TransitionRecord {
            zone_id: 250,
            abbreviation: "IST".to_string(),
            effective_from: -764145000,
            utc_offset_seconds: 19800,
            is_dst: false,
        })
    );
    let dst = TransitionRecord::from_row(&row(&["1", "BST", "0", "3600", "1"])).unwrap();
    assert!(dst.is_dst);
}

#[test]
fn transition_row_faults_name_the_first_bad_column() {
    assert_eq!(TransitionRecord::from_row(&row(&["1", "A", "0", "0"])), Err(RowFault::ColumnCount));
    assert_eq!(
        TransitionRecord::from_row(&row(&["x", "A", "y", "z", "2"])),
        Err(RowFault::Field { column: 0 })
    );
    assert_eq!(
        TransitionRecord::from_row(&row(&["1", "A", "1.5", "z", "2"])),
        Err(RowFault::Field { column: 2 })
    );
    assert_eq!(
        TransitionRecord::from_row(&row(&["1", "A", "9223372036854775808", "0", "0"])),
        Err(RowFault::Field { column: 2 })
    );
    assert_eq!(
        TransitionRecord::from_row(&row(&["1", "A", "0", "2147483648", "0"])),
        Err(RowFault::Field { column: 3 })
    );
    assert_eq!(
        TransitionRecord::from_row(&row(&["1", "A", "0", "-2147483648", "2"])),
        Err(RowFault::Field { column: 4 })
    );
    assert_eq!(
        TransitionRecord::from_row(&row(&["1", "A", "0", "0", "true"])),
        Err(RowFault::Field { column: 4 })
    );
    assert_eq!(
        TransitionRecord::from_row(&row(&["1", "A", "0", "0", ""])),
        Err(RowFault::Field { column: 4 })
    );
}

#[test]
fn override_row_becomes_a_record() {
    assert_eq!(
        PlaceOverride::from_row(&row(&["Austin", "30.267222", "-97.743056", "Chicago"])),
        Ok(PlaceOverride {
            name: "Austin".to_string(),
            latitude: 30_267_222_000,
            longitude: -97_743_056_000,
            zone_reference: "Chicago".to_string(),
        })
    );
}

#[test]
fn override_row_faults() {
    assert_eq!(PlaceOverride::from_row(&row(&["Austin", "1", "2"])), Err(RowFault::ColumnCount));
    assert_eq!(
        PlaceOverride::from_row(&row(&["Austin", "", "", "Chicago"])),
        Err(RowFault::Field { column: 1 })
    );
    assert_eq!(
        PlaceOverride::from_row(&row(&["Austin", "1", "1e2", "Chicago"])),
        Err(RowFault::Field { column: 2 })
    );
}

#[test]
fn alias_row_becomes_a_record() {
    assert_eq!(
        TimezoneAlias::from_row(&row(&["Edo", "Asia/Tokyo"])),
        Ok(TimezoneAlias {
            alias_name: "Edo".to_string(),
            canonical_zone_suffix: "Asia/Tokyo".to_string(),
        })
    );
    assert_eq!(TimezoneAlias::from_row(&row(&["Edo"])), Err(RowFault::ColumnCount));
    assert_eq!(TimezoneAlias::from_row(&row(&["Edo", "a", "b"])), Err(RowFault::ColumnCount));
}

#[test]
fn each_record_knows_its_table() {
    assert_eq!(CityRecord::table_of(), Table::Cities);
    assert_eq!(ZoneRecord::table_of(), Table::Zones);
    assert_eq!(TransitionRecord::table_of(), Table::Transitions);
    assert_eq!(PlaceOverride::table_of(), Table::Overrides);
    assert_eq!(TimezoneAlias::table_of(), Table::Aliases);
}

#[test]
fn table_is_read_row_by_row() {
    let zones: Vec<ZoneRecord> =
        parse_table(&rows(&[&["1", "JP", "Asia/Tokyo"], &["2", "BR", "America/Sao_Paulo"]])).unwrap();
    assert_eq!(zones, vec![
        ZoneRecord { zone_id: 1, country_code: "JP".to_string(), canonical_name: "Asia/Tokyo".to_string() },
        ZoneRecord { zone_id: 2, country_code: "BR".to_string(), canonical_name: "America/Sao_Paulo".to_string() },
    ]);
    let none: Vec<ZoneRecord> = parse_table(&rows(&[])).unwrap();
    assert!(none.is_empty());
}

#[test]
fn table_fault_is_that_of_the_first_bad_row() {
    let r = parse_table::<ZoneRecord>(&rows(&[
        &["1", "JP", "Asia/Tokyo"],
        &["two", "BR", "America/Sao_Paulo"],
        &["3"],
    ]));
    assert_eq!(r, Err(DataCorrupt::FieldType { table: Table::Zones, row: 1, column: 0 }));
    let r = parse_table::<TimezoneAlias>(&rows(&[&["a", "b"], &["c", "d"], &["e"], &["f"]]));
    assert_eq!(r, Err(DataCorrupt::ColumnCount { table: Table::Aliases, row: 2 }));
    let r = parse_table::<TransitionRecord>(&rows(&[&["1", "A", "0", "0", "maybe"]]));
    assert_eq!(r, Err(DataCorrupt::FieldType { table: Table::Transitions, row: 0, column: 4 }));
}

#[test]
fn snapshot_keeps_the_tables_as_given() {
    let cities = vec![CityRecord {
        city_name: "Tokyo".to_string(),
        ascii_name: "Tokyo".to_string(),
        latitude: 35 * DEGREE,
        longitude: 139 * DEGREE,
        country_iso2: "JP".to_string(),
        country_iso3: "JPN".to_string(),
        population: None,
    }];
    let zones = vec![zone(1, "Asia/Tokyo"), zone(2, "Europe/London")];
    let transitions = vec![transition(2, 0, 0), transition(1, 0, 32400), transition(2, 100, 3600)];
    let overrides = vec![PlaceOverride {
        name: "Home".to_string(),
        latitude: DEGREE,
        longitude: DEGREE,
        zone_reference: "London".to_string(),
    }];
    let aliases = vec![TimezoneAlias {
        alias_name: "Edo".to_string(),
        canonical_zone_suffix: "Tokyo".to_string(),
    }];
    let data = ReferenceData::new(
        cities.clone(),
        zones.clone(),
        transitions.clone(),
        overrides.clone(),
        aliases.clone(),
    )
    .unwrap();
    assert_eq!(data.cities(), &cities);
    assert_eq!(data.zones(), &zones);
    assert_eq!(data.transitions(), &transitions);
    assert_eq!(data.overrides(), &overrides);
    assert_eq!(data.aliases(), &aliases);
}

#[test]
fn snapshot_refuses_a_transition_without_a_zone() {
    let r = ReferenceData::new(
        vec![],
        vec![zone(1, "Asia/Tokyo")],
        vec![transition(1, 0, 0), transition(7, 0, 0), transition(8, 0, 0)],
        vec![],
        vec![],
    );
    assert_eq!(r.err(), Some(DataCorrupt::UnknownZone { row: 1 }));
    let r = ReferenceData::new(vec![], vec![], vec![transition(1, 0, 0)], vec![], vec![]);
    assert_eq!(r.err(), Some(DataCorrupt::UnknownZone { row: 0 }));
}

#[test]
fn snapshot_of_empty_tables_is_fine() {
    let data = ReferenceData::new(vec![], vec![], vec![], vec![], vec![]).unwrap();
    assert!(data.cities().is_empty());
    assert!(data.transitions().is_empty());
}

#[test]
fn tables_as_read_become_a_snapshot() {
    let data = ReferenceData::from_tables(
        Some(rows(&[&["Tokyo", "Tokyo", "35.6897", "139.6922", "JP", "JPN", ""]])),
        Some(rows(&[&["1", "JP", "Asia/Tokyo"]])),
        Some(rows(&[&["1", "JST", "-2335248000", "32400", "0"]])),
        Some(rows(&[])),
        Some(rows(&[&["Edo", "Tokyo"]])),
    )
    .unwrap();
    assert_eq!(data.cities().len(), 1);
    assert_eq!(
        data.zones(),
        &vec![ZoneRecord {
            zone_id: 1,
            country_code: "JP".to_string(),
            canonical_name: "Asia/Tokyo".to_string(),
        }]
    );
    assert_eq!(data.transitions()[0].utc_offset_seconds, 32400);
    assert!(data.overrides().is_empty());
    assert_eq!(data.aliases()[0].canonical_zone_suffix, "Tokyo");
}

#[test]
fn unreadable_table_is_named() {
    let ok = || Some(rows(&[]));
    assert_eq!(
        ReferenceData::from_tables(None, None, None, None, None).err(),
        Some(DataCorrupt::Unreadable { table: Table::Cities })
    );
    assert_eq!(
        ReferenceData::from_tables(ok(), None, None, None, None).err(),
        Some(DataCorrupt::Unreadable { table: Table::Zones })
    );
    assert_eq!(
        ReferenceData::from_tables(ok(), ok(), None, ok(), None).err(),
        Some(DataCorrupt::Unreadable { table: Table::Transitions })
    );
    assert_eq!(
        ReferenceData::from_tables(ok(), ok(), ok(), None, ok()).err(),
        Some(DataCorrupt::Unreadable { table: Table::Overrides })
    );
    assert_eq!(
        ReferenceData::from_tables(ok(), ok(), ok(), ok(), None).err(),
        Some(DataCorrupt::Unreadable { table: Table::Aliases })
    );
}

#[test]
fn faults_come_in_the_order_of_the_tables() {
    let r = ReferenceData::from_tables(
        Some(rows(&[&["only one column"]])),
        None,
        Some(rows(&[&["9", "A", "0", "0", "0"]])),
        Some(rows(&[])),
        Some(rows(&[])),
    );
    assert_eq!(r.err(), Some(DataCorrupt::ColumnCount { table: Table::Cities, row: 0 }));
    let r = ReferenceData::from_tables(
        Some(rows(&[])),
        Some(rows(&[])),
        Some(rows(&[&["9", "A", "0", "0", "0"]])),
        Some(rows(&[&["Austin", "x", "y", "z"]])),
        Some(rows(&[])),
    );
    assert_eq!(r.err(), Some(DataCorrupt::FieldType { table: Table::Overrides, row: 0, column: 1 }));
    let r = ReferenceData::from_tables(
        Some(rows(&[])),
        Some(rows(&[])),
        Some(rows(&[&["9", "A", "0", "0", "0"]])),
        Some(rows(&[])),
        Some(rows(&[])),
    );
    assert_eq!(r.err(), Some(DataCorrupt::UnknownZone { row: 0 }));
}

#[test]
fn load_reads_delimited_text() {
    let data = load().unwrap();
    assert_eq!(data.cities().len(), 3);
    assert_eq!(data.cities()[0].city_name, "Tokyo");
    assert_eq!(data.cities()[0].latitude, 35_689_700_000);
    assert_eq!(data.cities()[1].city_name, "São Paulo");
    assert_eq!(data.cities()[1].ascii_name, "Sao Paulo");
    assert_eq!(data.cities()[1].longitude, -46_633_900_000);
    assert_eq!(data.cities()[1].population, Some(22046000));
    assert_eq!(data.cities()[2].city_name, "Washington, D.C.");
    assert_eq!(data.cities()[2].population, None);
    assert_eq!(data.zones().len(), 2);
    assert_eq!(data.zones()[1].canonical_name, "America/Sao_Paulo");
    assert_eq!(data.transitions().len(), 4);
    assert_eq!(data.transitions()[0].utc_offset_seconds, 33539);
    assert_eq!(data.transitions()[3].effective_from, -1206957600);
    assert!(data.transitions()[3].is_dst);
    assert_eq!(data.overrides().len(), 1);
    assert_eq!(data.overrides()[0].zone_reference, "Chicago");
    assert_eq!(data.aliases().len(), 1);
    assert_eq!(data.aliases()[0].alias_name, "Edo");
}

#[test]
fn load_leaves_out_the_header_of_the_city_table_only() {
    let data = ReferenceData::load(
        b"city,city_ascii,lat,lng,iso2,iso3,population\n",
        b"",
        b"",
        b"",
        b"Edo,Tokyo\n",
    )
    .unwrap();
    assert!(data.cities().is_empty());
    assert_eq!(data.aliases().len(), 1);
    let data = ReferenceData::load(b"", b"", b"", b"", b"").unwrap();
    assert!(data.cities().is_empty());
    assert!(data.aliases().is_empty());
}

#[test]
fn load_twice_gives_equal_snapshots() {
    let a = load().unwrap();
    let b = load().unwrap();
    assert_eq!(a.cities(), b.cities());
    assert_eq!(a.zones(), b.zones());
    assert_eq!(a.transitions(), b.transitions());
    assert_eq!(a.overrides(), b.overrides());
    assert_eq!(a.aliases(), b.aliases());
}

#[test]
fn load_refuses_text_that_cannot_be_read() {
    let ragged = b"1,JP,Asia/Tokyo\n2,BR\n";
    let r = ReferenceData::load(CITIES.as_bytes(), ragged, b"", b"", b"");
    assert_eq!(r.err(), Some(DataCorrupt::Unreadable { table: Table::Zones }));
    let not_utf8 = b"Edo,\xff\xfe\n";
    let r = ReferenceData::load(CITIES.as_bytes(), ZONES.as_bytes(), b"", b"", not_utf8);
    assert_eq!(r.err(), Some(DataCorrupt::Unreadable { table: Table::Aliases }));
}

#[test]
fn load_refuses_a_row_of_the_wrong_shape_or_type() {
    let r = ReferenceData::load(CITIES.as_bytes(), b"1,JP\n", b"", b"", b"");
    assert_eq!(r.err(), Some(DataCorrupt::ColumnCount { table: Table::Zones, row: 0 }));
    let r = ReferenceData::load(
        b"city,city_ascii,lat,lng,iso2,iso3,population\nA,A,1,2,AA,AAA,\nB,B,1,east,BB,BBB,\n",
        b"",
        b"",
        b"",
        b"",
    );
    assert_eq!(r.err(), Some(DataCorrupt::FieldType { table: Table::Cities, row: 1, column: 3 }));
    let r = ReferenceData::load(
        CITIES.as_bytes(),
        ZONES.as_bytes(),
        b"1,JST,-2335248000,9h,0\n",
        b"",
        b"",
    );
    assert_eq!(r.err(), Some(DataCorrupt::FieldType { table: Table::Transitions, row: 0, column: 3 }));
}

#[test]
fn load_refuses_a_transition_without_a_zone() {
    let r = ReferenceData::load(
        CITIES.as_bytes(),
        ZONES.as_bytes(),
        b"1,JST,0,32400,0\n2,-03,0,-10800,0\n3,GMT,0,0,0\n",
        OVERRIDES.as_bytes(),
        ALIASES.as_bytes(),
    );
    assert_eq!(r.err(), Some(DataCorrupt::UnknownZone { row: 2 }));
}

#[test]
fn each_fault_has_its_sentence() {
    assert_eq!(
        DataCorrupt::Unreadable { table: Table::Zones }.message(),
        "the zone table is not well-formed delimited text"
    );
    assert_eq!(
        DataCorrupt::ColumnCount { table: Table::Cities, row: 12 }.message(),
        "the city table, row 12: wrong number of columns"
    );
    assert_eq!(
        DataCorrupt::FieldType { table: Table::Overrides, row: 0, column: 3 }.message(),
        "the override table, row 0, column 3: not a value of the column's type"
    );
    assert_eq!(
        DataCorrupt::FieldType { table: Table::Aliases, row: 40999, column: 10 }.message(),
        "the alias table, row 40999, column 10: not a value of the column's type"
    );
    assert_eq!(
        DataCorrupt::UnknownZone { row: 7 }.message(),
        "the transition table, row 7: no zone of this identifier"
    );
}

#[test]
fn each_table_has_its_word() {
    assert_eq!(Table::Cities.word(), "city");
    assert_eq!(Table::Zones.word(), "zone");
    assert_eq!(Table::Transitions.word(), "transition");
    assert_eq!(Table::Overrides.word(), "override");
    assert_eq!(Table::Aliases.word(), "alias");
}

#[test]
fn delimited_text_is_read_into_rows_of_fields() {
    assert_eq!(
        read_rows(b"a,b\nc,d\n", false),
        Some(vec![
            vec!["a".to_string(), "b".to_string()],
            vec!["c".to_string(), "d".to_string()],
        ])
    );
    assert_eq!(
        read_rows(b"a,b\nc,d\n", true),
        Some(vec![vec!["c".to_string(), "d".to_string()]])
    );
    assert_eq!(
        read_rows("\"x, y\",\"say \"\"hi\"\"\",\n".as_bytes(), false),
        Some(vec![vec!["x, y".to_string(), "say \"hi\"".to_string(), String::new()]])
    );
    assert_eq!(read_rows(b"", false), Some(vec![]));
    assert_eq!(read_rows(b"", true), Some(vec![]));
    assert_eq!(read_rows(b"only a header\n", true), Some(vec![]));
}

#[test]
fn delimited_text_that_is_refused_gives_nothing() {
    assert_eq!(read_rows(b"a,b\nc\n", false), None);
    assert_eq!(read_rows(b"a,b\nc,d,e\n", false), None);
    assert_eq!(read_rows(b"a,b\n\xff,d\n", false), None);
    assert_eq!(read_rows(b"a,b\nc,d\ne\n", true), None);
}
