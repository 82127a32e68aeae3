use stationapi::error::UseCaseError;
use stationapi::line_repository::{LineRow, MemoryLineRepository};
use stationapi::query::QueryInteractor;
use stationapi::station_repository::{MemoryStationRepository, StationRow, StationStopLink};

fn station_row(station_cd: u32, station_g_cd: u32, line_cd: u32, e_sort: u32) -> StationRow {
    StationRow {
        station_cd,
        station_g_cd,
        station_name: "渋谷".to_string(),
        station_name_k: "シブヤ".to_string(),
        station_name_r: Some("Shibuya".to_string()),
        station_name_zh: None,
        station_name_ko: None,
        primary_station_number: Some("20".to_string()),
        secondary_station_number: None,
        extra_station_number: None,
        three_letter_code: Some("SBY".to_string()),
        line_cd,
        pref_cd: 13,
        post: "150-0043".to_string(),
        address: "東京都渋谷区道玄坂一丁目".to_string(),
        lon: 139701600,
        lat: 35658000,
        open_ymd: "1885-03-01".to_string(),
        close_ymd: "".to_string(),
        e_status: 0,
        e_sort,
    }
}

fn line_row(line_cd: u32, symbol: &str, e_sort: u32) -> LineRow {
    LineRow {
        line_cd,
        company_cd: 1,
        line_type: Some(2),
        line_name: Some("山手線".to_string()),
        line_name_k: Some("ヤマノテセン".to_string()),
        line_name_h: Some("山手線".to_string()),
        line_name_r: Some("Yamanote Line".to_string()),
        line_name_zh: None,
        line_name_ko: None,
        line_color_c: Some("#80C241".to_string()),
        line_symbol_primary: Some(symbol.to_string()),
        line_symbol_secondary: None,
        line_symbol_extra: None,
        line_symbol_primary_color: None,
        line_symbol_secondary_color: None,
        line_symbol_extra_color: None,
        line_symbol_primary_shape: Some("SQUARE".to_string()),
        line_symbol_secondary_shape: None,
        line_symbol_extra_shape: None,
        e_status: 0,
        e_sort,
        average_distance: 1100000,
    }
}

fn interactor() -> QueryInteractor {
    // two lines serving one station group; station 1130205 lives on line
    // 11302, its group-mate 1130206 on line 11303
    let stations = vec![
        station_row(1130205, 1130205, 11302, 5),
        station_row(1130206, 1130205, 11303, 6),
    ];
    let links = vec![
        StationStopLink { station_cd: 1130205, line_group_cd: 7, pass: 0 },
        StationStopLink { station_cd: 1130206, line_group_cd: 7, pass: 0 },
    ];
    let lines = vec![line_row(11302, "JY", 5), line_row(11303, "JA", 6)];
    QueryInteractor {
        station_repository: MemoryStationRepository::new(stations.clone(), links.clone()),
        line_repository: MemoryLineRepository::new(lines, stations, links, vec![]),
    }
}

#[test]
fn find_station_by_id_enriches_fully() {
    let q = interactor();
    let station = q.find_station_by_id(1130205).unwrap().expect("station exists");
    let home = station.line.as_ref().expect("home line attached");
    assert_eq!(home.line_cd, 11302);
    assert_eq!(home.line_symbols.len(), 1);
    assert_eq!(home.line_symbols[0].symbol, "JY");
    // the home line is among the sibling list
    assert!(station.lines.iter().any(|l| l.line_cd == home.line_cd));
    assert_eq!(station.lines.len(), 2);
    assert_eq!(station.station_numbers.len(), 1);
    assert_eq!(station.station_numbers[0].station_number, "JY-20");
    // every sibling carries its own derived symbols
    for l in &station.lines {
        assert_eq!(l.line_symbols.len(), 1);
    }
}

#[test]
fn find_station_by_id_unknown_is_none() {
    let q = interactor();
    assert!(q.find_station_by_id(42).unwrap().is_none());
}

#[test]
fn find_station_by_id_without_home_line_is_inconsistent() {
    let stations = vec![station_row(100, 10, 555, 5)];
    let q = QueryInteractor {
        station_repository: MemoryStationRepository::new(stations.clone(), vec![]),
        line_repository: MemoryLineRepository::new(vec![], stations, vec![], vec![]),
    };
    let r = q.find_station_by_id(100);
    assert!(matches!(r, Err(UseCaseError::InconsistentData)));
}

#[test]
fn batch_enrichment_matches_single_station_path() {
    let q = interactor();
    let batch = q.get_stations_by_group_id(1130205).unwrap();
    assert_eq!(batch.len(), 2);
    for station in &batch {
        let single = q.find_station_by_id(station.station_cd).unwrap().unwrap();
        let b_home = station.line.as_ref().unwrap();
        let s_home = single.line.as_ref().unwrap();
        assert_eq!(b_home.line_cd, s_home.line_cd);
        assert_eq!(b_home.line_symbols.len(), s_home.line_symbols.len());
        for (x, y) in b_home.line_symbols.iter().zip(s_home.line_symbols.iter()) {
            assert_eq!(x.symbol, y.symbol);
            assert_eq!(x.color, y.color);
            assert_eq!(x.shape, y.shape);
        }
        assert_eq!(station.station_numbers.len(), single.station_numbers.len());
        for (x, y) in station.station_numbers.iter().zip(single.station_numbers.iter()) {
            assert_eq!(x.station_number, y.station_number);
            assert_eq!(x.line_symbol, y.line_symbol);
            assert_eq!(x.line_symbol_color, y.line_symbol_color);
            assert_eq!(x.line_symbol_shape, y.line_symbol_shape);
        }
    }
}

#[test]
fn batch_keeps_station_with_unresolved_home_line() {
    // a station whose line id matches no active line, sharing its group
    // with a station on an active line: the batch path keeps the
    // unresolved station but leaves all three derived fields empty,
    // even though its group's sibling fetch is non-empty
    let stations = vec![station_row(100, 10, 555, 5), station_row(101, 10, 11302, 6)];
    let links = vec![StationStopLink { station_cd: 101, line_group_cd: 7, pass: 0 }];
    let q = QueryInteractor {
        station_repository: MemoryStationRepository::new(stations.clone(), links.clone()),
        line_repository: MemoryLineRepository::new(
            vec![line_row(11302, "JY", 5)],
            stations,
            links,
            vec![],
        ),
    };
    let batch = q.get_stations_by_group_id(10).unwrap();
    assert_eq!(batch.len(), 2);
    let orphan = &batch[0];
    assert_eq!(orphan.station_cd, 100);
    assert!(orphan.line.is_none());
    assert!(orphan.lines.is_empty());
    assert!(orphan.station_numbers.is_empty());
    // the group-mate on the active line is enriched as usual
    let mate = &batch[1];
    assert_eq!(mate.line.as_ref().unwrap().line_cd, 11302);
    assert_eq!(mate.lines.len(), 1);
}

#[test]
fn stations_by_name_enriched_and_limited() {
    let q = interactor();
    let out = q.get_stations_by_name("shibu", Some(5)).unwrap();
    assert_eq!(out.len(), 2);
    assert!(out[0].line.is_some());
    let one = q.get_stations_by_name("shibu", None).unwrap();
    assert_eq!(one.len(), 1);
    assert_eq!(one[0].station_cd, 1130205);
}

#[test]
fn stations_by_coordinates_enriched() {
    let q = interactor();
    let out = q.get_stations_by_coordinates(35658000, 139701600, Some(3)).unwrap();
    // both stations share one group: one representative
    assert_eq!(out.len(), 1);
    assert_eq!(out[0].distance, Some(0));
    assert!(out[0].line.is_some());
}

#[test]
fn find_line_by_id_resolves() {
    let q = interactor();
    let line = q.find_line_by_id(11303).unwrap().expect("line exists");
    assert_eq!(line.line_cd, 11303);
    assert!(q.find_line_by_id(999).unwrap().is_none());
}

#[test]
fn lines_by_ids_and_by_group() {
    let q = interactor();
    let lines = q.get_lines_by_ids(vec![11302, 11303]).unwrap();
    assert_eq!(lines.len(), 2);
    let by_group = q.get_lines_by_station_group_id(1130205).unwrap();
    assert_eq!(by_group.len(), 2);
    assert_eq!(by_group[0].station_g_cd, Some(1130205));
}
