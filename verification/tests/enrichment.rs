use stationapi::enrichment::{
    enrich_station, enrich_stations, get_line_symbols, get_station_numbers,
};
use stationapi::error::UseCaseError;
use stationapi::line::Line;
use stationapi::station::{Station, StopCondition};

fn bare_line(line_cd: u32) -> Line {
    Line {
        line_cd,
        company_cd: 1,
        line_name: "Yamanote Line".to_string(),
        line_name_k: "ヤマノテセン".to_string(),
        line_name_h: "山手線".to_string(),
        line_name_r: Some("Yamanote Line".to_string()),
        line_name_zh: None,
        line_name_ko: None,
        line_color_c: "#80C241".to_string(),
        line_type: 2,
        line_symbols: vec![],
        line_symbol_primary: None,
        line_symbol_secondary: None,
        line_symbol_extra: None,
        line_symbol_primary_color: None,
        line_symbol_secondary_color: None,
        line_symbol_extra_color: None,
        line_symbol_primary_shape: None,
        line_symbol_secondary_shape: None,
        line_symbol_extra_shape: None,
        e_status: 0,
        e_sort: 11302,
        average_distance: 1100000,
        line_group_cd: None,
        station_cd: None,
        station_g_cd: None,
    }
}

fn bare_station(station_cd: u32, station_g_cd: u32, line_cd: u32) -> Station {
    Station {
        station_cd,
        station_g_cd,
        station_name: "渋谷".to_string(),
        station_name_k: "シブヤ".to_string(),
        station_name_r: Some("Shibuya".to_string()),
        station_name_zh: Some("涩谷".to_string()),
        station_name_ko: Some("시부야".to_string()),
        station_numbers: vec![],
        primary_station_number: None,
        secondary_station_number: None,
        extra_station_number: None,
        three_letter_code: Some("SBY".to_string()),
        line_cd,
        line: None,
        lines: vec![],
        pref_cd: 13,
        post: "150-0043".to_string(),
        address: "東京都渋谷区道玄坂一丁目".to_string(),
        lon: 139701600,
        lat: 35658000,
        open_ymd: "1885-03-01".to_string(),
        close_ymd: "".to_string(),
        e_status: 0,
        e_sort: 1130205,
        stop_condition: StopCondition::All,
        distance: None,
        station_types_count: 2,
    }
}

#[test]
fn line_symbols_from_full_slots() {
    let mut line = bare_line(11302);
    line.line_symbol_primary = Some("JY".to_string());
    line.line_symbol_primary_color = Some("#00AC9A".to_string());
    line.line_symbol_primary_shape = Some("SQUARE".to_string());
    line.line_symbol_secondary = Some("JA".to_string());
    line.line_symbol_secondary_shape = Some("ROUND".to_string());
    let symbols = get_line_symbols(&line);
    assert_eq!(symbols.len(), 2);
    assert_eq!(symbols[0].symbol, "JY");
    assert_eq!(symbols[0].color, "#00AC9A");
    assert_eq!(symbols[0].shape, "SQUARE");
    assert_eq!(symbols[1].symbol, "JA");
    // the secondary slot has no color of its own: the line color fills in
    assert_eq!(symbols[1].color, "#80C241");
    assert_eq!(symbols[1].shape, "ROUND");
}

#[test]
fn slot_compaction_stops_at_first_gap() {
    // primary present, secondary absent, extra present: exactly one
    // entry; the extra slot is never reached
    let mut line = bare_line(11302);
    line.line_symbol_primary = Some("JY".to_string());
    line.line_symbol_primary_shape = Some("SQUARE".to_string());
    line.line_symbol_extra = Some("XX".to_string());
    line.line_symbol_extra_shape = Some("ROUND".to_string());
    let symbols = get_line_symbols(&line);
    assert_eq!(symbols.len(), 1);
    assert_eq!(symbols[0].symbol, "JY");

    let mut station = bare_station(1130205, 1130205, 11302);
    station.primary_station_number = Some("10".to_string());
    station.extra_station_number = Some("99".to_string());
    line.line_symbol_secondary = Some("JA".to_string());
    line.line_symbol_secondary_shape = Some("ROUND".to_string());
    let numbers = get_station_numbers(&station, &line);
    assert_eq!(numbers.len(), 1);
    assert_eq!(numbers[0].station_number, "JY-10");
}

#[test]
fn absent_shape_emits_entry_with_empty_shape() {
    // a missing shape column does not stop iteration: the entry is
    // emitted with its shape left out
    let mut line = bare_line(11302);
    line.line_symbol_primary = Some("JY".to_string());
    line.line_symbol_secondary = Some("JA".to_string());
    line.line_symbol_secondary_shape = Some("ROUND".to_string());
    let symbols = get_line_symbols(&line);
    assert_eq!(symbols.len(), 2);
    assert_eq!(symbols[0].symbol, "JY");
    assert_eq!(symbols[0].shape, "");
    assert_eq!(symbols[1].shape, "ROUND");

    let mut station = bare_station(1, 1, 11302);
    station.primary_station_number = Some("7".to_string());
    let numbers = get_station_numbers(&station, &line);
    assert_eq!(numbers.len(), 1);
    assert_eq!(numbers[0].line_symbol_shape, "");
    assert_eq!(numbers[0].station_number, "JY-7");
}

#[test]
fn empty_symbol_stops_line_symbols() {
    let mut line = bare_line(11302);
    line.line_symbol_primary = Some("".to_string());
    line.line_symbol_primary_shape = Some("SQUARE".to_string());
    let symbols = get_line_symbols(&line);
    assert_eq!(symbols.len(), 0);
}

#[test]
fn display_string_rule() {
    // number "5" with an empty symbol displays bare; number "12" with
    // symbol "M" displays "M-12"
    let mut line = bare_line(11302);
    line.line_symbol_primary = Some("".to_string());
    line.line_symbol_primary_shape = Some("ROUND".to_string());
    let mut station = bare_station(1, 1, 11302);
    station.primary_station_number = Some("5".to_string());
    let numbers = get_station_numbers(&station, &line);
    assert_eq!(numbers.len(), 1);
    assert_eq!(numbers[0].station_number, "5");
    assert_eq!(numbers[0].line_symbol, "");

    line.line_symbol_primary = Some("M".to_string());
    station.primary_station_number = Some("12".to_string());
    let numbers = get_station_numbers(&station, &line);
    assert_eq!(numbers.len(), 1);
    assert_eq!(numbers[0].station_number, "M-12");
    assert_eq!(numbers[0].line_symbol, "M");
}

#[test]
fn symbol_derivation_is_idempotent() {
    let mut line = bare_line(11302);
    line.line_symbol_primary = Some("JY".to_string());
    line.line_symbol_primary_shape = Some("SQUARE".to_string());
    let first = get_line_symbols(&line);
    line.set_line_symbols(first.clone());
    let second = get_line_symbols(&line);
    assert_eq!(first.len(), second.len());
    for (a, b) in first.iter().zip(second.iter()) {
        assert_eq!(a.symbol, b.symbol);
        assert_eq!(a.color, b.color);
        assert_eq!(a.shape, b.shape);
    }
}

#[test]
fn single_enrichment_attaches_home_line_and_numbers() {
    let mut home = bare_line(11302);
    home.line_symbol_primary = Some("JY".to_string());
    home.line_symbol_primary_shape = Some("SQUARE".to_string());
    let sibling = bare_line(11303);
    let mut station = bare_station(1130205, 1130205, 11302);
    station.primary_station_number = Some("20".to_string());

    let enriched = enrich_station(station, Some(home.clone()), vec![home, sibling]).unwrap();
    let line = enriched.line.as_ref().expect("home line attached");
    assert_eq!(line.line_cd, 11302);
    assert_eq!(line.line_symbols.len(), 1);
    // the home line is among the sibling list
    assert!(enriched.lines.iter().any(|l| l.line_cd == line.line_cd));
    assert_eq!(enriched.station_numbers.len(), 1);
    assert_eq!(enriched.station_numbers[0].station_number, "JY-20");
}

#[test]
fn single_enrichment_fails_without_home_line() {
    let station = bare_station(1130205, 1130205, 11302);
    let result = enrich_station(station, None, vec![]);
    assert!(matches!(result, Err(UseCaseError::InconsistentData)));
}

#[test]
fn batch_enrichment_matches_single_and_degrades_gracefully() {
    let mut home = bare_line(11302);
    home.line_symbol_primary = Some("JY".to_string());
    home.line_symbol_primary_shape = Some("SQUARE".to_string());
    let mut good = bare_station(1130205, 1130205, 11302);
    good.primary_station_number = Some("20".to_string());
    let orphan = bare_station(9999999, 9999999, 77777);

    let single = enrich_station(good.clone(), Some(home.clone()), vec![home.clone()]).unwrap();

    let batch = enrich_stations(
        vec![good, orphan],
        vec![home.clone()],
        // the orphan is handed a sibling fetch too; enrichment must
        // discard it
        vec![vec![home.clone()], vec![home]],
    );
    assert_eq!(batch.len(), 2);

    // the resolvable station gets the same derived values as the single path
    let b = &batch[0];
    let s = &single;
    assert_eq!(b.station_numbers.len(), s.station_numbers.len());
    for (x, y) in b.station_numbers.iter().zip(s.station_numbers.iter()) {
        assert_eq!(x.station_number, y.station_number);
        assert_eq!(x.line_symbol, y.line_symbol);
        assert_eq!(x.line_symbol_color, y.line_symbol_color);
        assert_eq!(x.line_symbol_shape, y.line_symbol_shape);
    }
    let bl = b.line.as_ref().unwrap();
    let sl = s.line.as_ref().unwrap();
    assert_eq!(bl.line_cd, sl.line_cd);
    assert_eq!(bl.line_symbols.len(), sl.line_symbols.len());

    // the orphan is kept, with empty derived fields
    let o = &batch[1];
    assert_eq!(o.station_cd, 9999999);
    assert!(o.line.is_none());
    assert!(o.lines.is_empty());
    assert!(o.station_numbers.is_empty());
}
