use stationapi::company_repository::{
    CompanyCache, CompanyRow, InternalCompanyRepository, MemoryCompanyRepository,
    company_cache_key,
};
use stationapi::line_repository::{LineAliasRow, LineRow, MemoryLineRepository};
use stationapi::station::StopCondition;
use stationapi::station_repository::{
    InternalStationRepository, MemoryStationRepository, StationQueryRow, StationRow,
    StationStopLink,
};

fn station_row(station_cd: u32, station_g_cd: u32, line_cd: u32, e_sort: u32) -> StationRow {
    StationRow {
        station_cd,
        station_g_cd,
        station_name: "新宿".to_string(),
        station_name_k: "シンジュク".to_string(),
        station_name_r: Some("Shinjuku".to_string()),
        station_name_zh: Some("新宿".to_string()),
        station_name_ko: Some("신주쿠".to_string()),
        primary_station_number: None,
        secondary_station_number: None,
        extra_station_number: None,
        three_letter_code: None,
        line_cd,
        pref_cd: 13,
        post: "160-0022".to_string(),
        address: "東京都新宿区新宿三丁目".to_string(),
        lon: 139700300,
        lat: 35690000,
        open_ymd: "1885-03-01".to_string(),
        close_ymd: "".to_string(),
        e_status: 0,
        e_sort,
    }
}

fn line_row(line_cd: u32, e_sort: u32) -> LineRow {
    LineRow {
        line_cd,
        company_cd: 1,
        line_type: Some(2),
        line_name: Some("山手線".to_string()),
        line_name_k: Some("ヤマノテセン".to_string()),
        line_name_h: Some("山手線".to_string()),
        line_name_r: Some("Yamanote Line".to_string()),
        line_name_zh: None,
        line_name_ko: None,
        line_color_c: Some("#80C241".to_string()),
        line_symbol_primary: Some("JY".to_string()),
        line_symbol_secondary: None,
        line_symbol_extra: None,
        line_symbol_primary_color: None,
        line_symbol_secondary_color: None,
        line_symbol_extra_color: None,
        line_symbol_primary_shape: Some("SQUARE".to_string()),
        line_symbol_secondary_shape: None,
        line_symbol_extra_shape: None,
        e_status: 0,
        e_sort,
        average_distance: 1100000,
    }
}

fn company_row(company_cd: u32) -> CompanyRow {
    CompanyRow {
        company_cd,
        rr_cd: 11,
        company_name: "JR東日本".to_string(),
        company_name_k: "ジェイアールヒガシニホン".to_string(),
        company_name_h: "東日本旅客鉄道株式会社".to_string(),
        company_name_r: "JR East".to_string(),
        company_name_en: "JR East".to_string(),
        company_name_full_en: "East Japan Railway Company".to_string(),
        company_url: "https://www.jreast.co.jp/".to_string(),
        company_type: 1,
        e_status: 0,
        e_sort: 1,
    }
}

#[test]
fn find_by_id_skips_inactive_rows() {
    let mut closed = station_row(100, 10, 1, 5);
    closed.e_status = 2;
    let repo = MemoryStationRepository::new(vec![closed, station_row(101, 10, 1, 6)], vec![]);
    assert!(repo.find_by_id(100).is_none());
    assert_eq!(repo.find_by_id(101).unwrap().station_cd, 101);
}

#[test]
fn listing_uses_standard_order() {
    // ordering is by the secondary sort field, then the primary id
    let repo = MemoryStationRepository::new(
        vec![
            station_row(103, 10, 1, 7),
            station_row(101, 10, 1, 5),
            station_row(102, 10, 1, 5),
        ],
        vec![],
    );
    let out = repo.get_by_line_id(1);
    let cds: Vec<u32> = out.iter().map(|s| s.station_cd).collect();
    assert_eq!(cds, vec![101, 102, 103]);
}

#[test]
fn stop_type_count_skips_passing_patterns() {
    let links = vec![
        StationStopLink { station_cd: 100, line_group_cd: 1, pass: 0 },
        StationStopLink { station_cd: 100, line_group_cd: 2, pass: 1 },
        StationStopLink { station_cd: 100, line_group_cd: 3, pass: 2 },
    ];
    let repo = MemoryStationRepository::new(vec![station_row(100, 10, 1, 5)], links);
    let s = repo.find_by_id(100).unwrap();
    assert_eq!(s.station_types_count, 2);
}

#[test]
fn name_search_is_case_insensitive() {
    let repo = MemoryStationRepository::new(vec![station_row(100, 10, 1, 5)], vec![]);
    let out = repo.get_by_name("shinJUKU", Some(10));
    assert_eq!(out.len(), 1);
    assert_eq!(out[0].station_cd, 100);
}

#[test]
fn name_search_matches_korean_name_only() {
    // the query is a substring of the Korean name field alone
    let out = MemoryStationRepository::new(vec![station_row(100, 10, 1, 5)], vec![])
        .get_by_name("신주", Some(10));
    assert_eq!(out.len(), 1);
    let none = MemoryStationRepository::new(vec![station_row(100, 10, 1, 5)], vec![])
        .get_by_name("부산", Some(10));
    assert_eq!(none.len(), 0);
}

#[test]
fn name_search_defaults_to_one_row() {
    let repo = MemoryStationRepository::new(
        vec![station_row(100, 10, 1, 5), station_row(101, 11, 1, 6)],
        vec![],
    );
    let out = repo.get_by_name("新宿", None);
    assert_eq!(out.len(), 1);
    assert_eq!(out[0].station_cd, 100);
}

#[test]
fn coordinate_search_sorts_dedups_and_limits() {
    // two group-mates at the same place are deduplicated to one
    // representative; at most three rows come back, nearest first
    let mut near_a = station_row(100, 10, 1, 5);
    near_a.lat = 35000000;
    near_a.lon = 139000000;
    let mut near_b = station_row(101, 10, 2, 6);
    near_b.lat = 35000000;
    near_b.lon = 139000000;
    let mut mid = station_row(102, 11, 1, 7);
    mid.lat = 35001000;
    mid.lon = 139000000;
    let mut far = station_row(103, 12, 1, 8);
    far.lat = 35002000;
    far.lon = 139000000;
    let mut farther = station_row(104, 13, 1, 9);
    farther.lat = 35003000;
    farther.lon = 139000000;
    let repo = MemoryStationRepository::new(vec![far, near_a, farther, near_b, mid], vec![]);
    let out = repo.get_by_coordinates(35000000, 139000000, Some(3));
    assert_eq!(out.len(), 3);
    let cds: Vec<u32> = out.iter().map(|s| s.station_cd).collect();
    assert_eq!(cds, vec![100, 102, 103]);
    assert_eq!(out[0].distance, Some(0));
    assert!(out[0].distance.unwrap() <= out[1].distance.unwrap());
    assert!(out[1].distance.unwrap() <= out[2].distance.unwrap());
}

#[test]
fn coordinate_search_defaults_to_nearest_one() {
    let mut near = station_row(100, 10, 1, 5);
    near.lat = 35000000;
    near.lon = 139000000;
    let mut far = station_row(101, 11, 1, 6);
    far.lat = 36000000;
    far.lon = 139000000;
    let repo = MemoryStationRepository::new(vec![far, near], vec![]);
    let out = repo.get_by_coordinates(35000100, 139000000, None);
    assert_eq!(out.len(), 1);
    assert_eq!(out[0].station_cd, 100);
}

#[test]
fn line_lookup_applies_alias_overrides_per_field() {
    let alias = LineAliasRow {
        station_cd: 100,
        line_name: Some("埼京線".to_string()),
        line_name_k: None,
        line_name_h: None,
        line_name_r: Some("Saikyo Line".to_string()),
        line_name_zh: None,
        line_name_ko: None,
        line_color_c: None,
    };
    let links = vec![StationStopLink { station_cd: 100, line_group_cd: 7, pass: 0 }];
    let repo = MemoryLineRepository::new(
        vec![line_row(1, 5)],
        vec![station_row(100, 10, 1, 5)],
        links,
        vec![alias],
    );
    let line = repo.find_by_station_id(100).expect("line resolved");
    // overridden fields take the alias value; the rest fall back
    assert_eq!(line.line_name, "埼京線");
    assert_eq!(line.line_name_r.as_deref(), Some("Saikyo Line"));
    assert_eq!(line.line_name_k, "ヤマノテセン");
    assert_eq!(line.line_color_c, "#80C241");
    assert_eq!(line.station_cd, Some(100));
    assert_eq!(line.station_g_cd, Some(10));
    assert_eq!(line.line_group_cd, Some(7));
}

#[test]
fn plain_line_lookup_has_no_alias_and_no_context() {
    let alias = LineAliasRow {
        station_cd: 100,
        line_name: Some("埼京線".to_string()),
        line_name_k: None,
        line_name_h: None,
        line_name_r: None,
        line_name_zh: None,
        line_name_ko: None,
        line_color_c: None,
    };
    let repo = MemoryLineRepository::new(vec![line_row(1, 5)], vec![], vec![], vec![alias]);
    let line = repo.find_by_id(1).unwrap();
    assert_eq!(line.line_name, "山手線");
    assert_eq!(line.station_cd, None);
}

#[test]
fn get_by_ids_short_circuits_on_empty_batch() {
    let repo = MemoryLineRepository::new(vec![line_row(1, 5)], vec![], vec![], vec![]);
    assert!(repo.get_by_ids(&vec![]).is_empty());
    let out = repo.get_by_ids(&vec![1, 2]);
    assert_eq!(out.len(), 1);
    assert_eq!(out[0].line_cd, 1);
}

#[test]
fn line_group_lookup_joins_links_and_dedups_lines() {
    let links = vec![
        StationStopLink { station_cd: 100, line_group_cd: 7, pass: 0 },
        StationStopLink { station_cd: 101, line_group_cd: 7, pass: 0 },
        StationStopLink { station_cd: 102, line_group_cd: 8, pass: 0 },
    ];
    let stations = vec![
        station_row(100, 10, 1, 5),
        station_row(101, 11, 1, 6),
        station_row(102, 12, 2, 7),
    ];
    let repo = MemoryLineRepository::new(
        vec![line_row(1, 5), line_row(2, 6)],
        stations,
        links,
        vec![],
    );
    // both linked stations belong to line 1: one row comes back
    let out = repo.get_by_line_group_id(7);
    assert_eq!(out.len(), 1);
    assert_eq!(out[0].line_cd, 1);
    assert_eq!(out[0].line_group_cd, Some(7));
}

#[test]
fn station_line_group_lookup_carries_stop_condition() {
    let links = vec![
        StationStopLink { station_cd: 100, line_group_cd: 7, pass: 2 },
        StationStopLink { station_cd: 101, line_group_cd: 7, pass: 0 },
    ];
    let repo = MemoryStationRepository::new(
        vec![station_row(100, 10, 1, 5), station_row(101, 11, 1, 6)],
        links,
    );
    let out = repo.get_by_line_group_id(7);
    assert_eq!(out.len(), 2);
    assert_eq!(out[0].station_cd, 100);
    assert_eq!(out[0].stop_condition, StopCondition::Partial);
    assert_eq!(out[1].stop_condition, StopCondition::All);
}

#[test]
fn rank_by_distance_orders_supplied_distances() {
    // distances computed elsewhere (the storage collaborator's
    // spherical measure) are ranked, deduplicated per group and
    // truncated as handed in
    let rows = vec![
        StationQueryRow { row: station_row(102, 11, 1, 7), pass: 0, distance: Some(2500) },
        StationQueryRow { row: station_row(100, 10, 1, 5), pass: 0, distance: Some(0) },
        StationQueryRow { row: station_row(101, 10, 2, 6), pass: 0, distance: Some(0) },
        StationQueryRow { row: station_row(103, 12, 1, 8), pass: 0, distance: Some(9000) },
    ];
    let out = InternalStationRepository::rank_by_distance(&rows, Some(2), &vec![]);
    assert_eq!(out.len(), 2);
    assert_eq!(out[0].station_cd, 100);
    assert_eq!(out[0].distance, Some(0));
    assert_eq!(out[1].station_cd, 102);
    assert_eq!(out[1].distance, Some(2500));
}

#[test]
fn company_cache_key_follows_convention() {
    assert_eq!(company_cache_key(42), "company_repository:find_by_id:42");
    assert_eq!(company_cache_key(0), "company_repository:find_by_id:0");
}

#[test]
fn company_lookup_uses_cache_on_second_read() {
    let mut repo = MemoryCompanyRepository::new(vec![company_row(1)], CompanyCache::new());
    let first = repo.find_by_id(1).expect("company found");
    assert_eq!(first.company_name_en, "JR East");
    assert_eq!(repo.cache.entries.len(), 1);
    // the backing table goes away; the cached value still answers
    repo.companies.clear();
    let second = repo.find_by_id(1).expect("served from cache");
    assert_eq!(second.company_cd, 1);
    assert_eq!(repo.cache.entries.len(), 1);
}

#[test]
fn company_lookup_miss_returns_none() {
    let mut cache = CompanyCache::new();
    let companies = vec![company_row(1)];
    assert!(InternalCompanyRepository::find_by_id(2, &companies, &mut cache).is_none());
    assert_eq!(cache.entries.len(), 0);
}
