//! The read use case: every query endpoint, each one a provider fetch
//! followed by attribute enrichment.
//!
//! Batch endpoints fetch the distinct home lines in one call and one
//! sibling collection per station, then enrich without further
//! per-station round trips; derived values are identical to the
//! single-station path.

use vstd::prelude::*;

use crate::enrichment::{
    enrich_station, enrich_stations, find_belong, batch_enriched_spec, siblings_at,
    siblings_attached, enriched_station_spec, line_symbols_of, station_numbers_of, symbols_view,
    numbers_view, lemma_line_symbols_ignore_derived, lemma_station_numbers_ignore_derived,
};
use crate::error::UseCaseError;
use crate::line::{Line, LineSymbol, line_fields_eq};
use crate::line_repository::{
    LineAliasRow, LineCtxRow, MemoryLineRepository, find_line_row, lines_by_ids,
    lines_by_station_group, line_matches_ctx, line_raw_matches_ctx, plain_ctx,
    sort_lines_by_order, lemma_find_line_row_props,
};
use crate::station::{Station, StationNumber, station_fields_eq};
use crate::station_repository::{
    MemoryStationRepository, StationQueryRow, StationStopLink, coord_in_range, coords_in_range,
    dedup_groups, find_station_row, qrow_plain, rows_by_group, rows_by_line, rows_by_name,
    rows_with_distance, sort_by_dist, sort_by_order, station_matches_qrow,
    station_raw_matches_qrow, take_limit,
};

verus! {

/// The selection of home lines for a batch of line ids, in table order:
/// the batch path resolves each station's home line by first match over
/// this selection, exactly as the single lookup scans the table, so the
/// two paths pick the same row.
pub open spec fn belong_selection(lr: MemoryLineRepository, cds: Seq<u32>) -> Seq<LineCtxRow> {
    lines_by_ids(lr.lines@, cds)
}

/// The sorted sibling-line selection of one station group.
pub open spec fn sibling_selection(lr: MemoryLineRepository, station_g_cd: u32) -> Seq<
    LineCtxRow,
> {
    sort_lines_by_order(lines_by_station_group(lr.stations@, lr.lines@, lr.stop_links@, station_g_cd))
}

/// The first selected row with the given line id, if any.
pub open spec fn ctx_find(sel: Seq<LineCtxRow>, line_cd: u32) -> Option<LineCtxRow>
    decreases sel.len(),
{
    if sel.len() == 0 {
        Option::None
    } else if sel[0].line.line_cd == line_cd {
        Option::Some(sel[0])
    } else {
        ctx_find(sel.drop_first(), line_cd)
    }
}

/// Scanning entities that were built from a selection finds exactly what
/// scanning the selection finds.
proof fn lemma_ctx_find_agree(
    entities: Seq<Line>,
    sel: Seq<LineCtxRow>,
    aliases: Seq<LineAliasRow>,
    line_cd: u32,
)
    requires
        entities.len() == sel.len(),
        forall|i: int|
            0 <= i < sel.len() ==> #[trigger] line_matches_ctx(entities[i], sel[i], aliases),
    ensures
        match ctx_find(sel, line_cd) {
            Option::Some(q) => find_belong(entities, line_cd) is Some && line_matches_ctx(
                find_belong(entities, line_cd)->0,
                q,
                aliases,
            ),
            Option::None => find_belong(entities, line_cd) is None,
        },
    decreases sel.len(),
{
    if sel.len() > 0 {
        assert(line_matches_ctx(entities[0], sel[0], aliases));
        if sel[0].line.line_cd == line_cd {
        } else {
            assert forall|i: int|
                0 <= i < sel.drop_first().len() implies #[trigger] line_matches_ctx(
                entities.drop_first()[i],
                sel.drop_first()[i],
                aliases,
            ) by {
                assert(entities.drop_first()[i] == entities[i + 1]);
                assert(sel.drop_first()[i] == sel[i + 1]);
            }
            lemma_ctx_find_agree(entities.drop_first(), sel.drop_first(), aliases, line_cd);
        }
    }
}

/// An enriched line: its raw columns agree with the selected row and its
/// attached symbols are the derivation of its own raw slots.
pub open spec fn enriched_line_ok(l: Line, q: LineCtxRow, aliases: Seq<LineAliasRow>) -> bool {
    line_raw_matches_ctx(l, q, aliases) && symbols_view(l.line_symbols@) == line_symbols_of(l)
}

/// An enriched sibling collection: pointwise enriched lines of the
/// selection.
pub open spec fn siblings_enriched(
    out_lines: Seq<Line>,
    sel: Seq<LineCtxRow>,
    aliases: Seq<LineAliasRow>,
) -> bool {
    out_lines.len() == sel.len() && forall|i: int|
        0 <= i < sel.len() ==> #[trigger] enriched_line_ok(out_lines[i], sel[i], aliases)
}

/// The line ids of a station collection, in order.
pub open spec fn station_cds(stations: Seq<Station>) -> Seq<u32> {
    stations.map_values(|s: Station| s.line_cd)
}

/// The line ids of a selection, in order.
pub open spec fn qrow_cds(sel: Seq<StationQueryRow>) -> Seq<u32> {
    sel.map_values(|q: StationQueryRow| q.row.line_cd)
}

/// Batch enrichment of one station against the interactor's line
/// repository: raw fields kept; when the home line is found in the
/// batched home-line selection, it is attached with symbols and numbers
/// and the siblings of the station's group are attached; when it is not,
/// the station is skipped from enrichment but kept, with the home line
/// cleared and the derived collections empty.
pub open spec fn batch_station_ok(
    out: Station,
    st: Station,
    cds: Seq<u32>,
    lr: MemoryLineRepository,
) -> bool {
    &&& station_fields_eq(out, st)
    &&& match ctx_find(belong_selection(lr, cds), st.line_cd) {
        Option::Some(q) => out.line is Some && enriched_line_ok(*out.line->0, q, lr.aliases@)
            && numbers_view(out.station_numbers@) == station_numbers_of(out, *out.line->0)
            && siblings_enriched(out.lines@, sibling_selection(lr, st.station_g_cd), lr.aliases@),
        Option::None => out.line is None && out.station_numbers@ == st.station_numbers@
            && out.lines@.len() == 0,
    }
}

/// A listed, batch-enriched station against one selected provider row.
pub open spec fn listed_station_ok(
    out: Station,
    q: StationQueryRow,
    s_links: Seq<StationStopLink>,
    cds: Seq<u32>,
    lr: MemoryLineRepository,
) -> bool {
    &&& station_raw_matches_qrow(out, q, s_links)
    &&& match ctx_find(belong_selection(lr, cds), q.row.line_cd) {
        Option::Some(qq) => out.line is Some && enriched_line_ok(*out.line->0, qq, lr.aliases@)
            && numbers_view(out.station_numbers@) == station_numbers_of(out, *out.line->0)
            && siblings_enriched(
                out.lines@,
                sibling_selection(lr, q.row.station_g_cd),
                lr.aliases@,
            ),
        Option::None => out.line is None && out.station_numbers@.len() == 0 && out.lines@.len()
            == 0,
    }
}

/// Batch enrichment over provider rows composes: enriched stations of a
/// selection are listed stations of that selection.
proof fn lemma_listed_from_batch(
    out: Seq<Station>,
    stations: Seq<Station>,
    sel: Seq<StationQueryRow>,
    s_links: Seq<StationStopLink>,
    lr: MemoryLineRepository,
)
    requires
        out.len() == stations.len(),
        stations.len() == sel.len(),
        forall|i: int|
            0 <= i < out.len() ==> #[trigger] batch_station_ok(
                out[i],
                stations[i],
                station_cds(stations),
                lr,
            ),
        forall|i: int|
            0 <= i < sel.len() ==> #[trigger] station_matches_qrow(stations[i], sel[i], s_links),
    ensures
        forall|i: int|
            0 <= i < out.len() ==> #[trigger] listed_station_ok(
                out[i],
                sel[i],
                s_links,
                qrow_cds(sel),
                lr,
            ),
{
    assert forall|i: int|
        0 <= i < stations.len() implies station_cds(stations)[i] == #[trigger] qrow_cds(sel)[i] by {
        assert(station_matches_qrow(stations[i], sel[i], s_links));
    }
    assert(station_cds(stations) =~= qrow_cds(sel));
    assert forall|i: int| 0 <= i < out.len() implies #[trigger] listed_station_ok(
        out[i],
        sel[i],
        s_links,
        qrow_cds(sel),
        lr,
    ) by {
        assert(batch_station_ok(out[i], stations[i], station_cds(stations), lr));
        assert(station_matches_qrow(stations[i], sel[i], s_links));
        assert(stations[i].station_g_cd == sel[i].row.station_g_cd);
        assert(stations[i].line_cd == sel[i].row.line_cd);
    }
}

/// The read use case over the two in-memory providers.
pub struct QueryInteractor {
    pub station_repository: MemoryStationRepository,
    pub line_repository: MemoryLineRepository,
}

impl QueryInteractor {
    /// Look a line up by id.
    pub fn find_line_by_id(&self, line_id: u32) -> (r: Result<Option<Line>, UseCaseError>)
        ensures
            r matches Ok(o) && (match find_line_row(self.line_repository.lines@, line_id) {
                Option::Some(row) => o is Some && line_matches_ctx(
                    o->0,
                    plain_ctx(row),
                    self.line_repository.aliases@,
                ),
                Option::None => o is None,
            }),
    {
        Ok(self.line_repository.find_by_id(line_id))
    }

    /// The active lines among the requested ids.
    pub fn get_lines_by_ids(&self, line_ids: Vec<u32>) -> (r: Result<Vec<Line>, UseCaseError>)
        ensures
            r matches Ok(out) && ({
                let sel = sort_lines_by_order(lines_by_ids(self.line_repository.lines@, line_ids@));
                out@.len() == sel.len() && forall|i: int|
                    0 <= i < sel.len() ==> #[trigger] line_matches_ctx(
                        out@[i],
                        sel[i],
                        self.line_repository.aliases@,
                    )
            }),
    {
        Ok(self.line_repository.get_by_ids(&line_ids))
    }

    /// The lines serving a station group.
    pub fn get_lines_by_station_group_id(&self, station_group_id: u32) -> (r: Result<
        Vec<Line>,
        UseCaseError,
    >)
        ensures
            r matches Ok(out) && ({
                let sel = sibling_selection(self.line_repository, station_group_id);
                out@.len() == sel.len() && forall|i: int|
                    0 <= i < sel.len() ==> #[trigger] line_matches_ctx(
                        out@[i],
                        sel[i],
                        self.line_repository.aliases@,
                    )
            }),
    {
        Ok(self.line_repository.get_by_station_group_id(station_group_id))
    }

    /// Derive the station-number collection of a (station, home line)
    /// pair.
    pub fn get_station_numbers(&self, station: Station, line: Line) -> (r: Vec<StationNumber>)
        ensures
            numbers_view(r@) == station_numbers_of(station, line),
    {
        crate::enrichment::get_station_numbers(&station, &line)
    }

    /// Derive the symbol collection of a line.
    pub fn get_line_symbols(&self, line: Line) -> (r: Vec<LineSymbol>)
        ensures
            symbols_view(r@) == line_symbols_of(line),
    {
        crate::enrichment::get_line_symbols(&line)
    }

    /// Enrich one station: fetch its home line and its sibling lines,
    /// derive symbols and numbers, and attach them.  A station whose home
    /// line cannot be resolved is an inconsistent-data error, not a valid
    /// empty result.
    pub fn get_station_with_attributes(&self, station: Station) -> (r: Result<
        Station,
        UseCaseError,
    >)
        ensures
            match find_line_row(self.line_repository.lines@, station.line_cd) {
                Option::None => r matches Err(e) && e matches UseCaseError::InconsistentData,
                Option::Some(hrow) => r matches Ok(out) && {
                    &&& station_fields_eq(out, station)
                    &&& siblings_enriched(
                        out.lines@,
                        sibling_selection(self.line_repository, station.station_g_cd),
                        self.line_repository.aliases@,
                    )
                    &&& out.line is Some
                    &&& enriched_line_ok(
                        *out.line->0,
                        plain_ctx(hrow),
                        self.line_repository.aliases@,
                    )
                    &&& numbers_view(out.station_numbers@) == station_numbers_of(
                        out,
                        *out.line->0,
                    )
                },
            },
    {
        let ghost lr = self.line_repository;
        let ghost station0 = station;
        let home = self.line_repository.find_by_id(station.line_cd);
        let siblings = self.line_repository.get_by_station_group_id(station.station_g_cd);
        let ghost home_entity = home;
        let ghost siblings0 = siblings@;
        proof {
            lemma_find_line_row_props(lr.lines@, station.line_cd);
        }
        let r = enrich_station(station, home, siblings);
        proof {
            match find_line_row(lr.lines@, station0.line_cd) {
                Option::Some(hrow) => {
                    let out = r->Ok_0;
                    assert(enriched_station_spec(out, station0, home_entity->0, siblings0));
                    let sel = sibling_selection(lr, station0.station_g_cd);
                    assert forall|i: int| 0 <= i < sel.len() implies #[trigger] enriched_line_ok(
                        out.lines@[i],
                        sel[i],
                        lr.aliases@,
                    ) by {
                        assert(line_matches_ctx(siblings0[i], sel[i], lr.aliases@));
                        assert(line_fields_eq(out.lines@[i], siblings0[i]));
                        lemma_line_symbols_ignore_derived(out.lines@[i], siblings0[i]);
                    }
                    lemma_line_symbols_ignore_derived(*out.line->0, home_entity->0);
                    lemma_station_numbers_ignore_derived(
                        station0,
                        out,
                        home_entity->0,
                        *out.line->0,
                    );
                },
                Option::None => {},
            }
        }
        r
    }

    /// Look a station up by id and enrich it.  An unknown id is a valid
    /// empty result; a station whose home line cannot be resolved fails.
    pub fn find_station_by_id(&self, station_id: u32) -> (r: Result<
        Option<Station>,
        UseCaseError,
    >)
        ensures
            match find_station_row(self.station_repository.stations@, station_id) {
                Option::None => r matches Ok(o) && o is None,
                Option::Some(row) => match find_line_row(self.line_repository.lines@, row.line_cd) {
                    Option::None => r matches Err(e) && e matches UseCaseError::InconsistentData,
                    Option::Some(hrow) => r matches Ok(o) && o is Some && {
                        let out = o->0;
                        &&& station_raw_matches_qrow(
                            out,
                            qrow_plain(row),
                            self.station_repository.stop_links@,
                        )
                        &&& siblings_enriched(
                            out.lines@,
                            sibling_selection(self.line_repository, row.station_g_cd),
                            self.line_repository.aliases@,
                        )
                        &&& out.line is Some
                        &&& enriched_line_ok(
                            *out.line->0,
                            plain_ctx(hrow),
                            self.line_repository.aliases@,
                        )
                        &&& numbers_view(out.station_numbers@) == station_numbers_of(
                            out,
                            *out.line->0,
                        )
                    },
                },
            },
    {
        match self.station_repository.find_by_id(station_id) {
            Some(station) => {
                match self.get_station_with_attributes(station) {
                    Ok(out) => Ok(Some(out)),
                    Err(e) => Err(e),
                }
            },
            None => Ok(None),
        }
    }

    /// Enrich a batch of stations without per-station home-line round
    /// trips: one fetch of all home lines, one sibling fetch per station.
    /// A station whose home line cannot be resolved is kept, with its
    /// derived fields left empty.
    pub fn get_stations_with_attributes(&self, stations: Vec<Station>) -> (r: Result<
        Vec<Station>,
        UseCaseError,
    >)
        ensures
            r matches Ok(out) && out@.len() == stations@.len() && forall|i: int|
                0 <= i < out@.len() ==> #[trigger] batch_station_ok(
                    out@[i],
                    stations@[i],
                    station_cds(stations@),
                    self.line_repository,
                ),
    {
        let ghost lr = self.line_repository;
        let mut line_ids: Vec<u32> = Vec::new();
        let mut i: usize = 0;
        while i < stations.len()
            invariant
                0 <= i <= stations.len(),
                line_ids@ == station_cds(stations@.take(i as int)),
            decreases stations.len() - i,
        {
            line_ids.push(stations[i].line_cd);
            proof {
                assert(station_cds(stations@.take(i + 1)) =~= station_cds(
                    stations@.take(i as int),
                ).push(stations@[i as int].line_cd));
            }
            i = i + 1;
        }
        proof {
            assert(stations@.take(stations@.len() as int) =~= stations@);
        }
        let belong_lines = crate::line_repository::InternalLineRepository::get_by_ids_in_order(
            &line_ids,
            &self.line_repository.lines,
            &self.line_repository.aliases,
        );
        let mut lines_per: Vec<Vec<Line>> = Vec::new();
        let mut i: usize = 0;
        while i < stations.len()
            invariant
                0 <= i <= stations.len(),
                lines_per@.len() == i,
                forall|j: int|
                    0 <= j < i ==> ({
                        let sel = sibling_selection(lr, stations@[j].station_g_cd);
                        (#[trigger] lines_per@[j])@.len() == sel.len() && forall|k: int|
                            0 <= k < sel.len() ==> #[trigger] line_matches_ctx(
                                lines_per@[j]@[k],
                                sel[k],
                                lr.aliases@,
                            )
                    }),
                lr == self.line_repository,
            decreases stations.len() - i,
        {
            let sib = self.line_repository.get_by_station_group_id(stations[i].station_g_cd);
            lines_per.push(sib);
            i = i + 1;
        }
        let ghost belong0 = belong_lines@;
        let ghost lines_per0 = lines_per@;
        let ghost stations0 = stations@;
        let out = enrich_stations(stations, belong_lines, lines_per);
        proof {
            let cds = station_cds(stations0);
            let bsel = belong_selection(lr, cds);
            assert forall|i: int| 0 <= i < out@.len() implies #[trigger] batch_station_ok(
                out@[i],
                stations0[i],
                cds,
                lr,
            ) by {
                assert(batch_enriched_spec(
                    out@[i],
                    stations0[i],
                    belong0,
                    siblings_at(lines_per0, i),
                ));
                let st = stations0[i];
                lemma_ctx_find_agree(belong0, bsel, lr.aliases@, st.line_cd);
                match ctx_find(bsel, st.line_cd) {
                    Option::Some(q) => {
                        // siblings
                        assert(siblings_at(lines_per0, i) == Option::Some(lines_per0[i]@));
                        let sib0 = lines_per0[i]@;
                        let sel = sibling_selection(lr, st.station_g_cd);
                        assert(siblings_attached(out@[i].lines@, sib0));
                        assert forall|k: int|
                            0 <= k < sel.len() implies #[trigger] enriched_line_ok(
                            out@[i].lines@[k],
                            sel[k],
                            lr.aliases@,
                        ) by {
                            assert(line_matches_ctx(sib0[k], sel[k], lr.aliases@));
                            assert(line_fields_eq(out@[i].lines@[k], sib0[k]));
                            lemma_line_symbols_ignore_derived(out@[i].lines@[k], sib0[k]);
                        }
                        // home line
                        let bl = find_belong(belong0, st.line_cd)->0;
                        assert(line_fields_eq(*out@[i].line->0, bl));
                        lemma_line_symbols_ignore_derived(*out@[i].line->0, bl);
                        lemma_station_numbers_ignore_derived(
                            st,
                            out@[i],
                            bl,
                            *out@[i].line->0,
                        );
                    },
                    Option::None => {},
                }
            }
        }
        Ok(out)
    }

    /// The enriched stations of a station group.
    pub fn get_stations_by_group_id(&self, station_group_id: u32) -> (r: Result<
        Vec<Station>,
        UseCaseError,
    >)
        ensures
            r matches Ok(out) && ({
                let sel = sort_by_order(
                    rows_by_group(self.station_repository.stations@, station_group_id),
                );
                out@.len() == sel.len() && forall|i: int|
                    0 <= i < sel.len() ==> #[trigger] listed_station_ok(
                        out@[i],
                        sel[i],
                        self.station_repository.stop_links@,
                        qrow_cds(sel),
                        self.line_repository,
                    )
            }),
    {
        let stations = self.station_repository.get_by_station_group_id(station_group_id);
        let ghost stations0 = stations@;
        let r = self.get_stations_with_attributes(stations);
        proof {
            let sel = sort_by_order(rows_by_group(self.station_repository.stations@, station_group_id));
            lemma_listed_from_batch(
                r->Ok_0@,
                stations0,
                sel,
                self.station_repository.stop_links@,
                self.line_repository,
            );
        }
        r
    }

    /// The enriched stations of a line.
    pub fn get_stations_by_line_id(&self, line_id: u32) -> (r: Result<Vec<Station>, UseCaseError>)
        ensures
            r matches Ok(out) && ({
                let sel = sort_by_order(rows_by_line(self.station_repository.stations@, line_id));
                out@.len() == sel.len() && forall|i: int|
                    0 <= i < sel.len() ==> #[trigger] listed_station_ok(
                        out@[i],
                        sel[i],
                        self.station_repository.stop_links@,
                        qrow_cds(sel),
                        self.line_repository,
                    )
            }),
    {
        let stations = self.station_repository.get_by_line_id(line_id);
        let ghost stations0 = stations@;
        let r = self.get_stations_with_attributes(stations);
        proof {
            let sel = sort_by_order(rows_by_line(self.station_repository.stations@, line_id));
            lemma_listed_from_batch(
                r->Ok_0@,
                stations0,
                sel,
                self.station_repository.stop_links@,
                self.line_repository,
            );
        }
        r
    }

    /// The enriched stations matching a free-text name query.
    pub fn get_stations_by_name(&self, station_name: &str, limit: Option<u32>) -> (r: Result<
        Vec<Station>,
        UseCaseError,
    >)
        ensures
            r matches Ok(out) && ({
                let sel = take_limit(
                    sort_by_order(rows_by_name(self.station_repository.stations@, station_name@)),
                    limit,
                );
                out@.len() == sel.len() && forall|i: int|
                    0 <= i < sel.len() ==> #[trigger] listed_station_ok(
                        out@[i],
                        sel[i],
                        self.station_repository.stop_links@,
                        qrow_cds(sel),
                        self.line_repository,
                    )
            }),
    {
        let stations = self.station_repository.get_by_name(station_name, limit);
        let ghost stations0 = stations@;
        let r = self.get_stations_with_attributes(stations);
        proof {
            let sel = take_limit(
                sort_by_order(rows_by_name(self.station_repository.stations@, station_name@)),
                limit,
            );
            lemma_listed_from_batch(
                r->Ok_0@,
                stations0,
                sel,
                self.station_repository.stop_links@,
                self.line_repository,
            );
        }
        r
    }

    /// The enriched stations nearest to a position, one per station
    /// group, ascending by computed distance.
    pub fn get_stations_by_coordinates(&self, latitude: i64, longitude: i64, limit: Option<u32>)
        -> (r: Result<Vec<Station>, UseCaseError>)
        requires
            coords_in_range(self.station_repository.stations@),
            coord_in_range(latitude),
            coord_in_range(longitude),
        ensures
            r matches Ok(out) && ({
                let sel = take_limit(
                    dedup_groups(
                        sort_by_dist(
                            rows_with_distance(
                                self.station_repository.stations@,
                                latitude,
                                longitude,
                            ),
                        ),
                    ),
                    limit,
                );
                out@.len() == sel.len() && forall|i: int|
                    0 <= i < sel.len() ==> #[trigger] listed_station_ok(
                        out@[i],
                        sel[i],
                        self.station_repository.stop_links@,
                        qrow_cds(sel),
                        self.line_repository,
                    )
            }),
    {
        let stations = self.station_repository.get_by_coordinates(latitude, longitude, limit);
        let ghost stations0 = stations@;
        let r = self.get_stations_with_attributes(stations);
        proof {
            let sel = take_limit(
                dedup_groups(
                    sort_by_dist(
                        rows_with_distance(self.station_repository.stations@, latitude, longitude),
                    ),
                ),
                limit,
            );
            lemma_listed_from_batch(
                r->Ok_0@,
                stations0,
                sel,
                self.station_repository.stop_links@,
                self.line_repository,
            );
        }
        r
    }
}

} // verus!
