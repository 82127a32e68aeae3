//! Laws of the read core that span several components, each proved from
//! the contracts of the providers and the enrichment engine.

use vstd::prelude::*;

use crate::enrichment::{line_symbols_of, numbers_view, station_numbers_of, symbols_view};
use crate::line::Line;
use crate::line_repository::{
    LineCtxRow, LineRow, MemoryLineRepository, ctx_has_line, find_line_row, lines_by_ids,
    lines_by_station_group, plain_ctx, first_stop_link, line_raw_matches_ctx,
    lemma_find_line_row_props, lemma_lines_by_ids_elements, lemma_lines_by_ids_first,
    lemma_sort_lines_elements, lemma_station_group_complete,
};
use crate::query::{
    batch_station_ok, belong_selection, ctx_find, enriched_line_ok, sibling_selection,
    siblings_enriched,
};
use crate::station::{Station, station_fields_eq};
use crate::station_repository::{
    StationRow, StationStopLink, qrow_plain, station_raw_matches_qrow, station_name_matches,
};
use crate::text::{chars_eq_ci, lemma_contains_ci_case_fold};

verus! {

/// What the first-match scan of a selection returns: a selected row with
/// the requested line id, or nothing exactly when the selection has none.
proof fn lemma_ctx_find_props(sel: Seq<LineCtxRow>, line_cd: u32)
    ensures
        ctx_find(sel, line_cd) is Some == ctx_has_line(sel, line_cd),
        ctx_find(sel, line_cd) matches Option::Some(q) ==> sel.contains(q) && q.line.line_cd
            == line_cd,
    decreases sel.len(),
{
    if sel.len() == 0 {
        if ctx_has_line(sel, line_cd) {
            let j = choose|j: int| 0 <= j < sel.len() && #[trigger] sel[j].line.line_cd == line_cd;
            assert(false);
        }
    } else if sel[0].line.line_cd == line_cd {
        assert(sel.contains(sel[0]));
        assert(ctx_has_line(sel, line_cd));
    } else {
        lemma_ctx_find_props(sel.drop_first(), line_cd);
        let s2 = sel.drop_first();
        if ctx_has_line(s2, line_cd) {
            let j = choose|j: int| 0 <= j < s2.len() && #[trigger] s2[j].line.line_cd == line_cd;
            assert(sel[j + 1].line.line_cd == line_cd);
            assert(ctx_has_line(sel, line_cd));
        }
        if ctx_has_line(sel, line_cd) {
            let j = choose|j: int| 0 <= j < sel.len() && #[trigger] sel[j].line.line_cd == line_cd;
            assert(j > 0);
            assert(s2[j - 1].line.line_cd == line_cd);
            assert(ctx_has_line(s2, line_cd));
        }
        match ctx_find(sel, line_cd) {
            Option::Some(q) => {
                assert(s2.contains(q));
                let w = choose|w: int| 0 <= w < s2.len() && s2[w] == q;
                assert(sel[w + 1] == q);
            },
            Option::None => {},
        }
    }
}

/// A row of the batched home-line selection is an active table row among
/// the requested ids, carried without context.
proof fn lemma_belong_selection_elements(lr: MemoryLineRepository, cds: Seq<u32>, q: LineCtxRow)
    requires
        belong_selection(lr, cds).contains(q),
    ensures
        q == plain_ctx(q.line),
        q.line.e_status == 0,
        lr.lines@.contains(q.line),
        cds.contains(q.line.line_cd),
{
    lemma_lines_by_ids_elements(lr.lines@, cds);
    let base = lines_by_ids(lr.lines@, cds);
    let w = choose|w: int| 0 <= w < base.len() && base[w] == q;
    assert(base[w] == q);
}

/// The batched home-line selection, scanned first-match in table order,
/// picks exactly the row the single lookup picks.
proof fn lemma_batch_home_pick(lines: Seq<LineRow>, ids: Seq<u32>, line_cd: u32)
    requires
        ids.contains(line_cd),
    ensures
        match find_line_row(lines, line_cd) {
            Option::Some(row) => ctx_find(lines_by_ids(lines, ids), line_cd) == Option::Some(
                plain_ctx(row),
            ),
            Option::None => ctx_find(lines_by_ids(lines, ids), line_cd) is None,
        },
    decreases lines.len(),
{
    if lines.len() == 0 {
    } else {
        lemma_lines_by_ids_first(lines, ids);
        let rest = lines.drop_first();
        let sel = lines_by_ids(lines, ids);
        let sel_rest = lines_by_ids(rest, ids);
        if lines[0].e_status == 0 && lines[0].line_cd == line_cd {
            assert(sel[0] == plain_ctx(lines[0]));
            assert(ctx_find(sel, line_cd) == Option::Some(plain_ctx(lines[0])));
        } else {
            lemma_batch_home_pick(rest, ids, line_cd);
            if lines[0].e_status == 0 && ids.contains(lines[0].line_cd) {
                assert(sel[0] == plain_ctx(lines[0]));
                assert(sel[0].line.line_cd != line_cd);
                assert(sel.drop_first() =~= sel_rest);
                assert(ctx_find(sel, line_cd) == ctx_find(sel_rest, line_cd));
            } else {
                assert(sel =~= sel_rest);
            }
        }
    }
}

/// A station's home line is always among its own sibling list.
///
/// For a station found by id whose home line resolves, and whose own row
/// is visible to the sibling join (it is in the line provider's station
/// table and has a non-skipped service-pattern link), the enriched
/// station's `line` is present and its `lines` collection holds a line
/// with the same line id.
pub proof fn lemma_home_line_among_siblings(
    out: Station,
    row: StationRow,
    hrow: LineRow,
    lr: MemoryLineRepository,
    s_links: Seq<StationStopLink>,
)
    requires
        station_raw_matches_qrow(out, qrow_plain(row), s_links),
        siblings_enriched(out.lines@, sibling_selection(lr, row.station_g_cd), lr.aliases@),
        out.line is Some,
        enriched_line_ok(*out.line->0, plain_ctx(hrow), lr.aliases@),
        find_line_row(lr.lines@, row.line_cd) == Option::Some(hrow),
        row.e_status == 0,
        lr.stations@.contains(row),
        first_stop_link(lr.stop_links@, row.station_cd) is Some,
    ensures
        out.line is Some,
        exists|i: int|
            0 <= i < out.lines@.len() && (#[trigger] out.lines@[i]).line_cd == out.line->0.line_cd,
{
    lemma_find_line_row_props(lr.lines@, row.line_cd);
    assert(out.line->0.line_cd == hrow.line_cd);
    assert(hrow.line_cd == row.line_cd);
    lemma_station_group_complete(lr.stations@, lr.lines@, lr.stop_links@, row);
    lemma_sort_lines_elements(
        lines_by_station_group(lr.stations@, lr.lines@, lr.stop_links@, row.station_g_cd),
    );
    let sel = sibling_selection(lr, row.station_g_cd);
    assert(ctx_has_line(sel, row.line_cd));
    let k = choose|k: int| 0 <= k < sel.len() && #[trigger] sel[k].line.line_cd == row.line_cd;
    assert(enriched_line_ok(out.lines@[k], sel[k], lr.aliases@));
    assert(out.lines@[k].line_cd == row.line_cd);
}

/// Derivation depends only on the slot columns it reads: stations that
/// agree on their number slots and lines that agree on their symbol
/// slots and color yield the same derived collections.
proof fn lemma_derivation_from_views(sa: Station, sb: Station, la: Line, lb: Line)
    requires
        sa.primary_station_number == sb.primary_station_number,
        sa.secondary_station_number == sb.secondary_station_number,
        sa.extra_station_number == sb.extra_station_number,
        la.line_symbol_primary == lb.line_symbol_primary,
        la.line_symbol_secondary == lb.line_symbol_secondary,
        la.line_symbol_extra == lb.line_symbol_extra,
        la.line_symbol_primary_color == lb.line_symbol_primary_color,
        la.line_symbol_secondary_color == lb.line_symbol_secondary_color,
        la.line_symbol_extra_color == lb.line_symbol_extra_color,
        la.line_symbol_primary_shape == lb.line_symbol_primary_shape,
        la.line_symbol_secondary_shape == lb.line_symbol_secondary_shape,
        la.line_symbol_extra_shape == lb.line_symbol_extra_shape,
        la.line_color_c@ == lb.line_color_c@,
    ensures
        station_numbers_of(sa, la) == station_numbers_of(sb, lb),
        line_symbols_of(la) == line_symbols_of(lb),
{
    assert(station_numbers_of(sa, la) =~= station_numbers_of(sb, lb));
    assert(line_symbols_of(la) =~= line_symbols_of(lb));
}

/// Batch enrichment derives the same per-station symbols and numbers as
/// single-station enrichment.
///
/// For one station, let `bout` be its batch-enriched result (its line id
/// among the batch's requested ids) and `sout` its single-station result
/// against the same line repository.  Both paths scan for the home line
/// in table order, first match, so they attach the same row and derive
/// identical station numbers and identical home-line symbols.
pub proof fn lemma_batch_matches_single(
    bout: Station,
    sout: Station,
    st: Station,
    hrow: LineRow,
    cds: Seq<u32>,
    lr: MemoryLineRepository,
)
    requires
        batch_station_ok(bout, st, cds, lr),
        station_fields_eq(sout, st),
        sout.line is Some,
        enriched_line_ok(*sout.line->0, plain_ctx(hrow), lr.aliases@),
        numbers_view(sout.station_numbers@) == station_numbers_of(sout, *sout.line->0),
        find_line_row(lr.lines@, st.line_cd) == Option::Some(hrow),
        cds.contains(st.line_cd),
    ensures
        bout.line is Some,
        sout.line is Some,
        bout.line->0.line_cd == sout.line->0.line_cd,
        numbers_view(bout.station_numbers@) == numbers_view(sout.station_numbers@),
        symbols_view(bout.line->0.line_symbols@) == symbols_view(sout.line->0.line_symbols@),
{
    lemma_find_line_row_props(lr.lines@, st.line_cd);
    lemma_batch_home_pick(lr.lines@, cds, st.line_cd);
    assert(ctx_find(belong_selection(lr, cds), st.line_cd) == Option::Some(plain_ctx(hrow)));
    let bl = *bout.line->0;
    let sl = *sout.line->0;
    assert(line_raw_matches_ctx(bl, plain_ctx(hrow), lr.aliases@));
    assert(line_raw_matches_ctx(sl, plain_ctx(hrow), lr.aliases@));
    lemma_derivation_from_views(bout, sout, bl, sl);
}

/// A station whose line id has no matching active line.
///
/// The single-station path is bound by its contract to fail with the
/// inconsistent-data error in this situation, because the home-line
/// lookup is empty; the batch path keeps the station, clears its home
/// line, leaves its sibling collection empty, and leaves its derived
/// numbers as the provider supplied them — empty.
pub proof fn lemma_unresolved_home_line(
    bout: Station,
    st: Station,
    cds: Seq<u32>,
    lr: MemoryLineRepository,
)
    requires
        batch_station_ok(bout, st, cds, lr),
        forall|i: int|
            0 <= i < lr.lines@.len() ==> !((#[trigger] lr.lines@[i]).e_status == 0
                && lr.lines@[i].line_cd == st.line_cd),
    ensures
        find_line_row(lr.lines@, st.line_cd) is None,
        bout.line is None,
        bout.station_numbers@ == st.station_numbers@,
        bout.lines@.len() == 0,
{
    lemma_find_line_row_props(lr.lines@, st.line_cd);
    match find_line_row(lr.lines@, st.line_cd) {
        Option::Some(row) => {
            let i = choose|i: int| 0 <= i < lr.lines@.len() && lr.lines@[i] == row;
            assert(false);
        },
        Option::None => {},
    }
    let sel = belong_selection(lr, cds);
    lemma_ctx_find_props(sel, st.line_cd);
    match ctx_find(sel, st.line_cd) {
        Option::Some(q) => {
            lemma_belong_selection_elements(lr, cds, q);
            let i = choose|i: int| 0 <= i < lr.lines@.len() && lr.lines@[i] == q.line;
            assert(false);
        },
        Option::None => {},
    }
}

/// Free-text station search is insensitive to the case of the query: two
/// queries that agree up to ASCII case match exactly the same rows, over
/// every localized name field.
pub proof fn lemma_name_match_case_fold(row: StationRow, q1: Seq<char>, q2: Seq<char>)
    requires
        chars_eq_ci(q1, q2),
    ensures
        station_name_matches(row, q1) == station_name_matches(row, q2),
{
    lemma_contains_ci_case_fold(row.station_name@, q1, q2);
    lemma_contains_ci_case_fold(row.station_name_k@, q1, q2);
    if row.station_name_r is Some {
        lemma_contains_ci_case_fold(row.station_name_r->0@, q1, q2);
    }
    if row.station_name_zh is Some {
        lemma_contains_ci_case_fold(row.station_name_zh->0@, q1, q2);
    }
    if row.station_name_ko is Some {
        lemma_contains_ci_case_fold(row.station_name_ko->0@, q1, q2);
    }
}

} // verus!
